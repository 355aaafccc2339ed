//! A harness that runs one instruction at a time against an account store.
//!
//! Given a program's key, a list of account references and a payload, the
//! harness resolves the accounts that the instruction touches, compiles the
//! references into the list that an execution engine takes, gives the engine
//! the system variables as the instruction sees them, and takes the engine's
//! report back into the store. The engine itself, files and remote nodes are
//! not part of this crate: it takes what they give and says what they are to
//! be given.
//!
//! Every function states what it returns and changes, and the statements are
//! machine-checked with Verus.

pub mod account;
pub mod account_map;
pub mod accounts_db;
pub mod compile;
pub mod environment;
pub mod error;
pub mod feature_set;
pub mod instruction;
pub mod precompiles;
pub mod pubkey;
pub mod scenario;
pub mod seashell;
pub mod sysvar;
pub mod wire;

pub use crate::seashell::{
    Config, ExecutionOutcome, InstructionProcessingError, InstructionProcessingResult,
    PreparedInstruction, Seashell,
};
