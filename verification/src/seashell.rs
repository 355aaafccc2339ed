use crate::account::{zeroed_account, Account, AccountSharedData, AccountView};
use crate::accounts_db::{
    account_seen, account_written, builtins_loaded, instruction_resolves, listed_keys,
    program_loaded, resolved, sysvar_data_seen, updates_written, AccountsDb, AccountsDbView,
    Builtin, SysvarCache, TransactionAccount,
};
use crate::compile::{
    compile_accounts_for_instruction, compiled_accounts, first_occurrence, is_first_occurrence,
    lemma_index_is_first_occurrence, touched_keys, INSTRUCTION_PROGRAM_ID_INDEX,
};
use crate::error::SeashellError;
use crate::feature_set::FeatureSet;
use crate::instruction::{IndexOfAccount, Instruction, InstructionAccount};
use crate::pubkey::{Pubkey, BPF_LOADER_ID, SYSTEM_PROGRAM_ID};
use crate::scenario::Snapshot;
use crate::sysvar::{id_of, Rent, SysvarKind};
use solana_instruction::error::InstructionError;
use vstd::prelude::*;

verus! {

/// `solana_instruction::error::InstructionError`, the error with which the
/// execution engine fails an instruction. The library carries it through and
/// never looks inside.
#[verifier::external_type_specification]
#[verifier::external_body]
pub struct ExInstructionError(InstructionError);

/// Number of accounts that one transaction can touch.
pub const MAX_ACCOUNTS_PER_TRANSACTION: usize = 256;

/// Number of account references that one instruction can carry.
pub const MAX_ACCOUNTS_PER_INSTRUCTION: usize = 255;

/// The flags of a session.
#[derive(Clone, Copy, Debug)]
pub struct Config {
    /// Write what an instruction did to its accounts back into the store.
    pub memoized: bool,
    /// Give an account that a reference names and nothing resolves the empty
    /// record, in place of failing.
    pub allow_uninitialized_accounts: bool,
}

impl Default for Config {
    fn default() -> (config: Config)
        ensures
            !config.memoized,
            !config.allow_uninitialized_accounts,
    {
        Config { memoized: false, allow_uninitialized_accounts: false }
    }
}

/// A session of the harness: its flags, its store and its active features.
#[derive(Debug)]
pub struct Seashell {
    pub config: Config,
    pub accounts_db: AccountsDb,
    pub feature_set: FeatureSet,
}

/// Why the execution engine failed an instruction.
#[derive(Debug, PartialEq)]
pub enum InstructionProcessingError {
    InstructionError(InstructionError),
    ProgramError,
}

/// What processing one instruction gave.
#[derive(Debug)]
pub struct InstructionProcessingResult {
    pub compute_units_consumed: u64,
    pub return_data: Vec<u8>,
    pub error: Option<InstructionProcessingError>,
    pub post_execution_accounts: Vec<(Pubkey, Account)>,
}

/// What the execution engine is handed to run one instruction.
#[derive(Debug)]
pub struct PreparedInstruction {
    /// The key of the program to run.
    pub program_id: Pubkey,
    /// The payload of the instruction.
    pub instruction_data: Vec<u8>,
    /// The program's account, then one account for each reference.
    pub transaction_accounts: Vec<TransactionAccount>,
    /// The system variables as the instruction sees them.
    pub sysvar_cache: SysvarCache,
    /// The rent parameters of the store.
    pub rent: Rent,
    /// Position of the program among `transaction_accounts`.
    pub program_id_index: IndexOfAccount,
    /// The compiled account list.
    pub instruction_accounts: Vec<InstructionAccount>,
    /// For each position among `transaction_accounts`, the first entry of the
    /// compiled account list that points to it.
    pub dedup_map: Vec<u16>,
}

/// What the execution engine reports of one instruction.
#[derive(Debug)]
pub struct ExecutionOutcome {
    pub compute_units_consumed: u64,
    pub return_data: Vec<u8>,
    /// Whether the instruction succeeded, and if not, why.
    pub result: Result<(), InstructionError>,
    /// The accounts after the instruction, in the order in which they were
    /// handed to the engine.
    pub accounts: Vec<Account>,
}

/// `at` is the first entry of `compiled` that points to position `index`.
pub open spec fn is_first_entry_for(compiled: Seq<InstructionAccount>, index: int, at: int) -> bool {
    &&& 0 <= at < compiled.len()
    &&& compiled[at].index_in_transaction == index
    &&& forall|q: int| 0 <= q < at ==> compiled[q].index_in_transaction != index
}

/// The entry of the deduplication map for position `index`: the first entry
/// of `compiled` that points to it, or `u16::MAX` where none does.
pub open spec fn dedup_entry(compiled: Seq<InstructionAccount>, index: int) -> u16 {
    if exists|at: int| is_first_entry_for(compiled, index, at) {
        (choose|at: int| is_first_entry_for(compiled, index, at)) as u16
    } else {
        u16::MAX
    }
}

/// The deduplication map of a compiled account list.
pub open spec fn dedup_map_of(compiled: Seq<InstructionAccount>) -> Seq<u16> {
    Seq::new(MAX_ACCOUNTS_PER_TRANSACTION as nat, |index: int| dedup_entry(compiled, index))
}

/// Builds the deduplication map of a compiled account list.
pub fn instruction_dedup_map(compiled: &Vec<InstructionAccount>) -> (map: Vec<u16>)
    requires
        compiled@.len() <= MAX_ACCOUNTS_PER_INSTRUCTION,
        forall|i: int|
            0 <= i < compiled@.len() ==> (#[trigger] compiled@[i]).index_in_transaction
                < MAX_ACCOUNTS_PER_TRANSACTION,
    ensures
        map@ == dedup_map_of(compiled@),
{
    let mut map: Vec<u16> = Vec::new();
    let mut t: usize = 0;
    while t < MAX_ACCOUNTS_PER_TRANSACTION
        invariant
            t <= MAX_ACCOUNTS_PER_TRANSACTION,
            map@.len() == t,
            forall|k: int| 0 <= k < t ==> map@[k] == u16::MAX,
        decreases MAX_ACCOUNTS_PER_TRANSACTION - t,
    {
        map.push(u16::MAX);
        t += 1;
    }
    let mut idx: usize = 0;
    while idx < compiled.len()
        invariant
            idx <= compiled@.len(),
            compiled@.len() <= MAX_ACCOUNTS_PER_INSTRUCTION,
            forall|i: int|
                0 <= i < compiled@.len() ==> (#[trigger] compiled@[i]).index_in_transaction
                    < MAX_ACCOUNTS_PER_TRANSACTION,
            map@.len() == MAX_ACCOUNTS_PER_TRANSACTION,
            forall|k: int|
                0 <= k < MAX_ACCOUNTS_PER_TRANSACTION ==> if #[trigger] map@[k] == u16::MAX {
                    forall|q: int| 0 <= q < idx ==> compiled@[q].index_in_transaction != k
                } else {
                    map@[k] < idx && is_first_entry_for(compiled@, k, map@[k] as int)
                },
        decreases compiled@.len() - idx,
    {
        let index = compiled[idx].index_in_transaction as usize;
        if map[index] == u16::MAX {
            map[index] = idx as u16;
        }
        idx += 1;
    }
    proof {
        assert forall|k: int| 0 <= k < MAX_ACCOUNTS_PER_TRANSACTION implies map@[k] == dedup_entry(
            compiled@,
            k,
        ) by {
            if map@[k] == u16::MAX {
                if exists|at: int| is_first_entry_for(compiled@, k, at) {
                    let at = choose|at: int| is_first_entry_for(compiled@, k, at);
                    assert(compiled@[at].index_in_transaction != k);
                }
            } else {
                let mine = map@[k] as int;
                assert(is_first_entry_for(compiled@, k, mine));
                let theirs = choose|at: int| is_first_entry_for(compiled@, k, at);
                assert(is_first_entry_for(compiled@, k, theirs));
                if mine < theirs {
                    assert(compiled@[mine].index_in_transaction != k);
                } else if theirs < mine {
                    assert(compiled@[theirs].index_in_transaction != k);
                }
            }
        }
        assert(map@ =~= dedup_map_of(compiled@));
    }
    map
}

/// The account under position `at` once the engine has run: what the engine
/// reports for the first position that holds the same key, or the account as
/// it was handed in where the engine reports none.
pub open spec fn post_account(
    accounts: Seq<TransactionAccount>,
    reported: Seq<Account>,
    at: int,
) -> AccountView {
    let first = first_occurrence(listed_keys(accounts), accounts[at].0);
    if first < reported.len() {
        reported[first]@
    } else {
        accounts[at].1@
    }
}

/// `post` is what the accounts of an instruction came to: each key in its
/// place, with the account that the engine reports for it.
pub open spec fn is_post_state(
    accounts: Seq<TransactionAccount>,
    reported: Seq<Account>,
    post: Seq<(Pubkey, Account)>,
) -> bool {
    &&& post.len() == accounts.len()
    &&& forall|at: int|
        0 <= at < accounts.len() ==> (#[trigger] post[at]).0 == accounts[at].0 && post[at].1@
            == post_account(accounts, reported, at)
}

impl Seashell {
    /// A session with the given flags and features, an empty store with the
    /// default system variables, and the given builtins loaded.
    pub fn new_with_config(config: Config, builtins: &[Builtin], feature_set: FeatureSet) -> (made:
        Result<Seashell, SeashellError>)
        ensures
            ({
                let loaded = builtins_loaded(
                    AccountsDb::default_view(),
                    builtins@,
                    feature_set@,
                    builtins@.len() as int,
                );
                match made {
                    Ok(seashell) => loaded.1 && seashell.accounts_db@ == loaded.0
                        && seashell.config == config && seashell.feature_set@ == feature_set@,
                    Err(e) => !loaded.1 && e == SeashellError::InvalidSystemVariableEncoding,
                }
            }),
    {
        let mut accounts_db = AccountsDb::default();
        match accounts_db.load_builtins(builtins, &feature_set) {
            Ok(()) => Ok(Seashell { config, accounts_db, feature_set }),
            Err(e) => Err(e),
        }
    }

    /// A session with the default flags: see [`Seashell::new_with_config`].
    pub fn new(builtins: &[Builtin], feature_set: FeatureSet) -> (made: Result<
        Seashell,
        SeashellError,
    >)
        ensures
            ({
                let loaded = builtins_loaded(
                    AccountsDb::default_view(),
                    builtins@,
                    feature_set@,
                    builtins@.len() as int,
                );
                match made {
                    Ok(seashell) => loaded.1 && seashell.accounts_db@ == loaded.0
                        && !seashell.config.memoized && !seashell.config.allow_uninitialized_accounts
                        && seashell.feature_set@ == feature_set@,
                    Err(e) => !loaded.1 && e == SeashellError::InvalidSystemVariableEncoding,
                }
            }),
    {
        Seashell::new_with_config(Config::default(), builtins, feature_set)
    }
}

/// Why an instruction cannot be prepared, if it cannot: a key that must
/// resolve does not, or the instruction carries too many references.
pub open spec fn preparation_error(db: AccountsDbView, config: Config, ixn: Instruction) -> Option<
    SeashellError,
> {
    if !instruction_resolves(
        db,
        config.allow_uninitialized_accounts,
        touched_keys(ixn.program_id, ixn.accounts@),
    ) {
        Some(SeashellError::AccountNotFound)
    } else if ixn.accounts@.len() > MAX_ACCOUNTS_PER_INSTRUCTION {
        Some(SeashellError::TooManyAccounts)
    } else {
        None
    }
}

/// `prepared` is what the engine is handed to run `ixn` on the store `db`.
pub open spec fn is_prepared(
    db: AccountsDbView,
    config: Config,
    ixn: Instruction,
    prepared: PreparedInstruction,
) -> bool {
    let keys = touched_keys(ixn.program_id, ixn.accounts@);
    &&& prepared.program_id == ixn.program_id
    &&& prepared.instruction_data@ == ixn.data@
    &&& prepared.transaction_accounts@.len() == keys.len()
    &&& forall|at: int|
        0 <= at < keys.len() ==> (#[trigger] prepared.transaction_accounts@[at]).0 == keys[at]
            && prepared.transaction_accounts@[at].1@ == account_seen(db, keys[at])
    &&& forall|kind: SysvarKind| #[trigger]
        prepared.sysvar_cache.data_of(kind) == sysvar_data_seen(
            db,
            prepared.transaction_accounts@,
            id_of(kind),
        )
    &&& prepared.rent == db.sysvars.rent
    &&& prepared.program_id_index == INSTRUCTION_PROGRAM_ID_INDEX
    &&& prepared.instruction_accounts@ == compiled_accounts(ixn.program_id, ixn.accounts@)
    &&& prepared.dedup_map@ == dedup_map_of(prepared.instruction_accounts@)
}

/// `result` and the store `after` are what an instruction on `accounts` comes
/// to, on the store `before`, once the engine has reported `outcome`.
///
/// Where the engine failed, the result carries its error and no accounts,
/// and the store is as it was. Where it succeeded, the result carries the
/// post state of every account; a session that writes results back has
/// written them to the store in order, up to the first that cannot be
/// written, and fails if one cannot.
pub open spec fn is_finished(
    before: AccountsDbView,
    config: Config,
    accounts: Seq<TransactionAccount>,
    outcome: ExecutionOutcome,
    after: AccountsDbView,
    result: Result<InstructionProcessingResult, SeashellError>,
) -> bool {
    match outcome.result {
        Err(e) => {
            &&& after == before
            &&& result matches Ok(given)
            &&& given.compute_units_consumed == outcome.compute_units_consumed
            &&& given.return_data@ == outcome.return_data@
            &&& given.error == Some(InstructionProcessingError::InstructionError(e))
            &&& given.post_execution_accounts@.len() == 0
        },
        Ok(_) => exists|post: Seq<(Pubkey, Account)>|
            {
                &&& #[trigger] is_post_state(accounts, outcome.accounts@, post)
                &&& if config.memoized {
                    after == updates_written(before, post, post.len() as int).0
                } else {
                    after == before
                }
                &&& if config.memoized && !updates_written(before, post, post.len() as int).1 {
                    result == Err::<InstructionProcessingResult, SeashellError>(
                        SeashellError::InvalidSystemVariableEncoding,
                    )
                } else {
                    &&& result matches Ok(given)
                    &&& given.compute_units_consumed == outcome.compute_units_consumed
                    &&& given.return_data@ == outcome.return_data@
                    &&& given.error.is_none()
                    &&& is_post_state(accounts, outcome.accounts@, given.post_execution_accounts@)
                }
            },
    }
}

impl Seashell {
    /// Gives each of `precompiles` that is enabled a marker account: see
    /// [`crate::precompiles::load`].
    pub fn load_precompiles(&mut self, precompiles: &[crate::precompiles::Precompile]) -> (done:
        Result<(), SeashellError>)
        ensures
            final(self).accounts_db@ == crate::precompiles::precompiles_loaded(
                old(self).accounts_db@,
                precompiles@,
                old(self).feature_set@,
                precompiles@.len() as int,
            ).0,
            done.is_ok() == crate::precompiles::precompiles_loaded(
                old(self).accounts_db@,
                precompiles@,
                old(self).feature_set@,
                precompiles@.len() as int,
            ).1,
            done.is_err() ==> done == Err::<(), SeashellError>(
                SeashellError::InvalidSystemVariableEncoding,
            ),
            final(self).config == old(self).config,
            final(self).feature_set@ == old(self).feature_set@,
    {
        crate::precompiles::load(self, precompiles)
    }

    /// Makes a program known that was loaded from the image `bytes` by the
    /// BPF loader: see [`AccountsDb::load_program_from_bytes_with_loader`].
    pub fn load_program_from_bytes(&mut self, program_id: Pubkey, bytes: &[u8], image_accepted: bool) -> (done:
        Result<(), SeashellError>)
        requires
            128 + bytes@.len() <= u64::MAX,
            (128 + bytes@.len()) * old(self).accounts_db@.sysvars.rent.lamports_per_byte_year
                <= u64::MAX,
        ensures
            final(self).config == old(self).config,
            final(self).feature_set@ == old(self).feature_set@,
            !image_accepted ==> done == Err::<(), SeashellError>(SeashellError::ProgramLoadFailed)
                && final(self).accounts_db@ == old(self).accounts_db@,
            image_accepted ==> match program_loaded(
                old(self).accounts_db@,
                program_id,
                bytes@.len() as usize,
                Pubkey { bytes: BPF_LOADER_ID },
            ) {
                Some(loaded) => done == Ok::<(), SeashellError>(()) && final(self).accounts_db@
                    == loaded,
                None => done == Err::<(), SeashellError>(
                    SeashellError::InvalidSystemVariableEncoding,
                ) && final(self).accounts_db@ == old(self).accounts_db@,
            },
    {
        self.accounts_db.load_program_from_bytes_with_loader(
            program_id,
            bytes,
            Pubkey { bytes: BPF_LOADER_ID },
            image_accepted,
        )
    }

    /// Assembles what the engine needs to run `ixn`: the accounts, the system
    /// variables as the instruction sees them, the rent parameters, the
    /// compiled account list and its deduplication map.
    ///
    /// Fails with `AccountNotFound` where a key that must resolve does not,
    /// and else with `TooManyAccounts` where the instruction carries more
    /// references than an instruction can. The session does not change.
    pub fn prepare_instruction(&self, ixn: &Instruction) -> (prepared: Result<
        PreparedInstruction,
        SeashellError,
    >)
        ensures
            match prepared {
                Ok(ready) => preparation_error(self.accounts_db@, self.config, *ixn).is_none()
                    && is_prepared(self.accounts_db@, self.config, *ixn, ready),
                Err(e) => preparation_error(self.accounts_db@, self.config, *ixn) == Some(e),
            },
    {
        let transaction_accounts = match self.accounts_db.accounts_for_instruction(
            self.config.allow_uninitialized_accounts,
            ixn,
        ) {
            Ok(accounts) => accounts,
            Err(e) => {
                return Err(e);
            },
        };
        if ixn.accounts.len() > MAX_ACCOUNTS_PER_INSTRUCTION {
            return Err(SeashellError::TooManyAccounts);
        }
        let sysvar_cache = self.accounts_db.sysvars_for_instruction(transaction_accounts.as_slice());
        let rent = self.accounts_db.sysvars.rent();
        let instruction_accounts = compile_accounts_for_instruction(ixn);
        proof {
            assert forall|i: int| 0 <= i < instruction_accounts@.len() implies (
            #[trigger] instruction_accounts@[i]).index_in_transaction
                < MAX_ACCOUNTS_PER_TRANSACTION by {
                lemma_index_is_first_occurrence(ixn.program_id, ixn.accounts@, i);
            }
        }
        let dedup_map = instruction_dedup_map(&instruction_accounts);
        Ok(
            PreparedInstruction {
                program_id: ixn.program_id,
                instruction_data: ixn.data.clone(),
                transaction_accounts,
                sysvar_cache,
                rent,
                program_id_index: INSTRUCTION_PROGRAM_ID_INDEX,
                instruction_accounts,
                dedup_map,
            },
        )
    }

    /// Takes what the engine reports of an instruction that ran on
    /// `transaction_accounts`, and gives the result of processing it: see
    /// [`is_finished`]. Nothing but the store changes.
    pub fn finish_instruction(
        &mut self,
        transaction_accounts: &[TransactionAccount],
        outcome: ExecutionOutcome,
    ) -> (result: Result<InstructionProcessingResult, SeashellError>)
        ensures
            is_finished(
                old(self).accounts_db@,
                old(self).config,
                transaction_accounts@,
                outcome,
                final(self).accounts_db@,
                result,
            ),
            final(self).config == old(self).config,
            final(self).feature_set@ == old(self).feature_set@,
    {
        let ExecutionOutcome { compute_units_consumed, return_data, result, accounts } = outcome;
        match result {
            Err(e) => Ok(
                InstructionProcessingResult {
                    compute_units_consumed,
                    return_data,
                    error: Some(InstructionProcessingError::InstructionError(e)),
                    post_execution_accounts: Vec::new(),
                },
            ),
            Ok(_) => {
                let post = post_execution_state(transaction_accounts, accounts.as_slice());
                if self.config.memoized {
                    match self.accounts_db.write_all(post.as_slice()) {
                        Ok(()) => {},
                        Err(e) => {
                            return Err(e);
                        },
                    }
                }
                Ok(
                    InstructionProcessingResult {
                        compute_units_consumed,
                        return_data,
                        error: None,
                        post_execution_accounts: post,
                    },
                )
            },
        }
    }

    /// Processes one instruction: prepares it, has `execute` run it, and
    /// finishes it with what `execute` reports.
    ///
    /// Where the instruction cannot be prepared, this fails as
    /// [`Seashell::prepare_instruction`] does, `execute` is not called and
    /// nothing changes. Otherwise, whatever `execute` reports, the result and
    /// the store are what [`Seashell::finish_instruction`] makes of it.
    pub fn process_instruction<F: FnOnce(&PreparedInstruction) -> ExecutionOutcome>(
        &mut self,
        ixn: Instruction,
        execute: F,
    ) -> (result: Result<InstructionProcessingResult, SeashellError>)
        requires
            forall|prepared: &PreparedInstruction| execute.requires((prepared,)),
        ensures
            final(self).config == old(self).config,
            final(self).feature_set@ == old(self).feature_set@,
            match preparation_error(old(self).accounts_db@, old(self).config, ixn) {
                Some(e) => result == Err::<InstructionProcessingResult, SeashellError>(e) && final(self).accounts_db@ == old(self).accounts_db@,
                None => exists|prepared: PreparedInstruction, outcome: ExecutionOutcome|
                    {
                        &&& is_prepared(old(self).accounts_db@, old(self).config, ixn, prepared)
                        &&& execute.ensures((&prepared,), outcome)
                        &&& #[trigger] is_finished(
                            old(self).accounts_db@,
                            old(self).config,
                            prepared.transaction_accounts@,
                            outcome,
                            final(self).accounts_db@,
                            result,
                        )
                    },
            },
    {
        let prepared = match self.prepare_instruction(&ixn) {
            Ok(prepared) => prepared,
            Err(e) => {
                return Err(e);
            },
        };
        let outcome = execute(&prepared);
        let ghost reported = outcome;
        let result = self.finish_instruction(prepared.transaction_accounts.as_slice(), outcome);
        proof {
            assert(is_finished(
                old(self).accounts_db@,
                old(self).config,
                prepared.transaction_accounts@,
                reported,
                self.accounts_db@,
                result,
            ));
        }
        result
    }

    /// Adds `amount` lamports to the balance under `pubkey`.
    ///
    /// A key that resolves to nothing starts as an account without data that
    /// the system program owns. Fails with `ArithmeticOverflow`, and changes
    /// nothing, where the balance would exceed the greatest number; else the
    /// account is written as [`AccountsDb::set_account`] writes it.
    pub fn airdrop(&mut self, pubkey: Pubkey, amount: u64) -> (done: Result<(), SeashellError>)
        ensures
            final(self).config == old(self).config,
            final(self).feature_set@ == old(self).feature_set@,
            ({
                let before = old(self).accounts_db@;
                let current = match resolved(before, pubkey) {
                    Some(account) => account,
                    None => zeroed_account(0, 0, Pubkey { bytes: SYSTEM_PROGRAM_ID }),
                };
                if current.lamports + amount > u64::MAX {
                    done == Err::<(), SeashellError>(SeashellError::ArithmeticOverflow) && final(self).accounts_db@ == before
                } else {
                    match account_written(
                        before,
                        pubkey,
                        AccountView { lamports: (current.lamports + amount) as u64, ..current },
                    ) {
                        Some(written) => done == Ok::<(), SeashellError>(()) && final(self).accounts_db@ == written,
                        None => done == Err::<(), SeashellError>(
                            SeashellError::InvalidSystemVariableEncoding,
                        ) && final(self).accounts_db@ == before,
                    }
                }
            }),
    {
        let mut account = match self.accounts_db.account_maybe(&pubkey) {
            Some(account) => account,
            None => Account::new(0, 0, &Pubkey { bytes: SYSTEM_PROGRAM_ID }),
        };
        match account.lamports.checked_add(amount) {
            Some(sum) => {
                account.lamports = sum;
                self.set_account_from_account_shared_data(pubkey, account)
            },
            None => Err(SeashellError::ArithmeticOverflow),
        }
    }

    /// Resolves `pubkey` from the layers of the store: see [`AccountsDb::account`].
    pub fn account(&self, pubkey: &Pubkey) -> (found: Result<Account, SeashellError>)
        ensures
            match resolved(self.accounts_db@, *pubkey) {
                Some(account) => found matches Ok(got) && got@ == account,
                None => found == Err::<Account, SeashellError>(SeashellError::AccountNotFound),
            },
    {
        self.accounts_db.account(pubkey)
    }

    /// Writes `account` under `pubkey`: see [`AccountsDb::set_account`].
    pub fn set_account(&mut self, pubkey: Pubkey, account: Account) -> (done: Result<
        (),
        SeashellError,
    >)
        ensures
            final(self).config == old(self).config,
            final(self).feature_set@ == old(self).feature_set@,
            match account_written(old(self).accounts_db@, pubkey, account@) {
                Some(written) => done == Ok::<(), SeashellError>(()) && final(self).accounts_db@
                    == written,
                None => done == Err::<(), SeashellError>(
                    SeashellError::InvalidSystemVariableEncoding,
                ) && final(self).accounts_db@ == old(self).accounts_db@,
            },
    {
        self.accounts_db.set_account(pubkey, account)
    }

    /// Writes `account` under `pubkey`: see [`AccountsDb::set_account`].
    pub fn set_account_from_account_shared_data(
        &mut self,
        pubkey: Pubkey,
        account: AccountSharedData,
    ) -> (done: Result<(), SeashellError>)
        ensures
            final(self).config == old(self).config,
            final(self).feature_set@ == old(self).feature_set@,
            match account_written(old(self).accounts_db@, pubkey, account@) {
                Some(written) => done == Ok::<(), SeashellError>(()) && final(self).accounts_db@
                    == written,
                None => done == Err::<(), SeashellError>(
                    SeashellError::InvalidSystemVariableEncoding,
                ) && final(self).accounts_db@ == old(self).accounts_db@,
            },
    {
        self.accounts_db.set_account(pubkey, account)
    }

    /// Ends the session and says what is to be written to the overlay's file:
    /// see [`crate::scenario::Scenario::close`].
    pub fn close(self) -> (written: Option<Snapshot>)
        ensures
            written.is_some() == self.accounts_db@.scenario.flushes(),
            !self.accounts_db@.scenario.dirty ==> written.is_none(),
            written matches Some(snapshot) ==> {
                &&& self.accounts_db@.scenario.path == Some(snapshot.path)
                &&& crate::account_map::keys_distinct(snapshot.entries@)
                &&& crate::account_map::entries_map(snapshot.entries@)
                    == self.accounts_db@.scenario.entries
            },
    {
        self.accounts_db.scenario.close()
    }
}

/// The post state of the accounts of an instruction: each key in its place,
/// with the account that the engine reports for the first position that
/// holds the key, or the account as it was handed in where the engine
/// reports none.
pub fn post_execution_state(accounts: &[TransactionAccount], reported: &[Account]) -> (post: Vec<
    (Pubkey, Account),
>)
    ensures
        is_post_state(accounts@, reported@, post@),
{
    let ghost keys = listed_keys(accounts@);
    let mut post: Vec<(Pubkey, Account)> = Vec::new();
    let mut at: usize = 0;
    while at < accounts.len()
        invariant
            at <= accounts@.len(),
            keys == listed_keys(accounts@),
            post@.len() == at,
            forall|i: int|
                0 <= i < at ==> (#[trigger] post@[i]).0 == accounts@[i].0 && post@[i].1@
                    == post_account(accounts@, reported@, i),
        decreases accounts@.len() - at,
    {
        let key = accounts[at].0;
        let mut first: usize = 0;
        while accounts[first].0 != key
            invariant
                first <= at,
                at < accounts@.len(),
                key == accounts@[at as int].0,
                keys == listed_keys(accounts@),
                forall|q: int| 0 <= q < first ==> keys[q] != key,
            decreases at - first,
        {
            assert(keys[first as int] != key);
            first += 1;
        }
        proof {
            assert(keys[first as int] == key);
            assert(is_first_occurrence(keys, key, first as int));
            let chosen = first_occurrence(keys, key);
            assert(is_first_occurrence(keys, key, chosen));
            if chosen < first {
                assert(keys[chosen] != key);
            }
            assert(chosen == first);
        }
        let account = if first < reported.len() {
            reported[first].clone()
        } else {
            accounts[at].1.clone()
        };
        post.push((key, account));
        at += 1;
    }
    post
}

} // verus!
