use crate::pubkey::Pubkey;
use vstd::prelude::*;

verus! {

/// One account reference of an instruction, with the privileges it asks for.
#[derive(Clone, Copy, Debug, PartialEq, Eq)]
pub struct AccountMeta {
    pub pubkey: Pubkey,
    pub is_signer: bool,
    pub is_writable: bool,
}

impl AccountMeta {
    /// A writable reference.
    pub fn new(pubkey: Pubkey, is_signer: bool) -> (meta: AccountMeta)
        ensures
            meta == (AccountMeta { pubkey, is_signer, is_writable: true }),
    {
        AccountMeta { pubkey, is_signer, is_writable: true }
    }

    /// A read-only reference.
    pub fn new_readonly(pubkey: Pubkey, is_signer: bool) -> (meta: AccountMeta)
        ensures
            meta == (AccountMeta { pubkey, is_signer, is_writable: false }),
    {
        AccountMeta { pubkey, is_signer, is_writable: false }
    }
}

/// One unit of work: the program to run, the accounts it refers to, in order,
/// and an opaque payload.
#[derive(Debug)]
pub struct Instruction {
    pub program_id: Pubkey,
    pub accounts: Vec<AccountMeta>,
    pub data: Vec<u8>,
}

/// Position of an account in the list of all accounts that a transaction touches.
pub type IndexOfAccount = u16;

/// One entry of a compiled account list.
#[derive(Clone, Copy, Debug, PartialEq, Eq)]
pub struct InstructionAccount {
    pub index_in_transaction: IndexOfAccount,
    pub signer: bool,
    pub writable: bool,
}

impl InstructionAccount {
    pub fn new(index_in_transaction: IndexOfAccount, is_signer: bool, is_writable: bool) -> (entry:
        InstructionAccount)
        ensures
            entry == (InstructionAccount {
                index_in_transaction,
                signer: is_signer,
                writable: is_writable,
            }),
    {
        InstructionAccount { index_in_transaction, signer: is_signer, writable: is_writable }
    }

    pub fn is_signer(&self) -> (r: bool)
        ensures
            r == self.signer,
    {
        self.signer
    }

    pub fn is_writable(&self) -> (r: bool)
        ensures
            r == self.writable,
    {
        self.writable
    }
}

} // verus!
