use crate::pubkey::{Pubkey, SYSTEM_PROGRAM_ID};
use vstd::prelude::*;

verus! {

/// An account record: a balance, opaque data, the owning program, and two
/// bookkeeping fields.
///
/// A record is a plain value. Every read from a store hands out a copy.
#[derive(Debug, PartialEq, Eq)]
pub struct Account {
    pub lamports: u64,
    pub data: Vec<u8>,
    pub owner: Pubkey,
    pub executable: bool,
    pub rent_epoch: u64,
}

/// The record a store keeps and resolves.
pub type AccountSharedData = Account;

/// What an [`Account`] holds, as a mathematical value.
pub ghost struct AccountView {
    pub lamports: u64,
    pub data: Seq<u8>,
    pub owner: Pubkey,
    pub executable: bool,
    pub rent_epoch: u64,
}

impl View for Account {
    type V = AccountView;

    open spec fn view(&self) -> AccountView {
        AccountView {
            lamports: self.lamports,
            data: self.data@,
            owner: self.owner,
            executable: self.executable,
            rent_epoch: self.rent_epoch,
        }
    }
}

/// The record that stands for an account nobody has written yet: no balance,
/// no data, owned by the default key.
pub open spec fn empty_account() -> AccountView {
    AccountView {
        lamports: 0,
        data: Seq::empty(),
        owner: Pubkey { bytes: SYSTEM_PROGRAM_ID },
        executable: false,
        rent_epoch: 0,
    }
}

/// A record of `lamports` with `space` zero bytes of data, owned by `owner`.
pub open spec fn zeroed_account(lamports: u64, space: nat, owner: Pubkey) -> AccountView {
    AccountView {
        lamports,
        data: Seq::new(space, |i: int| 0u8),
        owner,
        executable: false,
        rent_epoch: 0,
    }
}

impl Clone for Account {
    fn clone(&self) -> (copy: Account)
        ensures
            copy@ == self@,
    {
        Account {
            lamports: self.lamports,
            data: self.data.clone(),
            owner: self.owner,
            executable: self.executable,
            rent_epoch: self.rent_epoch,
        }
    }
}

impl Default for Account {
    fn default() -> (account: Account)
        ensures
            account@ == empty_account(),
    {
        Account {
            lamports: 0,
            data: Vec::new(),
            owner: Pubkey { bytes: SYSTEM_PROGRAM_ID },
            executable: false,
            rent_epoch: 0,
        }
    }
}

impl Account {
    /// A record of `lamports` with `space` zero bytes of data, owned by `owner`.
    pub fn new(lamports: u64, space: usize, owner: &Pubkey) -> (account: Account)
        ensures
            account@ == zeroed_account(lamports, space as nat, *owner),
    {
        let mut data: Vec<u8> = Vec::new();
        let mut i: usize = 0;
        while i < space
            invariant
                i <= space,
                data@ == Seq::new(i as nat, |j: int| 0u8),
            decreases space - i,
        {
            data.push(0);
            i += 1;
        }
        Account { lamports, data, owner: *owner, executable: false, rent_epoch: 0 }
    }
}

/// A record with no balance and no data that names `pubkey` as its owner.
pub fn mock_account_shared_data(pubkey: Pubkey) -> (account: AccountSharedData)
    ensures
        account@ == zeroed_account(0, 0, pubkey),
{
    Account::new(0, 0, &pubkey)
}

} // verus!
