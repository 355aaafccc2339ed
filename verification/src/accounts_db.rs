use crate::account::{
    empty_account, mock_account_shared_data, zeroed_account, Account, AccountSharedData,
    AccountView,
};
use crate::account_map::AccountMap;
use crate::compile::{first_occurrence, is_first_occurrence, occurs_before, touched_keys};
use crate::feature_set::FeatureSet;
use crate::error::SeashellError;
use crate::instruction::Instruction;
use crate::pubkey::{Pubkey, NATIVE_LOADER_ID};
use crate::scenario::{empty_scenario, Scenario, ScenarioView};
use crate::sysvar::{
    default_sysvars, id_of, kind_of, lemma_system_variable_reads_back, rent_exempt_minimum, sysvar_account, sysvar_id, sysvar_kind, sysvar_written,
    Rent, SysvarKind, Sysvars, SysvarsView,
};
use vstd::prelude::*;

verus! {

/// A key with the account record that an instruction sees under it.
pub type TransactionAccount = (Pubkey, AccountSharedData);

/// What the store remembers of a program that was made known to it.
#[derive(Clone, Copy, Debug, PartialEq, Eq)]
pub enum ProgramRecord {
    /// A program that is part of the execution engine.
    Builtin { program_id: Pubkey, name_len: usize },
    /// A program loaded from an image of `account_size` bytes by `loader`,
    /// deployed and effective at the given slots.
    Loaded {
        program_id: Pubkey,
        loader: Pubkey,
        deployment_slot: u64,
        effective_slot: u64,
        account_size: usize,
    },
}

/// The store of a session: the system variables, the scenario overlay, the
/// base accounts, and the programs that were loaded, in the order of loading.
#[derive(Debug)]
pub struct AccountsDb {
    pub scenario: Scenario,
    pub accounts: AccountMap,
    pub programs: Vec<ProgramRecord>,
    pub sysvars: Sysvars,
}

/// What an [`AccountsDb`] holds, as a mathematical value.
pub ghost struct AccountsDbView {
    pub scenario: ScenarioView,
    pub accounts: Map<Pubkey, AccountView>,
    pub programs: Seq<ProgramRecord>,
    pub sysvars: SysvarsView,
}

impl View for AccountsDb {
    type V = AccountsDbView;

    open spec fn view(&self) -> AccountsDbView {
        AccountsDbView {
            scenario: self.scenario@,
            accounts: self.accounts@,
            programs: self.programs@,
            sysvars: self.sysvars@,
        }
    }
}

/// The record that the store resolves `id` to, without asking a remote source.
///
/// The first layer that knows `id` decides: the system variables, then the
/// scenario overlay, then the base accounts.
pub open spec fn resolved(db: AccountsDbView, id: Pubkey) -> Option<AccountView> {
    match kind_of(id) {
        Some(kind) => Some(sysvar_account(db.sysvars, kind)),
        None => if db.scenario.entries.contains_key(id) {
            Some(db.scenario.entries[id])
        } else if db.accounts.contains_key(id) {
            Some(db.accounts[id])
        } else {
            None
        },
    }
}

/// The store after `account` was written under `id`, if the write succeeds.
///
/// A write to a system variable goes to the cache and to no other layer, and
/// fails where the data does not decode. Any other write goes to the base
/// accounts.
pub open spec fn account_written(db: AccountsDbView, id: Pubkey, account: AccountView) -> Option<
    AccountsDbView,
> {
    match kind_of(id) {
        Some(kind) => match sysvar_written(db.sysvars, kind, account.data) {
            Some(sysvars) => Some(AccountsDbView { sysvars, ..db }),
            None => None,
        },
        None => Some(AccountsDbView { accounts: db.accounts.insert(id, account), ..db }),
    }
}

/// The store after the first `upto` of `updates` were written one after the
/// other, and whether all of them succeeded. Writing stops at the first
/// update that fails.
pub open spec fn updates_written(
    db: AccountsDbView,
    updates: Seq<(Pubkey, Account)>,
    upto: int,
) -> (AccountsDbView, bool)
    decreases upto,
{
    if upto <= 0 {
        (db, true)
    } else {
        let (before, ok) = updates_written(db, updates, upto - 1);
        if !ok {
            (before, false)
        } else {
            match account_written(before, updates[upto - 1].0, updates[upto - 1].1@) {
                Some(after) => (after, true),
                None => (before, false),
            }
        }
    }
}

/// A system variable outranks the overlay and the base accounts: once a record
/// was written through the system variable path, whatever the other layers
/// hold under the same key, the key resolves to the system variable.
pub proof fn lemma_system_variable_outranks_stores(
    db: AccountsDbView,
    id: Pubkey,
    record: AccountView,
    other: AccountView,
    overlaid: AccountView,
)
    requires
        kind_of(id).is_some(),
        account_written(db, id, record).is_some(),
    ensures
        ({
            let written = account_written(db, id, record).unwrap();
            let shadowed = AccountsDbView {
                accounts: written.accounts.insert(id, other),
                scenario: written.scenario.with_entry(id, overlaid),
                ..written
            };
            &&& written.accounts == db.accounts
            &&& written.scenario == db.scenario
            &&& written.sysvars == sysvar_written(db.sysvars, kind_of(id).unwrap(), record.data).unwrap()
            &&& resolved(written, id) == Some(sysvar_account(written.sysvars, kind_of(id).unwrap()))
            &&& resolved(shadowed, id) == resolved(written, id)
        }),
{
}

/// Writing a system variable back as it resolves changes nothing: an
/// instruction that is handed a system variable and leaves it alone can have
/// its accounts written back.
pub proof fn lemma_system_variable_writes_back(db: AccountsDbView, id: Pubkey)
    requires
        kind_of(id).is_some(),
        db.sysvars.slot_hashes.len() <= u64::MAX,
        db.sysvars.stake_history.len() <= u64::MAX,
    ensures
        resolved(db, id).is_some(),
        account_written(db, id, resolved(db, id).unwrap()) == Some(db),
{
    lemma_system_variable_reads_back(db.sysvars, kind_of(id).unwrap());
}

/// The overlay outranks the base accounts, and the base accounts decide
/// where nothing else knows the key.
pub proof fn lemma_overlay_outranks_base(db: AccountsDbView, id: Pubkey)
    requires
        kind_of(id).is_none(),
    ensures
        db.scenario.entries.contains_key(id) ==> resolved(db, id) == Some(db.scenario.entries[id]),
        !db.scenario.entries.contains_key(id) && db.accounts.contains_key(id) ==> resolved(db, id)
            == Some(db.accounts[id]),
        !db.scenario.entries.contains_key(id) && !db.accounts.contains_key(id) ==> resolved(
            db,
            id,
        ).is_none(),
{
}

/// Whether the key at position `at` of the touched keys must resolve: the
/// program always, a reference unless missing accounts are tolerated.
pub open spec fn must_resolve(allow_uninitialized: bool, at: int) -> bool {
    at == 0 || !allow_uninitialized
}

/// Every key of `keys` that must resolve does.
pub open spec fn instruction_resolves(
    db: AccountsDbView,
    allow_uninitialized: bool,
    keys: Seq<Pubkey>,
) -> bool {
    forall|at: int|
        0 <= at < keys.len() && must_resolve(allow_uninitialized, at) ==> resolved(
            db,
            #[trigger] keys[at],
        ).is_some()
}

/// The record that an instruction sees under `key`: what the store resolves
/// it to, or the empty record where it resolves to nothing.
pub open spec fn account_seen(db: AccountsDbView, key: Pubkey) -> AccountView {
    match resolved(db, key) {
        Some(account) => account,
        None => empty_account(),
    }
}

/// `key` must resolve for the instruction and does not.
pub open spec fn is_missing(
    db: AccountsDbView,
    allow_uninitialized: bool,
    keys: Seq<Pubkey>,
    key: Pubkey,
) -> bool {
    exists|at: int|
        0 <= at < keys.len() && must_resolve(allow_uninitialized, at) && keys[at] == key
            && resolved(db, key).is_none()
}

/// The keys of a list of resolved accounts, in order.
pub open spec fn listed_keys(accounts: Seq<TransactionAccount>) -> Seq<Pubkey> {
    Seq::new(accounts.len(), |at: int| accounts[at].0)
}

/// The data that an instruction sees as the system variable `sysvar`.
///
/// A record that the instruction passes under that key wins, the first one
/// where there are several. Otherwise the store decides, and a key that the
/// store does not resolve has no data.
pub open spec fn sysvar_data_seen(
    db: AccountsDbView,
    accounts: Seq<TransactionAccount>,
    sysvar: Pubkey,
) -> Seq<u8> {
    let keys = listed_keys(accounts);
    if occurs_before(keys, sysvar, keys.len() as int) {
        accounts[first_occurrence(keys, sysvar)].1@.data
    } else {
        match resolved(db, sysvar) {
            Some(account) => account.data,
            None => Seq::empty(),
        }
    }
}

/// The system variables as one instruction sees them: the bytes of each.
#[derive(Debug)]
pub struct SysvarCache {
    pub clock: Vec<u8>,
    pub epoch_schedule: Vec<u8>,
    pub epoch_rewards: Vec<u8>,
    pub rent: Vec<u8>,
    pub slot_hashes: Vec<u8>,
    pub stake_history: Vec<u8>,
    pub last_restart_slot: Vec<u8>,
}

impl SysvarCache {
    /// The bytes of one system variable.
    pub open spec fn data_of(&self, kind: SysvarKind) -> Seq<u8> {
        match kind {
            SysvarKind::Clock => self.clock@,
            SysvarKind::EpochSchedule => self.epoch_schedule@,
            SysvarKind::EpochRewards => self.epoch_rewards@,
            SysvarKind::Rent => self.rent@,
            SysvarKind::SlotHashes => self.slot_hashes@,
            SysvarKind::StakeHistory => self.stake_history@,
            SysvarKind::LastRestartSlot => self.last_restart_slot@,
        }
    }
}

/// A program that is part of the execution engine, and the feature that
/// enables it, if it needs one.
#[derive(Clone, Copy, Debug)]
pub struct Builtin {
    pub program_id: Pubkey,
    pub name_len: usize,
    pub enable_feature_id: Option<Pubkey>,
}

/// Whether a program with the given enabling feature is available.
pub open spec fn is_enabled(enable_feature_id: Option<Pubkey>, active: Set<Pubkey>) -> bool {
    match enable_feature_id {
        None => true,
        Some(feature) => active.contains(feature),
    }
}

/// The account that marks a key as a program of the engine: one lamport, no
/// data, executable, owned by the native loader.
pub open spec fn marker_account() -> AccountView {
    AccountView {
        lamports: 1,
        data: Seq::empty(),
        owner: Pubkey { bytes: NATIVE_LOADER_ID },
        executable: true,
        rent_epoch: 0,
    }
}

/// The store after one builtin was considered: an enabled one gets its marker
/// account and is recorded, a disabled one changes nothing. `None` where the
/// marker account cannot be written.
pub open spec fn builtin_loaded(db: AccountsDbView, builtin: Builtin, active: Set<Pubkey>)
    -> Option<AccountsDbView> {
    if is_enabled(builtin.enable_feature_id, active) {
        match account_written(db, builtin.program_id, marker_account()) {
            Some(written) => Some(
                AccountsDbView {
                    programs: written.programs.push(
                        ProgramRecord::Builtin {
                            program_id: builtin.program_id,
                            name_len: builtin.name_len,
                        },
                    ),
                    ..written
                },
            ),
            None => None,
        }
    } else {
        Some(db)
    }
}

/// The store after the first `upto` of `builtins` were considered in turn, and
/// whether all of them succeeded. Loading stops at the first that fails.
pub open spec fn builtins_loaded(
    db: AccountsDbView,
    builtins: Seq<Builtin>,
    active: Set<Pubkey>,
    upto: int,
) -> (AccountsDbView, bool)
    decreases upto,
{
    if upto <= 0 {
        (db, true)
    } else {
        let (before, ok) = builtins_loaded(db, builtins, active, upto - 1);
        if !ok {
            (before, false)
        } else {
            match builtin_loaded(before, builtins[upto - 1], active) {
                Some(after) => (after, true),
                None => (before, false),
            }
        }
    }
}

/// The account of a program loaded from an image of `size` bytes: the balance
/// that exempts `size` bytes from rent, `size` zero bytes of data, executable,
/// owned by the loader.
pub open spec fn program_account(rent: Rent, size: usize, loader: Pubkey) -> AccountView {
    AccountView {
        lamports: rent_exempt_minimum(
            rent.lamports_per_byte_year,
            rent.exemption_threshold_bits,
            size,
        ),
        data: Seq::new(size as nat, |i: int| 0u8),
        owner: loader,
        executable: true,
        rent_epoch: 0,
    }
}

/// The store after a program was loaded: its account is written, and the
/// program is recorded as deployed and effective at the clock's slot. `None`
/// where the account cannot be written.
pub open spec fn program_loaded(db: AccountsDbView, program_id: Pubkey, size: usize, loader: Pubkey)
    -> Option<AccountsDbView> {
    match account_written(db, program_id, program_account(db.sysvars.rent, size, loader)) {
        Some(written) => Some(
            AccountsDbView {
                programs: written.programs.push(
                    ProgramRecord::Loaded {
                        program_id,
                        loader,
                        deployment_slot: db.sysvars.clock.slot,
                        effective_slot: db.sysvars.clock.slot,
                        account_size: size,
                    },
                ),
                ..written
            },
        ),
        None => None,
    }
}

/// A record that the remote source gave resolves its key from then on, and
/// takes nothing away: every key that resolved before still resolves, and a
/// key that the overlay did not shadow resolves to what it resolved to.
pub proof fn lemma_fetched_key_resolves(db: AccountsDbView, key: Pubkey, fetched: AccountView)
    ensures
        ({
            let after = AccountsDbView { scenario: db.scenario.with_entry(key, fetched), ..db };
            &&& resolved(after, key).is_some()
            &&& resolved(db, key).is_none() ==> resolved(after, key) == Some(fetched)
            &&& forall|other: Pubkey|
                other != key ==> #[trigger] resolved(after, other) == resolved(db, other)
        }),
{
}

/// Once every missing key of an instruction resolves, and no key that
/// resolved has stopped to, the accounts of the instruction resolve.
pub proof fn lemma_instruction_resolves_once_fetched(
    before: AccountsDbView,
    after: AccountsDbView,
    allow_uninitialized: bool,
    keys: Seq<Pubkey>,
)
    requires
        forall|key: Pubkey|
            resolved(before, key).is_some() ==> #[trigger] resolved(after, key).is_some(),
        forall|key: Pubkey|
            is_missing(before, allow_uninitialized, keys, key) ==> #[trigger] resolved(
                after,
                key,
            ).is_some(),
    ensures
        instruction_resolves(after, allow_uninitialized, keys),
{
    assert forall|at: int|
        0 <= at < keys.len() && must_resolve(allow_uninitialized, at) implies resolved(
        after,
        #[trigger] keys[at],
    ).is_some() by {
        let key = keys[at];
        if resolved(before, key).is_none() {
            assert(is_missing(before, allow_uninitialized, keys, key));
        }
    }
}

impl Default for AccountsDb {
    /// A store with the default system variables and nothing else.
    fn default() -> (db: AccountsDb)
        ensures
            db@ == AccountsDb::default_view(),
    {
        AccountsDb {
            scenario: Scenario::default(),
            accounts: AccountMap::new(),
            programs: Vec::new(),
            sysvars: Sysvars::default(),
        }
    }
}

impl AccountsDb {
    /// The store that a session starts with: the default system variables and
    /// nothing else.
    pub open spec fn default_view() -> AccountsDbView {
        AccountsDbView {
            scenario: empty_scenario(),
            accounts: Map::empty(),
            programs: Seq::empty(),
            sysvars: default_sysvars(),
        }
    }

    /// Resolves `pubkey` without asking a remote source.
    pub fn account_maybe(&self, pubkey: &Pubkey) -> (found: Option<AccountSharedData>)
        ensures
            match found {
                Some(account) => resolved(self@, *pubkey) == Some(account@),
                None => resolved(self@, *pubkey).is_none(),
            },
    {
        match sysvar_kind(pubkey) {
            Some(kind) => Some(self.sysvars.account_of(kind)),
            None => match self.scenario.get(pubkey) {
                Some(account) => Some(account),
                None => self.accounts.get(pubkey),
            },
        }
    }

    /// Whether the remote source is to be asked for `pubkey`: no layer of the
    /// store resolves it, and a remote source is configured.
    pub fn needs_fetch(&self, pubkey: &Pubkey) -> (needed: bool)
        ensures
            needed == (resolved(self@, *pubkey).is_none() && self@.scenario.rpc_url.is_some()),
    {
        self.account_maybe(pubkey).is_none() && self.scenario.has_rpc()
    }

    /// Resolves `pubkey`, which must resolve, from the layers of the store.
    ///
    /// Fails with `AccountNotFound` exactly where no layer resolves it.
    pub fn account(&self, pubkey: &Pubkey) -> (found: Result<AccountSharedData, SeashellError>)
        ensures
            match resolved(self@, *pubkey) {
                Some(account) => found matches Ok(got) && got@ == account,
                None => found == Err::<AccountSharedData, SeashellError>(
                    SeashellError::AccountNotFound,
                ),
            },
    {
        match self.account_maybe(pubkey) {
            Some(account) => Ok(account),
            None => Err(SeashellError::AccountNotFound),
        }
    }

    /// Resolves `pubkey`, which must resolve, with the remote source as the
    /// last resort: `fetched` is what the remote source answers for `pubkey`.
    ///
    /// Where a layer of the store resolves `pubkey`, that record is returned
    /// and the answer is not looked at. Otherwise, without a remote source this
    /// fails with `AccountNotFound`; where the remote source failed, it fails
    /// with `RemoteFetchFailed`; else the fetched record is kept in the overlay,
    /// which is marked as changed, and returned. A failure changes nothing.
    pub fn account_or_fetched(&mut self, pubkey: &Pubkey, fetched: Result<Account, String>) -> (found:
        Result<AccountSharedData, SeashellError>)
        ensures
            match resolved(old(self)@, *pubkey) {
                Some(account) => found matches Ok(got) && got@ == account && final(self)@ == old(self)@,
                None => if old(self)@.scenario.rpc_url.is_none() {
                    found == Err::<AccountSharedData, SeashellError>(SeashellError::AccountNotFound)
                        && final(self)@ == old(self)@
                } else {
                    match fetched {
                        Err(message) => found == Err::<AccountSharedData, SeashellError>(
                            SeashellError::RemoteFetchFailed(message),
                        ) && final(self)@ == old(self)@,
                        Ok(account) => found matches Ok(got) && got@ == account@ && final(self)@
                            == (AccountsDbView {
                            scenario: old(self)@.scenario.with_entry(*pubkey, account@),
                            ..old(self)@
                        }),
                    }
                },
            },
    {
        match self.account_maybe(pubkey) {
            Some(account) => Ok(account),
            None => {
                if !self.scenario.has_rpc() {
                    return Err(SeashellError::AccountNotFound);
                }
                self.scenario.fetch_from_rpc(pubkey, fetched)
            },
        }
    }

    /// Writes `account` under `pubkey`.
    ///
    /// A system variable is written to the cache, from the data of `account`,
    /// and to no other layer; this fails with `InvalidSystemVariableEncoding`,
    /// and changes nothing, where the data does not decode. Any other key is
    /// written to the base accounts.
    pub fn set_account(&mut self, pubkey: Pubkey, account: AccountSharedData) -> (done: Result<
        (),
        SeashellError,
    >)
        ensures
            match account_written(old(self)@, pubkey, account@) {
                Some(written) => done == Ok::<(), SeashellError>(()) && final(self)@ == written,
                None => done == Err::<(), SeashellError>(
                    SeashellError::InvalidSystemVariableEncoding,
                ) && final(self)@ == old(self)@,
            },
    {
        if self.sysvars.is_sysvar(&pubkey) {
            self.sysvars.set(&pubkey, account)
        } else {
            self.accounts.insert(pubkey, account);
            Ok(())
        }
    }

    /// Writes each of `updates` in turn, and stops at the first that fails.
    pub fn set_accounts(&mut self, updates: Vec<(Pubkey, AccountSharedData)>) -> (done: Result<
        (),
        SeashellError,
    >)
        ensures
            final(self)@ == updates_written(old(self)@, updates@, updates@.len() as int).0,
            done.is_ok() == updates_written(old(self)@, updates@, updates@.len() as int).1,
            done.is_err() ==> done == Err::<(), SeashellError>(
                SeashellError::InvalidSystemVariableEncoding,
            ),
    {
        self.write_all(updates.as_slice())
    }

    /// Writes a copy of each of `updates` in turn, and stops at the first that fails.
    pub fn write_all(&mut self, updates: &[(Pubkey, AccountSharedData)]) -> (done: Result<
        (),
        SeashellError,
    >)
        ensures
            final(self)@ == updates_written(old(self)@, updates@, updates@.len() as int).0,
            done.is_ok() == updates_written(old(self)@, updates@, updates@.len() as int).1,
            done.is_err() ==> done == Err::<(), SeashellError>(
                SeashellError::InvalidSystemVariableEncoding,
            ),
    {
        let mut i: usize = 0;
        while i < updates.len()
            invariant
                i <= updates@.len(),
                updates_written(old(self)@, updates@, i as int) == (self@, true),
            decreases updates@.len() - i,
        {
            let key = updates[i].0;
            let account = updates[i].1.clone();
            match self.set_account(key, account) {
                Ok(()) => {},
                Err(e) => {
                    proof {
                        lemma_updates_stay_failed(
                            old(self)@,
                            updates@,
                            i as int + 1,
                            updates@.len() as int,
                        );
                    }
                    return Err(e);
                },
            }
            i += 1;
        }
        Ok(())
    }

    /// Writes a record without balance or data, owned by `pubkey` itself,
    /// under `pubkey`.
    pub fn set_account_mock(&mut self, pubkey: Pubkey) -> (done: Result<(), SeashellError>)
        ensures
            match account_written(old(self)@, pubkey, zeroed_account(0, 0, pubkey)) {
                Some(written) => done == Ok::<(), SeashellError>(()) && final(self)@ == written,
                None => done == Err::<(), SeashellError>(
                    SeashellError::InvalidSystemVariableEncoding,
                ) && final(self)@ == old(self)@,
            },
    {
        let account = mock_account_shared_data(pubkey);
        self.set_account(pubkey, account)
    }
}

impl AccountsDb {
    /// The accounts that an instruction runs on: the program's first, then
    /// one for each reference, in the order of the references.
    ///
    /// The program's key must resolve. The key of a reference must resolve
    /// unless `allow_uninitialized_accounts` is set: then a key that resolves to
    /// nothing is given the empty record. Fails with `AccountNotFound` exactly
    /// where a key that must resolve does not. No remote source is asked: see
    /// [`AccountsDb::missing_for_instruction`].
    pub fn accounts_for_instruction(
        &self,
        allow_uninitialized_accounts: bool,
        instruction: &Instruction,
    ) -> (found: Result<Vec<TransactionAccount>, SeashellError>)
        ensures
            ({
                let keys = touched_keys(instruction.program_id, instruction.accounts@);
                match found {
                    Ok(accounts) => {
                        &&& instruction_resolves(self@, allow_uninitialized_accounts, keys)
                        &&& accounts@.len() == keys.len()
                        &&& forall|at: int|
                            0 <= at < keys.len() ==> (#[trigger] accounts@[at]).0 == keys[at]
                                && accounts@[at].1@ == account_seen(self@, keys[at])
                    },
                    Err(e) => e == SeashellError::AccountNotFound && !instruction_resolves(
                        self@,
                        allow_uninitialized_accounts,
                        keys,
                    ),
                }
            }),
    {
        let ghost keys = touched_keys(instruction.program_id, instruction.accounts@);
        let program = match self.account_maybe(&instruction.program_id) {
            Some(account) => account,
            None => {
                assert(keys[0] == instruction.program_id);
                return Err(SeashellError::AccountNotFound);
            },
        };
        let mut accounts: Vec<TransactionAccount> = Vec::new();
        accounts.push((instruction.program_id, program));
        let mut i: usize = 0;
        while i < instruction.accounts.len()
            invariant
                i <= instruction.accounts@.len(),
                keys == touched_keys(instruction.program_id, instruction.accounts@),
                accounts@.len() == i + 1,
                forall|at: int|
                    0 <= at <= i ==> (#[trigger] accounts@[at]).0 == keys[at] && accounts@[at].1@
                        == account_seen(self@, keys[at]),
                forall|at: int|
                    0 <= at <= i && must_resolve(allow_uninitialized_accounts, at) ==> resolved(
                        self@,
                        #[trigger] keys[at],
                    ).is_some(),
            decreases instruction.accounts@.len() - i,
        {
            let pubkey = instruction.accounts[i].pubkey;
            assert(keys[i + 1] == pubkey);
            let account = match self.account_maybe(&pubkey) {
                Some(account) => account,
                None => {
                    if !allow_uninitialized_accounts {
                        return Err(SeashellError::AccountNotFound);
                    }
                    Account::default()
                },
            };
            accounts.push((pubkey, account));
            i += 1;
        }
        Ok(accounts)
    }

    /// The keys that the remote source is to be asked for before the accounts
    /// of an instruction can be resolved: every key that must resolve and
    /// does not, each once.
    pub fn missing_for_instruction(
        &self,
        allow_uninitialized_accounts: bool,
        instruction: &Instruction,
    ) -> (missing: Vec<Pubkey>)
        ensures
            missing@.no_duplicates(),
            forall|key: Pubkey|
                missing@.contains(key) <==> is_missing(
                    self@,
                    allow_uninitialized_accounts,
                    touched_keys(instruction.program_id, instruction.accounts@),
                    key,
                ),
    {
        let ghost keys = touched_keys(instruction.program_id, instruction.accounts@);
        let mut missing: Vec<Pubkey> = Vec::new();
        if self.account_maybe(&instruction.program_id).is_none() {
            missing.push(instruction.program_id);
        }
        proof {
            assert(keys[0] == instruction.program_id);
            assert forall|key: Pubkey|
                missing@.contains(key) <==> is_missing(
                    self@,
                    allow_uninitialized_accounts,
                    keys.take(1),
                    key,
                ) by {
                if missing@.contains(key) {
                    assert(missing@[0] == key);
                    assert(0 <= 0 < keys.take(1).len() && must_resolve(
                        allow_uninitialized_accounts,
                        0,
                    ) && keys.take(1)[0] == key);
                }
                if is_missing(self@, allow_uninitialized_accounts, keys.take(1), key) {
                    assert(missing@[0] == key);
                }
            }
        }
        if allow_uninitialized_accounts {
            proof {
                assert forall|key: Pubkey|
                    is_missing(self@, allow_uninitialized_accounts, keys, key) == is_missing(
                        self@,
                        allow_uninitialized_accounts,
                        keys.take(1),
                        key,
                    ) by {
                    if is_missing(self@, allow_uninitialized_accounts, keys, key) {
                        assert(keys.take(1)[0] == key);
                    }
                    if is_missing(self@, allow_uninitialized_accounts, keys.take(1), key) {
                        assert(keys[0] == key);
                    }
                }
            }
            return missing;
        }
        let mut i: usize = 0;
        while i < instruction.accounts.len()
            invariant
                i <= instruction.accounts@.len(),
                !allow_uninitialized_accounts,
                keys == touched_keys(instruction.program_id, instruction.accounts@),
                missing@.no_duplicates(),
                forall|key: Pubkey|
                    missing@.contains(key) <==> is_missing(
                        self@,
                        allow_uninitialized_accounts,
                        keys.take(i + 1),
                        key,
                    ),
            decreases instruction.accounts@.len() - i,
        {
            let pubkey = instruction.accounts[i].pubkey;
            let ghost before = missing@;
            let unresolved = self.account_maybe(&pubkey).is_none();
            let listed = contains_key(&missing, &pubkey);
            if unresolved && !listed {
                missing.push(pubkey);
            }
            proof {
                let shorter = keys.take(i + 1);
                let longer = keys.take(i + 2);
                assert(longer[i + 1] == pubkey);
                assert(missing@ == before || missing@ == before.push(pubkey));
                assert forall|key: Pubkey|
                    missing@.contains(key) <==> is_missing(
                        self@,
                        allow_uninitialized_accounts,
                        longer,
                        key,
                    ) by {
                    let was = is_missing(self@, allow_uninitialized_accounts, shorter, key);
                    assert(before.contains(key) == was);
                    if is_missing(self@, allow_uninitialized_accounts, longer, key) {
                        let at = choose|at: int|
                            0 <= at < longer.len() && must_resolve(allow_uninitialized_accounts, at)
                                && longer[at] == key && resolved(self@, key).is_none();
                        if at <= i {
                            assert(0 <= at < shorter.len() && must_resolve(
                                allow_uninitialized_accounts,
                                at,
                            ) && shorter[at] == key && resolved(self@, key).is_none());
                            assert(was);
                        } else {
                            assert(key == pubkey);
                        }
                        if before.contains(key) {
                            let j = choose|j: int| 0 <= j < before.len() && before[j] == key;
                            assert(missing@[j] == key);
                        } else {
                            assert(key == pubkey && unresolved && !listed);
                            assert(missing@[before.len() as int] == key);
                        }
                    }
                    if missing@.contains(key) {
                        let j = choose|j: int| 0 <= j < missing@.len() && missing@[j] == key;
                        if j < before.len() {
                            assert(before[j] == key);
                            assert(was);
                            let at = choose|at: int|
                                0 <= at < shorter.len() && must_resolve(
                                    allow_uninitialized_accounts,
                                    at,
                                ) && shorter[at] == key && resolved(self@, key).is_none();
                            assert(0 <= at < longer.len() && must_resolve(
                                allow_uninitialized_accounts,
                                at,
                            ) && longer[at] == key && resolved(self@, key).is_none());
                        } else {
                            assert(key == pubkey);
                            assert(0 <= i + 1 < longer.len() && must_resolve(
                                allow_uninitialized_accounts,
                                i + 1,
                            ) && longer[i + 1] == key && resolved(self@, key).is_none());
                        }
                    }
                }
            }
            i += 1;
        }
        proof {
            assert(keys.take(instruction.accounts@.len() as int + 1) =~= keys);
        }
        missing
    }

    /// The data that an instruction on `accounts` sees as the system variable
    /// `sysvar`: the data of the first of `accounts` under that key, else what
    /// the store resolves the key to, else nothing.
    pub fn sysvar_data_for_instruction(&self, accounts: &[TransactionAccount], sysvar: &Pubkey) -> (data:
        Vec<u8>)
        ensures
            data@ == sysvar_data_seen(self@, accounts@, *sysvar),
    {
        let ghost keys = listed_keys(accounts@);
        let mut i: usize = 0;
        while i < accounts.len()
            invariant
                i <= accounts@.len(),
                keys == listed_keys(accounts@),
                forall|j: int| 0 <= j < i ==> keys[j] != *sysvar,
            decreases accounts@.len() - i,
        {
            if accounts[i].0 == *sysvar {
                proof {
                    assert(keys[i as int] == *sysvar);
                    assert(is_first_occurrence(keys, *sysvar, i as int));
                    let first = first_occurrence(keys, *sysvar);
                    assert(is_first_occurrence(keys, *sysvar, first));
                    assert(first == i) by {
                        if first < i {
                            assert(keys[first] != *sysvar);
                        }
                    }
                    assert(0 <= i < keys.len() as int && i < keys.len() && keys[i as int] == *sysvar);
                }
                return accounts[i].1.data.clone();
            }
            i += 1;
        }
        proof {
            if occurs_before(keys, *sysvar, keys.len() as int) {
                let q = choose|q: int|
                    0 <= q < keys.len() as int && q < keys.len() && keys[q] == *sysvar;
                assert(keys[q] != *sysvar);
            }
        }
        match self.account_maybe(sysvar) {
            Some(account) => account.data,
            None => Vec::new(),
        }
    }

    /// The system variables as an instruction on `accounts` sees them.
    ///
    /// For each system variable, a record that the instruction passes under
    /// its key wins over the cache of the store.
    pub fn sysvars_for_instruction(&self, accounts: &[TransactionAccount]) -> (cache: SysvarCache)
        ensures
            forall|kind: SysvarKind| #[trigger]
                cache.data_of(kind) == sysvar_data_seen(self@, accounts@, id_of(kind)),
    {
        SysvarCache {
            clock: self.sysvar_data_for_instruction(accounts, &sysvar_id(SysvarKind::Clock)),
            epoch_schedule: self.sysvar_data_for_instruction(
                accounts,
                &sysvar_id(SysvarKind::EpochSchedule),
            ),
            epoch_rewards: self.sysvar_data_for_instruction(
                accounts,
                &sysvar_id(SysvarKind::EpochRewards),
            ),
            rent: self.sysvar_data_for_instruction(accounts, &sysvar_id(SysvarKind::Rent)),
            slot_hashes: self.sysvar_data_for_instruction(
                accounts,
                &sysvar_id(SysvarKind::SlotHashes),
            ),
            stake_history: self.sysvar_data_for_instruction(
                accounts,
                &sysvar_id(SysvarKind::StakeHistory),
            ),
            last_restart_slot: self.sysvar_data_for_instruction(
                accounts,
                &sysvar_id(SysvarKind::LastRestartSlot),
            ),
        }
    }

    /// Makes the programs of the execution engine known to the store.
    ///
    /// Each of `builtins` that needs no feature, or whose feature is active,
    /// gets a marker account and is recorded. Loading stops at the first
    /// marker account that cannot be written.
    pub fn load_builtins(&mut self, builtins: &[Builtin], feature_set: &FeatureSet) -> (done: Result<
        (),
        SeashellError,
    >)
        ensures
            final(self)@ == builtins_loaded(
                old(self)@,
                builtins@,
                feature_set@,
                builtins@.len() as int,
            ).0,
            done.is_ok() == builtins_loaded(
                old(self)@,
                builtins@,
                feature_set@,
                builtins@.len() as int,
            ).1,
            done.is_err() ==> done == Err::<(), SeashellError>(
                SeashellError::InvalidSystemVariableEncoding,
            ),
    {
        let mut i: usize = 0;
        while i < builtins.len()
            invariant
                i <= builtins@.len(),
                builtins_loaded(old(self)@, builtins@, feature_set@, i as int) == (self@, true),
            decreases builtins@.len() - i,
        {
            let builtin = builtins[i];
            let enabled = match builtin.enable_feature_id {
                None => true,
                Some(feature) => feature_set.is_active(&feature),
            };
            if enabled {
                let marker = Account {
                    lamports: 1,
                    data: Vec::new(),
                    owner: Pubkey { bytes: NATIVE_LOADER_ID },
                    executable: true,
                    rent_epoch: 0,
                };
                assert(marker@ == marker_account());
                match self.set_account(builtin.program_id, marker) {
                    Ok(()) => {
                        self.programs.push(
                            ProgramRecord::Builtin {
                                program_id: builtin.program_id,
                                name_len: builtin.name_len,
                            },
                        );
                    },
                    Err(e) => {
                        proof {
                            lemma_builtins_stay_failed(
                                old(self)@,
                                builtins@,
                                feature_set@,
                                i as int + 1,
                                builtins@.len() as int,
                            );
                        }
                        return Err(e);
                    },
                }
            }
            i += 1;
        }
        Ok(())
    }

    /// Makes a program known to the store that was loaded from the image
    /// `bytes` by `loader`. `image_accepted` says whether the execution
    /// engine's loader accepted the image.
    ///
    /// Fails with `ProgramLoadFailed`, and changes nothing, where the image
    /// was not accepted. Otherwise the program's account is written: the
    /// balance that exempts the image's size from rent under the rent
    /// parameters of the store, as many zero bytes of data as the image has,
    /// executable, owned by the loader. Then the program is recorded as
    /// deployed and effective at the clock's slot.
    pub fn load_program_from_bytes_with_loader(
        &mut self,
        program_id: Pubkey,
        bytes: &[u8],
        loader: Pubkey,
        image_accepted: bool,
    ) -> (done: Result<(), SeashellError>)
        requires
            128 + bytes@.len() <= u64::MAX,
            (128 + bytes@.len()) * old(self)@.sysvars.rent.lamports_per_byte_year <= u64::MAX,
        ensures
            !image_accepted ==> done == Err::<(), SeashellError>(SeashellError::ProgramLoadFailed)
                && final(self)@ == old(self)@,
            image_accepted ==> match program_loaded(
                old(self)@,
                program_id,
                bytes@.len() as usize,
                loader,
            ) {
                Some(loaded) => done == Ok::<(), SeashellError>(()) && final(self)@ == loaded,
                None => done == Err::<(), SeashellError>(
                    SeashellError::InvalidSystemVariableEncoding,
                ) && final(self)@ == old(self)@,
            },
    {
        if !image_accepted {
            return Err(SeashellError::ProgramLoadFailed);
        }
        let current_slot = self.sysvars.clock().slot;
        let account_size = bytes.len();
        let minimum_balance_for_rent_exemption = self.sysvars.rent().minimum_balance(account_size);
        let mut account = Account::new(minimum_balance_for_rent_exemption, account_size, &loader);
        account.executable = true;
        match self.set_account(program_id, account) {
            Ok(()) => {
                self.programs.push(
                    ProgramRecord::Loaded {
                        program_id,
                        loader,
                        deployment_slot: current_slot,
                        effective_slot: current_slot,
                        account_size,
                    },
                );
                Ok(())
            },
            Err(e) => Err(e),
        }
    }
}

/// Whether `keys` holds `key`.
fn contains_key(keys: &Vec<Pubkey>, key: &Pubkey) -> (held: bool)
    ensures
        held == keys@.contains(*key),
{
    let mut i: usize = 0;
    while i < keys.len()
        invariant
            i <= keys@.len(),
            forall|j: int| 0 <= j < i ==> keys@[j] != *key,
        decreases keys@.len() - i,
    {
        if keys[i] == *key {
            return true;
        }
        i += 1;
    }
    false
}

/// Once a builtin has failed, the builtins behind it change nothing.
proof fn lemma_builtins_stay_failed(
    db: AccountsDbView,
    builtins: Seq<Builtin>,
    active: Set<Pubkey>,
    failed: int,
    upto: int,
)
    requires
        0 < failed <= upto,
        !builtins_loaded(db, builtins, active, failed).1,
    ensures
        builtins_loaded(db, builtins, active, upto) == builtins_loaded(db, builtins, active, failed),
    decreases upto - failed,
{
    if failed < upto {
        lemma_builtins_stay_failed(db, builtins, active, failed, upto - 1);
    }
}

/// Once an update has failed, the updates behind it change nothing.
proof fn lemma_updates_stay_failed(
    db: AccountsDbView,
    updates: Seq<(Pubkey, Account)>,
    failed: int,
    upto: int,
)
    requires
        0 < failed <= upto,
        !updates_written(db, updates, failed).1,
    ensures
        updates_written(db, updates, upto) == updates_written(db, updates, failed),
    decreases upto - failed,
{
    if failed < upto {
        lemma_updates_stay_failed(db, updates, failed, upto - 1);
    }
}

} // verus!
