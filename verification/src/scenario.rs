use crate::account::{Account, AccountSharedData, AccountView};
use crate::account_map::{
    entries_inserted, entries_map, keys_distinct, lemma_distinct_entries_insert_to_their_map,
    AccountMap,
};
use crate::error::SeashellError;
use crate::pubkey::Pubkey;
use vstd::prelude::*;

verus! {

/// An overlay of account records above the base store of a session.
///
/// The overlay may be backed by a file, from which its records were loaded and
/// to which they are written back when the session ends, and by a remote
/// source, from which missing accounts are fetched. It remembers whether it
/// has changed since it was made. The overlay itself reads no file and asks no
/// remote source: it takes what was read or fetched, and says what is to be
/// written.
#[derive(Debug)]
pub struct Scenario {
    should_persist: bool,
    dirty: bool,
    data: AccountMap,
    path: Option<String>,
    rpc_url: Option<String>,
}

/// What a [`Scenario`] holds, as a mathematical value.
pub ghost struct ScenarioView {
    pub should_persist: bool,
    pub dirty: bool,
    pub entries: Map<Pubkey, AccountView>,
    pub path: Option<String>,
    pub rpc_url: Option<String>,
}

impl ScenarioView {
    /// Whether the end of the session writes the overlay to its file: it has
    /// changed, it is meant to persist, and it has a file.
    pub open spec fn flushes(self) -> bool {
        self.dirty && self.should_persist && self.path.is_some()
    }

    /// The overlay after a record was put under `key`.
    pub open spec fn with_entry(self, key: Pubkey, account: AccountView) -> ScenarioView {
        ScenarioView { dirty: true, entries: self.entries.insert(key, account), ..self }
    }
}

/// The overlay without records, file or remote source.
pub open spec fn empty_scenario() -> ScenarioView {
    ScenarioView {
        should_persist: false,
        dirty: false,
        entries: Map::empty(),
        path: None,
        rpc_url: None,
    }
}

/// What is to be written when a session ends: the file, and every record of
/// the overlay with its key, each key once.
#[derive(Debug)]
pub struct Snapshot {
    pub path: String,
    pub entries: Vec<(Pubkey, Account)>,
}

impl View for Scenario {
    type V = ScenarioView;

    closed spec fn view(&self) -> ScenarioView {
        ScenarioView {
            should_persist: self.should_persist,
            dirty: self.dirty,
            entries: self.data@,
            path: self.path,
            rpc_url: self.rpc_url,
        }
    }
}

impl Default for Scenario {
    /// An overlay without records, file or remote source.
    fn default() -> (scenario: Scenario)
        ensures
            scenario@ == empty_scenario(),
    {
        Scenario {
            should_persist: false,
            dirty: false,
            data: AccountMap::new(),
            path: None,
            rpc_url: None,
        }
    }
}

impl Scenario {
    /// An overlay backed by the file at `path`, with the records that were
    /// stored there: none where the file does not exist yet.
    pub fn from_file(path: String, stored: AccountMap) -> (scenario: Scenario)
        ensures
            scenario@ == (ScenarioView {
                should_persist: true,
                dirty: false,
                entries: stored@,
                path: Some(path),
                rpc_url: None,
            }),
    {
        Scenario { should_persist: true, dirty: false, data: stored, path: Some(path), rpc_url: None }
    }

    /// An overlay backed by the file at `path` and by the remote source at `rpc_url`.
    pub fn from_file_with_rpc(path: String, stored: AccountMap, rpc_url: String) -> (scenario:
        Scenario)
        ensures
            scenario@ == (ScenarioView {
                should_persist: true,
                dirty: false,
                entries: stored@,
                path: Some(path),
                rpc_url: Some(rpc_url),
            }),
    {
        let mut scenario = Scenario::from_file(path, stored);
        scenario.rpc_url = Some(rpc_url);
        scenario
    }

    /// An overlay backed by the remote source at `rpc_url` alone. It is never written.
    pub fn rpc_only(rpc_url: String) -> (scenario: Scenario)
        ensures
            scenario@ == (ScenarioView {
                should_persist: false,
                dirty: false,
                entries: Map::empty(),
                path: None,
                rpc_url: Some(rpc_url),
            }),
            !scenario@.flushes(),
    {
        Scenario {
            should_persist: false,
            dirty: false,
            data: AccountMap::new(),
            path: None,
            rpc_url: Some(rpc_url),
        }
    }

    /// Whether a remote source is configured.
    pub fn has_rpc(&self) -> (configured: bool)
        ensures
            configured == self@.rpc_url.is_some(),
    {
        self.rpc_url.is_some()
    }

    /// The address of the remote source, if one is configured.
    pub fn rpc_url(&self) -> (url: Option<&String>)
        ensures
            match url {
                Some(address) => self@.rpc_url == Some(*address),
                None => self@.rpc_url.is_none(),
            },
    {
        self.rpc_url.as_ref()
    }

    /// Whether the overlay has changed since it was made.
    pub fn is_dirty(&self) -> (dirty: bool)
        ensures
            dirty == self@.dirty,
    {
        self.dirty
    }

    /// Takes what the remote source answered when asked for `pubkey`.
    ///
    /// Without a remote source this fails with `RemoteNotConfigured`, whatever
    /// the answer. Where the remote source failed, this fails with
    /// `RemoteFetchFailed` and the source's message. In both cases the overlay
    /// stays as it was. Otherwise the record is stored under `pubkey`, the
    /// overlay is marked as changed, and the record is returned.
    pub fn fetch_from_rpc(&mut self, pubkey: &Pubkey, fetched: Result<Account, String>) -> (stored:
        Result<AccountSharedData, SeashellError>)
        ensures
            old(self)@.rpc_url.is_none() ==> stored == Err::<AccountSharedData, SeashellError>(
                SeashellError::RemoteNotConfigured,
            ) && final(self)@ == old(self)@,
            old(self)@.rpc_url.is_some() ==> match fetched {
                Err(message) => stored == Err::<AccountSharedData, SeashellError>(
                    SeashellError::RemoteFetchFailed(message),
                ) && final(self)@ == old(self)@,
                Ok(account) => stored matches Ok(kept) && kept@ == account@ && final(self)@ == old(self)@.with_entry(*pubkey, account@),
            },
    {
        if self.rpc_url.is_none() {
            return Err(SeashellError::RemoteNotConfigured);
        }
        match fetched {
            Err(message) => Err(SeashellError::RemoteFetchFailed(message)),
            Ok(account) => {
                self.dirty = true;
                self.data.insert(*pubkey, account.clone());
                Ok(account)
            },
        }
    }

    /// A copy of the record under `pubkey`, if the overlay holds one. The
    /// overlay does not change.
    pub fn get(&self, pubkey: &Pubkey) -> (found: Option<AccountSharedData>)
        ensures
            match found {
                Some(account) => self@.entries.contains_key(*pubkey) && account@
                    == self@.entries[*pubkey],
                None => !self@.entries.contains_key(*pubkey),
            },
    {
        self.data.get(pubkey)
    }

    /// Puts `account` under `pubkey` and marks the overlay as changed.
    pub fn insert(&mut self, pubkey: Pubkey, account: AccountSharedData)
        ensures
            final(self)@ == old(self)@.with_entry(pubkey, account@),
    {
        self.dirty = true;
        self.data.insert(pubkey, account);
    }

    /// Ends the overlay's life and says what is to be written.
    ///
    /// There is something to write exactly if the overlay has changed, is
    /// meant to persist and has a file: then every record goes to that file.
    /// An overlay that was only read, or that has no file, writes nothing.
    pub fn close(self) -> (written: Option<Snapshot>)
        ensures
            written.is_some() == self@.flushes(),
            !self@.dirty ==> written.is_none(),
            self@.path.is_none() ==> written.is_none(),
            written matches Some(snapshot) ==> {
                &&& self@.path == Some(snapshot.path)
                &&& keys_distinct(snapshot.entries@)
                &&& entries_map(snapshot.entries@) == self@.entries
            },
    {
        if self.dirty && self.should_persist {
            match self.path {
                Some(path) => Some(Snapshot { path, entries: self.data.entries() }),
                None => None,
            }
        } else {
            None
        }
    }
}

/// A snapshot that is loaded again gives the overlay its records back: where
/// `entries` are the entries of a snapshot of an overlay that held `records`,
/// inserting them one after the other gives `records` again.
pub proof fn lemma_snapshot_reloads_to_its_records(
    records: Map<Pubkey, AccountView>,
    entries: Seq<(Pubkey, Account)>,
)
    requires
        keys_distinct(entries),
        entries_map(entries) == records,
    ensures
        entries_inserted(entries, entries.len() as int) == records,
{
    lemma_distinct_entries_insert_to_their_map(entries, entries.len() as int);
    assert(entries.take(entries.len() as int) =~= entries);
}

} // verus!
