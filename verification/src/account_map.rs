use crate::account::{Account, AccountView};
use crate::pubkey::Pubkey;
use vstd::prelude::*;

verus! {

/// A map from keys to account records.
///
/// The records are kept in a list in which no key occurs twice, in the order
/// in which their keys were first inserted.
#[derive(Debug)]
pub struct AccountMap {
    entries: Vec<(Pubkey, Account)>,
}

/// `key` is the key of one of the entries.
pub open spec fn holds_key(entries: Seq<(Pubkey, Account)>, key: Pubkey) -> bool {
    exists|i: int| 0 <= i < entries.len() && entries[i].0 == key
}

/// A position at which `key` stands, for a key that the entries hold.
pub open spec fn position_of(entries: Seq<(Pubkey, Account)>, key: Pubkey) -> int {
    choose|i: int| 0 <= i < entries.len() && entries[i].0 == key
}

/// No key occurs twice.
pub open spec fn keys_distinct(entries: Seq<(Pubkey, Account)>) -> bool {
    forall|i: int, j: int| 0 <= i < j < entries.len() ==> entries[i].0 != entries[j].0
}

/// The map that a list of entries stands for.
pub open spec fn entries_map(entries: Seq<(Pubkey, Account)>) -> Map<Pubkey, AccountView> {
    Map::new(
        |key: Pubkey| holds_key(entries, key),
        |key: Pubkey| entries[position_of(entries, key)].1@,
    )
}

proof fn lemma_entry_is_mapped(entries: Seq<(Pubkey, Account)>, i: int)
    requires
        keys_distinct(entries),
        0 <= i < entries.len(),
    ensures
        entries_map(entries).contains_key(entries[i].0),
        entries_map(entries)[entries[i].0] == entries[i].1@,
        position_of(entries, entries[i].0) == i,
{
    let key = entries[i].0;
    assert(holds_key(entries, key));
    let at = position_of(entries, key);
    if at < i {
        assert(entries[at].0 != entries[i].0);
    } else if i < at {
        assert(entries[i].0 != entries[at].0);
    }
}

/// The map that comes of inserting the first `upto` of `entries` into the
/// empty map, one after the other.
pub open spec fn entries_inserted(entries: Seq<(Pubkey, Account)>, upto: int) -> Map<
    Pubkey,
    AccountView,
>
    decreases upto,
{
    if upto <= 0 {
        Map::empty()
    } else {
        entries_inserted(entries, upto - 1).insert(entries[upto - 1].0, entries[upto - 1].1@)
    }
}

/// Inserting entries with distinct keys one after the other gives the map
/// that the entries stand for.
pub proof fn lemma_distinct_entries_insert_to_their_map(entries: Seq<(Pubkey, Account)>, upto: int)
    requires
        keys_distinct(entries),
        0 <= upto <= entries.len(),
    ensures
        entries_inserted(entries, upto) == entries_map(entries.take(upto)),
    decreases upto,
{
    if upto == 0 {
        assert(entries_map(entries.take(0)) =~= Map::<Pubkey, AccountView>::empty()) by {
            assert forall|key: Pubkey| !holds_key(entries.take(0), key) by {}
        }
    } else {
        lemma_distinct_entries_insert_to_their_map(entries, upto - 1);
        let shorter = entries.take(upto - 1);
        let longer = entries.take(upto);
        let added = entries[upto - 1];
        assert(keys_distinct(shorter));
        assert(keys_distinct(longer));
        assert forall|key: Pubkey|
            holds_key(longer, key) == (key == added.0 || holds_key(shorter, key)) by {
            if holds_key(longer, key) {
                let at = position_of(longer, key);
                if at < upto - 1 {
                    assert(shorter[at].0 == key);
                }
            }
            if holds_key(shorter, key) {
                let at = position_of(shorter, key);
                assert(longer[at].0 == key);
            }
            if key == added.0 {
                assert(longer[upto - 1].0 == key);
            }
        }
        assert forall|key: Pubkey| holds_key(longer, key) implies entries_map(longer)[key]
            == entries_map(shorter).insert(added.0, added.1@)[key] by {
            let at = position_of(longer, key);
            lemma_entry_is_mapped(longer, at);
            if key != added.0 {
                assert(at < upto - 1);
                lemma_entry_is_mapped(shorter, at);
            } else {
                lemma_entry_is_mapped(longer, upto - 1);
            }
        }
        assert(entries_map(longer) =~= entries_map(shorter).insert(added.0, added.1@));
    }
}

impl View for AccountMap {
    type V = Map<Pubkey, AccountView>;

    closed spec fn view(&self) -> Map<Pubkey, AccountView> {
        entries_map(self.entries@)
    }
}

impl AccountMap {
    #[verifier::type_invariant]
    spec fn well_formed(&self) -> bool {
        keys_distinct(self.entries@)
    }

    /// A map that holds nothing.
    pub fn new() -> (map: AccountMap)
        ensures
            map@ == Map::<Pubkey, AccountView>::empty(),
    {
        let map = AccountMap { entries: Vec::new() };
        assert(map@ =~= Map::<Pubkey, AccountView>::empty());
        map
    }

    /// The map that comes of inserting `entries` one after the other. Where
    /// no key occurs twice, this is the map that the entries stand for.
    pub fn from_entries(entries: Vec<(Pubkey, Account)>) -> (map: AccountMap)
        ensures
            map@ == entries_inserted(entries@, entries@.len() as int),
            keys_distinct(entries@) ==> map@ == entries_map(entries@),
    {
        let mut map = AccountMap::new();
        let mut i: usize = 0;
        while i < entries.len()
            invariant
                i <= entries@.len(),
                map@ == entries_inserted(entries@, i as int),
            decreases entries@.len() - i,
        {
            map.insert(entries[i].0, entries[i].1.clone());
            i += 1;
        }
        proof {
            if keys_distinct(entries@) {
                lemma_distinct_entries_insert_to_their_map(entries@, entries@.len() as int);
                assert(entries@.take(entries@.len() as int) =~= entries@);
            }
        }
        map
    }

    /// The position of `key` in the list, if the map holds it.
    fn find(&self, key: &Pubkey) -> (at: Option<usize>)
        ensures
            match at {
                Some(i) => i < self.entries@.len() && self.entries@[i as int].0 == *key,
                None => !holds_key(self.entries@, *key),
            },
    {
        let mut i: usize = 0;
        while i < self.entries.len()
            invariant
                i <= self.entries@.len(),
                forall|j: int| 0 <= j < i ==> self.entries@[j].0 != *key,
            decreases self.entries@.len() - i,
        {
            if self.entries[i].0 == *key {
                return Some(i);
            }
            i += 1;
        }
        None
    }

    /// Whether the map holds a record under `key`.
    pub fn contains_key(&self, key: &Pubkey) -> (held: bool)
        ensures
            held == self@.contains_key(*key),
    {
        let at = self.find(key);
        proof {
            if let Some(i) = at {
                assert(holds_key(self.entries@, *key));
            }
        }
        at.is_some()
    }

    /// A copy of the record under `key`, if the map holds one.
    pub fn get(&self, key: &Pubkey) -> (found: Option<Account>)
        ensures
            match found {
                Some(account) => self@.contains_key(*key) && account@ == self@[*key],
                None => !self@.contains_key(*key),
            },
    {
        match self.find(key) {
            Some(i) => {
                proof {
                    use_type_invariant(self);
                    lemma_entry_is_mapped(self.entries@, i as int);
                }
                Some(self.entries[i].1.clone())
            },
            None => None,
        }
    }

    /// Puts `account` under `key`, in place of the record that was there, if any.
    pub fn insert(&mut self, key: Pubkey, account: Account)
        ensures
            final(self)@ == old(self)@.insert(key, account@),
    {
        proof {
            use_type_invariant(&*self);
        }
        let ghost before = self.entries@;
        let ghost record = account@;
        let found = self.find(&key);
        let mut entries: Vec<(Pubkey, Account)> = Vec::new();
        core::mem::swap(&mut self.entries, &mut entries);
        match found {
            Some(i) => {
                entries[i] = (key, account);
                self.entries = entries;
                proof {
                    let after = self.entries@;
                    assert(keys_distinct(after));
                    assert forall|k: Pubkey| holds_key(after, k) == holds_key(before, k) by {
                        if holds_key(after, k) {
                            let at = position_of(after, k);
                            assert(before[at].0 == k);
                        }
                        if holds_key(before, k) {
                            let at = position_of(before, k);
                            assert(after[at].0 == k);
                        }
                    }
                    assert(holds_key(before, key));
                    assert forall|k: Pubkey| holds_key(after, k) implies entries_map(after)[k]
                        == entries_map(before).insert(key, record)[k] by {
                        let at = position_of(after, k);
                        lemma_entry_is_mapped(after, at);
                        if k != key {
                            lemma_entry_is_mapped(before, at);
                        } else {
                            lemma_entry_is_mapped(after, i as int);
                        }
                    }
                    assert(entries_map(after) =~= entries_map(before).insert(key, record));
                }
            },
            None => {
                entries.push((key, account));
                proof {
                    let after = entries@;
                    let last = before.len() as int;
                    assert forall|a: int, b: int| 0 <= a < b < after.len() implies after[a].0
                        != after[b].0 by {
                        if b == last {
                            if after[a].0 == key {
                                assert(holds_key(before, key));
                            }
                        }
                    }
                }
                self.entries = entries;
                proof {
                    let after = self.entries@;
                    let last = before.len() as int;
                    assert forall|k: Pubkey|
                        holds_key(after, k) == (k == key || holds_key(before, k)) by {
                        if holds_key(after, k) {
                            let at = position_of(after, k);
                            if at < last {
                                assert(before[at].0 == k);
                            }
                        }
                        if holds_key(before, k) {
                            let at = position_of(before, k);
                            assert(after[at].0 == k);
                        }
                        if k == key {
                            assert(after[last].0 == k);
                        }
                    }
                    assert forall|k: Pubkey| holds_key(after, k) implies entries_map(after)[k]
                        == entries_map(before).insert(key, record)[k] by {
                        let at = position_of(after, k);
                        lemma_entry_is_mapped(after, at);
                        if k != key {
                            lemma_entry_is_mapped(before, at);
                        } else {
                            lemma_entry_is_mapped(after, last);
                        }
                    }
                    assert(entries_map(after) =~= entries_map(before).insert(key, record));
                }
            },
        }
    }

    /// Every record of the map with its key, each key once.
    pub fn entries(&self) -> (list: Vec<(Pubkey, Account)>)
        ensures
            keys_distinct(list@),
            entries_map(list@) == self@,
    {
        proof {
            use_type_invariant(self);
        }
        let mut list: Vec<(Pubkey, Account)> = Vec::new();
        let mut i: usize = 0;
        while i < self.entries.len()
            invariant
                i <= self.entries@.len(),
                list@.len() == i,
                forall|j: int|
                    0 <= j < i ==> list@[j].0 == self.entries@[j].0 && list@[j].1@
                        == self.entries@[j].1@,
            decreases self.entries@.len() - i,
        {
            list.push((self.entries[i].0, self.entries[i].1.clone()));
            i += 1;
        }
        proof {
            let mine = self.entries@;
            let theirs = list@;
            assert forall|k: Pubkey| holds_key(theirs, k) == holds_key(mine, k) by {
                if holds_key(theirs, k) {
                    let at = position_of(theirs, k);
                    assert(mine[at].0 == k);
                }
                if holds_key(mine, k) {
                    let at = position_of(mine, k);
                    assert(theirs[at].0 == k);
                }
            }
            assert forall|k: Pubkey| holds_key(theirs, k) implies entries_map(theirs)[k]
                == entries_map(mine)[k] by {
                let at = position_of(theirs, k);
                lemma_entry_is_mapped(theirs, at);
                lemma_entry_is_mapped(mine, at);
            }
            assert(entries_map(theirs) =~= entries_map(mine));
        }
        list
    }
}

} // verus!
