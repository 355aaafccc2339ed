use crate::instruction::{AccountMeta, IndexOfAccount, Instruction, InstructionAccount};
use crate::pubkey::Pubkey;
use indexmap::IndexMap;
use vstd::prelude::*;

verus! {

/// Index of the program's own key among the accounts of a transaction.
pub const INSTRUCTION_PROGRAM_ID_INDEX: IndexOfAccount = 0;

/// `indexmap::IndexMap`, the hash map in which the privileges of an
/// instruction are merged. Nothing is known of a value of this type but what
/// the three functions below say of [`merged_entries`].
#[verifier::external_type_specification]
#[verifier::external_body]
#[verifier::reject_recursive_types(K)]
#[verifier::reject_recursive_types(V)]
#[verifier::reject_recursive_types(S)]
pub struct ExIndexMap<K, V, S>(IndexMap<K, V, S>);

/// What a map from key bytes to `(first position, signer, writable)` holds:
/// the value under each key that it has.
pub uninterp spec fn merged_entries(map: IndexMap<[u8; 32], (u16, bool, bool)>) -> Map<
    [u8; 32],
    (u16, bool, bool),
>;

/// `IndexMap::new`. The contract claims that the new map has no key.
#[verifier::external_body]
fn merged_new() -> (created: IndexMap<[u8; 32], (u16, bool, bool)>)
    ensures
        forall|key: [u8; 32]| !merged_entries(created).contains_key(key),
{
    IndexMap::new()
}

/// `IndexMap::get`. The contract claims that it finds the value stored under
/// `key` exactly if the map has that key, and leaves the map as it is.
#[verifier::external_body]
fn merged_get(map: &IndexMap<[u8; 32], (u16, bool, bool)>, key: &[u8; 32]) -> (value: Option<
    (u16, bool, bool),
>)
    ensures
        value == (if merged_entries(*map).contains_key(*key) {
            Some(merged_entries(*map)[*key])
        } else {
            None
        }),
{
    map.get(key).copied()
}

/// `IndexMap::insert`. The contract claims that afterwards the map has `key`
/// with `value`, in place of the value that `key` had before, if any, and
/// that every other key has the value that it had.
#[verifier::external_body]
fn merged_insert(map: &mut IndexMap<[u8; 32], (u16, bool, bool)>, key: [u8; 32], value: (
    u16,
    bool,
    bool,
))
    ensures
        merged_entries(*final(map)) == merged_entries(*old(map)).insert(key, value),
{
    map.insert(key, value);
}

/// Every key an instruction touches, in order and with repeats: the program's
/// key first, then the key of each reference.
pub open spec fn touched_keys(program: Pubkey, refs: Seq<AccountMeta>) -> Seq<Pubkey> {
    Seq::new(refs.len() + 1, |at: int| if at == 0 { program } else { refs[at - 1].pubkey })
}

/// `key` stands at one of the first `upto` positions of `keys`.
pub open spec fn occurs_before(keys: Seq<Pubkey>, key: Pubkey, upto: int) -> bool {
    exists|q: int| 0 <= q < upto && q < keys.len() && keys[q] == key
}

/// `at` is the first position of `keys` that holds `key`.
pub open spec fn is_first_occurrence(keys: Seq<Pubkey>, key: Pubkey, at: int) -> bool {
    &&& 0 <= at < keys.len()
    &&& keys[at] == key
    &&& forall|q: int| 0 <= q < at ==> keys[q] != key
}

/// The first position of `keys` that holds `key`, for a key that occurs.
pub open spec fn first_occurrence(keys: Seq<Pubkey>, key: Pubkey) -> int {
    choose|at: int| is_first_occurrence(keys, key, at)
}

/// One of the first `upto` references names `key` and asks to sign.
pub open spec fn signer_before(refs: Seq<AccountMeta>, key: Pubkey, upto: int) -> bool {
    exists|j: int| 0 <= j < upto && j < refs.len() && refs[j].pubkey == key && refs[j].is_signer
}

/// One of the first `upto` references names `key` and asks to write.
pub open spec fn writable_before(refs: Seq<AccountMeta>, key: Pubkey, upto: int) -> bool {
    exists|j: int|
        0 <= j < upto && j < refs.len() && refs[j].pubkey == key && refs[j].is_writable
}

/// The signer flag of `key` after merging: the OR over every reference to it.
pub open spec fn merged_signer(refs: Seq<AccountMeta>, key: Pubkey) -> bool {
    signer_before(refs, key, refs.len() as int)
}

/// The writable flag of `key` after merging: the OR over every reference to it.
pub open spec fn merged_writable(refs: Seq<AccountMeta>, key: Pubkey) -> bool {
    writable_before(refs, key, refs.len() as int)
}

/// The compiled entry for the reference at position `i`.
pub open spec fn compiled_entry(program: Pubkey, refs: Seq<AccountMeta>, i: int)
    -> InstructionAccount {
    InstructionAccount {
        index_in_transaction: first_occurrence(touched_keys(program, refs), refs[i].pubkey) as u16,
        signer: merged_signer(refs, refs[i].pubkey),
        writable: merged_writable(refs, refs[i].pubkey),
    }
}

/// The compiled account list of an instruction: one entry per reference, in
/// the order of the references.
pub open spec fn compiled_accounts(program: Pubkey, refs: Seq<AccountMeta>) -> Seq<
    InstructionAccount,
> {
    Seq::new(refs.len(), |i: int| compiled_entry(program, refs, i))
}

/// What the merge map holds once the program's key and the first `done`
/// references have been seen.
spec fn merged_through(
    held: Map<[u8; 32], (u16, bool, bool)>,
    program: Pubkey,
    refs: Seq<AccountMeta>,
    done: int,
) -> bool {
    let keys = touched_keys(program, refs);
    &&& forall|k: [u8; 32]| #[trigger]
        held.contains_key(k) <==> occurs_before(keys, Pubkey { bytes: k }, done + 1)
    &&& forall|k: [u8; 32]| #[trigger]
        held.contains_key(k) ==> {
            &&& is_first_occurrence(keys, Pubkey { bytes: k }, held[k].0 as int)
            &&& held[k].1 == signer_before(refs, Pubkey { bytes: k }, done)
            &&& held[k].2 == writable_before(refs, Pubkey { bytes: k }, done)
        }
}

proof fn lemma_first_occurrence_unique(keys: Seq<Pubkey>, key: Pubkey, a: int, b: int)
    requires
        is_first_occurrence(keys, key, a),
        is_first_occurrence(keys, key, b),
    ensures
        a == b,
{
}

proof fn lemma_first_occurrence_found(keys: Seq<Pubkey>, key: Pubkey, at: int)
    requires
        is_first_occurrence(keys, key, at),
    ensures
        first_occurrence(keys, key) == at,
{
    lemma_first_occurrence_unique(keys, key, at, first_occurrence(keys, key));
}

proof fn lemma_occurs_step(keys: Seq<Pubkey>, key: Pubkey, upto: int)
    requires
        0 <= upto < keys.len(),
    ensures
        occurs_before(keys, key, upto + 1) == (occurs_before(keys, key, upto) || keys[upto]
            == key),
{
    if occurs_before(keys, key, upto + 1) {
        let q = choose|q: int| 0 <= q < upto + 1 && q < keys.len() && keys[q] == key;
        if q < upto {
            assert(occurs_before(keys, key, upto));
        }
    }
    if occurs_before(keys, key, upto) {
        let q = choose|q: int| 0 <= q < upto && q < keys.len() && keys[q] == key;
        assert(0 <= q < upto + 1 && q < keys.len() && keys[q] == key);
    }
    if keys[upto] == key {
        assert(0 <= upto < upto + 1 && upto < keys.len() && keys[upto] == key);
    }
}

proof fn lemma_signer_step(refs: Seq<AccountMeta>, key: Pubkey, upto: int)
    requires
        0 <= upto < refs.len(),
    ensures
        signer_before(refs, key, upto + 1) == (signer_before(refs, key, upto) || (refs[upto].pubkey
            == key && refs[upto].is_signer)),
{
    if signer_before(refs, key, upto + 1) {
        let j = choose|j: int|
            0 <= j < upto + 1 && j < refs.len() && refs[j].pubkey == key && refs[j].is_signer;
        if j < upto {
            assert(signer_before(refs, key, upto));
        }
    }
    if signer_before(refs, key, upto) {
        let j = choose|j: int|
            0 <= j < upto && j < refs.len() && refs[j].pubkey == key && refs[j].is_signer;
        assert(0 <= j < upto + 1 && j < refs.len() && refs[j].pubkey == key && refs[j].is_signer);
    }
    if refs[upto].pubkey == key && refs[upto].is_signer {
        assert(0 <= upto < upto + 1 && upto < refs.len() && refs[upto].pubkey == key
            && refs[upto].is_signer);
    }
}

proof fn lemma_writable_step(refs: Seq<AccountMeta>, key: Pubkey, upto: int)
    requires
        0 <= upto < refs.len(),
    ensures
        writable_before(refs, key, upto + 1) == (writable_before(refs, key, upto) || (
        refs[upto].pubkey == key && refs[upto].is_writable)),
{
    if writable_before(refs, key, upto + 1) {
        let j = choose|j: int|
            0 <= j < upto + 1 && j < refs.len() && refs[j].pubkey == key && refs[j].is_writable;
        if j < upto {
            assert(writable_before(refs, key, upto));
        }
    }
    if writable_before(refs, key, upto) {
        let j = choose|j: int|
            0 <= j < upto && j < refs.len() && refs[j].pubkey == key && refs[j].is_writable;
        assert(0 <= j < upto + 1 && j < refs.len() && refs[j].pubkey == key
            && refs[j].is_writable);
    }
    if refs[upto].pubkey == key && refs[upto].is_writable {
        assert(0 <= upto < upto + 1 && upto < refs.len() && refs[upto].pubkey == key
            && refs[upto].is_writable);
    }
}

/// A key that no earlier position holds has asked for nothing yet.
proof fn lemma_unseen_key_has_no_privileges(
    program: Pubkey,
    refs: Seq<AccountMeta>,
    key: Pubkey,
    done: int,
)
    requires
        0 <= done <= refs.len(),
        !occurs_before(touched_keys(program, refs), key, done + 1),
    ensures
        !signer_before(refs, key, done),
        !writable_before(refs, key, done),
{
    let keys = touched_keys(program, refs);
    if signer_before(refs, key, done) {
        let j = choose|j: int|
            0 <= j < done && j < refs.len() && refs[j].pubkey == key && refs[j].is_signer;
        assert(0 <= j + 1 < done + 1 && j + 1 < keys.len() && keys[j + 1] == key);
    }
    if writable_before(refs, key, done) {
        let j = choose|j: int|
            0 <= j < done && j < refs.len() && refs[j].pubkey == key && refs[j].is_writable;
        assert(0 <= j + 1 < done + 1 && j + 1 < keys.len() && keys[j + 1] == key);
    }
}

/// Seeing one more reference keeps the merge map in step.
proof fn lemma_merge_step(
    held: Map<[u8; 32], (u16, bool, bool)>,
    program: Pubkey,
    refs: Seq<AccountMeta>,
    done: int,
)
    requires
        0 <= done < refs.len(),
        refs.len() <= u16::MAX,
        merged_through(held, program, refs, done),
    ensures
        ({
            let meta = refs[done];
            let k = meta.pubkey.bytes;
            let next = if held.contains_key(k) {
                (held[k].0, held[k].1 || meta.is_signer, held[k].2 || meta.is_writable)
            } else {
                ((done + 1) as u16, meta.is_signer, meta.is_writable)
            };
            merged_through(held.insert(k, next), program, refs, done + 1)
        }),
{
    let keys = touched_keys(program, refs);
    let meta = refs[done];
    let k = meta.pubkey.bytes;
    let next = if held.contains_key(k) {
        (held[k].0, held[k].1 || meta.is_signer, held[k].2 || meta.is_writable)
    } else {
        ((done + 1) as u16, meta.is_signer, meta.is_writable)
    };
    let after = held.insert(k, next);
    assert(keys[done + 1] == meta.pubkey);
    assert((Pubkey { bytes: k }) == meta.pubkey);
    assert forall|x: [u8; 32]| #[trigger]
        after.contains_key(x) <==> occurs_before(keys, Pubkey { bytes: x }, done + 2) by {
        lemma_occurs_step(keys, Pubkey { bytes: x }, done + 1);
    }
    assert forall|x: [u8; 32]| #[trigger] after.contains_key(x) implies {
        &&& is_first_occurrence(keys, Pubkey { bytes: x }, after[x].0 as int)
        &&& after[x].1 == signer_before(refs, Pubkey { bytes: x }, done + 1)
        &&& after[x].2 == writable_before(refs, Pubkey { bytes: x }, done + 1)
    } by {
        let key = Pubkey { bytes: x };
        lemma_signer_step(refs, key, done);
        lemma_writable_step(refs, key, done);
        if x == k {
            if !held.contains_key(k) {
                lemma_unseen_key_has_no_privileges(program, refs, key, done);
                assert forall|q: int| 0 <= q < done + 1 implies keys[q] != key by {
                    if keys[q] == key {
                        assert(0 <= q < done + 1 && q < keys.len() && keys[q] == key);
                    }
                }
            }
        } else {
            assert(held.contains_key(x));
        }
    }
}

/// Compiles the account references of an instruction into the list that an
/// execution engine takes.
///
/// The result has one entry per reference, in the order of the references.
/// Each entry carries the position at which its key first occurs among the
/// program's key followed by the keys of all references, and the signer and
/// writable flags of that key merged by OR over every reference to it. The
/// program's key takes position 0 and gets no entry of its own.
pub fn compile_accounts_for_instruction(ixn: &Instruction) -> (compiled: Vec<InstructionAccount>)
    requires
        ixn.accounts@.len() <= IndexOfAccount::MAX,
    ensures
        compiled@ == compiled_accounts(ixn.program_id, ixn.accounts@),
        compiled@.len() == ixn.accounts@.len(),
{
    let ghost program = ixn.program_id;
    let ghost refs = ixn.accounts@;
    let ghost keys = touched_keys(program, refs);
    let count = ixn.accounts.len();

    let mut merged = merged_new();
    merged_insert(&mut merged, ixn.program_id.bytes, (INSTRUCTION_PROGRAM_ID_INDEX, false, false));
    proof {
        let held = merged_entries(merged);
        assert(keys[0] == program);
        assert forall|k: [u8; 32]| #[trigger]
            held.contains_key(k) <==> occurs_before(keys, Pubkey { bytes: k }, 1) by {
            if k == program.bytes {
                assert((Pubkey { bytes: k }) == program);
                assert(0 <= 0 < 1 && 0 < keys.len() && keys[0] == program);
            }
        }
    }

    let mut i: usize = 0;
    while i < count
        invariant
            i <= count,
            count == refs.len(),
            refs.len() <= u16::MAX,
            refs == ixn.accounts@,
            program == ixn.program_id,
            merged_through(merged_entries(merged), program, refs, i as int),
        decreases count - i,
    {
        let meta = ixn.accounts[i];
        proof {
            lemma_merge_step(merged_entries(merged), program, refs, i as int);
        }
        let next = match merged_get(&merged, &meta.pubkey.bytes) {
            Some((at, signer, writable)) => (
                at,
                signer || meta.is_signer,
                writable || meta.is_writable,
            ),
            None => ((i + 1) as u16, meta.is_signer, meta.is_writable),
        };
        merged_insert(&mut merged, meta.pubkey.bytes, next);
        i += 1;
    }

    let mut compiled: Vec<InstructionAccount> = Vec::new();
    let mut j: usize = 0;
    while j < count
        invariant
            j <= count,
            count == refs.len(),
            refs == ixn.accounts@,
            program == ixn.program_id,
            keys == touched_keys(program, refs),
            merged_through(merged_entries(merged), program, refs, count as int),
            compiled@.len() == j,
            forall|x: int| 0 <= x < j ==> compiled@[x] == compiled_entry(program, refs, x),
        decreases count - j,
    {
        let meta = ixn.accounts[j];
        proof {
            assert(keys[j + 1] == meta.pubkey);
            assert(0 <= j + 1 < count + 1 && j + 1 < keys.len() && keys[j + 1] == meta.pubkey);
            assert((Pubkey { bytes: meta.pubkey.bytes }) == meta.pubkey);
            assert(merged_entries(merged).contains_key(meta.pubkey.bytes));
        }
        let (at, signer, writable) = merged_get(&merged, &meta.pubkey.bytes).unwrap();
        proof {
            lemma_first_occurrence_found(keys, meta.pubkey, at as int);
        }
        compiled.push(InstructionAccount::new(at, signer, writable));
        j += 1;
    }
    assert(compiled@ =~= compiled_accounts(program, refs));
    compiled
}

/// Every key that a reference names occurs among the touched keys, so its
/// first occurrence exists.
proof fn lemma_reference_has_first_occurrence(program: Pubkey, refs: Seq<AccountMeta>, i: int)
    requires
        0 <= i < refs.len(),
    ensures
        is_first_occurrence(
            touched_keys(program, refs),
            refs[i].pubkey,
            first_occurrence(touched_keys(program, refs), refs[i].pubkey),
        ),
{
    let keys = touched_keys(program, refs);
    let key = refs[i].pubkey;
    assert(keys[i + 1] == key);
    lemma_least_occurrence(keys, key, i + 1);
}

/// If `key` stands at position `at`, some position up to `at` is its first.
proof fn lemma_least_occurrence(keys: Seq<Pubkey>, key: Pubkey, at: int)
    requires
        0 <= at < keys.len(),
        keys[at] == key,
    ensures
        exists|first: int| first <= at && is_first_occurrence(keys, key, first),
    decreases at,
{
    if exists|q: int| 0 <= q < at && keys[q] == key {
        let q = choose|q: int| 0 <= q < at && keys[q] == key;
        lemma_least_occurrence(keys, key, q);
        let first = choose|first: int| first <= q && is_first_occurrence(keys, key, first);
        assert(first <= at && is_first_occurrence(keys, key, first));
    } else {
        assert(is_first_occurrence(keys, key, at));
    }
}

/// The transaction index of a compiled entry is the 0-based position at which
/// the key of its reference first occurs in the program's key followed by the
/// keys of all references. A reference to the program's own key gets index 0,
/// and no other reference does.
pub proof fn lemma_index_is_first_occurrence(program: Pubkey, refs: Seq<AccountMeta>, i: int)
    requires
        0 <= i < refs.len(),
        refs.len() <= IndexOfAccount::MAX,
    ensures
        ({
            let keys = touched_keys(program, refs);
            let index = compiled_accounts(program, refs)[i].index_in_transaction as int;
            &&& 0 <= index <= i + 1
            &&& keys[index] == refs[i].pubkey
            &&& forall|q: int| 0 <= q < index ==> keys[q] != refs[i].pubkey
            &&& (index == 0 <==> refs[i].pubkey == program)
        }),
{
    let keys = touched_keys(program, refs);
    let key = refs[i].pubkey;
    lemma_reference_has_first_occurrence(program, refs, i);
    let first = first_occurrence(keys, key);
    assert(keys[i + 1] == key);
    assert(keys[0] == program);
    assert(first <= i + 1);
}

/// Two references to one key compile to the same entry, and the flags of that
/// entry are the OR over every reference to the key: the entry is a signer
/// exactly if some reference to the key is, and likewise for writable. A
/// reference that asks for less than another one never takes a privilege away.
pub proof fn lemma_duplicates_share_escalated_flags(
    program: Pubkey,
    refs: Seq<AccountMeta>,
    i: int,
    j: int,
)
    requires
        0 <= i < refs.len(),
        0 <= j < refs.len(),
        refs[i].pubkey == refs[j].pubkey,
    ensures
        compiled_accounts(program, refs)[i] == compiled_accounts(program, refs)[j],
        compiled_accounts(program, refs)[i].signer == (exists|k: int|
            0 <= k < refs.len() && refs[k].pubkey == refs[i].pubkey && refs[k].is_signer),
        compiled_accounts(program, refs)[i].writable == (exists|k: int|
            0 <= k < refs.len() && refs[k].pubkey == refs[i].pubkey && refs[k].is_writable),
        refs[j].is_signer ==> compiled_accounts(program, refs)[i].signer,
        refs[j].is_writable ==> compiled_accounts(program, refs)[i].writable,
{
    let key = refs[i].pubkey;
    if merged_signer(refs, key) {
        let k = choose|k: int|
            0 <= k < refs.len() as int && k < refs.len() && refs[k].pubkey == key
                && refs[k].is_signer;
        assert(0 <= k < refs.len() && refs[k].pubkey == key && refs[k].is_signer);
    }
    if exists|k: int| 0 <= k < refs.len() && refs[k].pubkey == key && refs[k].is_signer {
        let k = choose|k: int| 0 <= k < refs.len() && refs[k].pubkey == key && refs[k].is_signer;
        assert(0 <= k < refs.len() as int && k < refs.len() && refs[k].pubkey == key
            && refs[k].is_signer);
    }
    if merged_writable(refs, key) {
        let k = choose|k: int|
            0 <= k < refs.len() as int && k < refs.len() && refs[k].pubkey == key
                && refs[k].is_writable;
        assert(0 <= k < refs.len() && refs[k].pubkey == key && refs[k].is_writable);
    }
    if exists|k: int| 0 <= k < refs.len() && refs[k].pubkey == key && refs[k].is_writable {
        let k = choose|k: int|
            0 <= k < refs.len() && refs[k].pubkey == key && refs[k].is_writable;
        assert(0 <= k < refs.len() as int && k < refs.len() && refs[k].pubkey == key
            && refs[k].is_writable);
    }
    if refs[j].is_signer {
        assert(0 <= j < refs.len() as int && j < refs.len() && refs[j].pubkey == key
            && refs[j].is_signer);
    }
    if refs[j].is_writable {
        assert(0 <= j < refs.len() as int && j < refs.len() && refs[j].pubkey == key
            && refs[j].is_writable);
    }
}

/// The merged flags of a key do not depend on the order of the references:
/// two lists that hold the same references, in any order, give every key the
/// same signer flag and the same writable flag.
pub proof fn lemma_escalation_ignores_order(
    refs: Seq<AccountMeta>,
    reordered: Seq<AccountMeta>,
    key: Pubkey,
)
    requires
        refs.to_multiset() == reordered.to_multiset(),
    ensures
        merged_signer(refs, key) == merged_signer(reordered, key),
        merged_writable(refs, key) == merged_writable(reordered, key),
{
    lemma_flags_carry_over(refs, reordered, key);
    lemma_flags_carry_over(reordered, refs, key);
}

/// Every privilege that `from` gives to `key` is given by `to` as well, when
/// `to` holds every reference that `from` holds.
proof fn lemma_flags_carry_over(from: Seq<AccountMeta>, to: Seq<AccountMeta>, key: Pubkey)
    requires
        from.to_multiset() == to.to_multiset(),
    ensures
        merged_signer(from, key) ==> merged_signer(to, key),
        merged_writable(from, key) ==> merged_writable(to, key),
{
    from.to_multiset_ensures();
    to.to_multiset_ensures();
    if merged_signer(from, key) {
        let j = choose|j: int|
            0 <= j < from.len() as int && j < from.len() && from[j].pubkey == key
                && from[j].is_signer;
        assert(from.contains(from[j]));
        assert(to.to_multiset().count(from[j]) > 0);
        assert(to.contains(from[j]));
        let k = choose|k: int| 0 <= k < to.len() && to[k] == from[j];
        assert(0 <= k < to.len() as int && k < to.len() && to[k].pubkey == key && to[k].is_signer);
    }
    if merged_writable(from, key) {
        let j = choose|j: int|
            0 <= j < from.len() as int && j < from.len() && from[j].pubkey == key
                && from[j].is_writable;
        assert(from.contains(from[j]));
        assert(to.to_multiset().count(from[j]) > 0);
        assert(to.contains(from[j]));
        let k = choose|k: int| 0 <= k < to.len() && to[k] == from[j];
        assert(0 <= k < to.len() as int && k < to.len() && to[k].pubkey == key
            && to[k].is_writable);
    }
}

/// An instruction without references compiles to an empty list, whatever its
/// program is.
pub proof fn lemma_no_references_compile_to_nothing(program: Pubkey)
    ensures
        compiled_accounts(program, Seq::empty()) == Seq::<InstructionAccount>::empty(),
{
    assert(compiled_accounts(program, Seq::empty()) =~= Seq::<InstructionAccount>::empty());
}

} // verus!
