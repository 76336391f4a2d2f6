//! The in-memory indexes of the shader cache: least-recently-used caches of
//! the `lru` crate, declared for Verus.

use vstd::prelude::*;

use lru::LruCache;

use crate::runtime::shader::cache::ProgramCacheEntry;

verus! {

#[verifier::external_type_specification]
#[verifier::external_body]
#[verifier::reject_recursive_types(K)]
#[verifier::reject_recursive_types(V)]
#[verifier::reject_recursive_types(S)]
pub struct ExLruCache<K, V, S>(LruCache<K, V, S>);

#[verifier::external_type_specification]
#[verifier::external_body]
pub struct ExLruDefaultHasher(lru::DefaultHasher);

/// No key occurs twice among the entries.
pub open spec fn keys_distinct<V>(e: Seq<(u64, V)>) -> bool {
    forall|i: int, j: int| 0 <= i < j < e.len() ==> #[trigger] e[i].0 != #[trigger] e[j].0
}

/// The position of `key` among the entries, if it occurs.
pub open spec fn find_key<V>(e: Seq<(u64, V)>, key: u64) -> Option<int> {
    if exists|i: int| 0 <= i < e.len() && #[trigger] e[i].0 == key {
        Some(choose|i: int| 0 <= i < e.len() && #[trigger] e[i].0 == key)
    } else {
        None
    }
}

/// A least-recently-used cache's entries, most recently used first, as
/// `lru` keeps them: distinct keys, no more than the capacity.
pub open spec fn lru_wf<V>(e: Seq<(u64, V)>, cap: nat) -> bool {
    &&& keys_distinct(e)
    &&& e.len() <= cap
}

/// The entries after a lookup of `key`: a hit moves the entry to the front.
pub open spec fn lru_after_get<V>(e: Seq<(u64, V)>, key: u64) -> Seq<(u64, V)> {
    match find_key(e, key) {
        Some(i) => seq![e[i]] + e.remove(i),
        None => e,
    }
}

/// The entries after storing `value` under `key`: the key's old entry goes,
/// or, when the key is new and the cache is full, the least recently used
/// entry goes; the new entry comes first.
pub open spec fn lru_after_put<V>(e: Seq<(u64, V)>, cap: nat, key: u64, value: V) -> Seq<(u64, V)> {
    match find_key(e, key) {
        Some(i) => seq![(key, value)] + e.remove(i),
        None => if e.len() == cap {
            seq![(key, value)] + e.drop_last()
        } else {
            seq![(key, value)] + e
        },
    }
}

/// What the SPIR-V index holds: key and SPIR-V bytes, most recently used first.
pub uninterp spec fn spv_index_entries(c: LruCache<u64, Vec<u8>>) -> Seq<(u64, Seq<u8>)>;

/// The capacity the SPIR-V index was made with.
pub uninterp spec fn spv_index_capacity(c: LruCache<u64, Vec<u8>>) -> nat;

/// What the program index holds: key and entry, most recently used first.
pub uninterp spec fn program_index_entries(c: LruCache<u64, ProgramCacheEntry>) -> Seq<
    (u64, ProgramCacheEntry),
>;

/// The capacity the program index was made with.
pub uninterp spec fn program_index_capacity(c: LruCache<u64, ProgramCacheEntry>) -> nat;

/// `LruCache::new`: an empty SPIR-V index that holds at most `cap` entries.
#[verifier::external_body]
pub(crate) fn new_spv_index(cap: usize) -> (r: LruCache<u64, Vec<u8>>)
    requires
        cap > 0,
    ensures
        spv_index_entries(r) == Seq::<(u64, Seq<u8>)>::empty(),
        spv_index_capacity(r) == cap,
{
    LruCache::new(std::num::NonZeroUsize::new(cap).unwrap())
}

/// `LruCache::get` on the SPIR-V index, the bytes copied out: a hit gives
/// the stored bytes and makes the entry the most recently used; a miss
/// changes nothing.  The entries always have distinct keys and fit the
/// capacity.
#[verifier::external_body]
pub(crate) fn spv_index_get(c: &mut LruCache<u64, Vec<u8>>, key: u64) -> (r: Option<Vec<u8>>)
    ensures
        lru_wf(spv_index_entries(*old(c)), spv_index_capacity(*old(c))),
        spv_index_capacity(*old(c)) > 0,
        spv_index_entries(*final(c)) == lru_after_get(spv_index_entries(*old(c)), key),
        spv_index_capacity(*final(c)) == spv_index_capacity(*old(c)),
        match find_key(spv_index_entries(*old(c)), key) {
            Some(i) => r matches Some(v) && v@ == spv_index_entries(*old(c))[i].1,
            None => r is None,
        },
{
    c.get(&key).cloned()
}

/// `LruCache::put` on the SPIR-V index: stores the bytes under `key` as the
/// most recently used entry (see `lru_after_put`).
#[verifier::external_body]
pub(crate) fn spv_index_put(c: &mut LruCache<u64, Vec<u8>>, key: u64, value: Vec<u8>)
    ensures
        lru_wf(spv_index_entries(*old(c)), spv_index_capacity(*old(c))),
        spv_index_capacity(*old(c)) > 0,
        spv_index_entries(*final(c)) == lru_after_put(
            spv_index_entries(*old(c)),
            spv_index_capacity(*old(c)),
            key,
            value@,
        ),
        spv_index_capacity(*final(c)) == spv_index_capacity(*old(c)),
{
    c.put(key, value);
}

/// `LruCache::new`: an empty program index that holds at most `cap` entries.
#[verifier::external_body]
pub(crate) fn new_program_index(cap: usize) -> (r: LruCache<u64, ProgramCacheEntry>)
    requires
        cap > 0,
    ensures
        program_index_entries(r) == Seq::<(u64, ProgramCacheEntry)>::empty(),
        program_index_capacity(r) == cap,
{
    LruCache::new(std::num::NonZeroUsize::new(cap).unwrap())
}

/// `LruCache::get` on the program index, the entry cloned out (a derived
/// `Clone`, field by field): a hit gives a copy of the stored entry and
/// makes it the most recently used; a miss changes nothing.
#[verifier::external_body]
pub(crate) fn program_index_get(c: &mut LruCache<u64, ProgramCacheEntry>, key: u64) -> (r: Option<
    ProgramCacheEntry,
>)
    ensures
        lru_wf(program_index_entries(*old(c)), program_index_capacity(*old(c))),
        program_index_capacity(*old(c)) > 0,
        program_index_entries(*final(c)) == lru_after_get(program_index_entries(*old(c)), key),
        program_index_capacity(*final(c)) == program_index_capacity(*old(c)),
        match find_key(program_index_entries(*old(c)), key) {
            Some(i) => r matches Some(e) && e.same_as(&program_index_entries(*old(c))[i].1),
            None => r is None,
        },
{
    c.get(&key).cloned()
}

/// `LruCache::put` on the program index: stores the entry under `key` as the
/// most recently used one (see `lru_after_put`).
#[verifier::external_body]
pub(crate) fn program_index_put(c: &mut LruCache<u64, ProgramCacheEntry>, key: u64, value: ProgramCacheEntry)
    ensures
        lru_wf(program_index_entries(*old(c)), program_index_capacity(*old(c))),
        program_index_capacity(*old(c)) > 0,
        program_index_entries(*final(c)) == lru_after_put(
            program_index_entries(*old(c)),
            program_index_capacity(*old(c)),
            key,
            value,
        ),
        program_index_capacity(*final(c)) == program_index_capacity(*old(c)),
{
    c.put(key, value);
}

} // verus!
