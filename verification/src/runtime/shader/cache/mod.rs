use vstd::prelude::*;
use vstd::string::StringExecFns;

use lru::LruCache;

use crate::error::FogleError;
use crate::runtime::shader::cache::index::{
    find_key, lru_after_get, lru_after_put, lru_wf, new_program_index, new_spv_index,
    program_index_capacity, program_index_entries, program_index_get, program_index_put,
    spv_index_capacity, spv_index_entries, spv_index_get, spv_index_put,
};
use crate::runtime::shader::transpilation::TranspileContext;
use crate::utils::chars::{parse_u64, spec_parse_u64, to_char_vec};
use crate::utils::path::{join, spec_join};
use crate::utils::text::{append_hex16, lemma_hex16_injective, spec_hex16};

pub mod index;
pub mod keys;

verus! {

/// How long cache files are kept when nothing else is asked for, in days.
pub const DEFAULT_CACHE_RETENTION_DAYS: u64 = 30;

/// How many SPIR-V modules the in-memory index keeps.
pub const SPV_INDEX_CAPACITY: usize = 50;

/// How many program entries the in-memory index keeps.
pub const PROGRAM_INDEX_CAPACITY: usize = 30;

/// A linked program as the cache keeps it: the driver's binary format and
/// bytes, and the transpile context that produced it.
#[derive(Clone)]
pub struct ProgramCacheEntry {
    pub format: u32,
    pub binary: Vec<u8>,
    pub transpile_context: TranspileContext,
}

impl ProgramCacheEntry {
    /// Whether `other` holds the same format, bytes and transpile context.
    pub open spec fn same_as(&self, other: &Self) -> bool {
        &&& self.format == other.format
        &&& self.binary@ == other.binary@
        &&& self.transpile_context.same_as(&other.transpile_context)
    }
}

/// The kinds of file in the cache directory.
#[derive(Debug, PartialEq, Eq, Structural, Clone, Copy)]
pub enum CacheFileKind {
    Spv,
    Progbin,
}

/// The name of the directory that the cache keeps inside its base directory.
pub open spec fn cache_dir_name() -> Seq<char> {
    "fogle_cache"@
}

/// The retention a `FOGLE_CACHE_RETENTION_DAYS` value asks for: its number
/// when it is one, else the default.
pub open spec fn spec_retention_days(value: Option<String>) -> u64 {
    match value {
        Some(v) => match spec_parse_u64(v@) {
            Some(d) => d,
            None => DEFAULT_CACHE_RETENTION_DAYS,
        },
        None => DEFAULT_CACHE_RETENTION_DAYS,
    }
}

/// The file name of the cached SPIR-V for `key`: sixteen hex digits, `.spv`.
pub open spec fn spec_spv_file_name(key: u64) -> Seq<char> {
    spec_hex16(key) + ".spv"@
}

/// The file name of the cached program for `key`: sixteen hex digits,
/// `.progbin`.
pub open spec fn spec_program_file_name(key: u64) -> Seq<char> {
    spec_hex16(key) + ".progbin"@
}

/// The file kind that an extension names, if any.
pub open spec fn spec_cache_file_kind(ext: Option<Seq<char>>) -> Option<CacheFileKind> {
    match ext {
        Some(e) => if e == "spv"@ {
            Some(CacheFileKind::Spv)
        } else if e == "progbin"@ {
            Some(CacheFileKind::Progbin)
        } else {
            None
        },
        None => None,
    }
}

/// The on-disk shader cache's settings and its in-memory indexes.
pub struct Cache {
    pub enabled: bool,
    pub target_dir: String,
    pub base_dir: String,
    pub retention_days: u64,
    pub spv_index: LruCache<u64, Vec<u8>>,
    pub program_index: LruCache<u64, ProgramCacheEntry>,
}

impl Cache {
    /// The SPIR-V index: key and bytes, most recently used first.
    pub open spec fn spv_entries(&self) -> Seq<(u64, Seq<u8>)> {
        spv_index_entries(self.spv_index)
    }

    /// How many entries the SPIR-V index keeps.
    pub open spec fn spv_capacity(&self) -> nat {
        spv_index_capacity(self.spv_index)
    }

    /// The program index: key and entry, most recently used first.
    pub open spec fn program_entries(&self) -> Seq<(u64, ProgramCacheEntry)> {
        program_index_entries(self.program_index)
    }

    /// How many entries the program index keeps.
    pub open spec fn program_capacity(&self) -> nat {
        program_index_capacity(self.program_index)
    }

    /// The cache as the environment configures it: `base_dir` is
    /// `MESA_GLSL_CACHE_DIR` (empty when unset), the cache is on unless
    /// `FOGLE_ENABLE_SHADER_CACHE` is set to anything but `1`, files are
    /// kept for `FOGLE_CACHE_RETENTION_DAYS` days (30 when unset or not a
    /// number), and the indexes start empty.
    pub fn from_env(
        base_dir: Option<String>,
        enable_flag: Option<String>,
        retention_days: Option<String>,
    ) -> (r: Self)
        ensures
            r.base_dir@ == (match base_dir {
                Some(b) => b@,
                None => Seq::<char>::empty(),
            }),
            r.target_dir@ == spec_join(r.base_dir@, cache_dir_name()),
            r.enabled == (match enable_flag {
                Some(f) => f@ == "1"@,
                None => true,
            }),
            r.retention_days == spec_retention_days(retention_days),
            r.spv_entries() == Seq::<(u64, Seq<u8>)>::empty(),
            r.spv_capacity() == SPV_INDEX_CAPACITY,
            r.program_entries() == Seq::<(u64, ProgramCacheEntry)>::empty(),
            r.program_capacity() == PROGRAM_INDEX_CAPACITY,
    {
        let base_dir = match base_dir {
            Some(b) => b,
            None => String::new(),
        };
        let enabled = match enable_flag {
            Some(f) => f == String::from_str("1"),
            None => true,
        };
        let days = match retention_days {
            Some(v) => {
                let chars = to_char_vec(v.as_str());
                assert(chars@.subrange(0, chars@.len() as int) =~= v@);
                match parse_u64(&chars, 0, chars.len()) {
                    Some(d) => d,
                    None => DEFAULT_CACHE_RETENTION_DAYS,
                }
            },
            None => DEFAULT_CACHE_RETENTION_DAYS,
        };
        let target_dir = join(&base_dir, "fogle_cache");
        Cache {
            enabled,
            target_dir,
            base_dir,
            retention_days: days,
            spv_index: new_spv_index(SPV_INDEX_CAPACITY),
            program_index: new_program_index(PROGRAM_INDEX_CAPACITY),
        }
    }

    /// The first half of setting the cache up: with no base directory the
    /// cache is switched off; switched off it stays off.  `true` when the
    /// cache directory is to be created and probed next (see `init_finish`).
    pub fn init_begin(&mut self) -> (r: bool)
        ensures
            r == (old(self).base_dir@.len() > 0 && old(self).enabled),
            final(self).enabled == (old(self).base_dir@.len() > 0 && old(self).enabled),
            final(self).base_dir == old(self).base_dir,
            final(self).target_dir == old(self).target_dir,
            final(self).retention_days == old(self).retention_days,
            final(self).spv_entries() == old(self).spv_entries(),
            final(self).spv_capacity() == old(self).spv_capacity(),
            final(self).program_entries() == old(self).program_entries(),
            final(self).program_capacity() == old(self).program_capacity(),
    {
        if self.base_dir.as_str().is_empty() {
            self.enabled = false;
            return false;
        }
        if !self.enabled {
            return false;
        }
        true
    }

    /// The second half of setting the cache up: it stays on only when its
    /// directory could be created and file access times could be set and
    /// read there.  `true` when stale files are to be swept next.
    pub fn init_finish(&mut self, dir_created: bool, atime_works: bool) -> (r: bool)
        ensures
            r == (old(self).enabled && dir_created && atime_works),
            final(self).enabled == r,
            final(self).base_dir == old(self).base_dir,
            final(self).target_dir == old(self).target_dir,
            final(self).retention_days == old(self).retention_days,
            final(self).spv_entries() == old(self).spv_entries(),
            final(self).spv_capacity() == old(self).spv_capacity(),
            final(self).program_entries() == old(self).program_entries(),
            final(self).program_capacity() == old(self).program_capacity(),
    {
        if !dir_created || !atime_works {
            self.enabled = false;
        }
        self.enabled
    }

    /// How old, in seconds, a file may grow before a sweep deletes it; `None`
    /// when the retention in days does not fit in 64 bits of seconds.
    pub fn retention_seconds(&self) -> (r: Option<u64>)
        ensures
            r == (if self.retention_days * 86400 <= u64::MAX {
                Some((self.retention_days * 86400) as u64)
            } else {
                None::<u64>
            }),
    {
        self.retention_days.checked_mul(86400)
    }

    /// The cache is to be used: refused when it is switched off.
    pub fn ensure_enabled(&self) -> (r: Result<(), FogleError>)
        ensures
            r == (if self.enabled {
                Ok::<(), FogleError>(())
            } else {
                Err(FogleError::CacheDisabled)
            }),
    {
        if self.enabled {
            Ok(())
        } else {
            Err(FogleError::CacheDisabled)
        }
    }

    /// The path of the cached SPIR-V for `key`.
    pub fn spv_path(&self, key: u64) -> (r: String)
        ensures
            r@ == spec_join(self.target_dir@, spec_spv_file_name(key)),
    {
        let mut name = String::new();
        append_hex16(&mut name, key);
        name.append(".spv");
        join(&self.target_dir, name.as_str())
    }

    /// The path of the cached program for `key`.
    pub fn program_path(&self, key: u64) -> (r: String)
        ensures
            r@ == spec_join(self.target_dir@, spec_program_file_name(key)),
    {
        let mut name = String::new();
        append_hex16(&mut name, key);
        name.append(".progbin");
        join(&self.target_dir, name.as_str())
    }

    /// Looks the SPIR-V for `key` up in memory: refused when the cache is
    /// off; a hit gives the bytes (and makes them the most recently used);
    /// `None` means the file is to be read (see `remember_spv`).
    pub fn lookup_spv(&mut self, key: u64) -> (r: Result<Option<Vec<u8>>, FogleError>)
        ensures
            !old(self).enabled ==> r == Err::<Option<Vec<u8>>, FogleError>(FogleError::CacheDisabled)
                && final(self).spv_entries() == old(self).spv_entries(),
            old(self).enabled ==> final(self).spv_entries() == lru_after_get(
                old(self).spv_entries(),
                key,
            ) && match find_key(old(self).spv_entries(), key) {
                Some(i) => r matches Ok(Some(v)) && v@ == old(self).spv_entries()[i].1,
                None => r matches Ok(None),
            },
            final(self).enabled == old(self).enabled,
            final(self).base_dir == old(self).base_dir,
            final(self).target_dir == old(self).target_dir,
            final(self).retention_days == old(self).retention_days,
            final(self).spv_capacity() == old(self).spv_capacity(),
            final(self).program_entries() == old(self).program_entries(),
            final(self).program_capacity() == old(self).program_capacity(),
    {
        if !self.enabled {
            return Err(FogleError::CacheDisabled);
        }
        Ok(spv_index_get(&mut self.spv_index, key))
    }

    /// Keeps the SPIR-V for `key` in memory, as the most recently used.
    pub fn remember_spv(&mut self, key: u64, spv: Vec<u8>)
        ensures
            final(self).spv_entries() == lru_after_put(
                old(self).spv_entries(),
                old(self).spv_capacity(),
                key,
                spv@,
            ),
            lru_wf(old(self).spv_entries(), old(self).spv_capacity()),
            old(self).spv_capacity() > 0,
            final(self).enabled == old(self).enabled,
            final(self).base_dir == old(self).base_dir,
            final(self).target_dir == old(self).target_dir,
            final(self).retention_days == old(self).retention_days,
            final(self).spv_capacity() == old(self).spv_capacity(),
            final(self).program_entries() == old(self).program_entries(),
            final(self).program_capacity() == old(self).program_capacity(),
    {
        spv_index_put(&mut self.spv_index, key, spv);
    }

    /// Looks the program entry for `key` up in memory: refused when the
    /// cache is off; a hit gives a copy of the entry (and makes it the most
    /// recently used); `None` means the file is to be read.
    pub fn lookup_program(&mut self, key: u64) -> (r: Result<Option<ProgramCacheEntry>, FogleError>)
        ensures
            !old(self).enabled ==> r == Err::<Option<ProgramCacheEntry>, FogleError>(
                FogleError::CacheDisabled,
            ) && final(self).program_entries() == old(self).program_entries(),
            old(self).enabled ==> final(self).program_entries() == lru_after_get(
                old(self).program_entries(),
                key,
            ) && match find_key(old(self).program_entries(), key) {
                Some(i) => r matches Ok(Some(e)) && e.same_as(&old(self).program_entries()[i].1),
                None => r matches Ok(None),
            },
            final(self).enabled == old(self).enabled,
            final(self).base_dir == old(self).base_dir,
            final(self).target_dir == old(self).target_dir,
            final(self).retention_days == old(self).retention_days,
            final(self).spv_entries() == old(self).spv_entries(),
            final(self).spv_capacity() == old(self).spv_capacity(),
            final(self).program_capacity() == old(self).program_capacity(),
    {
        if !self.enabled {
            return Err(FogleError::CacheDisabled);
        }
        Ok(program_index_get(&mut self.program_index, key))
    }

    /// Keeps the program entry for `key` in memory, as the most recently used.
    pub fn remember_program(&mut self, key: u64, entry: ProgramCacheEntry)
        ensures
            final(self).program_entries() == lru_after_put(
                old(self).program_entries(),
                old(self).program_capacity(),
                key,
                entry,
            ),
            lru_wf(old(self).program_entries(), old(self).program_capacity()),
            old(self).program_capacity() > 0,
            final(self).enabled == old(self).enabled,
            final(self).base_dir == old(self).base_dir,
            final(self).target_dir == old(self).target_dir,
            final(self).retention_days == old(self).retention_days,
            final(self).spv_entries() == old(self).spv_entries(),
            final(self).spv_capacity() == old(self).spv_capacity(),
            final(self).program_capacity() == old(self).program_capacity(),
    {
        program_index_put(&mut self.program_index, key, entry);
    }
}

/// The kind of a cache file by its extension; other files are no cache
/// files.
pub fn classify_cache_file(ext: Option<String>) -> (r: Option<CacheFileKind>)
    ensures
        r == spec_cache_file_kind(
            match ext {
                Some(e) => Some(e@),
                None => None,
            },
        ),
{
    match ext {
        Some(e) => {
            if e == String::from_str("spv") {
                Some(CacheFileKind::Spv)
            } else if e == String::from_str("progbin") {
                Some(CacheFileKind::Progbin)
            } else {
                None
            }
        },
        None => None,
    }
}

/// Whether a sweep of the cache directory deletes a file: only a cache file
/// (`kind` is its kind, if it is one) whose last access time is known and
/// lies before the cutoff, both in nanoseconds.
pub fn sweep_action(kind: Option<CacheFileKind>, atime_nanos: Option<u128>, cutoff_nanos: u128) -> (r:
    bool)
    ensures
        r == (kind is Some && atime_nanos is Some && atime_nanos->0 < cutoff_nanos),
{
    match (kind, atime_nanos) {
        (Some(_), Some(a)) => a < cutoff_nanos,
        _ => false,
    }
}

/// The tally of a sweep of the cache directory: the cache files of each kind
/// that remain, and the files deleted.
pub struct EvictionTally {
    pub spv_count: usize,
    pub progbin_count: usize,
    pub deleted: usize,
}

impl EvictionTally {
    /// Nothing seen yet.
    pub fn new() -> (r: Self)
        ensures
            r.spv_count == 0 && r.progbin_count == 0 && r.deleted == 0,
    {
        EvictionTally { spv_count: 0, progbin_count: 0, deleted: 0 }
    }

    /// A cache file of kind `kind` was found.
    pub fn count(&mut self, kind: CacheFileKind)
        requires
            old(self).spv_count < usize::MAX,
            old(self).progbin_count < usize::MAX,
        ensures
            final(self).spv_count == old(self).spv_count + (if kind == CacheFileKind::Spv { 1int } else { 0int }),
            final(self).progbin_count == old(self).progbin_count + (if kind == CacheFileKind::Progbin { 1int } else { 0int }),
            final(self).deleted == old(self).deleted,
    {
        match kind {
            CacheFileKind::Spv => self.spv_count = self.spv_count + 1,
            CacheFileKind::Progbin => self.progbin_count = self.progbin_count + 1,
        }
    }

    /// A counted cache file of kind `kind` was deleted.
    pub fn record_deleted(&mut self, kind: CacheFileKind)
        requires
            old(self).deleted < usize::MAX,
            kind == CacheFileKind::Spv ==> old(self).spv_count > 0,
            kind == CacheFileKind::Progbin ==> old(self).progbin_count > 0,
        ensures
            final(self).deleted == old(self).deleted + 1,
            final(self).spv_count == old(self).spv_count - (if kind == CacheFileKind::Spv { 1int } else { 0int }),
            final(self).progbin_count == old(self).progbin_count - (if kind == CacheFileKind::Progbin { 1int } else { 0int }),
    {
        self.deleted = self.deleted + 1;
        match kind {
            CacheFileKind::Spv => self.spv_count = self.spv_count - 1,
            CacheFileKind::Progbin => self.progbin_count = self.progbin_count - 1,
        }
    }

    /// The cache files that remain.
    pub fn total(&self) -> (r: usize)
        requires
            self.spv_count + self.progbin_count <= usize::MAX,
        ensures
            r == self.spv_count + self.progbin_count,
    {
        self.spv_count + self.progbin_count
    }
}

/// A value stored under a key is what a lookup of that key then finds, as
/// long as the cache can hold an entry at all: the read gives back the write.
pub proof fn lemma_lookup_after_remember<V>(e: Seq<(u64, V)>, cap: nat, key: u64, value: V)
    requires
        lru_wf(e, cap),
        cap > 0,
    ensures
        find_key(lru_after_put(e, cap, key, value), key) == Some(0int),
        lru_after_put(e, cap, key, value)[0] == (key, value),
        lru_wf(lru_after_put(e, cap, key, value), cap),
{
    let e2 = lru_after_put(e, cap, key, value);
    assert(e2[0] == (key, value));
    assert forall|i: int, j: int| 0 <= i < j < e2.len() implies #[trigger] e2[i].0 != #[trigger] e2[j].0 by {
        match find_key(e, key) {
            Some(k) => {
                let r = e.remove(k);
                if i == 0 {
                    assert(e2[j] == r[j - 1]);
                    if j - 1 < k {
                        assert(r[j - 1] == e[j - 1]);
                        assert(e[k].0 == key);
                    } else {
                        assert(r[j - 1] == e[j]);
                        assert(e[k].0 == key);
                    }
                } else {
                    assert(e2[i] == r[i - 1] && e2[j] == r[j - 1]);
                    let ii = if i - 1 < k { i - 1 } else { i };
                    let jj = if j - 1 < k { j - 1 } else { j };
                    assert(r[i - 1] == e[ii] && r[j - 1] == e[jj]);
                }
            },
            None => {
                let r = if e.len() == cap { e.drop_last() } else { e };
                if i == 0 {
                    assert(e2[j] == r[j - 1]);
                    assert(r[j - 1] == e[j - 1]);
                } else {
                    assert(e2[i] == r[i - 1] && e2[j] == r[j - 1]);
                    assert(r[i - 1] == e[i - 1] && r[j - 1] == e[j - 1]);
                }
            },
        }
    }
    assert(exists|i: int| 0 <= i < e2.len() && #[trigger] e2[i].0 == key) by {
        assert(e2[0].0 == key);
    }
    let c = choose|i: int| 0 <= i < e2.len() && #[trigger] e2[i].0 == key;
    if c != 0 {
        assert(e2[0].0 == e2[c].0);
    }
}

/// A lookup that hits moves the entry to the front, where the next lookup
/// finds it first; the entries stay well formed.
pub proof fn lemma_lookup_moves_to_front<V>(e: Seq<(u64, V)>, cap: nat, key: u64)
    requires
        lru_wf(e, cap),
    ensures
        lru_wf(lru_after_get(e, key), cap),
        lru_after_get(e, key).len() == e.len(),
        find_key(e, key) matches Some(i) ==> lru_after_get(e, key)[0] == e[i],
{
    match find_key(e, key) {
        Some(k) => {
            let e2 = lru_after_get(e, key);
            let r = e.remove(k);
            assert forall|i: int, j: int| 0 <= i < j < e2.len() implies #[trigger] e2[i].0 != #[trigger] e2[j].0 by {
                if i == 0 {
                    assert(e2[j] == r[j - 1]);
                    let jj = if j - 1 < k { j - 1 } else { j };
                    assert(r[j - 1] == e[jj]);
                } else {
                    assert(e2[i] == r[i - 1] && e2[j] == r[j - 1]);
                    let ii = if i - 1 < k { i - 1 } else { i };
                    let jj = if j - 1 < k { j - 1 } else { j };
                    assert(r[i - 1] == e[ii] && r[j - 1] == e[jj]);
                }
            }
        },
        None => {},
    }
}

/// Each key has its own files: distinct keys never share the path of their
/// cached SPIR-V, nor that of their cached program, and a SPIR-V file never
/// shares its path with a program file.
pub proof fn lemma_cache_paths_distinct(dir: Seq<char>, k1: u64, k2: u64)
    ensures
        k1 != k2 ==> spec_join(dir, spec_spv_file_name(k1)) != spec_join(dir, spec_spv_file_name(k2)),
        k1 != k2 ==> spec_join(dir, spec_program_file_name(k1)) != spec_join(
            dir,
            spec_program_file_name(k2),
        ),
        spec_join(dir, spec_spv_file_name(k1)) != spec_join(dir, spec_program_file_name(k2)),
{
    reveal_strlit(".spv");
    reveal_strlit(".progbin");
    let prefix = if dir.len() == 0 || dir.last() == '/' { dir } else { dir + seq!['/'] };
    assert forall|x: Seq<char>, y: Seq<char>| spec_join(dir, x) == spec_join(dir, y) implies x == y by {
        assert(spec_join(dir, x) == prefix + x);
        assert(spec_join(dir, y) == prefix + y);
        assert(x =~= (prefix + x).skip(prefix.len() as int));
        assert(y =~= (prefix + y).skip(prefix.len() as int));
    }
    if spec_spv_file_name(k1) == spec_spv_file_name(k2) {
        assert(spec_hex16(k1) =~= spec_spv_file_name(k1).take(16));
        assert(spec_hex16(k2) =~= spec_spv_file_name(k2).take(16));
        lemma_hex16_injective(k1, k2);
    }
    if spec_program_file_name(k1) == spec_program_file_name(k2) {
        assert(spec_hex16(k1) =~= spec_program_file_name(k1).take(16));
        assert(spec_hex16(k2) =~= spec_program_file_name(k2).take(16));
        lemma_hex16_injective(k1, k2);
    }
    assert(spec_spv_file_name(k1).len() != spec_program_file_name(k2).len());
}

} // verus!
