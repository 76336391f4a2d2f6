use fogltlogles::error::FogleError;
use fogltlogles::runtime::contexts::es::ESContext;
use fogltlogles::runtime::shader::cache::keys::{
    program_key_chunks, spv_key_chunks, u32_le_bytes, u64_le_bytes, TRANSPILE_VERSION,
};
use fogltlogles::runtime::shader::cache::{
    classify_cache_file, sweep_action, Cache, CacheFileKind, EvictionTally, ProgramCacheEntry,
    DEFAULT_CACHE_RETENTION_DAYS,
};
use fogltlogles::runtime::shader::transpilation::TranspileContext;
use fogltlogles::runtime::shader::{Program, Shader};

fn some(s: &str) -> Option<String> {
    Some(s.to_string())
}

fn entry(format: u32, binary: Vec<u8>) -> ProgramCacheEntry {
    ProgramCacheEntry { format, binary, transpile_context: TranspileContext::new() }
}

#[test]
fn settings_from_the_environment() {
    let cache = Cache::from_env(some("/data/cache"), None, None);
    assert!(cache.enabled);
    assert_eq!(cache.base_dir, "/data/cache");
    assert_eq!(cache.target_dir, "/data/cache/fogle_cache");
    assert_eq!(cache.retention_days, DEFAULT_CACHE_RETENTION_DAYS);
    assert_eq!(cache.retention_seconds(), Some(30 * 86400));

    let cache = Cache::from_env(some("/data/cache/"), some("0"), some("7"));
    assert!(!cache.enabled);
    assert_eq!(cache.target_dir, "/data/cache/fogle_cache");
    assert_eq!(cache.retention_days, 7);

    let cache = Cache::from_env(None, some("1"), some("seven"));
    assert!(cache.enabled);
    assert_eq!(cache.base_dir, "");
    assert_eq!(cache.target_dir, "fogle_cache");
    assert_eq!(cache.retention_days, 30);

    let cache = Cache::from_env(None, some("true"), some("18446744073709551615"));
    assert!(!cache.enabled);
    assert_eq!(cache.retention_days, u64::MAX);
    assert_eq!(cache.retention_seconds(), None);
}

#[test]
fn setting_up_the_cache() {
    let mut cache = Cache::from_env(None, None, None);
    assert!(!cache.init_begin());
    assert!(!cache.enabled);
    assert_eq!(cache.ensure_enabled(), Err(FogleError::CacheDisabled));

    let mut cache = Cache::from_env(some("/tmp/x"), None, None);
    assert!(cache.init_begin());
    assert!(!cache.init_finish(true, false));
    assert!(!cache.enabled);

    let mut cache = Cache::from_env(some("/tmp/x"), None, None);
    assert!(cache.init_begin());
    assert!(cache.init_finish(true, true));
    assert_eq!(cache.ensure_enabled(), Ok(()));
}

#[test]
fn cache_file_paths() {
    let cache = Cache::from_env(some("/tmp/x"), None, None);
    assert_eq!(cache.spv_path(0xff), "/tmp/x/fogle_cache/00000000000000ff.spv");
    assert_eq!(
        cache.program_path(0x0123_4567_89ab_cdef),
        "/tmp/x/fogle_cache/0123456789abcdef.progbin"
    );
    assert_eq!(cache.spv_path(u64::MAX), "/tmp/x/fogle_cache/ffffffffffffffff.spv");
    assert_ne!(cache.spv_path(1), cache.spv_path(0x10));
    assert_ne!(cache.spv_path(7), cache.program_path(7));
}

#[test]
fn a_disabled_cache_refuses_lookups() {
    let mut cache = Cache::from_env(some("/tmp/x"), some("0"), None);
    assert_eq!(cache.lookup_spv(1), Err(FogleError::CacheDisabled));
    assert!(matches!(cache.lookup_program(1), Err(FogleError::CacheDisabled)));
}

#[test]
fn spirv_lookup_gives_back_what_was_remembered() {
    let mut cache = Cache::from_env(some("/tmp/x"), None, None);
    assert_eq!(cache.lookup_spv(5), Ok(None));
    cache.remember_spv(5, vec![1, 2, 3, 4]);
    cache.remember_spv(6, vec![5, 6, 7, 8]);
    assert_eq!(cache.lookup_spv(5), Ok(Some(vec![1, 2, 3, 4])));
    cache.remember_spv(5, vec![9]);
    assert_eq!(cache.lookup_spv(5), Ok(Some(vec![9])));
    assert_eq!(cache.lookup_spv(6), Ok(Some(vec![5, 6, 7, 8])));
}

#[test]
fn spirv_index_evicts_the_least_recently_used() {
    let mut cache = Cache::from_env(some("/tmp/x"), None, None);
    for k in 0..50u64 {
        cache.remember_spv(k, vec![k as u8]);
    }
    assert_eq!(cache.lookup_spv(0), Ok(Some(vec![0])));
    cache.remember_spv(100, vec![100]);
    assert_eq!(cache.lookup_spv(1), Ok(None));
    assert_eq!(cache.lookup_spv(0), Ok(Some(vec![0])));
    assert_eq!(cache.lookup_spv(100), Ok(Some(vec![100])));
}

#[test]
fn program_lookup_gives_back_what_was_remembered() {
    let mut cache = Cache::from_env(some("/tmp/x"), None, None);
    assert!(matches!(cache.lookup_program(9), Ok(None)));
    cache.remember_program(9, entry(0x8741, vec![7, 7]));
    let found = cache.lookup_program(9).unwrap().unwrap();
    assert_eq!(found.format, 0x8741);
    assert_eq!(found.binary, vec![7, 7]);
    for k in 100..130u64 {
        cache.remember_program(k, entry(1, vec![]));
    }
    assert!(matches!(cache.lookup_program(9), Ok(None)));
}

#[test]
fn cache_files_by_extension() {
    assert_eq!(classify_cache_file(some("spv")), Some(CacheFileKind::Spv));
    assert_eq!(classify_cache_file(some("progbin")), Some(CacheFileKind::Progbin));
    assert_eq!(classify_cache_file(some("txt")), None);
    assert_eq!(classify_cache_file(None), None);
}

#[test]
fn eviction_tally() {
    let mut tally = EvictionTally::new();
    tally.count(CacheFileKind::Spv);
    tally.count(CacheFileKind::Spv);
    tally.count(CacheFileKind::Progbin);
    assert_eq!(tally.total(), 3);
    tally.record_deleted(CacheFileKind::Spv);
    assert_eq!((tally.spv_count, tally.progbin_count, tally.deleted), (1, 1, 1));
    assert_eq!(tally.total(), 2);
}

#[test]
fn little_endian_bytes() {
    assert_eq!(u32_le_bytes(0x0403_0201), vec![1, 2, 3, 4]);
    assert_eq!(u64_le_bytes(0x0807_0605_0403_0201), vec![1, 2, 3, 4, 5, 6, 7, 8]);
    assert_eq!(u64_le_bytes(5), 5u64.to_le_bytes().to_vec());
}

#[test]
fn spirv_key_chunks() {
    let mut shader = Shader::new(0x8B31, 1);
    shader.set_source("void main() {}".to_string());
    let chunks = spv_key_chunks(&shader);
    assert_eq!(
        chunks,
        vec![
            TRANSPILE_VERSION.to_le_bytes().to_vec(),
            0x8B31u32.to_le_bytes().to_vec(),
            b"void main() {}".to_vec(),
        ]
    );
}

#[test]
fn program_key_chunks_cover_driver_and_stages() {
    let mut es = ESContext::new();
    es.version = "ES".to_string();
    es.renderer = "R\u{e9}".to_string();
    es.shading_language_version = String::new();
    let mut program = Program::new(1);
    program.attach(&Shader::new(0x8B30, 4)).unwrap();
    let chunks = program_key_chunks(&es, &program);
    let mut expected: Vec<Vec<u8>> = vec![
        2u64.to_le_bytes().to_vec(),
        b"ES".to_vec(),
        3u64.to_le_bytes().to_vec(),
        "R\u{e9}".as_bytes().to_vec(),
        0u64.to_le_bytes().to_vec(),
        Vec::new(),
    ];
    let types: [u32; 6] = [0x8B31, 0x8B30, 0x8DD9, 0x8E88, 0x8E87, 0x91B9];
    for (i, t) in types.iter().enumerate() {
        expected.push(t.to_le_bytes().to_vec());
        if i == 1 {
            expected.push(4u32.to_le_bytes().to_vec());
        }
    }
    assert_eq!(chunks, expected);
}

#[test]
fn sweeps_delete_only_stale_cache_files() {
    assert!(sweep_action(Some(CacheFileKind::Spv), Some(5), 10));
    assert!(sweep_action(Some(CacheFileKind::Progbin), Some(0), 1));
    assert!(!sweep_action(Some(CacheFileKind::Spv), Some(10), 10));
    assert!(!sweep_action(Some(CacheFileKind::Spv), None, 10));
    assert!(!sweep_action(None, Some(5), 10));
}
