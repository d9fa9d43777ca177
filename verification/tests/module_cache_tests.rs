use vignette::module_cache::{ModuleCache, ModuleInfo, ResolvedModule};

fn resolved(name: &str, build_id: &str, base: u64) -> ResolvedModule {
    ResolvedModule { name: String::from(name), build_id: String::from(build_id), base }
}

#[test]
fn test_rva() {
    let _cache = ModuleCache::new();
}

#[test]
fn linux_test_rva() {
    let _cache = ModuleCache::new();
}

#[test]
fn miss_without_resolution_is_none() {
    let mut cache = ModuleCache::new();
    assert!(cache.get_or_insert(0x1234, None).is_none());
    assert!(cache.lookup(0x1234).is_none());
}

#[test]
fn insert_and_lookup_round_trip() {
    let mut cache = ModuleCache::new();
    let (info, rva) = cache
        .get_or_insert(0x1500, Some(resolved("app", "AABB", 0x1000)))
        .unwrap();
    assert_eq!(info.name, "app");
    assert_eq!(info.build_id, "AABB");
    assert_eq!(rva, 0x500);
    // Reconstructing load base + relative ip yields the original address.
    assert_eq!(0x1000 + rva, 0x1500);
    // The hit path answers from the cache alone.
    let (info2, rva2) = cache.lookup(0x1400).unwrap();
    assert_eq!(info, info2);
    assert_eq!(rva2, 0x400);
}

#[test]
fn load_base_yields_rva_zero() {
    let mut cache = ModuleCache::new();
    cache
        .get_or_insert(0x2345, Some(resolved("app", "AABB", 0x2000)))
        .unwrap();
    let (_, rva) = cache.lookup(0x2000).unwrap();
    assert_eq!(rva, 0);
}

#[test]
fn same_module_increasing_rva() {
    let mut cache = ModuleCache::new();
    let (m1, r1) = cache
        .get_or_insert(0x3100, Some(resolved("libx.so", "CC00", 0x3000)))
        .unwrap();
    // A higher address of the same module extends the range.
    let (m2, r2) = cache
        .get_or_insert(0x3900, Some(resolved("libx.so", "CC00", 0x3000)))
        .unwrap();
    assert_eq!(m1, m2);
    assert!(r1 < r2);
    assert_eq!(r2, 0x900);
    // Both addresses now hit the extended range.
    assert!(cache.lookup(0x3100).is_some());
    assert!(cache.lookup(0x3900).is_some());
}

#[test]
fn two_modules_are_distinguished() {
    let mut cache = ModuleCache::new();
    let (exe, _) = cache
        .get_or_insert(0x1010, Some(resolved("host", "0102", 0x1000)))
        .unwrap();
    let (lib1, init_rva) = cache
        .get_or_insert(0x8100, Some(resolved("libpthread.so.0", "0304", 0x8000)))
        .unwrap();
    let (lib2, destroy_rva) = cache
        .get_or_insert(0x8200, Some(resolved("libpthread.so.0", "0304", 0x8000)))
        .unwrap();
    assert_eq!(exe.name, "host");
    assert_eq!(lib1, lib2);
    assert!(exe != lib1);
    assert!(init_rva < destroy_rva);
}

#[test]
fn unusable_resolution_is_rejected() {
    let mut cache = ModuleCache::new();
    // A load base above the address cannot describe a containing mapping.
    assert!(cache.get_or_insert(0x100, Some(resolved("x", "00", 0x200))).is_none());
    assert_eq!(cache.len(), 0);
    // The largest representable address has no exclusive range end.
    assert!(cache.get_or_insert(u64::MAX, Some(resolved("x", "00", 0x0))).is_none());
    assert_eq!(cache.len(), 0);
}

#[test]
fn find_existing_and_relative_addr() {
    let mut cache = ModuleCache::new();
    cache
        .get_or_insert(0x4200, Some(resolved("app", "AA", 0x4000)))
        .unwrap();
    let entry = cache.find_existing(0x4100).unwrap();
    assert_eq!(entry.low, 0x4000);
    assert_eq!(entry.high, 0x4201);
    assert_eq!(ModuleCache::relative_addr(&entry, 0x4100), 0x100);
    assert!(cache.find_existing(0x9999).is_none());
}

#[test]
fn module_info_equality_is_by_fields() {
    let a = ModuleInfo { name: String::from("a"), build_id: String::from("B") };
    let b = ModuleInfo { name: String::from("a"), build_id: String::from("B") };
    let c = ModuleInfo { name: String::from("a"), build_id: String::from("C") };
    assert_eq!(a, b);
    assert!(a != c);
}
