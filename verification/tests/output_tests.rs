use vignette::module_cache::{ModuleInfo, ResolvedModule};
use vignette::output::{Frame, Module, Outputter, VecHashMap};
use vignette::types;
use vignette::{Profiler, ThreadId};

fn resolved(name: &str, build_id: &str, base: u64) -> ResolvedModule {
    ResolvedModule { name: String::from(name), build_id: String::from(build_id), base }
}

#[test]
fn intern_is_idempotent() {
    let mut map: VecHashMap<Frame> = VecHashMap::new();
    let f = Frame { module_index: 0, relative_ip: 0x10 };
    let first = map.get_or_insert(f);
    let second = map.get_or_insert(f);
    assert_eq!(first, second);
    assert_eq!(map.len(), 1);
}

#[test]
fn intern_assigns_indices_in_insertion_order() {
    let mut map: VecHashMap<Frame> = VecHashMap::new();
    let a = Frame { module_index: 0, relative_ip: 1 };
    let b = Frame { module_index: 0, relative_ip: 2 };
    assert_eq!(map.get_or_insert(a), 0);
    assert_eq!(map.get_or_insert(b), 1);
    assert_eq!(map.get_or_insert(a), 0);
    let copy = map.vec();
    assert_eq!(copy, vec![a, b]);
    let v = map.to_vec();
    assert_eq!(v, vec![a, b]);
}

#[test]
fn intern_module_info() {
    let mut map: VecHashMap<ModuleInfo> = VecHashMap::new();
    let a = ModuleInfo { name: String::from("app"), build_id: String::from("AA") };
    let a2 = ModuleInfo { name: String::from("app"), build_id: String::from("AA") };
    let b = ModuleInfo { name: String::from("lib"), build_id: String::from("BB") };
    assert_eq!(map.get_or_insert(a), 0);
    assert_eq!(map.get_or_insert(b), 1);
    assert_eq!(map.get_or_insert(a2), 0);
    assert_eq!(map.len(), 2);
}

#[test]
fn module_from_module_info_keeps_fields() {
    let mi = ModuleInfo { name: String::from("app"), build_id: String::from("AB12") };
    let m = Module::from(mi);
    assert_eq!(m.name, "app");
    assert_eq!(m.build_id, "AB12");
}

#[test]
fn output_canonicalizes_a_profile() {
    let profiler = Profiler::new();
    let mut session = profiler.session();
    let t1: ThreadId = 101;
    let t2: ThreadId = 202;
    // Two modules: one for the "executable", one for a "library".
    // Addresses 0x1000.. belong to the first, 0x8000.. to the second.
    session.sample_thread(
        t1,
        vec![types::Frame { ip: 0x1010 }, types::Frame { ip: 0x8020 }],
    );
    session.sample_thread(t1, vec![types::Frame { ip: 0x1010 }]);
    session.sample_thread(t2, vec![types::Frame { ip: 0x8040 }, types::Frame { ip: 0x5555 }]);
    let profile = session.finish();

    let mut outputter = Outputter::new();
    {
        let cache = outputter.module_cache();
        assert!(cache.get_or_insert(0x1010, Some(resolved("host", "0102", 0x1000))).is_some());
        assert!(cache.get_or_insert(0x8020, Some(resolved("libx.so", "0304", 0x8000))).is_some());
        assert!(cache.get_or_insert(0x8040, Some(resolved("libx.so", "0304", 0x8000))).is_some());
        // 0x5555 stays unresolved on purpose.
    }
    let out = outputter.output(profile);

    assert_eq!(out.modules.len(), 2);
    assert_eq!(out.modules[0].name, "host");
    assert_eq!(out.modules[1].name, "libx.so");

    // Frames are deduplicated across samples and threads.
    assert_eq!(out.frames.len(), 3);
    assert_eq!(out.frames[0], Frame { module_index: 0, relative_ip: 0x10 });
    assert_eq!(out.frames[1], Frame { module_index: 1, relative_ip: 0x20 });
    assert_eq!(out.frames[2], Frame { module_index: 1, relative_ip: 0x40 });

    assert_eq!(out.threads.len(), 2);
    assert_eq!(out.threads[0].thread_id, t1);
    assert_eq!(out.threads[0].samples.len(), 2);
    assert_eq!(out.threads[0].samples[0].frames, vec![0, 1]);
    assert_eq!(out.threads[0].samples[1].frames, vec![0]);
    assert_eq!(out.threads[1].thread_id, t2);
    assert_eq!(out.threads[1].samples.len(), 1);
    // The unresolvable frame was dropped.
    assert_eq!(out.threads[1].samples[0].frames, vec![2]);

    // Every frame index points into the frame table, and every frame's
    // module index into the module table.
    for thread in &out.threads {
        for sample in &thread.samples {
            for &idx in &sample.frames {
                assert!(idx < out.frames.len());
            }
        }
    }
    for frame in &out.frames {
        assert!((frame.module_index as usize) < out.modules.len());
    }
}

#[test]
fn output_frame_drops_unknown_addresses() {
    let mut outputter = Outputter::new();
    assert!(outputter.output_frame(types::Frame { ip: 0x42 }).is_none());
    let cache = outputter.module_cache();
    cache.get_or_insert(0x4210, Some(resolved("m", "FF", 0x4200))).unwrap();
    let f = outputter.output_frame(types::Frame { ip: 0x4208 }).unwrap();
    assert_eq!(f, Frame { module_index: 0, relative_ip: 8 });
}

#[test]
fn output_sample_keeps_capture_order() {
    let mut outputter = Outputter::new();
    {
        let cache = outputter.module_cache();
        cache.get_or_insert(0x10ff, Some(resolved("m", "FF", 0x1000))).unwrap();
    }
    let sample = outputter.output_sample(vec![
        types::Frame { ip: 0x1004 },
        types::Frame { ip: 0x1002 },
        types::Frame { ip: 0x1004 },
    ]);
    // Distinct frames get fresh indices; a repeated frame reuses its index.
    assert_eq!(sample.frames, vec![0, 1, 0]);
}

#[test]
fn many_threads_many_samples() {
    let profiler = Profiler::new();
    let mut session = profiler.session();
    for t in 0..10 {
        for s in 0..20 {
            session.sample_thread(
                100 + t,
                vec![types::Frame { ip: 0x7000 + (s % 4) as u64 }, types::Frame { ip: 0x7010 }],
            );
        }
    }
    let profile = session.finish();

    let mut outputter = Outputter::new();
    {
        let cache = outputter.module_cache();
        cache
            .get_or_insert(
                0x7020,
                Some(ResolvedModule {
                    name: String::from("host"),
                    build_id: String::from("0102030405060708090A0B0C0D0E0F1011121314"),
                    base: 0x7000,
                }),
            )
            .unwrap();
    }
    let out = outputter.output(profile);

    assert_eq!(out.threads.len(), 10);
    for thread in &out.threads {
        assert_eq!(thread.samples.len(), 20);
        for sample in &thread.samples {
            for &idx in &sample.frames {
                assert!(idx < out.frames.len());
            }
        }
    }
    for module in &out.modules {
        assert!(module.build_id.len() == 32 || module.build_id.len() == 40);
        assert!(module
            .build_id
            .chars()
            .all(|c| c.is_ascii_hexdigit() && !c.is_ascii_lowercase()));
    }
}
