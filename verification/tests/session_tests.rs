use vignette::sampler::SharedState;
use vignette::threads::parse_tid;
use vignette::types;
use vignette::{Profiler, ThreadId};

#[test]
fn session_accumulates_samples_per_thread() {
    let profiler = Profiler::new();
    let mut session = profiler.session();
    let t1: ThreadId = 11;
    let t2: ThreadId = 22;
    session.sample_thread(t1, vec![types::Frame { ip: 1 }]);
    session.sample_thread(t2, vec![types::Frame { ip: 2 }]);
    session.sample_thread(t1, vec![types::Frame { ip: 3 }, types::Frame { ip: 4 }]);
    let profile = session.finish();
    assert_eq!(profile.threads.len(), 2);
    assert_eq!(profile.threads[0].0, t1);
    assert_eq!(profile.threads[0].1.len(), 2);
    assert_eq!(profile.threads[0].1[1].len(), 2);
    assert_eq!(profile.threads[1].0, t2);
    assert_eq!(profile.threads[1].1.len(), 1);
}

#[test]
fn unsampled_threads_do_not_appear() {
    let profiler = Profiler::new();
    let mut session = profiler.session();
    session.sample_thread(5, vec![]);
    let profile = session.finish();
    assert_eq!(profile.threads.len(), 1);
    assert!(profile.threads.iter().all(|t| t.0 == 5));
}

#[test]
fn shared_cells_are_empty_after_a_rendezvous() {
    // The cells hold unit stand-ins here; the platform holds semaphores and
    // a machine context in them.
    let mut cells: SharedState<u8, u64> = SharedState::empty();
    cells.reset(1, 2, 3);
    cells.deposit_context(0xdeadbeef);
    assert_eq!(cells.take_context(), Some(0xdeadbeef));
    assert_eq!(cells.take_context(), None);
    cells.deposit_context(0x1111);
    cells.clear();
    assert!(cells.context.is_none());
    assert!(cells.msg2.is_none());
    assert!(cells.msg3.is_none());
    assert!(cells.msg4.is_none());
}

#[test]
fn parse_tid_accepts_decimal_task_ids() {
    assert_eq!(parse_tid(b"1234"), Some(1234));
    assert_eq!(parse_tid(b"1"), Some(1));
    assert_eq!(parse_tid(b"0"), Some(0));
}

#[test]
fn parse_tid_rejects_non_decimal_names() {
    assert_eq!(parse_tid(b""), None);
    assert_eq!(parse_tid(b"12a"), None);
    assert_eq!(parse_tid(b"-5"), None);
    assert_eq!(parse_tid(b"99999999999999999999"), None);
}
