use vignette::sampler::Sample;
use vignette::unwind::{step_decision, LibunwindUnwinder, StepDecision, StepRecord};

fn step(ip: u64) -> StepRecord {
    StepRecord { step: 1, reg_result: 0, ip }
}

fn end_of_stack() -> StepRecord {
    StepRecord { step: 0, reg_result: 0, ip: 0 }
}

#[test]
fn walk_collects_frames_innermost_first() {
    let unwinder = LibunwindUnwinder::new(150);
    let steps = vec![step(0x10), step(0x20), step(0x30), end_of_stack()];
    let frames = unwinder.unwind_steps(0, &steps).unwrap();
    let ips: Vec<u64> = frames.iter().map(|f| f.ip).collect();
    assert_eq!(ips, vec![0x10, 0x20, 0x30]);
}

#[test]
fn walk_truncates_at_the_bound() {
    let unwinder = LibunwindUnwinder::new(2);
    let steps = vec![step(0x10), step(0x20), step(0x30)];
    let frames = unwinder.unwind_steps(0, &steps).unwrap();
    assert_eq!(frames.len(), 2);
}

#[test]
fn zero_bound_walk_is_empty_and_not_an_error() {
    let unwinder = LibunwindUnwinder::new(0);
    let steps = vec![step(0x10)];
    let frames = unwinder.unwind_steps(0, &steps).unwrap();
    assert_eq!(frames.len(), 0);
}

#[test]
fn failed_initialization_aborts() {
    let unwinder = LibunwindUnwinder::new(10);
    assert_eq!(unwinder.unwind_steps(-7, &vec![]), Err(-7));
}

#[test]
fn failed_step_discards_collected_frames() {
    let unwinder = LibunwindUnwinder::new(10);
    let steps = vec![step(0x10), StepRecord { step: -5, reg_result: 0, ip: 0 }];
    assert_eq!(unwinder.unwind_steps(0, &steps), Err(-5));
}

#[test]
fn failed_register_read_aborts_with_its_code() {
    let unwinder = LibunwindUnwinder::new(10);
    let steps = vec![StepRecord { step: 1, reg_result: -3, ip: 0 }];
    assert_eq!(unwinder.unwind_steps(0, &steps), Err(-3));
}

#[test]
fn step_decisions() {
    assert_eq!(step_decision(-2, 0), StepDecision::Fail(-2));
    assert_eq!(step_decision(0, 0), StepDecision::Finish);
    assert_eq!(step_decision(1, -4), StepDecision::Fail(-4));
    assert_eq!(step_decision(1, 0), StepDecision::Take);
}

#[test]
fn sample_container_respects_its_bound() {
    let mut s = Sample::new(2);
    assert!(!s.is_full());
    s.push_frame(0x10);
    s.push_frame(0x20);
    assert!(s.is_full());
    let frames = s.into_frames();
    assert_eq!(frames.len(), 2);
    assert_eq!(frames[0].ip, 0x10);
    assert_eq!(frames[1].ip, 0x20);
}

#[test]
fn zero_capacity_sample_is_immediately_full() {
    let s = Sample::new(0);
    assert!(s.is_full());
    assert_eq!(s.into_frames().len(), 0);
}
