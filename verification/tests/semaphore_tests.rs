use vignette::semaphore::{wait_step, wait_through_intr_result, WaitDecision, EINTR};

#[test]
fn wait_step_decisions() {
    assert_eq!(wait_step(0, 0), WaitDecision::Succeed);
    assert_eq!(wait_step(-1, EINTR), WaitDecision::Retry);
    assert_eq!(wait_step(-1, 9), WaitDecision::Fail(9));
}

#[test]
fn interruptions_are_retried_until_success() {
    let obs = vec![(-1, EINTR), (-1, EINTR), (0, 0)];
    assert_eq!(wait_through_intr_result(&obs), Some(Ok(())));
}

#[test]
fn other_errors_are_propagated() {
    let obs = vec![(-1, EINTR), (-1, 22)];
    assert_eq!(wait_through_intr_result(&obs), Some(Err(22)));
}

#[test]
fn the_interruption_code_is_never_propagated() {
    let obs = vec![(-1, EINTR), (-1, EINTR)];
    // All observations interrupted: the wait is still running, no error.
    assert_eq!(wait_through_intr_result(&obs), None);
}

#[test]
fn immediate_success_needs_no_retry() {
    assert_eq!(wait_through_intr_result(&vec![(0, 0)]), Some(Ok(())));
}
