use filehog::error::{backoff_delay, retry_with_backoff, RetryStep, MAX_BACKOFF_EXPONENT};

fn run(
    outcomes: &[Result<u8, &'static str>],
    max_retries: u32,
) -> (u32, u64, Result<u8, &'static str>) {
    let mut attempt = 0;
    let mut calls = 0;
    let mut slept = 0;
    loop {
        let outcome = outcomes[attempt as usize].clone();
        calls += 1;
        match retry_with_backoff(outcome, attempt, max_retries) {
            RetryStep::Done(r) => return (calls, slept, r),
            RetryStep::Retry { delay_secs, attempt: next } => {
                assert_eq!(next, attempt + 1);
                slept += delay_secs;
                attempt = next;
            }
        }
    }
}

#[test]
fn backoff_delay_doubles() {
    assert_eq!(backoff_delay(0), 1);
    assert_eq!(backoff_delay(1), 2);
    assert_eq!(backoff_delay(2), 4);
    assert_eq!(backoff_delay(3), 8);
    assert_eq!(backoff_delay(10), 1024);
    assert_eq!(backoff_delay(63), 1u64 << 63);
    assert_eq!(MAX_BACKOFF_EXPONENT, 63);
}

#[test]
fn a_success_ends_the_operation_at_once() {
    match retry_with_backoff::<u8, &str>(Ok(5), 0, 3) {
        RetryStep::Done(Ok(5)) => {}
        other => panic!("unexpected {:?}", other),
    }
    match retry_with_backoff::<u8, &str>(Ok(6), 9, 3) {
        RetryStep::Done(Ok(6)) => {}
        other => panic!("unexpected {:?}", other),
    }
}

#[test]
fn a_failure_is_retried_while_the_budget_lasts() {
    for attempt in 0..3u32 {
        match retry_with_backoff::<u8, &str>(Err("e"), attempt, 3) {
            RetryStep::Retry { delay_secs, attempt: next } => {
                assert_eq!(delay_secs, 1 << attempt);
                assert_eq!(next, attempt + 1);
            }
            other => panic!("unexpected {:?}", other),
        }
    }
    match retry_with_backoff::<u8, &str>(Err("last"), 3, 3) {
        RetryStep::Done(Err("last")) => {}
        other => panic!("unexpected {:?}", other),
    }
    match retry_with_backoff::<u8, &str>(Err("only"), 0, 0) {
        RetryStep::Done(Err("only")) => {}
        other => panic!("unexpected {:?}", other),
    }
    match retry_with_backoff::<u8, &str>(Err("over"), u32::MAX, 3) {
        RetryStep::Done(Err("over")) => {}
        other => panic!("unexpected {:?}", other),
    }
}

#[test]
fn four_failures_with_a_budget_of_three_make_four_attempts() {
    let (calls, slept, result) = run(&[Err("a"), Err("b"), Err("c"), Err("d"), Ok(1)], 3);
    assert_eq!(calls, 4);
    assert_eq!(slept, 1 + 2 + 4);
    assert_eq!(result, Err("d"));
}

#[test]
fn the_first_success_is_returned() {
    let (calls, slept, result) = run(&[Err("a"), Err("b"), Ok(7), Ok(8)], 3);
    assert_eq!(calls, 3);
    assert_eq!(slept, 3);
    assert_eq!(result, Ok(7));
    let (calls, slept, result) = run(&[Ok(1)], 3);
    assert_eq!((calls, slept, result), (1, 0, Ok(1)));
    let (calls, _, result) = run(&[Err("a"), Err("b"), Err("c"), Ok(9)], 3);
    assert_eq!((calls, result), (4, Ok(9)));
}
