use ptr_plugins::error::Error;
use ptr_plugins::retry::{Attempt, Retry, RetryStep, MAX_RETRIES, RETRY_DELAY_MS};

fn drive(outcomes: &[Attempt]) -> (Option<Result<u64, Error>>, usize, u64) {
    let mut retry = Retry::new();
    let mut attempts = 0;
    let mut waited = 0;
    for outcome in outcomes {
        attempts += 1;
        match retry.attempt(outcome.clone()) {
            RetryStep::Done(v) => return (Some(Ok(v)), attempts, waited),
            RetryStep::GiveUp(e) => return (Some(Err(e)), attempts, waited),
            RetryStep::Wait(ms) => waited += ms,
        }
    }
    (None, attempts, waited)
}

fn failure(i: usize) -> Attempt {
    Attempt::Failed(format!("in use ({i})"))
}

#[test]
fn limits() {
    assert_eq!(MAX_RETRIES, 10);
    assert_eq!(RETRY_DELAY_MS, 50);
}

#[test]
fn three_failures_then_success() {
    let outcomes = vec![failure(1), failure(2), failure(3), Attempt::Succeeded(7), failure(5)];
    assert_eq!(drive(&outcomes), (Some(Ok(7)), 4, 150));
}

#[test]
fn success_at_once() {
    assert_eq!(drive(&[Attempt::Succeeded(0)]), (Some(Ok(0)), 1, 0));
}

#[test]
fn success_at_the_last_attempt() {
    let mut outcomes: Vec<Attempt> = (1..10).map(failure).collect();
    outcomes.push(Attempt::Succeeded(1));
    assert_eq!(drive(&outcomes), (Some(Ok(1)), 10, 450));
}

#[test]
fn ten_failures_give_up_with_the_last_error() {
    let outcomes: Vec<Attempt> = (1..=12).map(failure).collect();
    assert_eq!(
        drive(&outcomes),
        (Some(Err(Error::LockedFile("in use (10)".to_string()))), 10, 450)
    );
}

#[test]
fn nine_failures_still_wait() {
    let outcomes: Vec<Attempt> = (1..=9).map(failure).collect();
    assert_eq!(drive(&outcomes), (None, 9, 450));
}

#[test]
fn a_spent_budget_stays_spent() {
    let mut retry = Retry::new();
    for i in 1..=10 {
        retry.attempt(failure(i));
    }
    assert_eq!(
        retry.attempt(failure(11)),
        RetryStep::GiveUp(Error::LockedFile("in use (11)".to_string()))
    );
    assert_eq!(retry.attempt(Attempt::Succeeded(3)), RetryStep::Done(3));
}
