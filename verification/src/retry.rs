//! The retrying executor's bookkeeping: how often a file operation is tried
//! again, how long to wait in between, and when to give up.

use vstd::prelude::*;

use crate::error::{Error, ErrorView};

verus! {

/// The number of attempts that one operation gets.
pub const MAX_RETRIES: u32 = 10;

/// The pause between two attempts, in milliseconds.
pub const RETRY_DELAY_MS: u64 = 50;

/// What one attempt came to: the value of the operation, or the text of its
/// error.
#[derive(Clone, Debug, PartialEq, Eq)]
pub enum Attempt {
    Succeeded(u64),
    Failed(String),
}

/// The mathematical value of an [`Attempt`].
pub enum AttemptView {
    Succeeded(u64),
    Failed(Seq<char>),
}

impl View for Attempt {
    type V = AttemptView;

    open spec fn view(&self) -> AttemptView {
        match self {
            Attempt::Succeeded(v) => AttemptView::Succeeded(*v),
            Attempt::Failed(e) => AttemptView::Failed(e@),
        }
    }
}

/// What the caller does after an attempt.
#[derive(Clone, Debug, PartialEq, Eq)]
pub enum RetryStep {
    /// The operation succeeded with this value.
    Done(u64),
    /// Pause for this many milliseconds, then try again.
    Wait(u64),
    /// Stop: the budget is spent, and this is the last error.
    GiveUp(Error),
}

/// The mathematical value of a [`RetryStep`].
pub enum RetryStepView {
    Done(u64),
    Wait(u64),
    GiveUp(ErrorView),
}

impl View for RetryStep {
    type V = RetryStepView;

    open spec fn view(&self) -> RetryStepView {
        match self {
            RetryStep::Done(v) => RetryStepView::Done(*v),
            RetryStep::Wait(ms) => RetryStepView::Wait(*ms),
            RetryStep::GiveUp(e) => RetryStepView::GiveUp(e@),
        }
    }
}

/// The number of failures counted after an attempt, given the number before.
pub open spec fn failures_after(failures: nat, attempt: AttemptView) -> nat {
    match attempt {
        AttemptView::Succeeded(_) => failures,
        AttemptView::Failed(_) => if failures + 1 >= MAX_RETRIES {
            MAX_RETRIES as nat
        } else {
            failures + 1
        },
    }
}

/// What follows an attempt, given the number of failures before it.
pub open spec fn step_after(failures: nat, attempt: AttemptView) -> RetryStepView {
    match attempt {
        AttemptView::Succeeded(v) => RetryStepView::Done(v),
        AttemptView::Failed(e) => if failures + 1 >= MAX_RETRIES {
            RetryStepView::GiveUp(ErrorView::LockedFile(e))
        } else {
            RetryStepView::Wait(RETRY_DELAY_MS)
        },
    }
}

/// The end of an operation whose attempts come to `attempts`, in this order,
/// after `failures` earlier failures: its value, the error it gave up with,
/// or `None` while another attempt is due.
pub open spec fn verdict(failures: nat, attempts: Seq<AttemptView>) -> Option<
    Result<u64, ErrorView>,
>
    decreases attempts.len(),
{
    if attempts.len() == 0 {
        None
    } else {
        match step_after(failures, attempts[0]) {
            RetryStepView::Done(v) => Some(Ok(v)),
            RetryStepView::GiveUp(e) => Some(Err(e)),
            RetryStepView::Wait(_) => verdict(
                failures_after(failures, attempts[0]),
                attempts.skip(1),
            ),
        }
    }
}

/// The state of one retried operation: the failures counted so far.
#[derive(Debug)]
pub struct Retry {
    failures: u32,
}

impl Retry {
    /// The failures counted so far.
    pub closed spec fn failures(&self) -> nat {
        self.failures as nat
    }

    /// The state before the first attempt.
    pub fn new() -> (r: Retry)
        ensures
            r.failures() == 0,
    {
        Retry { failures: 0 }
    }

    /// Takes the outcome of one attempt and says what to do next: hand the
    /// value on, wait and try again, or give up with `LockedFile` carrying
    /// the error of this, the last, attempt.
    pub fn attempt(&mut self, outcome: Attempt) -> (step: RetryStep)
        ensures
            step@ == step_after(old(self).failures(), outcome@),
            final(self).failures() == failures_after(old(self).failures(), outcome@),
    {
        match outcome {
            Attempt::Succeeded(v) => RetryStep::Done(v),
            Attempt::Failed(e) => {
                if self.failures >= MAX_RETRIES - 1 {
                    self.failures = MAX_RETRIES;
                    RetryStep::GiveUp(Error::LockedFile(e))
                } else {
                    self.failures = self.failures + 1;
                    RetryStep::Wait(RETRY_DELAY_MS)
                }
            },
        }
    }
}

/// An operation that fails fewer than ten times and then succeeds ends with
/// the value of the attempt that succeeded.
pub proof fn lemma_retry_tolerates(attempts: Seq<AttemptView>, k: int, failures: nat)
    requires
        0 <= k < attempts.len(),
        failures + k < MAX_RETRIES,
        forall|i: int| 0 <= i < k ==> #[trigger] attempts[i] is Failed,
        attempts[k] is Succeeded,
    ensures
        verdict(failures, attempts) == Some(
            Ok::<u64, ErrorView>(attempts[k]->Succeeded_0),
        ),
    decreases k,
{
    if k > 0 {
        assert(attempts[0] is Failed);
        let rest = attempts.skip(1);
        assert forall|i: int| 0 <= i < k - 1 implies #[trigger] rest[i] is Failed by {
            assert(rest[i] == attempts[i + 1]);
        }
        assert(rest[k - 1] == attempts[k]);
        lemma_retry_tolerates(rest, k - 1, failures + 1);
    }
}

/// An operation whose attempts all fail ends at the attempt that spends the
/// budget, with `LockedFile` carrying the error of that attempt.
pub proof fn lemma_retry_exhausts(attempts: Seq<AttemptView>, failures: nat)
    requires
        failures < MAX_RETRIES,
        attempts.len() >= MAX_RETRIES - failures,
        forall|i: int| 0 <= i < MAX_RETRIES - failures ==> #[trigger] attempts[i] is Failed,
    ensures
        verdict(failures, attempts) == Some(
            Err::<u64, ErrorView>(
                ErrorView::LockedFile(attempts[MAX_RETRIES - failures - 1]->Failed_0),
            ),
        ),
    decreases MAX_RETRIES - failures,
{
    assert(attempts[0] is Failed);
    if failures + 1 < MAX_RETRIES {
        let rest = attempts.skip(1);
        assert forall|i: int| 0 <= i < MAX_RETRIES - failures - 1 implies #[trigger] rest[i] is Failed by {
            assert(rest[i] == attempts[i + 1]);
        }
        assert(rest[MAX_RETRIES - failures - 2] == attempts[MAX_RETRIES - failures - 1]);
        lemma_retry_exhausts(rest, failures + 1);
    }
}

} // verus!
