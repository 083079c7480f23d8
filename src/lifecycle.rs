//! Teardown of the handle that owns the worker thread.

use vstd::prelude::*;

verus! {

/// What the handle has to do to tear the worker down.
#[derive(Clone, Copy, Debug, PartialEq, Eq, Structural)]
pub enum Teardown {
    /// Send `Quit`, signal the wakeup descriptor, and join the worker. When
    /// `swallow_join_error` holds, the thread is unwinding from an earlier
    /// panic, and an error of the join is dropped so as not to mask it;
    /// otherwise it is passed on.
    QuitAndJoin { swallow_join_error: bool },
    /// Do nothing: the worker was already torn down.
    Skip,
}

/// The state after a stop request, and what the request asks for.
pub open spec fn stop_step(live: bool, unwinding: bool) -> (bool, Teardown) {
    (
        false,
        if live {
            Teardown::QuitAndJoin { swallow_join_error: unwinding }
        } else {
            Teardown::Skip
        },
    )
}

/// Whether the handle still has a worker to tear down.
pub struct Lifecycle {
    live: bool,
}

impl View for Lifecycle {
    type V = bool;

    closed spec fn view(&self) -> bool {
        self.live
    }
}

impl Lifecycle {
    /// The state of a handle whose worker has just been started.
    pub fn new() -> (r: Self)
        ensures
            r@,
    {
        Lifecycle { live: true }
    }

    /// Whether the worker is still to be torn down.
    pub fn is_live(&self) -> (r: bool)
        ensures
            r == self@,
    {
        self.live
    }

    /// Records a stop request and says what it takes. The first request tears
    /// the worker down, also while the thread is unwinding; every later one is
    /// skipped.
    pub fn stop(&mut self, unwinding: bool) -> (r: Teardown)
        ensures
            (final(self)@, r) == stop_step(old(self)@, unwinding),
    {
        let r = if self.live {
            Teardown::QuitAndJoin { swallow_join_error: unwinding }
        } else {
            Teardown::Skip
        };
        self.live = false;
        r
    }
}

/// Stopping twice tears the worker down at most once: whatever the first
/// request did, the second one is skipped.
pub proof fn lemma_stop_idempotent(live: bool, first: bool, second: bool)
    ensures
        stop_step(stop_step(live, first).0, second) == (false, Teardown::Skip),
{
}

} // verus!
