//! Single-slot notification (snackbar) scheduler.
//!
//! At most one notification is ever visible.  `show` makes its request the
//! visible one immediately, discarding whatever was visible before; `tick`
//! advances the countdown by the elapsed frame time and auto-dismisses when
//! the remaining time runs out; `dismiss` clears the slot at once.  The
//! scheduler is driven by a single-threaded, frame-based clock: drift in the
//! elapsed times only changes dwell time, never the shape of the state
//! machine.

use vstd::prelude::*;

verus! {

/// One notification request: the text to show, an optional action label,
/// and how long the notification stays up in milliseconds.
#[derive(Clone, Debug, PartialEq, Eq)]
pub struct SnackbarRequest {
    pub message: String,
    pub action_label: Option<String>,
    pub duration_ms: u64,
}

/// The scheduler's whole state: either nothing is visible, or one request is,
/// with the milliseconds it has left.
#[derive(Clone, Debug, PartialEq, Eq)]
pub enum NotificationState {
    Idle,
    Showing { req: SnackbarRequest, remaining_ms: u64 },
}

/// State after `show(req)`: the request becomes visible with its full
/// duration, whatever was there before is discarded without further display.
pub open spec fn spec_show(s: NotificationState, req: SnackbarRequest) -> NotificationState {
    NotificationState::Showing { req, remaining_ms: req.duration_ms }
}

/// State after `tick(elapsed)`: idle stays idle; a visible request loses
/// `elapsed` milliseconds and is dismissed once nothing remains.
pub open spec fn spec_tick(s: NotificationState, elapsed_ms: u64) -> NotificationState {
    match s {
        NotificationState::Idle => NotificationState::Idle,
        NotificationState::Showing { req, remaining_ms } => {
            if elapsed_ms >= remaining_ms {
                NotificationState::Idle
            } else {
                NotificationState::Showing { req, remaining_ms: (remaining_ms - elapsed_ms) as u64 }
            }
        },
    }
}

/// State after a whole sequence of ticks, applied left to right.
pub open spec fn spec_run_ticks(s: NotificationState, ticks: Seq<u64>) -> NotificationState
    decreases ticks.len(),
{
    if ticks.len() == 0 {
        s
    } else {
        spec_run_ticks(spec_tick(s, ticks[0]), ticks.drop_first())
    }
}

/// Total elapsed time of a sequence of ticks.
pub open spec fn spec_ticks_sum(ticks: Seq<u64>) -> int
    decreases ticks.len(),
{
    if ticks.len() == 0 {
        0
    } else {
        ticks[0] + spec_ticks_sum(ticks.drop_first())
    }
}

impl NotificationState {
    /// A scheduler starts with nothing visible.
    pub fn new() -> (s: Self)
        ensures
            s == NotificationState::Idle,
    {
        NotificationState::Idle
    }

    /// Makes `req` the visible notification, replacing any current one.
    pub fn show(&mut self, req: SnackbarRequest)
        ensures
            *final(self) == spec_show(*old(self), req),
    {
        let remaining_ms = req.duration_ms;
        *self = NotificationState::Showing { req, remaining_ms };
    }

    /// Advances the countdown by `elapsed_ms`; dismisses the visible
    /// notification once its time is used up.
    pub fn tick(&mut self, elapsed_ms: u64)
        ensures
            *final(self) == spec_tick(*old(self), elapsed_ms),
    {
        let mut tmp = NotificationState::Idle;
        core::mem::swap(self, &mut tmp);
        *self = match tmp {
            NotificationState::Idle => NotificationState::Idle,
            NotificationState::Showing { req, remaining_ms } => {
                if elapsed_ms >= remaining_ms {
                    NotificationState::Idle
                } else {
                    NotificationState::Showing { req, remaining_ms: remaining_ms - elapsed_ms }
                }
            },
        };
    }

    /// Clears the slot immediately, whatever time was left.
    pub fn dismiss(&mut self)
        ensures
            *final(self) == NotificationState::Idle,
    {
        *self = NotificationState::Idle;
    }

    /// The currently visible request, if any.
    pub fn visible(&self) -> (r: Option<&SnackbarRequest>)
        ensures
            match *self {
                NotificationState::Idle => r is None,
                NotificationState::Showing { req, remaining_ms } => {
                    r matches Some(q) && *q == req
                },
            },
    {
        match self {
            NotificationState::Idle => None,
            NotificationState::Showing { req, remaining_ms } => Some(req),
        }
    }
}

/// A second `show` before the first request is dismissed replaces it
/// entirely: after `show(a)` then `show(b)`, the visible request is `b` with
/// `b`'s full duration, from any starting state.
pub proof fn lemma_show_replaces(s: NotificationState, a: SnackbarRequest, b: SnackbarRequest)
    ensures
        spec_show(spec_show(s, a), b) == (NotificationState::Showing {
            req: b,
            remaining_ms: b.duration_ms,
        }),
{
}

/// Once the scheduler shows only `b` (or nothing), no amount of ticking can
/// ever bring another request back: a replaced request is gone for good.
pub proof fn lemma_ticks_preserve_visible_request(s: NotificationState, b: SnackbarRequest, ticks: Seq<u64>)
    requires
        s is Idle || (s matches NotificationState::Showing { req, .. } && req == b),
    ensures
        spec_run_ticks(s, ticks) is Idle || (spec_run_ticks(s, ticks)
            matches NotificationState::Showing { req, .. } && req == b),
    decreases ticks.len(),
{
    if ticks.len() > 0 {
        lemma_ticks_preserve_visible_request(spec_tick(s, ticks[0]), b, ticks.drop_first());
    }
}

/// An idle scheduler stays idle under any sequence of ticks.
pub proof fn lemma_idle_stays_idle(ticks: Seq<u64>)
    ensures
        spec_run_ticks(NotificationState::Idle, ticks) == NotificationState::Idle,
    decreases ticks.len(),
{
    if ticks.len() > 0 {
        lemma_idle_stays_idle(ticks.drop_first());
    }
}

/// From `Showing(req, remaining)`, ticks that add up to at least `remaining`
/// milliseconds, with no intervening `show`, leave the scheduler idle.
pub proof fn lemma_ticks_drain(req: SnackbarRequest, remaining_ms: u64, ticks: Seq<u64>)
    requires
        remaining_ms > 0,
        spec_ticks_sum(ticks) >= remaining_ms,
    ensures
        spec_run_ticks(NotificationState::Showing { req, remaining_ms }, ticks)
            == NotificationState::Idle,
    decreases ticks.len(),
{
    if ticks.len() == 0 {
        assert(spec_ticks_sum(ticks) == 0);
    } else if ticks[0] >= remaining_ms {
        lemma_idle_stays_idle(ticks.drop_first());
    } else {
        lemma_ticks_drain(req, (remaining_ms - ticks[0]) as u64, ticks.drop_first());
    }
}

} // verus!
