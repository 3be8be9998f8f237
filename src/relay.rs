//! The single-slot frame hand-off and the capture/reconnect decisions.
use vstd::prelude::*;

verus! {

/// Frame dimensions and rate reported by a source.
#[derive(Clone, Copy, Debug, PartialEq, Eq, Structural)]
pub struct StreamInfo {
    pub width: u32,
    pub height: u32,
    pub fps: u32,
}

/// A single-slot queue that keeps only the newest frame: a push always
/// succeeds and evicts any frame not yet taken. Threads share it behind a
/// lock. A lock-free queue such as crossbeam's `ArrayQueue` changes its
/// contents through `&self`, which no contract over the queue's value can
/// follow, and a name for its contents could not be generic over the frame
/// type.
pub struct FrameRelay<T> {
    slot: Option<T>,
}

impl<T> FrameRelay<T> {
    /// The frame waiting to be taken, if any.
    pub closed spec fn held(&self) -> Option<T> {
        self.slot
    }

    pub fn new() -> (r: FrameRelay<T>)
        ensures
            r.held() == None::<T>,
    {
        FrameRelay { slot: None }
    }

    /// Store `frame`, handing back the frame it displaces.
    pub fn force_push(&mut self, frame: T) -> (r: Option<T>)
        ensures
            final(self).held() == Some(frame),
            r == old(self).held(),
    {
        let prev = self.slot.take();
        self.slot = Some(frame);
        prev
    }

    /// Take the newest frame, leaving the slot empty.
    pub fn pop(&mut self) -> (r: Option<T>)
        ensures
            r == old(self).held(),
            final(self).held() == None::<T>,
    {
        self.slot.take()
    }

    pub fn is_empty(&self) -> (r: bool)
        ensures
            r == self.held().is_none(),
    {
        self.slot.is_none()
    }
}

/// Where the relay loop stands.
#[derive(Clone, Copy, Debug, PartialEq, Eq, Structural)]
pub enum RelayState {
    /// Reading frames from the source.
    Capturing,
    /// The source failed; this many reconnect attempts have failed since.
    Reconnecting(usize),
    /// Reconnecting was given up: capture is over.
    Stopped,
}

/// What the loop does next.
#[derive(Clone, Copy, Debug, PartialEq, Eq, Structural)]
pub enum RelayAction {
    /// Push the frame just captured into the relay, then capture again.
    PushFrame,
    /// Capture the next frame.
    Capture,
    /// Attempt to reconnect now.
    Reconnect,
    /// Wait the fixed delay, then attempt to reconnect.
    WaitThenReconnect,
    /// End the loop and report that capture is over.
    Stop,
}

/// The next state and action, given whether the action just taken (a
/// capture in `Capturing`, a reconnect in `Reconnecting`) succeeded, and the
/// number of reconnect attempts allowed.
pub open spec fn relay_next(s: RelayState, ok: bool, retry_time: nat) -> (RelayState, RelayAction) {
    match s {
        RelayState::Capturing => if ok {
            (RelayState::Capturing, RelayAction::PushFrame)
        } else if retry_time > 0 {
            (RelayState::Reconnecting(0), RelayAction::Reconnect)
        } else {
            (RelayState::Stopped, RelayAction::Stop)
        },
        RelayState::Reconnecting(k) => if ok {
            (RelayState::Capturing, RelayAction::Capture)
        } else if k + 1 < retry_time {
            (RelayState::Reconnecting((k + 1) as usize), RelayAction::WaitThenReconnect)
        } else {
            (RelayState::Stopped, RelayAction::Stop)
        },
        RelayState::Stopped => (RelayState::Stopped, RelayAction::Stop),
    }
}

/// One decision of the relay loop.
pub fn relay_step(state: RelayState, ok: bool, retry_time: usize) -> (r: (RelayState, RelayAction))
    ensures
        r == relay_next(state, ok, retry_time as nat),
{
    match state {
        RelayState::Capturing => {
            if ok {
                (RelayState::Capturing, RelayAction::PushFrame)
            } else if retry_time > 0 {
                (RelayState::Reconnecting(0), RelayAction::Reconnect)
            } else {
                (RelayState::Stopped, RelayAction::Stop)
            }
        },
        RelayState::Reconnecting(k) => {
            if ok {
                (RelayState::Capturing, RelayAction::Capture)
            } else if k < retry_time && k + 1 < retry_time {
                (RelayState::Reconnecting(k + 1), RelayAction::WaitThenReconnect)
            } else {
                (RelayState::Stopped, RelayAction::Stop)
            }
        },
        RelayState::Stopped => (RelayState::Stopped, RelayAction::Stop),
    }
}

/// The state after `n` failures in a row.
pub open spec fn after_failures(s: RelayState, n: nat, retry_time: nat) -> RelayState
    decreases n,
{
    if n == 0 {
        s
    } else {
        after_failures(relay_next(s, false, retry_time).0, (n - 1) as nat, retry_time)
    }
}

proof fn lemma_reconnecting_failures(k: nat, n: nat, retry_time: nat)
    requires
        k < retry_time,
        retry_time <= usize::MAX,
    ensures
        k + n < retry_time ==> after_failures(RelayState::Reconnecting(k as usize), n, retry_time)
            == RelayState::Reconnecting((k + n) as usize),
        k + n >= retry_time ==> after_failures(RelayState::Reconnecting(k as usize), n, retry_time)
            == RelayState::Stopped,
    decreases n,
{
    if n > 0 {
        if k + 1 < retry_time {
            lemma_reconnecting_failures(k + 1, (n - 1) as nat, retry_time);
        } else {
            lemma_stopped_stays((n - 1) as nat, retry_time);
        }
    }
}

proof fn lemma_stopped_stays(n: nat, retry_time: nat)
    ensures
        after_failures(RelayState::Stopped, n, retry_time) == RelayState::Stopped,
    decreases n,
{
    if n > 0 {
        lemma_stopped_stays((n - 1) as nat, retry_time);
    }
}

/// When the source fails, the loop makes exactly `retry_time` reconnect
/// attempts: it is still reconnecting after any fewer failed attempts, and
/// stopped once all of them have failed, so it never retries without end.
pub proof fn lemma_relay_gives_up(retry_time: nat, n: nat)
    requires
        retry_time <= usize::MAX,
    ensures
        n < retry_time ==> after_failures(RelayState::Capturing, n + 1, retry_time)
            == RelayState::Reconnecting(n as usize),
        n >= retry_time ==> after_failures(RelayState::Capturing, n + 1, retry_time)
            == RelayState::Stopped,
{
    if retry_time > 0 {
        lemma_reconnecting_failures(0, n, retry_time);
    } else {
        lemma_stopped_stays(n, retry_time);
    }
}

} // verus!
