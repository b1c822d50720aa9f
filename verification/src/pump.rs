//! The pace at which the host lets the rendering engine do its work.

use vstd::prelude::*;

verus! {

/// A request of the engine to be given a turn after so many milliseconds.
/// Zero asks for a turn at once.
#[derive(Clone, Copy, Debug, PartialEq, Eq)]
pub struct PumpDelayMs(pub u64);

/// The delay between two turns when the engine asks for nothing else: one
/// frame at sixty frames per second, in whole milliseconds.
pub const FRAME_RATE_DELAY_MS: u64 = 16;

/// What the host's loop has seen.
#[derive(Clone, Copy, Debug, PartialEq, Eq)]
pub enum PumpEvent {
    /// The engine has sent a request.
    Request(PumpDelayMs),
    /// The engine has gone, and will send no more requests.
    Closed,
    /// The current delay has passed.
    TimerFired,
}

/// What the host's loop has to do next.
#[derive(Clone, Copy, Debug, PartialEq, Eq, Structural)]
pub enum PumpAction {
    /// Give the engine a turn on the UI thread, then wait again.
    DoWork,
    /// Wait again, with the delay that is now current.
    Wait,
    /// Leave the loop.
    Stop,
}

/// The delay after an event, given the delay before it.
pub open spec fn next_delay(delay_ms: u64, event: PumpEvent) -> u64 {
    match event {
        PumpEvent::Request(PumpDelayMs(requested)) => if requested == 0 {
            delay_ms
        } else {
            requested
        },
        PumpEvent::Closed => delay_ms,
        PumpEvent::TimerFired => FRAME_RATE_DELAY_MS,
    }
}

/// What an event asks of the loop.
pub open spec fn action_for(event: PumpEvent) -> PumpAction {
    match event {
        PumpEvent::Request(PumpDelayMs(requested)) => if requested == 0 {
            PumpAction::DoWork
        } else {
            PumpAction::Wait
        },
        PumpEvent::Closed => PumpAction::Stop,
        PumpEvent::TimerFired => PumpAction::DoWork,
    }
}

/// The state of the host's loop: the delay after which the engine gets its
/// next turn if nothing else happens.
#[derive(Debug)]
pub struct EventLoopHandle {
    delay_ms: u64,
}

impl EventLoopHandle {
    /// The loop at its start, at the pace of the frame rate.
    pub fn new() -> (handle: Self)
        ensures
            handle.spec_delay_ms() == FRAME_RATE_DELAY_MS,
    {
        EventLoopHandle { delay_ms: FRAME_RATE_DELAY_MS }
    }

    /// The current delay, as a mathematical value.
    pub closed spec fn spec_delay_ms(&self) -> u64 {
        self.delay_ms
    }

    /// The delay after which the timer fires next, in milliseconds.
    pub fn delay_ms(&self) -> (delay_ms: u64)
        ensures
            delay_ms == self.spec_delay_ms(),
    {
        self.delay_ms
    }

    /// Takes in one event and says what the loop does next. A request for a
    /// turn at once gives the engine its turn and keeps the delay; a request
    /// for a later turn sets the delay; when the timer fires the engine gets
    /// its turn and the delay goes back to the frame rate; when the engine
    /// has gone the loop ends.
    pub fn step(&mut self, event: PumpEvent) -> (action: PumpAction)
        ensures
            action == action_for(event),
            final(self).spec_delay_ms() == next_delay(old(self).spec_delay_ms(), event),
    {
        match event {
            PumpEvent::Request(PumpDelayMs(requested)) => {
                if requested == 0 {
                    PumpAction::DoWork
                } else {
                    self.delay_ms = requested;
                    PumpAction::Wait
                }
            },
            PumpEvent::Closed => PumpAction::Stop,
            PumpEvent::TimerFired => {
                self.delay_ms = FRAME_RATE_DELAY_MS;
                PumpAction::DoWork
            },
        }
    }
}

} // verus!
