//! The decisions of the Wi-Fi task: connect, stay until the link drops, and
//! try again two seconds after every failure or disconnect.

use vstd::prelude::*;

verus! {

/// Pause, in seconds, before the next connection attempt.
pub const RECONNECT_DELAY_SECS: u64 = 2;

/// Where the link stands.
#[derive(Debug, Clone, Copy, PartialEq, Eq, Structural)]
pub enum WifiPhase {
    /// A connection attempt is running.
    Connecting,
    /// The station is associated; the task waits for the disconnect.
    Connected,
    /// The pause before the next attempt is running.
    Pausing,
}

/// What the task asks its driver to do next.
#[derive(Debug, Clone, Copy, PartialEq, Eq, Structural)]
pub enum WifiAction {
    /// Connect to the configured network.
    Connect,
    /// Wait until the station is disconnected.
    AwaitDisconnect,
    /// Sleep for this many seconds.
    Sleep(u64),
}

/// What the last operation answered.
#[derive(Debug, Clone, Copy, PartialEq, Eq, Structural)]
pub enum WifiEvent {
    Connected,
    ConnectFailed,
    Disconnected,
    TimerElapsed,
}

/// Whether `e` is an answer to the operation that `p` waits for.
pub open spec fn answers(p: WifiPhase, e: WifiEvent) -> bool {
    match p {
        WifiPhase::Connecting => e is Connected || e is ConnectFailed,
        WifiPhase::Connected => e is Disconnected,
        WifiPhase::Pausing => e is TimerElapsed,
    }
}

/// The phase and action that follow the answer `e`.
pub open spec fn wifi_next(e: WifiEvent) -> (WifiPhase, WifiAction) {
    match e {
        WifiEvent::Connected => (WifiPhase::Connected, WifiAction::AwaitDisconnect),
        WifiEvent::ConnectFailed => (WifiPhase::Pausing, WifiAction::Sleep(RECONNECT_DELAY_SECS)),
        WifiEvent::Disconnected => (WifiPhase::Pausing, WifiAction::Sleep(RECONNECT_DELAY_SECS)),
        WifiEvent::TimerElapsed => (WifiPhase::Connecting, WifiAction::Connect),
    }
}

/// The Wi-Fi task's state.
pub struct WifiLink {
    phase: WifiPhase,
}

impl View for WifiLink {
    type V = WifiPhase;

    closed spec fn view(&self) -> WifiPhase {
        self.phase
    }
}

impl WifiLink {
    /// A link that has not connected yet, and its first action.
    pub fn new() -> (r: (Self, WifiAction))
        ensures
            r.0@ == WifiPhase::Connecting,
            r.1 == WifiAction::Connect,
    {
        (WifiLink { phase: WifiPhase::Connecting }, WifiAction::Connect)
    }

    /// The phase the link is in.
    pub fn phase(&self) -> (p: WifiPhase)
        ensures
            p == self@,
    {
        self.phase
    }

    /// Takes the answer to the last action and returns the next action.
    pub fn step(&mut self, event: WifiEvent) -> (action: WifiAction)
        requires
            answers(old(self)@, event),
        ensures
            (final(self)@, action) == wifi_next(event),
    {
        match event {
            WifiEvent::Connected => {
                self.phase = WifiPhase::Connected;
                WifiAction::AwaitDisconnect
            },
            WifiEvent::ConnectFailed | WifiEvent::Disconnected => {
                self.phase = WifiPhase::Pausing;
                WifiAction::Sleep(RECONNECT_DELAY_SECS)
            },
            WifiEvent::TimerElapsed => {
                self.phase = WifiPhase::Connecting;
                WifiAction::Connect
            },
        }
    }
}

} // verus!
