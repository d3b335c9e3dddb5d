//! Broadcast state machine, safety delay presets and reconnect back-off.
use vstd::prelude::*;

verus! {

/// Safety delay preset; `Custom` holds a requested delay in seconds.
#[derive(Debug, Clone, Copy, PartialEq, Eq, Structural)]
pub enum SafetyPreset {
    Direct,
    Normal,
    Road,
    Safe,
    Extreme,
    Custom(u8),
}

/// Delay in seconds that a preset stands for (a custom delay is capped at 120 s).
pub open spec fn preset_seconds(p: SafetyPreset) -> int {
    match p {
        SafetyPreset::Direct => 0,
        SafetyPreset::Normal => 5,
        SafetyPreset::Road => 15,
        SafetyPreset::Safe => 30,
        SafetyPreset::Extreme => 60,
        SafetyPreset::Custom(v) => if v <= 120 { v as int } else { 120 },
    }
}

impl SafetyPreset {
    pub fn seconds(self) -> (r: u8)
        ensures
            r == preset_seconds(self),
            r <= 120,
    {
        match self {
            SafetyPreset::Direct => 0,
            SafetyPreset::Normal => 5,
            SafetyPreset::Road => 15,
            SafetyPreset::Safe => 30,
            SafetyPreset::Extreme => 60,
            SafetyPreset::Custom(v) => if v < 120 { v } else { 120 },
        }
    }
}


/// Observable state of the broadcast transport.
#[derive(Debug, Clone, Copy, PartialEq, Eq, Structural)]
pub enum BroadcastState {
    Ready,
    Connecting,
    Live,
    Buffering,
    Reconnecting,
    CatchingUp,
    BufferExhausted,
    Error,
    Stopped,
}

/// Something that happened to the transport.
#[derive(Debug, Clone, Copy, PartialEq, Eq, Structural)]
pub enum Event {
    Start,
    Connected,
    Disconnected,
    DelayFilled,
    ReplayStarted,
    ReplayComplete,
    Exhausted,
    Stop,
    Failure,
}

/// The transition table of the broadcast state machine: the first matching
/// row wins, and an event that no row names leaves the state unchanged.
pub open spec fn next_state(current: BroadcastState, event: Event) -> BroadcastState {
    match (current, event) {
        (_, Event::Stop) => BroadcastState::Stopped,
        (BroadcastState::Ready, Event::Start) => BroadcastState::Connecting,
        (BroadcastState::Stopped, Event::Start) => BroadcastState::Connecting,
        (BroadcastState::Connecting, Event::Connected) => BroadcastState::Buffering,
        (BroadcastState::Buffering, Event::DelayFilled) => BroadcastState::Live,
        (BroadcastState::Live, Event::Disconnected) => BroadcastState::Reconnecting,
        (BroadcastState::Buffering, Event::Disconnected) => BroadcastState::Reconnecting,
        (BroadcastState::Reconnecting, Event::Connected) => BroadcastState::CatchingUp,
        (BroadcastState::CatchingUp, Event::ReplayComplete) => BroadcastState::Live,
        (BroadcastState::Reconnecting, Event::Exhausted) => BroadcastState::BufferExhausted,
        (_, Event::Failure) => BroadcastState::Error,
        (BroadcastState::BufferExhausted, Event::Connected) => BroadcastState::CatchingUp,
        (s, _) => s,
    }
}

pub fn transition(current: BroadcastState, event: Event) -> (r: BroadcastState)
    ensures
        r == next_state(current, event),
{
    match (current, event) {
        (_, Event::Stop) => BroadcastState::Stopped,
        (BroadcastState::Ready, Event::Start) | (BroadcastState::Stopped, Event::Start) => {
            BroadcastState::Connecting
        },
        (BroadcastState::Connecting, Event::Connected) => BroadcastState::Buffering,
        (BroadcastState::Buffering, Event::DelayFilled) => BroadcastState::Live,
        (BroadcastState::Live, Event::Disconnected)
        | (BroadcastState::Buffering, Event::Disconnected) => BroadcastState::Reconnecting,
        (BroadcastState::Reconnecting, Event::Connected) => BroadcastState::CatchingUp,
        (BroadcastState::CatchingUp, Event::ReplayComplete) => BroadcastState::Live,
        (BroadcastState::Reconnecting, Event::Exhausted) => BroadcastState::BufferExhausted,
        (_, Event::Failure) => BroadcastState::Error,
        (BroadcastState::BufferExhausted, Event::Connected) => BroadcastState::CatchingUp,
        (s, _) => s,
    }
}

/// `2^n`.
pub open spec fn pow2(n: nat) -> nat
    decreases n,
{
    if n == 0 {
        1
    } else {
        2 * pow2((n - 1) as nat)
    }
}

/// Exponential back-off before a reconnect attempt: 500 ms doubled per attempt,
/// the exponent capped at 7, the whole capped at 30 s.
pub open spec fn backoff_ms(attempt: u32) -> int {
    let e: nat = if attempt <= 7 { attempt as nat } else { 7 };
    let raw = 500 * pow2(e);
    if raw <= 30_000 { raw as int } else { 30_000 }
}

/// Reconnect delay: the back-off plus up to 250 ms of jitter (`jitter_ms % 251`).
pub open spec fn reconnect_delay(attempt: u32, jitter_ms: u16) -> int {
    backoff_ms(attempt) + (jitter_ms % 251) as int
}

pub fn reconnect_delay_ms(attempt: u32, jitter_ms: u16) -> (r: u64)
    ensures
        r == reconnect_delay(attempt, jitter_ms),
{
    let e: u32 = if attempt < 7 { attempt } else { 7 };
    let mut p: u64 = 1;
    let mut i: u32 = 0;
    while i < e
        invariant
            i <= e <= 7,
            p == pow2(i as nat),
            p <= 128,
        decreases e - i,
    {
        proof {
            lemma_pow2_monotone((i + 1) as nat, 7);
            reveal_with_fuel(pow2, 8);
        }
        p = p * 2;
        i = i + 1;
    }
    let raw: u64 = 500 * p;
    let capped: u64 = if raw < 30_000 { raw } else { 30_000 };
    capped + (jitter_ms % 251) as u64
}

proof fn lemma_pow2_monotone(a: nat, b: nat)
    requires
        a <= b,
    ensures
        pow2(a) <= pow2(b),
    decreases b,
{
    if b > a {
        lemma_pow2_monotone(a, (b - 1) as nat);
    }
}

/// A stop request ends the broadcast from every state.
pub proof fn stop_always_stops(s: BroadcastState)
    ensures
        next_state(s, Event::Stop) == BroadcastState::Stopped,
{
}

/// A failure puts every state into `Error`.
pub proof fn failure_always_errors(s: BroadcastState)
    ensures
        next_state(s, Event::Failure) == BroadcastState::Error,
{
}

/// The programme only goes live after the delay buffer has filled or a
/// replay after a reconnect has completed.
pub proof fn live_only_after_fill_or_replay(s: BroadcastState, e: Event)
    requires
        s != BroadcastState::Live,
        next_state(s, e) == BroadcastState::Live,
    ensures
        (s == BroadcastState::Buffering && e == Event::DelayFilled)
            || (s == BroadcastState::CatchingUp && e == Event::ReplayComplete),
{
}

/// The reconnect delay never exceeds 30 s of back-off plus 250 ms of jitter.
pub proof fn reconnect_delay_is_bounded(attempt: u32, jitter_ms: u16)
    ensures
        500 <= reconnect_delay(attempt, jitter_ms) <= 30_250,
        backoff_ms(attempt) <= 30_000,
{
    let e: nat = if attempt <= 7 { attempt as nat } else { 7 };
    lemma_pow2_monotone(0, e);
}

/// A later attempt never waits less than an earlier one with the same jitter.
pub proof fn reconnect_delay_is_monotone(a1: u32, a2: u32, jitter_ms: u16)
    requires
        a1 <= a2,
    ensures
        reconnect_delay(a1, jitter_ms) <= reconnect_delay(a2, jitter_ms),
{
    let e1: nat = if a1 <= 7 { a1 as nat } else { 7 };
    let e2: nat = if a2 <= 7 { a2 as nat } else { 7 };
    lemma_pow2_monotone(e1, e2);
}

/// Only the first connection fills the delay buffer; a connection regained
/// after a loss replays the spool instead: `Connected` moves the broadcast
/// into `Buffering` exactly from `Connecting`, and into `CatchingUp` exactly
/// from `Reconnecting` or `BufferExhausted`.
pub proof fn reconnect_replays_instead_of_buffering(s: BroadcastState)
    ensures
        s != BroadcastState::Buffering ==> (next_state(s, Event::Connected) == BroadcastState::Buffering
            <==> s == BroadcastState::Connecting),
        s != BroadcastState::CatchingUp ==> (next_state(s, Event::Connected) == BroadcastState::CatchingUp
            <==> (s == BroadcastState::Reconnecting || s == BroadcastState::BufferExhausted)),
{
}

} // verus!
