use studio_core::reliability::{reconnect_delay_ms, transition, BroadcastState, Event, SafetyPreset};

#[test]
fn state_machine() {
    let s = transition(BroadcastState::Ready, Event::Start);
    assert_eq!(transition(s, Event::Connected), BroadcastState::Buffering);
    assert_eq!(
        transition(BroadcastState::Reconnecting, Event::Exhausted),
        BroadcastState::BufferExhausted
    );
}

#[test]
fn reconnect_is_bounded() {
    assert!(reconnect_delay_ms(30, 0) <= 30_000);
}

const ALL_STATES: [BroadcastState; 9] = [
    BroadcastState::Ready,
    BroadcastState::Connecting,
    BroadcastState::Live,
    BroadcastState::Buffering,
    BroadcastState::Reconnecting,
    BroadcastState::CatchingUp,
    BroadcastState::BufferExhausted,
    BroadcastState::Error,
    BroadcastState::Stopped,
];

const ALL_EVENTS: [Event; 9] = [
    Event::Start,
    Event::Connected,
    Event::Disconnected,
    Event::DelayFilled,
    Event::ReplayStarted,
    Event::ReplayComplete,
    Event::Exhausted,
    Event::Stop,
    Event::Failure,
];

#[test]
fn stop_and_failure_apply_everywhere() {
    for s in ALL_STATES {
        assert_eq!(transition(s, Event::Stop), BroadcastState::Stopped);
        assert_eq!(transition(s, Event::Failure), BroadcastState::Error);
    }
}

#[test]
fn live_is_entered_only_after_fill_or_replay() {
    for s in ALL_STATES {
        for e in ALL_EVENTS {
            if s != BroadcastState::Live && transition(s, e) == BroadcastState::Live {
                assert!(
                    (s == BroadcastState::Buffering && e == Event::DelayFilled)
                        || (s == BroadcastState::CatchingUp && e == Event::ReplayComplete)
                );
            }
        }
    }
}

#[test]
fn full_reconnect_cycle() {
    let mut s = BroadcastState::Ready;
    for e in [
        Event::Start,
        Event::Connected,
        Event::DelayFilled,
        Event::Disconnected,
        Event::Exhausted,
        Event::Connected,
        Event::ReplayComplete,
    ] {
        s = transition(s, e);
    }
    assert_eq!(s, BroadcastState::Live);
    assert_eq!(transition(BroadcastState::Stopped, Event::Start), BroadcastState::Connecting);
    assert_eq!(transition(BroadcastState::Live, Event::ReplayStarted), BroadcastState::Live);
    assert_eq!(transition(BroadcastState::Error, Event::Connected), BroadcastState::Error);
}

#[test]
fn reconnect_delay_values() {
    assert_eq!(reconnect_delay_ms(0, 0), 500);
    assert_eq!(reconnect_delay_ms(1, 0), 1_000);
    assert_eq!(reconnect_delay_ms(5, 0), 16_000);
    assert_eq!(reconnect_delay_ms(6, 0), 30_000);
    assert_eq!(reconnect_delay_ms(u32::MAX, 300), 30_049);
    assert_eq!(reconnect_delay_ms(2, 250), 2_250);
    assert_eq!(reconnect_delay_ms(2, 251), 2_000);
    assert!(reconnect_delay_ms(u32::MAX, u16::MAX) <= 30_250);
}

#[test]
fn reconnect_delay_never_shrinks() {
    for j in [0u16, 17, 250, 600] {
        let mut last = 0;
        for a in 0..40u32 {
            let d = reconnect_delay_ms(a, j);
            assert!(d >= last);
            last = d;
        }
    }
}

#[test]
fn safety_preset_seconds() {
    assert_eq!(SafetyPreset::Direct.seconds(), 0);
    assert_eq!(SafetyPreset::Normal.seconds(), 5);
    assert_eq!(SafetyPreset::Road.seconds(), 15);
    assert_eq!(SafetyPreset::Safe.seconds(), 30);
    assert_eq!(SafetyPreset::Extreme.seconds(), 60);
    assert_eq!(SafetyPreset::Custom(90).seconds(), 90);
    assert_eq!(SafetyPreset::Custom(200).seconds(), 120);
}
