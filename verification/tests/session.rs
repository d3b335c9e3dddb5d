use studio_core::devices::{
    best_input_format, best_output_format, device_listing, order_devices, AudioDevice, SampleKind,
};
use studio_core::diagnostics::Severity;
use studio_core::profile::{OutputMode, Profile, ProfileError};
use studio_core::reliability::BroadcastState;
use studio_core::session::{
    status_step, StatusEvent,
    broadcast_precheck, buffer_frames, endpoint_text, live_message, outage_transition, preflight_severity,
    preflight_summary, publish_rejection, publish_run_failure, publish_verdict, queue_capacity, schedule_retry,
    server_check, stop_report, valid_audio_buffer_ms, ChildStop, ServerCheck, StartBlock,
};

fn profile(mode: OutputMode) -> Profile {
    Profile {
        id: "p".into(),
        name: "road".into(),
        mode,
        host: "ingest.example".into(),
        port: 9000,
        stream_id: Some("s".into()),
        mount: Some("/m".into()),
        username: None,
        secret: None,
        credential_mode: None,
        tls: false,
        bitrate_kbps: 128,
        channels: 2,
        program_name: None,
    }
}

fn device(name: &str, backend: &str) -> AudioDevice {
    AudioDevice {
        id: format!("{backend}:{name}"),
        name: name.into(),
        is_default: false,
        backend: backend.into(),
        sample_rate: 48_000,
        input_channels: 2,
        output_channels: 2,
        supports_48khz: true,
    }
}

#[test]
fn audio_buffer_rules() {
    assert!(valid_audio_buffer_ms(5) && valid_audio_buffer_ms(500));
    assert!(!valid_audio_buffer_ms(4) && !valid_audio_buffer_ms(501));
    assert_eq!(buffer_frames(48_000, 50), 2_400);
    assert_eq!(buffer_frames(48_000, 0), 32);
    assert_eq!(buffer_frames(48_000, 500), 16_384);
    assert_eq!(buffer_frames(u32::MAX, u32::MAX), 16_384);
    assert_eq!(queue_capacity(48_000, 2), 192_000);
    assert_eq!(queue_capacity(0, 2), 1);
}

#[test]
fn start_checks() {
    let p = profile(OutputMode::SrtContribution);
    assert_eq!(broadcast_precheck(&p, true, true, false, Some(48_000)), Ok(()));
    assert_eq!(broadcast_precheck(&p, false, true, false, Some(48_000)), Err(StartBlock::NoAac));
    assert_eq!(broadcast_precheck(&p, true, false, false, Some(48_000)), Err(StartBlock::NoSrt));
    assert_eq!(broadcast_precheck(&p, true, true, true, Some(48_000)), Err(StartBlock::AlreadyRunning));
    assert_eq!(broadcast_precheck(&p, true, true, false, None), Err(StartBlock::NoAudioEngine));
    let r = broadcast_precheck(&p, true, true, false, Some(44_100));
    assert_eq!(r, Err(StartBlock::WrongSampleRate(44_100)));
    assert_eq!(
        r.unwrap_err().message(),
        "Input is 44100 Hz; select a 48 kHz device before starting transmission."
    );
    let ice = profile(OutputMode::Icecast);
    assert_eq!(broadcast_precheck(&ice, true, false, false, Some(48_000)), Ok(()));
    let mut bad = ice.clone();
    bad.channels = 0;
    assert_eq!(broadcast_precheck(&bad, false, false, true, None), Err(StartBlock::Invalid(ProfileError::Channels)));
    assert!(live_message(OutputMode::Icecast).starts_with("Icecast accepted"));
}

#[test]
fn stopping_a_broadcast() {
    let r = stop_report(BroadcastState::Live, None);
    assert!(!r.failed);
    assert_eq!(r.state, BroadcastState::Stopped);
    assert_eq!(r.message, "No broadcast transport was running.");
    let r = stop_report(BroadcastState::Live, Some(("road", ChildStop::Ended { kill_error: Some("k".into()), wait_error: None })));
    assert_eq!(r.message, "Broadcast stopped for road. Recording remains independent.");
    assert_eq!(r.state, BroadcastState::Stopped);
    let r = stop_report(BroadcastState::Reconnecting, Some(("road", ChildStop::NoChild)));
    assert_eq!(r.message, "Reconnect cancelled for road. Recording remains independent.");
    let r = stop_report(BroadcastState::Live, Some(("road", ChildStop::Ended { kill_error: Some("k".into()), wait_error: Some("w".into()) })));
    assert!(r.failed);
    assert_eq!(r.state, BroadcastState::Error);
    assert_eq!(r.message, "Broadcast process could not be stopped cleanly (k; w). Restart the app before broadcasting again.");
    let r = stop_report(BroadcastState::Live, Some(("road", ChildStop::Ended { kill_error: None, wait_error: Some("w".into()) })));
    assert_eq!(r.message, "Broadcast process could not be reaped (w). Restart the app before broadcasting again.");
}

#[test]
fn retry_scheduling_and_outages() {
    let r = schedule_retry(0);
    assert_eq!((r.attempt, r.delay_ms), (1, 1_001));
    let r = schedule_retry(u32::MAX);
    assert_eq!(r.attempt, u32::MAX);
    assert_eq!(r.delay_ms, 30_000 + (u32::MAX % 251) as u64);
    assert_eq!(outage_transition(BroadcastState::Live), Some(BroadcastState::Reconnecting));
    assert_eq!(outage_transition(BroadcastState::Buffering), Some(BroadcastState::Reconnecting));
    assert_eq!(outage_transition(BroadcastState::Ready), None);
}

#[test]
fn preflight_verdicts() {
    let srt = profile(OutputMode::SrtContribution);
    let ice = profile(OutputMode::Icecast);
    assert!(matches!(server_check(None, true, true, false, None), ServerCheck::Done(m) if m == "No profile selected."));
    assert!(matches!(server_check(Some(&srt), true, false, true, None), ServerCheck::Done(m) if m.starts_with("SRT cannot be tested")));
    assert!(matches!(server_check(Some(&ice), false, true, true, None), ServerCheck::Done(m) if m == "AAC-LC encoding is unavailable."));
    assert!(matches!(server_check(Some(&ice), true, true, false, None), ServerCheck::Done(m) if m.starts_with("Host could not be resolved")));
    assert!(matches!(server_check(Some(&ice), true, true, true, Some("vault".into())), ServerCheck::Done(m) if m == "vault"));
    assert!(matches!(server_check(Some(&srt), true, true, true, None), ServerCheck::RunPublishTest(OutputMode::SrtContribution)));
    let server = publish_verdict(OutputMode::SrtContribution, Ok(()));
    assert_eq!(
        preflight_summary(Some(&srt), true, true, true, &server),
        "DNS and a real SRT handshake were accepted by a short silent AAC-LC/MPEG-TS test."
    );
    assert_eq!(
        preflight_summary(Some(&ice), true, true, false, ""),
        "Could not resolve or reach ingest.example. Check host, port and firewall."
    );
    let rejected = publish_verdict(OutputMode::Icecast, Err(publish_rejection(OutputMode::Icecast, "401 pw\n".into(), Some("pw"))));
    assert_eq!(rejected, "Icecast rejected the test: 401 [redacted]");
    assert_eq!(
        preflight_summary(Some(&ice), true, true, true, &rejected),
        "Icecast preflight failed; open Diagnostics for the server response."
    );
    assert_eq!(preflight_summary(None, true, false, false, ""), "Encoder preflight incomplete: AAC or SRT support is missing.");
    assert_eq!(publish_run_failure(OutputMode::SrtContribution, "e"), "Could not run FFmpeg SRT test: e");
    assert_eq!(preflight_severity(true, true), Severity::Info);
    assert_eq!(preflight_severity(true, false), Severity::Warning);
    assert_eq!(endpoint_text(Some(&srt)), "ingest.example:9000");
    assert_eq!(endpoint_text(None), "No profile selected");
}

#[test]
fn devices_are_offered_asio_first_then_by_name() {
    let ordered = order_devices(vec![
        device("b", "wasapi"),
        device("Z", "asio"),
        device("a", "wasapi"),
        device("A", "asio"),
        device("é", "wasapi"),
    ]);
    let names: Vec<_> = ordered.iter().map(|d| d.name.as_str()).collect();
    assert_eq!(names, vec!["A", "Z", "a", "b", "é"]);
    assert_eq!(
        device_listing(vec![], vec!["asio: down".into(), "wasapi: busy".into()]).err(),
        Some("Cannot enumerate native input devices: asio: down; wasapi: busy".to_string())
    );
    assert_eq!(device_listing(vec![], vec![]).unwrap().len(), 0);
    assert_eq!(device_listing(vec![device("x", "alsa")], vec!["e".into()]).unwrap().len(), 1);
}

#[test]
fn stream_format_preference() {
    assert_eq!(best_input_format(&vec![]), None);
    assert_eq!(
        best_input_format(&vec![SampleKind::I16, SampleKind::F32, SampleKind::Other, SampleKind::F32, SampleKind::U16]),
        Some(3)
    );
    assert_eq!(
        best_output_format(&vec![(2, SampleKind::F32), (8, SampleKind::U16), (8, SampleKind::I16), (8, SampleKind::U16)]),
        Some(2)
    );
    assert_eq!(best_output_format(&vec![(2, SampleKind::F32), (2, SampleKind::F32)]), Some(1));
}

#[test]
fn status_poll_steps() {
    let live = status_step("Morning", 0, StatusEvent::EncoderRunning, None);
    assert_eq!(live.reply_state, BroadcastState::Live);
    assert_eq!(live.message, "Programme encoder is live for Morning.");
    assert!(live.new_state.is_none() && live.log.is_none() && live.retry_after_ms.is_none());

    let broken = status_step("Morning", 2, StatusEvent::InspectFailed("denied".to_string()), Some("old"));
    assert_eq!(broken.reply_state, BroadcastState::Error);
    assert_eq!(broken.message, "Could not inspect encoder process: denied");
    assert_eq!(broken.attempt, 2);
    assert_eq!(broken.last_error.as_deref(), Some("old"));

    let exited = status_step("Morning", 0, StatusEvent::EncoderExited("exit status: 1: refused".to_string()), None);
    assert_eq!(exited.reply_state, BroadcastState::Reconnecting);
    assert_eq!(exited.new_state, Some(BroadcastState::Reconnecting));
    assert_eq!(exited.attempt, 1);
    assert_eq!(exited.retry_after_ms, Some(1001));
    let (severity, text) = exited.log.expect("a disconnect is logged");
    assert_eq!(severity, Severity::Warning);
    assert_eq!(text, "Encoder disconnected for Morning; retry 1 in 1001 ms.");
    assert_eq!(exited.message, "Connection lost. Retrying 1 in 1001 ms: exit status: 1: refused");
    assert_eq!(exited.last_error.as_deref(), Some("exit status: 1: refused"));

    let waiting = status_step("Morning", 1, StatusEvent::RetryWaiting(640), None);
    assert_eq!(waiting.message, "Connection lost. Retrying 1 in 640 ms: transport ended");
    assert!(waiting.new_state.is_none());
    let waiting = status_step("Morning", 1, StatusEvent::RetryWaiting(5), Some("timeout"));
    assert_eq!(waiting.message, "Connection lost. Retrying 1 in 5 ms: timeout");

    let back = status_step("Morning", 3, StatusEvent::RestartSucceeded, Some("timeout"));
    assert_eq!(back.reply_state, BroadcastState::Live);
    assert_eq!(back.new_state, Some(BroadcastState::Live));
    assert_eq!(back.attempt, 0);
    assert!(back.last_error.is_none());
    assert_eq!(back.message, "Connection restored. Morning is live.");
    let (severity, text) = back.log.expect("a reconnect is logged");
    assert_eq!(severity, Severity::Info);
    assert_eq!(text, "Transport reconnected for Morning.");

    let failed = status_step("Morning", 2, StatusEvent::RestartFailed("no route".to_string()), Some("timeout"));
    assert_eq!(failed.attempt, 3);
    assert_eq!(failed.retry_after_ms, Some(4003));
    assert_eq!(failed.message, "Reconnect 3 failed; retrying in 4003 ms: no route");
    assert_eq!(failed.last_error.as_deref(), Some("no route"));
    assert!(failed.log.is_none());

    let saturated = status_step("Morning", u32::MAX, StatusEvent::RestartFailed("x".to_string()), None);
    assert_eq!(saturated.attempt, u32::MAX);
    assert_eq!(saturated.retry_after_ms, Some(30_000 + (u32::MAX % 251) as u64));
}

#[test]
fn tied_devices_keep_their_order() {
    let mut first = device("Mic", "wasapi");
    first.id = "first".into();
    let mut second = device("Mic", "wasapi");
    second.id = "second".into();
    let mut third = device("Mic", "wasapi");
    third.id = "third".into();
    let ordered = order_devices(vec![first, device("Line", "asio"), second, device("Aux", "wasapi"), third]);
    let ids: Vec<_> = ordered.iter().map(|d| d.id.as_str()).collect();
    assert_eq!(ids[0], "asio:Line");
    assert_eq!(ids[1], "wasapi:Aux");
    assert_eq!(&ids[2..], &["first", "second", "third"]);
}
