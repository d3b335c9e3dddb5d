//! Decisions of the studio shell around a broadcast session: audio buffer
//! settings, the checks before going live, stopping, reconnect scheduling,
//! outage simulation and connection preflight verdicts. The shell performs the
//! I/O these decisions call for and reports back what happened.
use vstd::prelude::*;
use crate::diagnostics::Severity;
use crate::profile::{OutputMode, Profile, ProfileError, error_message, validation};
use crate::reliability::{BroadcastState, Event, backoff_ms, next_state, reconnect_delay, reconnect_delay_ms, transition};
use crate::text::{decimal, push_decimal, same_text, occurs_at, chars_of};
use crate::transport::{encoder_error_summary, opt_str, redact_encoder_error};

verus! {

/// Audio buffer sizes the engine accepts, in milliseconds.
pub open spec fn buffer_ms_allowed(ms: u32) -> bool {
    5 <= ms <= 500
}

pub fn valid_audio_buffer_ms(ms: u32) -> (r: bool)
    ensures
        r == buffer_ms_allowed(ms),
{
    5 <= ms && ms <= 500
}

/// Device buffer length in frames for a buffer of `buffer_ms` at `sample_rate`,
/// kept between 32 and 16384 frames.
pub open spec fn frames_for(sample_rate: u32, buffer_ms: u32) -> int {
    let f = (sample_rate as int * buffer_ms as int) / 1000;
    if f < 32 { 32 } else if f > 16384 { 16384 } else { f }
}

pub fn buffer_frames(sample_rate: u32, buffer_ms: u32) -> (r: u32)
    ensures
        r == frames_for(sample_rate, buffer_ms),
        32 <= r <= 16384,
{
    assert((sample_rate as u64) * (buffer_ms as u64) <= 0xffff_ffff * 0xffff_ffff) by (nonlinear_arith)
        requires
            sample_rate <= 0xffff_ffff,
            buffer_ms <= 0xffff_ffff,
    ;
    let f: u64 = (sample_rate as u64) * (buffer_ms as u64) / 1000;
    if f < 32 {
        32
    } else if f > 16384 {
        16384
    } else {
        f as u32
    }
}

/// Seconds of audio the routing queue holds.
pub const AUDIO_QUEUE_SECONDS: usize = 2;

/// Capacity of the routing queue: two seconds of interleaved samples, at least one.
pub fn queue_capacity(sample_rate: u32, channels: usize) -> (r: usize)
    requires
        sample_rate as int * channels as int * 2 <= usize::MAX,
    ensures
        r == (if sample_rate as int * channels as int * 2 >= 1 { sample_rate as int * channels as int * 2 } else { 1 }),
{
    let n: usize = (sample_rate as usize) * channels * AUDIO_QUEUE_SECONDS;
    if n >= 1 { n } else { 1 }
}

/// Why a broadcast cannot start.
#[derive(Debug, Clone, Copy, PartialEq, Eq, Structural)]
pub enum StartBlock {
    Invalid(ProfileError),
    NoAac,
    NoSrt,
    AlreadyRunning,
    NoAudioEngine,
    WrongSampleRate(u32),
}

pub open spec fn start_block_message(b: StartBlock) -> Seq<char> {
    match b {
        StartBlock::Invalid(e) => error_message(e),
        StartBlock::NoAac => "Broadcast blocked: FFmpeg AAC-LC encoder was not found."@,
        StartBlock::NoSrt => "Broadcast blocked: this FFmpeg build has no SRT protocol. Install the pinned release FFmpeg with libsrt support."@,
        StartBlock::AlreadyRunning => "Broadcast is already running. Stop it before starting another profile."@,
        StartBlock::NoAudioEngine => "Audio engine is not running. Select an input device first."@,
        StartBlock::WrongSampleRate(r) => "Input is "@ + decimal(r as nat) + " Hz; select a 48 kHz device before starting transmission."@,
    }
}

impl StartBlock {
    pub fn message(&self) -> (r: String)
        ensures
            r@ == start_block_message(*self),
    {
        match self {
            StartBlock::Invalid(e) => e.message().to_string(),
            StartBlock::NoAac => "Broadcast blocked: FFmpeg AAC-LC encoder was not found.".to_string(),
            StartBlock::NoSrt => "Broadcast blocked: this FFmpeg build has no SRT protocol. Install the pinned release FFmpeg with libsrt support.".to_string(),
            StartBlock::AlreadyRunning => "Broadcast is already running. Stop it before starting another profile.".to_string(),
            StartBlock::NoAudioEngine => "Audio engine is not running. Select an input device first.".to_string(),
            StartBlock::WrongSampleRate(r) => {
                let mut s = String::new();
                s.append("Input is ");
                push_decimal(&mut s, *r as u64);
                s.append(" Hz; select a 48 kHz device before starting transmission.");
                s
            },
        }
    }
}

/// The checks before a broadcast starts, in order: a valid profile, an AAC-LC
/// encoder, SRT support for SRT profiles, no broadcast already running, a
/// running audio engine, and a 48 kHz input.
pub open spec fn start_check(p: Profile, aac: bool, srt: bool, running: bool, engine_rate: Option<u32>) -> Result<(), StartBlock> {
    if validation(p) is Err {
        Err(StartBlock::Invalid(validation(p)->Err_0))
    } else if !aac {
        Err(StartBlock::NoAac)
    } else if p.mode == OutputMode::SrtContribution && !srt {
        Err(StartBlock::NoSrt)
    } else if running {
        Err(StartBlock::AlreadyRunning)
    } else if engine_rate is None {
        Err(StartBlock::NoAudioEngine)
    } else if engine_rate->Some_0 != 48_000 {
        Err(StartBlock::WrongSampleRate(engine_rate->Some_0))
    } else {
        Ok(())
    }
}

pub fn broadcast_precheck(profile: &Profile, aac: bool, srt: bool, running: bool, engine_rate: Option<u32>) -> (r: Result<(), StartBlock>)
    ensures
        r == start_check(*profile, aac, srt, running, engine_rate),
{
    match profile.validate() {
        Err(e) => { return Err(StartBlock::Invalid(e)); },
        Ok(()) => {},
    }
    if !aac {
        return Err(StartBlock::NoAac);
    }
    if profile.mode == OutputMode::SrtContribution && !srt {
        return Err(StartBlock::NoSrt);
    }
    if running {
        return Err(StartBlock::AlreadyRunning);
    }
    match engine_rate {
        None => Err(StartBlock::NoAudioEngine),
        Some(rate) => if rate != 48_000 {
            Err(StartBlock::WrongSampleRate(rate))
        } else {
            Ok(())
        },
    }
}

/// What the shell reports once the programme encoder runs.
pub open spec fn live_message_text(mode: OutputMode) -> Seq<char> {
    match mode {
        OutputMode::Icecast => "Icecast accepted a silent authentication test and the AAC-LC programme encoder is running."@,
        OutputMode::SrtContribution => "SRT listener accepted a short AAC-LC/MPEG-TS test; programme encoder is live."@,
    }
}

pub fn live_message(mode: OutputMode) -> (r: &'static str)
    ensures
        r@ == live_message_text(mode),
{
    match mode {
        OutputMode::Icecast => "Icecast accepted a silent authentication test and the AAC-LC programme encoder is running.",
        OutputMode::SrtContribution => "SRT listener accepted a short AAC-LC/MPEG-TS test; programme encoder is live.",
    }
}

/// How stopping the encoder process went.
pub enum ChildStop {
    /// No encoder process was running (a reconnect was pending).
    NoChild,
    /// The process was killed and waited for; the errors, if any.
    Ended { kill_error: Option<String>, wait_error: Option<String> },
}

/// The result of a stop request: the new state, the message, and whether it
/// is an error.
pub struct StopReport {
    pub state: BroadcastState,
    pub message: String,
    pub failed: bool,
}

/// Stopping a broadcast: when the encoder could not be reaped the state becomes
/// `Error`; otherwise the state machine takes the `Stop` event.
pub fn stop_report(current: BroadcastState, session: Option<(&str, ChildStop)>) -> (r: StopReport)
    ensures
        (match session {
            None => !r.failed && r.state == next_state(current, Event::Stop)
                && r.message@ == "No broadcast transport was running."@,
            Some((name, ChildStop::NoChild)) => !r.failed && r.state == next_state(current, Event::Stop)
                && r.message@ == "Reconnect cancelled for "@ + name@ + ". Recording remains independent."@,
            Some((name, ChildStop::Ended { kill_error, wait_error })) => match (kill_error, wait_error) {
                (_, None) => !r.failed && r.state == next_state(current, Event::Stop)
                    && r.message@ == "Broadcast stopped for "@ + name@ + ". Recording remains independent."@,
                (Some(k), Some(w)) => r.failed && r.state == BroadcastState::Error
                    && r.message@ == "Broadcast process could not be stopped cleanly ("@ + k@ + "; "@ + w@ + "). Restart the app before broadcasting again."@,
                (None, Some(w)) => r.failed && r.state == BroadcastState::Error
                    && r.message@ == "Broadcast process could not be reaped ("@ + w@ + "). Restart the app before broadcasting again."@,
            },
        }),
{
    let mut message = String::new();
    match session {
        None => {
            message.append("No broadcast transport was running.");
            StopReport { state: transition(current, Event::Stop), message, failed: false }
        },
        Some((name, ChildStop::NoChild)) => {
            message.append("Reconnect cancelled for ");
            message.append(name);
            message.append(". Recording remains independent.");
            StopReport { state: transition(current, Event::Stop), message, failed: false }
        },
        Some((name, ChildStop::Ended { kill_error, wait_error })) => match (kill_error, wait_error) {
            (_, None) => {
                message.append("Broadcast stopped for ");
                message.append(name);
                message.append(". Recording remains independent.");
                StopReport { state: transition(current, Event::Stop), message, failed: false }
            },
            (Some(k), Some(w)) => {
                message.append("Broadcast process could not be stopped cleanly (");
                message.append(k.as_str());
                message.append("; ");
                message.append(w.as_str());
                message.append("). Restart the app before broadcasting again.");
                StopReport { state: BroadcastState::Error, message, failed: true }
            },
            (None, Some(w)) => {
                message.append("Broadcast process could not be reaped (");
                message.append(w.as_str());
                message.append("). Restart the app before broadcasting again.");
                StopReport { state: BroadcastState::Error, message, failed: true }
            },
        },
    }
}

/// The next reconnect attempt and how long to wait before it.
pub struct RetrySchedule {
    pub attempt: u32,
    pub delay_ms: u64,
}

/// After a transport loss or a failed restart: one more attempt (saturating),
/// waiting the back-off for it with a jitter of `attempt % 251` ms.
pub fn schedule_retry(attempt: u32) -> (r: RetrySchedule)
    ensures
        r.attempt == (if attempt < u32::MAX { attempt + 1 } else { attempt as int }),
        r.delay_ms == reconnect_delay(r.attempt, (r.attempt % 251) as u16),
{
    let next = attempt.saturating_add(1);
    let jitter = (next % 251) as u16;
    RetrySchedule { attempt: next, delay_ms: reconnect_delay_ms(next, jitter) }
}

/// A broadcast outage may only be simulated while live or buffering; it is the
/// `Disconnected` event.
pub fn outage_transition(current: BroadcastState) -> (r: Option<BroadcastState>)
    ensures
        (current == BroadcastState::Live || current == BroadcastState::Buffering) ==> r == Some(
            next_state(current, Event::Disconnected),
        ),
        !(current == BroadcastState::Live || current == BroadcastState::Buffering) ==> r is None,
{
    match current {
        BroadcastState::Live | BroadcastState::Buffering => Some(transition(current, Event::Disconnected)),
        _ => None,
    }
}


/// What the connection preflight does about the server: report a verdict
/// already reached, or run the short publish test for this transport.
pub enum ServerCheck {
    Done(String),
    RunPublishTest(OutputMode),
}

/// The server verdict reached without a publish test, if any: a missing or
/// invalid profile, missing encoder support, an unreachable host, or a
/// credential that could not be read; `None` when the publish test must run.
pub open spec fn server_verdict(
    p: Option<Profile>,
    aac: bool,
    srt: bool,
    reachable: bool,
    secret_error: Option<Seq<char>>,
) -> Option<Seq<char>> {
    match p {
        None => Some("No profile selected."@),
        Some(q) => if validation(q) is Err {
            Some("Profile validation did not pass."@)
        } else if q.mode == OutputMode::SrtContribution && !srt {
            Some("SRT cannot be tested because this FFmpeg build has no SRT protocol."@)
        } else if !aac {
            Some("AAC-LC encoding is unavailable."@)
        } else if !reachable {
            Some(
                if q.mode == OutputMode::Icecast {
                    "Host could not be resolved or the TCP port could not be reached."@
                } else {
                    "SRT host could not be resolved."@
                },
            )
        } else {
            secret_error
        },
    }
}

pub open spec fn opt_profile(p: Option<&Profile>) -> Option<Profile> {
    match p {
        Some(q) => Some(*q),
        None => None,
    }
}

pub open spec fn opt_text_of(s: Option<String>) -> Option<Seq<char>> {
    match s {
        Some(t) => Some(t@),
        None => None,
    }
}

pub fn server_check(
    profile: Option<&Profile>,
    aac: bool,
    srt: bool,
    reachable: bool,
    secret_error: Option<String>,
) -> (r: ServerCheck)
    ensures
        (match r {
            ServerCheck::Done(m) => server_verdict(opt_profile(profile), aac, srt, reachable, opt_text_of(secret_error))
                == Some(m@),
            ServerCheck::RunPublishTest(mode) => server_verdict(opt_profile(profile), aac, srt, reachable, opt_text_of(secret_error))
                is None && profile is Some && mode == profile->Some_0.mode,
        }),
{
    match profile {
        None => ServerCheck::Done("No profile selected.".to_string()),
        Some(q) => {
            if q.validate().is_err() {
                ServerCheck::Done("Profile validation did not pass.".to_string())
            } else if q.mode == OutputMode::SrtContribution && !srt {
                ServerCheck::Done("SRT cannot be tested because this FFmpeg build has no SRT protocol.".to_string())
            } else if !aac {
                ServerCheck::Done("AAC-LC encoding is unavailable.".to_string())
            } else if !reachable {
                match q.mode {
                    OutputMode::Icecast => ServerCheck::Done("Host could not be resolved or the TCP port could not be reached.".to_string()),
                    OutputMode::SrtContribution => ServerCheck::Done("SRT host could not be resolved.".to_string()),
                }
            } else {
                match secret_error {
                    Some(e) => ServerCheck::Done(e),
                    None => ServerCheck::RunPublishTest(q.mode),
                }
            }
        },
    }
}

/// The server verdict after the publish test.
pub open spec fn publish_verdict_text(mode: OutputMode, outcome: Result<(), Seq<char>>) -> Seq<char> {
    match outcome {
        Ok(()) => match mode {
            OutputMode::Icecast => "Icecast accepted a 300 ms silent AAC-LC publish test."@,
            OutputMode::SrtContribution => "SRT listener accepted a 500 ms silent AAC-LC/MPEG-TS publish test."@,
        },
        Err(e) => e,
    }
}

pub fn publish_verdict(mode: OutputMode, outcome: Result<(), String>) -> (r: String)
    ensures
        r@ == publish_verdict_text(mode, match outcome { Ok(()) => Ok(()), Err(e) => Err(e@) }),
{
    match outcome {
        Ok(()) => match mode {
            OutputMode::Icecast => "Icecast accepted a 300 ms silent AAC-LC publish test.".to_string(),
            OutputMode::SrtContribution => "SRT listener accepted a 500 ms silent AAC-LC/MPEG-TS publish test.".to_string(),
        },
        Err(e) => e,
    }
}

/// Why a publish test failed, when the encoder ran and exited unsuccessfully:
/// the transport's prefix and the redacted tail of the encoder's error output.
pub fn publish_rejection(mode: OutputMode, stderr: String, secret: Option<&str>) -> (r: String)
    ensures
        r@ == (match mode {
            OutputMode::Icecast => "Icecast rejected the test: "@,
            OutputMode::SrtContribution => "SRT listener rejected the test: "@,
        }) + encoder_error_summary(stderr@, opt_str(secret)),
{
    let mut out = String::new();
    match mode {
        OutputMode::Icecast => out.append("Icecast rejected the test: "),
        OutputMode::SrtContribution => out.append("SRT listener rejected the test: "),
    }
    let tail = redact_encoder_error(stderr, secret);
    out.append(tail.as_str());
    out
}

/// Why a publish test failed when the encoder could not be run at all.
pub fn publish_run_failure(mode: OutputMode, error: &str) -> (r: String)
    ensures
        r@ == (match mode {
            OutputMode::Icecast => "Could not run FFmpeg test: "@,
            OutputMode::SrtContribution => "Could not run FFmpeg SRT test: "@,
        }) + error@,
{
    let mut out = String::new();
    match mode {
        OutputMode::Icecast => out.append("Could not run FFmpeg test: "),
        OutputMode::SrtContribution => out.append("Could not run FFmpeg SRT test: "),
    }
    out.append(error);
    out
}

/// `s` starts with `prefix`.
pub open spec fn starts_with(s: Seq<char>, prefix: Seq<char>) -> bool {
    occurs_at(s, prefix, 0)
}

fn starts_with_exec(s: &str, prefix: &str) -> (r: bool)
    ensures
        r == starts_with(s@, prefix@),
{
    let v = chars_of(s);
    let p = chars_of(prefix);
    crate::text::occurs_at_exec(&v, &p, 0)
}

/// The one-line preflight summary.
pub open spec fn preflight_summary_text(p: Option<Profile>, aac: bool, srt: bool, reachable: bool, server: Seq<char>) -> Seq<char> {
    match p {
        Some(q) => if validation(q) is Err {
            "Profile fields are invalid; correct them before testing."@
        } else if q.mode == OutputMode::SrtContribution && !srt {
            "SRT profile blocked: this FFmpeg build has no SRT protocol."@
        } else if !aac {
            "Profile blocked: this FFmpeg build has no AAC encoder."@
        } else if !reachable {
            "Could not resolve or reach "@ + q.host@ + ". Check host, port and firewall."@
        } else if starts_with(server, "SRT listener accepted"@) {
            "DNS and a real SRT handshake were accepted by a short silent AAC-LC/MPEG-TS test."@
        } else if starts_with(server, "Icecast accepted"@) {
            "DNS, TCP and Icecast credentials were accepted by a short silent AAC-LC test."@
        } else {
            "Icecast preflight failed; open Diagnostics for the server response."@
        },
        None => if aac && srt {
            "Encoder prerequisites found; configure a profile to test its endpoint."@
        } else {
            "Encoder preflight incomplete: AAC or SRT support is missing."@
        },
    }
}

pub fn preflight_summary(profile: Option<&Profile>, aac: bool, srt: bool, reachable: bool, server: &str) -> (r: String)
    ensures
        r@ == preflight_summary_text(opt_profile(profile), aac, srt, reachable, server@),
{
    match profile {
        Some(q) => if q.validate().is_err() {
            "Profile fields are invalid; correct them before testing.".to_string()
        } else if q.mode == OutputMode::SrtContribution && !srt {
            "SRT profile blocked: this FFmpeg build has no SRT protocol.".to_string()
        } else if !aac {
            "Profile blocked: this FFmpeg build has no AAC encoder.".to_string()
        } else if !reachable {
            let mut s = String::new();
            s.append("Could not resolve or reach ");
            s.append(q.host.as_str());
            s.append(". Check host, port and firewall.");
            s
        } else if starts_with_exec(server, "SRT listener accepted") {
            "DNS and a real SRT handshake were accepted by a short silent AAC-LC/MPEG-TS test.".to_string()
        } else if starts_with_exec(server, "Icecast accepted") {
            "DNS, TCP and Icecast credentials were accepted by a short silent AAC-LC test.".to_string()
        } else {
            "Icecast preflight failed; open Diagnostics for the server response.".to_string()
        },
        None => if aac && srt {
            "Encoder prerequisites found; configure a profile to test its endpoint.".to_string()
        } else {
            "Encoder preflight incomplete: AAC or SRT support is missing.".to_string()
        },
    }
}

/// Preflight findings are logged as information when both AAC and SRT are
/// available, otherwise as a warning.
pub fn preflight_severity(aac: bool, srt: bool) -> (r: Severity)
    ensures
        r == (if aac && srt { Severity::Info } else { Severity::Warning }),
{
    if aac && srt { Severity::Info } else { Severity::Warning }
}

/// `host:port` of the profile, or a notice that none is selected.
pub fn endpoint_text(profile: Option<&Profile>) -> (r: String)
    ensures
        r@ == (match profile {
            Some(q) => q.host@ + ":"@ + decimal(q.port as nat),
            None => "No profile selected"@,
        }),
{
    match profile {
        Some(q) => {
            let mut s = String::new();
            s.append(q.host.as_str());
            s.append(":");
            push_decimal(&mut s, q.port as u64);
            s
        },
        None => "No profile selected".to_string(),
    }
}


/// What the shell observed when asked for the broadcast status.
pub enum StatusEvent {
    /// The programme encoder is still running.
    EncoderRunning,
    /// The encoder process could not be inspected.
    InspectFailed(String),
    /// The encoder exited; the exit status and its error output.
    EncoderExited(String),
    /// No encoder runs and the next retry is this far away.
    RetryWaiting(u64),
    /// A due retry started the encoder again.
    RestartSucceeded,
    /// A due retry failed with this error.
    RestartFailed(String),
}

/// The answer to a status request: the state to report, the message, the
/// broadcast state to record, the reconnect attempt count from now on, a retry
/// to schedule after this many milliseconds, what to log, and the transport
/// error to remember.
pub struct StatusStep {
    pub reply_state: BroadcastState,
    pub message: String,
    pub new_state: Option<BroadcastState>,
    pub attempt: u32,
    pub retry_after_ms: Option<u64>,
    pub log: Option<(Severity, String)>,
    pub last_error: Option<String>,
}

pub open spec fn next_attempt(attempt: u32) -> u32 {
    if attempt < u32::MAX { (attempt + 1) as u32 } else { attempt }
}

pub open spec fn retry_delay(attempt: u32) -> int {
    reconnect_delay(next_attempt(attempt), (next_attempt(attempt) % 251) as u16)
}

/// One step of the status poll of a running broadcast session named `name`,
/// with `attempt` failed reconnects so far and the transport error last seen.
pub fn status_step(name: &str, attempt: u32, event: StatusEvent, last_error: Option<&str>) -> (r: StatusStep)
    ensures
        (match event {
            StatusEvent::EncoderRunning => r.reply_state == BroadcastState::Live && r.new_state is None
                && r.attempt == attempt && r.retry_after_ms is None && r.log is None
                && r.message@ == "Programme encoder is live for "@ + name@ + "."@
                && opt_text_of(r.last_error) == opt_str(last_error),
            StatusEvent::InspectFailed(e) => r.reply_state == BroadcastState::Error && r.new_state is None
                && r.attempt == attempt && r.retry_after_ms is None && r.log is None
                && r.message@ == "Could not inspect encoder process: "@ + e@
                && opt_text_of(r.last_error) == opt_str(last_error),
            StatusEvent::EncoderExited(detail) => r.reply_state == BroadcastState::Reconnecting
                && r.new_state == Some(BroadcastState::Reconnecting) && r.attempt == next_attempt(attempt)
                && r.retry_after_ms == Some(retry_delay(attempt) as u64)
                && (r.log matches Some((sev, text)) && sev == Severity::Warning
                    && text@ == "Encoder disconnected for "@ + name@ + "; retry "@ + decimal(r.attempt as nat)
                    + " in "@ + decimal(retry_delay(attempt) as nat) + " ms."@)
                && r.message@ == "Connection lost. Retrying "@ + decimal(r.attempt as nat) + " in "@
                    + decimal(retry_delay(attempt) as nat) + " ms: "@ + detail@
                && opt_text_of(r.last_error) == Some(detail@),
            StatusEvent::RetryWaiting(remaining) => r.reply_state == BroadcastState::Reconnecting
                && r.new_state is None && r.attempt == attempt && r.retry_after_ms is None && r.log is None
                && r.message@ == "Connection lost. Retrying "@ + decimal(attempt as nat) + " in "@
                    + decimal(remaining as nat) + " ms: "@ + (match last_error {
                        Some(e) => e@,
                        None => "transport ended"@,
                    })
                && opt_text_of(r.last_error) == opt_str(last_error),
            StatusEvent::RestartSucceeded => r.reply_state == BroadcastState::Live
                && r.new_state == Some(BroadcastState::Live) && r.attempt == 0 && r.retry_after_ms is None
                && (r.log matches Some((sev, text)) && sev == Severity::Info
                    && text@ == "Transport reconnected for "@ + name@ + "."@)
                && r.message@ == "Connection restored. "@ + name@ + " is live."@
                && r.last_error is None,
            StatusEvent::RestartFailed(e) => r.reply_state == BroadcastState::Reconnecting
                && r.new_state == Some(BroadcastState::Reconnecting) && r.attempt == next_attempt(attempt)
                && r.retry_after_ms == Some(retry_delay(attempt) as u64) && r.log is None
                && r.message@ == "Reconnect "@ + decimal(r.attempt as nat) + " failed; retrying in "@
                    + decimal(retry_delay(attempt) as nat) + " ms: "@ + e@
                && opt_text_of(r.last_error) == Some(e@),
        }),
{
    let kept_error = match last_error {
        Some(e) => Some(e.to_string()),
        None => None,
    };
    match event {
        StatusEvent::EncoderRunning => {
            let mut m = String::new();
            m.append("Programme encoder is live for ");
            m.append(name);
            m.append(".");
            StatusStep { reply_state: BroadcastState::Live, message: m, new_state: None, attempt, retry_after_ms: None, log: None, last_error: kept_error }
        },
        StatusEvent::InspectFailed(e) => {
            let mut m = String::new();
            m.append("Could not inspect encoder process: ");
            m.append(e.as_str());
            StatusStep { reply_state: BroadcastState::Error, message: m, new_state: None, attempt, retry_after_ms: None, log: None, last_error: kept_error }
        },
        StatusEvent::EncoderExited(detail) => {
            let retry = schedule_retry(attempt);
            let mut t = String::new();
            t.append("Encoder disconnected for ");
            t.append(name);
            t.append("; retry ");
            push_decimal(&mut t, retry.attempt as u64);
            t.append(" in ");
            push_decimal(&mut t, retry.delay_ms);
            t.append(" ms.");
            let mut m = String::new();
            m.append("Connection lost. Retrying ");
            push_decimal(&mut m, retry.attempt as u64);
            m.append(" in ");
            push_decimal(&mut m, retry.delay_ms);
            m.append(" ms: ");
            m.append(detail.as_str());
            StatusStep {
                reply_state: BroadcastState::Reconnecting,
                message: m,
                new_state: Some(BroadcastState::Reconnecting),
                attempt: retry.attempt,
                retry_after_ms: Some(retry.delay_ms),
                log: Some((Severity::Warning, t)),
                last_error: Some(detail),
            }
        },
        StatusEvent::RetryWaiting(remaining) => {
            let mut m = String::new();
            m.append("Connection lost. Retrying ");
            push_decimal(&mut m, attempt as u64);
            m.append(" in ");
            push_decimal(&mut m, remaining);
            m.append(" ms: ");
            match last_error {
                Some(e) => m.append(e),
                None => m.append("transport ended"),
            }
            StatusStep { reply_state: BroadcastState::Reconnecting, message: m, new_state: None, attempt, retry_after_ms: None, log: None, last_error: kept_error }
        },
        StatusEvent::RestartSucceeded => {
            let mut t = String::new();
            t.append("Transport reconnected for ");
            t.append(name);
            t.append(".");
            let mut m = String::new();
            m.append("Connection restored. ");
            m.append(name);
            m.append(" is live.");
            StatusStep {
                reply_state: BroadcastState::Live,
                message: m,
                new_state: Some(BroadcastState::Live),
                attempt: 0,
                retry_after_ms: None,
                log: Some((Severity::Info, t)),
                last_error: None,
            }
        },
        StatusEvent::RestartFailed(e) => {
            let retry = schedule_retry(attempt);
            let mut m = String::new();
            m.append("Reconnect ");
            push_decimal(&mut m, retry.attempt as u64);
            m.append(" failed; retrying in ");
            push_decimal(&mut m, retry.delay_ms);
            m.append(" ms: ");
            m.append(e.as_str());
            StatusStep {
                reply_state: BroadcastState::Reconnecting,
                message: m,
                new_state: Some(BroadcastState::Reconnecting),
                attempt: retry.attempt,
                retry_after_ms: Some(retry.delay_ms),
                log: None,
                last_error: Some(e),
            }
        },
    }
}

/// A broadcast only starts from a 48 kHz input: whenever the checks pass the
/// engine runs at 48000 Hz, and once every other check passes, any other rate
/// is refused with that rate.
pub proof fn broadcast_needs_48khz_input(p: Profile, aac: bool, srt: bool, running: bool, engine_rate: Option<u32>)
    ensures
        start_check(p, aac, srt, running, engine_rate) is Ok ==> engine_rate == Some(48_000u32),
        (validation(p) is Ok && aac && (p.mode == OutputMode::SrtContribution ==> srt) && !running
            && engine_rate is Some && engine_rate->Some_0 != 48_000) ==> start_check(p, aac, srt, running, engine_rate)
            == Err::<(), StartBlock>(StartBlock::WrongSampleRate(engine_rate->Some_0)),
{
}

/// A successful publish test reads as a success in the preflight summary:
/// for a valid, reachable profile whose encoder prerequisites are present,
/// the verdict of an accepted test yields the acceptance summary of its
/// transport, never the failure text.
pub proof fn accepted_publish_test_is_reported_as_accepted(q: Profile, aac: bool, srt: bool)
    requires
        validation(q) is Ok,
        aac,
        q.mode == OutputMode::SrtContribution ==> srt,
    ensures
        preflight_summary_text(Some(q), aac, srt, true, publish_verdict_text(OutputMode::Icecast, Ok(())))
            == "DNS, TCP and Icecast credentials were accepted by a short silent AAC-LC test."@,
        preflight_summary_text(Some(q), aac, srt, true, publish_verdict_text(OutputMode::SrtContribution, Ok(())))
            == "DNS and a real SRT handshake were accepted by a short silent AAC-LC/MPEG-TS test."@,
{
    reveal_strlit("Icecast accepted a 300 ms silent AAC-LC publish test.");
    reveal_strlit("SRT listener accepted a 500 ms silent AAC-LC/MPEG-TS publish test.");
    reveal_strlit("Icecast accepted");
    reveal_strlit("SRT listener accepted");
    let ice = "Icecast accepted a 300 ms silent AAC-LC publish test."@;
    let srtv = "SRT listener accepted a 500 ms silent AAC-LC/MPEG-TS publish test."@;
    assert(ice.subrange(0, 16) =~= "Icecast accepted"@);
    assert(starts_with(ice, "Icecast accepted"@));
    assert(!starts_with(ice, "SRT listener accepted"@)) by {
        assert(ice[0] != "SRT listener accepted"@[0]);
    }
    assert(srtv.subrange(0, 21) =~= "SRT listener accepted"@);
    assert(starts_with(srtv, "SRT listener accepted"@));
}

} // verus!
