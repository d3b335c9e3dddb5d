//! The external encoder: its command lines and what its self-description says
//! it can do.
use vstd::prelude::*;
use crate::profile::OutputMode;
use crate::text::{contains, contains_str, decimal, line_spans, lines, push_decimal, same_text, trim, trimmed, chars_of};

verus! {

/// The texts of an argument list.
pub open spec fn arg_texts(v: Seq<String>) -> Seq<Seq<char>> {
    v.map_values(|s: String| s@)
}

fn push_arg(v: &mut Vec<String>, a: &str)
    ensures
        arg_texts(final(v)@) == arg_texts(old(v)@).push(a@),
{
    v.push(a.to_string());
    proof {
        assert(arg_texts(final(v)@) =~= arg_texts(old(v)@).push(a@));
    }
}

fn push_owned(v: &mut Vec<String>, a: String)
    ensures
        arg_texts(final(v)@) == arg_texts(old(v)@).push(a@),
{
    v.push(a);
    proof {
        assert(arg_texts(final(v)@) =~= arg_texts(old(v)@).push(a@));
    }
}

/// The encoder's audio bitrate argument, such as `128k`.
pub open spec fn bitrate_arg(kbps: u16) -> Seq<char> {
    decimal(kbps as nat).push('k')
}

fn bitrate_text(kbps: u16) -> (r: String)
    ensures
        r@ == bitrate_arg(kbps),
{
    let mut s = String::new();
    push_decimal(&mut s, kbps as u64);
    crate::text::push_char(&mut s, 'k');
    proof {
        assert(s@ =~= bitrate_arg(kbps));
    }
    s
}

/// Arguments of the short silent publish test: 300 ms with the Icecast content
/// type for Icecast, 500 ms of MPEG-TS for SRT.
pub open spec fn publish_test_args_spec(mode: OutputMode, kbps: u16, container: Seq<char>, target: Seq<char>) -> Seq<Seq<char>> {
    let head = seq![
        "-nostdin"@, "-hide_banner"@, "-loglevel"@, "error"@, "-f"@, "lavfi"@, "-i"@,
        "anullsrc=r=48000:cl=stereo"@, "-t"@,
        if mode == OutputMode::Icecast { "0.3"@ } else { "0.5"@ },
        "-c:a"@, "aac"@, "-profile:a"@, "aac_low"@, "-b:a"@, bitrate_arg(kbps)
    ];
    let mid = if mode == OutputMode::Icecast { seq!["-content_type"@, "audio/aac"@] } else { Seq::empty() };
    head + mid + seq!["-f"@, container, target]
}

pub fn publish_test_args(mode: OutputMode, bitrate_kbps: u16, container: &str, target: &str) -> (r: Vec<String>)
    ensures
        arg_texts(r@) == publish_test_args_spec(mode, bitrate_kbps, container@, target@),
{
    let mut v: Vec<String> = Vec::new();
    push_arg(&mut v, "-nostdin");
    push_arg(&mut v, "-hide_banner");
    push_arg(&mut v, "-loglevel");
    push_arg(&mut v, "error");
    push_arg(&mut v, "-f");
    push_arg(&mut v, "lavfi");
    push_arg(&mut v, "-i");
    push_arg(&mut v, "anullsrc=r=48000:cl=stereo");
    push_arg(&mut v, "-t");
    match mode {
        OutputMode::Icecast => push_arg(&mut v, "0.3"),
        OutputMode::SrtContribution => push_arg(&mut v, "0.5"),
    }
    push_arg(&mut v, "-c:a");
    push_arg(&mut v, "aac");
    push_arg(&mut v, "-profile:a");
    push_arg(&mut v, "aac_low");
    push_arg(&mut v, "-b:a");
    push_owned(&mut v, bitrate_text(bitrate_kbps));
    match mode {
        OutputMode::Icecast => {
            push_arg(&mut v, "-content_type");
            push_arg(&mut v, "audio/aac");
        },
        OutputMode::SrtContribution => {},
    }
    push_arg(&mut v, "-f");
    push_arg(&mut v, container);
    push_arg(&mut v, target);
    proof {
        assert(arg_texts(v@) =~= publish_test_args_spec(mode, bitrate_kbps, container@, target@));
    }
    v
}

/// Arguments of the programme encoder: stereo 48 kHz f32 PCM on standard input,
/// AAC-LC at the profile's bitrate, the Icecast content type for Icecast.
pub open spec fn transport_args_spec(mode: OutputMode, kbps: u16, container: Seq<char>, target: Seq<char>) -> Seq<Seq<char>> {
    let head = seq![
        "-nostdin"@, "-hide_banner"@, "-loglevel"@, "error"@, "-f"@, "f32le"@, "-ar"@, "48000"@,
        "-ac"@, "2"@, "-i"@, "pipe:0"@, "-c:a"@, "aac"@, "-profile:a"@, "aac_low"@, "-b:a"@,
        bitrate_arg(kbps)
    ];
    let mid = if mode == OutputMode::Icecast { seq!["-content_type"@, "audio/aac"@] } else { Seq::empty() };
    head + mid + seq!["-f"@, container, target]
}

pub fn transport_args(mode: OutputMode, bitrate_kbps: u16, container: &str, target: &str) -> (r: Vec<String>)
    ensures
        arg_texts(r@) == transport_args_spec(mode, bitrate_kbps, container@, target@),
{
    let mut v: Vec<String> = Vec::new();
    push_arg(&mut v, "-nostdin");
    push_arg(&mut v, "-hide_banner");
    push_arg(&mut v, "-loglevel");
    push_arg(&mut v, "error");
    push_arg(&mut v, "-f");
    push_arg(&mut v, "f32le");
    push_arg(&mut v, "-ar");
    push_arg(&mut v, "48000");
    push_arg(&mut v, "-ac");
    push_arg(&mut v, "2");
    push_arg(&mut v, "-i");
    push_arg(&mut v, "pipe:0");
    push_arg(&mut v, "-c:a");
    push_arg(&mut v, "aac");
    push_arg(&mut v, "-profile:a");
    push_arg(&mut v, "aac_low");
    push_arg(&mut v, "-b:a");
    push_owned(&mut v, bitrate_text(bitrate_kbps));
    match mode {
        OutputMode::Icecast => {
            push_arg(&mut v, "-content_type");
            push_arg(&mut v, "audio/aac");
        },
        OutputMode::SrtContribution => {},
    }
    push_arg(&mut v, "-f");
    push_arg(&mut v, container);
    push_arg(&mut v, target);
    proof {
        assert(arg_texts(v@) =~= transport_args_spec(mode, bitrate_kbps, container@, target@));
    }
    v
}

/// What the encoder reports about itself.
pub struct EncoderCapabilities {
    pub aac_lc: bool,
    pub srt: bool,
    pub icecast: bool,
    pub version: String,
}

/// Some line of `listing`, trimmed, is exactly `name`.
pub open spec fn lists(listing: Seq<char>, name: Seq<char>) -> bool {
    exists|k: int| 0 <= k < lines(listing).len() && trim(#[trigger] lines(listing)[k]) == name
}

/// The first line of the version output, or a fixed text when there is none.
pub open spec fn version_line(out: Seq<char>) -> Seq<char> {
    if lines(out).len() > 0 {
        lines(out)[0]
    } else {
        "FFmpeg version unknown"@
    }
}

fn listing_has(listing: &str, name: &str) -> (r: bool)
    ensures
        r == lists(listing@, name@),
{
    let v = chars_of(listing);
    let spans = line_spans(&v);
    let mut k: usize = 0;
    while k < spans.len()
        invariant
            v@ == listing@,
            spans@.len() == lines(v@).len(),
            forall|m: int|
                0 <= m < spans@.len() ==> #[trigger] spans@[m].0 <= spans@[m].1 <= v@.len()
                    && v@.subrange(spans@[m].0 as int, spans@[m].1 as int) == lines(v@)[m],
            k <= spans@.len(),
            forall|m: int| 0 <= m < k ==> trim(#[trigger] lines(v@)[m]) != name@,
        decreases spans.len() - k,
    {
        let (a, b) = spans[k];
        let line = listing.substring_char(a, b);
        let t = trimmed(line);
        if same_text(t.as_str(), name) {
            return true;
        }
        k = k + 1;
    }
    false
}

/// Reads the encoder's capabilities from its `-version`, `-encoders` and
/// `-protocols` output: AAC-LC when an ` aac ` or ` aac_at ` encoder is listed,
/// SRT and Icecast when a protocol line reads exactly `srt` or `icecast`.
pub fn encoder_capabilities(version_out: &str, encoders: &str, protocols: &str) -> (r: EncoderCapabilities)
    ensures
        r.aac_lc == (contains(encoders@, " aac "@) || contains(encoders@, " aac_at "@)),
        r.srt == lists(protocols@, "srt"@),
        r.icecast == lists(protocols@, "icecast"@),
        r.version@ == version_line(version_out@),
{
    let aac_lc = contains_str(encoders, " aac ") || contains_str(encoders, " aac_at ");
    let srt = listing_has(protocols, "srt");
    let icecast = listing_has(protocols, "icecast");
    let v = chars_of(version_out);
    let spans = line_spans(&v);
    let version = if spans.len() > 0 {
        let (a, b) = spans[0];
        version_out.substring_char(a, b).to_string()
    } else {
        "FFmpeg version unknown".to_string()
    };
    EncoderCapabilities { aac_lc, srt, icecast, version }
}

} // verus!
