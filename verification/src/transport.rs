//! Encoder transport targets: URL construction for SRT and Icecast, percent
//! encoding, and the redaction of encoder error output.
use vstd::prelude::*;
use crate::profile::{OutputMode, Profile, ProfileError, error_message, opt_text, validation};
use crate::text::{
    chars_of, decimal, join, line_spans, lines, push_char, push_decimal, replace, replace_all,
};

verus! {

/// Bytes that stay as they are in a percent-encoded component.
pub open spec fn is_unreserved(b: u8) -> bool {
    ||| (65 <= b <= 90)
    ||| (97 <= b <= 122)
    ||| (48 <= b <= 57)
    ||| b == 45
    ||| b == 95
    ||| b == 46
    ||| b == 126
}

/// Upper-case hexadecimal digit for `d < 16`.
pub open spec fn hex_upper(d: u8) -> char {
    if d < 10 {
        ((48 + d) as u8) as char
    } else {
        ((55 + d) as u8) as char
    }
}

/// One byte, percent-encoded.
pub open spec fn encode_byte(b: u8) -> Seq<char> {
    if is_unreserved(b) {
        seq![b as char]
    } else {
        seq!['%', hex_upper(b / 16), hex_upper(b % 16)]
    }
}

pub open spec fn encode_bytes(bs: Seq<u8>) -> Seq<char>
    decreases bs.len(),
{
    if bs.len() == 0 {
        Seq::empty()
    } else {
        encode_bytes(bs.drop_last()) + encode_byte(bs.last())
    }
}

/// The percent encoding of a text: its UTF-8 bytes, each unreserved one kept,
/// every other one written as `%` and two upper-case hexadecimal digits.
pub open spec fn percent_encoded(s: Seq<char>) -> Seq<char> {
    encode_bytes(vstd::utf8::encode_utf8(s))
}

fn hex_digit(d: u8) -> (c: char)
    requires
        d < 16,
    ensures
        c == hex_upper(d),
{
    if d < 10 {
        (48u8 + d) as char
    } else {
        (55u8 + d) as char
    }
}

pub fn percent_encode(value: &str) -> (r: String)
    ensures
        r@ == percent_encoded(value@),
{
    let bytes = value.as_bytes();
    let mut out = String::new();
    let mut i: usize = 0;
    while i < bytes.len()
        invariant
            bytes@ == vstd::utf8::encode_utf8(value@),
            i <= bytes@.len(),
            out@ == encode_bytes(bytes@.take(i as int)),
        decreases bytes.len() - i,
    {
        let b = bytes[i];
        let keep = (65 <= b && b <= 90) || (97 <= b && b <= 122) || (48 <= b && b <= 57) || b
            == 45 || b == 95 || b == 46 || b == 126;
        if keep {
            push_char(&mut out, b as char);
        } else {
            push_char(&mut out, '%');
            push_char(&mut out, hex_digit(b / 16));
            push_char(&mut out, hex_digit(b % 16));
        }
        proof {
            assert(bytes@.take(i + 1).drop_last() =~= bytes@.take(i as int));
            assert(out@ =~= encode_bytes(bytes@.take(i + 1)));
        }
        i = i + 1;
    }
    proof {
        assert(bytes@.take(bytes@.len() as int) =~= bytes@);
    }
    out
}


/// Why no transport target can be built for a profile.
#[derive(Debug, Clone, Copy, PartialEq, Eq, Structural)]
pub enum TargetError {
    Invalid(ProfileError),
    PassphraseLength,
    MissingPassword,
    EmptyPassword,
}

pub open spec fn target_error_message(e: TargetError) -> Seq<char> {
    match e {
        TargetError::Invalid(p) => error_message(p),
        TargetError::PassphraseLength => "SRT passphrase must be 10–79 characters when supplied."@,
        TargetError::MissingPassword => "Icecast requires a runtime password. It is not persisted in the profile file."@,
        TargetError::EmptyPassword => "Icecast requires a runtime password."@,
    }
}

impl TargetError {
    pub fn message(&self) -> (r: &'static str)
        ensures
            r@ == target_error_message(*self),
    {
        match self {
            TargetError::Invalid(p) => p.message(),
            TargetError::PassphraseLength => "SRT passphrase must be 10–79 characters when supplied.",
            TargetError::MissingPassword => "Icecast requires a runtime password. It is not persisted in the profile file.",
            TargetError::EmptyPassword => "Icecast requires a runtime password.",
        }
    }
}

pub open spec fn opt_str(o: Option<&str>) -> Option<Seq<char>> {
    match o {
        Some(s) => Some(s@),
        None => None,
    }
}

/// Fixed SRT caller options, then the percent-encoded stream ID.
pub open spec fn srt_query(stream_id: Seq<char>) -> Seq<char> {
    "mode=caller&transtype=live&latency=2000000&peerlatency=2000000&connect_timeout=5000&streamid="@
        + percent_encoded(stream_id)
}

/// The encoder target (URL and container) for a profile and its runtime credential.
pub open spec fn target(p: Profile, secret: Option<Seq<char>>) -> Result<(Seq<char>, Seq<char>), TargetError> {
    match validation(p) {
        Err(e) => Err(TargetError::Invalid(e)),
        Ok(_) => match p.mode {
            OutputMode::SrtContribution => {
                let base = "srt://"@ + p.host@ + ":"@ + decimal(p.port as nat) + "?"@ + srt_query(
                    opt_text(p.stream_id),
                );
                match secret {
                    Some(pw) => if pw.len() == 0 {
                        Ok((base, "mpegts"@))
                    } else if !(10 <= vstd::utf8::encode_utf8(pw).len() <= 79) {
                        Err(TargetError::PassphraseLength)
                    } else {
                        Ok((base + "&passphrase="@ + percent_encoded(pw) + "&pbkeylen=16"@, "mpegts"@))
                    },
                    None => Ok((base, "mpegts"@)),
                }
            },
            OutputMode::Icecast => {
                let user = match p.username {
                    Some(u) => u@,
                    None => "source"@,
                };
                match secret {
                    None => Err(TargetError::MissingPassword),
                    Some(pw) => if pw.len() == 0 {
                        Err(TargetError::EmptyPassword)
                    } else {
                        Ok(
                            (
                                "icecast://"@ + percent_encoded(user) + ":"@ + percent_encoded(pw)
                                    + "@"@ + p.host@ + ":"@ + decimal(p.port as nat) + opt_text(
                                    p.mount,
                                ),
                                "adts"@,
                            ),
                        )
                    },
                }
            },
        },
    }
}

/// The encoder's output URL and container format for `profile`.
pub fn target_url(profile: &Profile, secret: Option<&str>) -> (r: Result<(String, &'static str), TargetError>)
    ensures
        (match r {
            Ok((url, container)) => target(*profile, opt_str(secret)) == Ok::<(Seq<char>, Seq<char>), TargetError>((url@, container@)),
            Err(e) => target(*profile, opt_str(secret)) == Err::<(Seq<char>, Seq<char>), TargetError>(e),
        }),
{
    match profile.validate() {
        Err(e) => { return Err(TargetError::Invalid(e)); },
        Ok(()) => {},
    }
    match profile.mode {
        OutputMode::SrtContribution => {
            let mut url = String::new();
            url.append("srt://");
            url.append(profile.host.as_str());
            url.append(":");
            push_decimal(&mut url, profile.port as u64);
            url.append("?");
            url.append("mode=caller&transtype=live&latency=2000000&peerlatency=2000000&connect_timeout=5000&streamid=");
            let sid = match &profile.stream_id {
                Some(v) => percent_encode(v.as_str()),
                None => percent_encode(""),
            };
            proof {
                if profile.stream_id.is_none() {
                    assert(opt_text(profile.stream_id) == ""@) by {
                        reveal_strlit("");
                    }
                }
            }
            url.append(sid.as_str());
            let ghost base = url@;
            assert(base =~= "srt://"@ + profile.host@ + ":"@ + decimal(profile.port as nat) + "?"@ + srt_query(opt_text(profile.stream_id)));
            match secret {
                Some(pw) => {
                    if pw.unicode_len() == 0 {
                        Ok((url, "mpegts"))
                    } else {
                        let n = pw.as_bytes().len();
                        if !(10 <= n && n <= 79) {
                            return Err(TargetError::PassphraseLength);
                        }
                        url.append("&passphrase=");
                        let e = percent_encode(pw);
                        url.append(e.as_str());
                        url.append("&pbkeylen=16");
                        assert(url@ =~= base + "&passphrase="@ + percent_encoded(pw@) + "&pbkeylen=16"@);
                        Ok((url, "mpegts"))
                    }
                },
                None => {
                    Ok((url, "mpegts"))
                },
            }
        },
        OutputMode::Icecast => {
            let pw = match secret {
                None => { return Err(TargetError::MissingPassword); },
                Some(pw) => pw,
            };
            if pw.unicode_len() == 0 {
                return Err(TargetError::EmptyPassword);
            }
            let user = match &profile.username {
                Some(u) => percent_encode(u.as_str()),
                None => percent_encode("source"),
            };
            let mut url = String::new();
            url.append("icecast://");
            url.append(user.as_str());
            url.append(":");
            let e = percent_encode(pw);
            url.append(e.as_str());
            url.append("@");
            url.append(profile.host.as_str());
            url.append(":");
            push_decimal(&mut url, profile.port as u64);
            match &profile.mount {
                Some(m) => url.append(m.as_str()),
                None => {},
            }
            let ghost u = match &profile.username { Some(u) => u@, None => "source"@ };
            assert(url@ =~= "icecast://"@ + percent_encoded(u) + ":"@ + percent_encoded(pw@)
                + "@"@ + profile.host@ + ":"@ + decimal(profile.port as nat) + opt_text(profile.mount));
            Ok((url, "adts"))
        },
    }
}


/// What is shown of an encoder's error output: the credential replaced by
/// `[redacted]`, then the last four lines joined by spaces, or a fixed notice
/// when that leaves nothing.
pub open spec fn encoder_error_summary(message: Seq<char>, secret: Option<Seq<char>>) -> Seq<char> {
    let safe = match secret {
        Some(s) => if s.len() > 0 { replace_all(message, s, "[redacted]"@) } else { message },
        None => message,
    };
    let ls = lines(safe);
    let from: int = if ls.len() >= 4 { ls.len() - 4 } else { 0 };
    let joined = join(ls.subrange(from, ls.len() as int), " "@);
    if joined.len() == 0 {
        "FFmpeg did not write an error message."@
    } else {
        joined
    }
}

pub fn redact_encoder_error(message: String, secret: Option<&str>) -> (r: String)
    ensures
        r@ == encoder_error_summary(message@, opt_str(secret)),
{
    let safe: String = match secret {
        Some(s) => if s.unicode_len() > 0 {
            replace(message.as_str(), s, "[redacted]")
        } else {
            message
        },
        None => message,
    };
    let v = chars_of(safe.as_str());
    let spans = line_spans(&v);
    let n = spans.len();
    let from: usize = if n >= 4 { n - 4 } else { 0 };
    let ghost ls = lines(v@);
    let ghost tail = ls.subrange(from as int, n as int);
    let mut out = String::new();
    let mut k: usize = from;
    while k < n
        invariant
            v@ == safe@,
            n == spans@.len() == ls.len(),
            from <= k <= n,
            tail == ls.subrange(from as int, n as int),
            forall|m: int|
                0 <= m < spans@.len() ==> #[trigger] spans@[m].0 <= spans@[m].1 <= v@.len()
                    && v@.subrange(spans@[m].0 as int, spans@[m].1 as int) == ls[m],
            out@ == join(tail.take(k - from), " "@),
        decreases n - k,
    {
        let (a, b) = spans[k];
        let piece = safe.as_str().substring_char(a, b);
        if k > from {
            out.append(" ");
        }
        out.append(piece);
        proof {
            let t2 = tail.take(k + 1 - from);
            assert(t2.drop_last() =~= tail.take(k - from));
            assert(t2.last() == ls[k as int]);
        }
        k = k + 1;
    }
    proof {
        assert(tail.take(n - from) =~= tail);
    }
    if out.as_str().unicode_len() == 0 {
        "FFmpeg did not write an error message.".to_string()
    } else {
        out
    }
}


/// Characters that may stand in a URL component without changing its
/// structure: ASCII letters and digits, `-`, `_`, `.`, `~`, and the escape `%`.
pub open spec fn url_safe(c: char) -> bool {
    ||| ('A' <= c && c <= 'Z')
    ||| ('a' <= c && c <= 'z')
    ||| ('0' <= c && c <= '9')
    ||| c == '-'
    ||| c == '_'
    ||| c == '.'
    ||| c == '~'
    ||| c == '%'
}

proof fn lemma_encode_bytes_safe(bs: Seq<u8>)
    ensures
        forall|i: int| 0 <= i < encode_bytes(bs).len() ==> url_safe(#[trigger] encode_bytes(bs)[i]),
    decreases bs.len(),
{
    if bs.len() > 0 {
        lemma_encode_bytes_safe(bs.drop_last());
        let b = bs.last();
        let e = encode_byte(b);
        assert forall|i: int| 0 <= i < e.len() implies url_safe(#[trigger] e[i]) by {
            if !is_unreserved(b) {
                assert(b / 16 < 16 && b % 16 < 16);
            }
        }
        let whole = encode_bytes(bs);
        let front = encode_bytes(bs.drop_last());
        assert forall|i: int| 0 <= i < whole.len() implies url_safe(#[trigger] whole[i]) by {
            if i < front.len() {
                assert(whole[i] == front[i]);
            } else {
                assert(whole[i] == e[i - front.len()]);
            }
        }
    }
}

/// Percent encoding leaves only URL-safe characters, so an encoded stream
/// ID, user name or credential cannot add a separator (`:`, `@`, `/`, `?`,
/// `&`, `=`) to the URL it is put into.
pub proof fn percent_encoding_is_url_safe(s: Seq<char>)
    ensures
        forall|i: int| 0 <= i < percent_encoded(s).len() ==> url_safe(#[trigger] percent_encoded(s)[i]),
{
    lemma_encode_bytes_safe(vstd::utf8::encode_utf8(s));
}

} // verus!
