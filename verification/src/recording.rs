//! The WAV archive format: the canonical 44-byte header for 48 kHz stereo
//! 16-bit PCM, little-endian sample encoding, header recovery for an archive
//! cut short, and chapter markers.
use vstd::prelude::*;
use crate::text::{is_blank, trim, trimmed, push_decimal, decimal};

verus! {

/// `x` as two little-endian bytes.
pub open spec fn le16(x: nat) -> Seq<u8> {
    seq![(x % 256) as u8, ((x / 256) % 256) as u8]
}

/// `x` as four little-endian bytes.
pub open spec fn le32(x: nat) -> Seq<u8> {
    seq![
        (x % 256) as u8,
        ((x / 256) % 256) as u8,
        ((x / 65536) % 256) as u8,
        ((x / 16777216) % 256) as u8,
    ]
}

/// The header of a WAV file holding `data` bytes of 48 kHz stereo 16-bit PCM:
/// `RIFF`, the RIFF size (`36 + data`), `WAVEfmt `, a 16-byte PCM format chunk
/// (format 1, 2 channels, 48000 Hz, 192000 bytes/s, block align 4, 16 bits),
/// then `data` and the data size.
pub open spec fn wav_header_bytes(data: nat) -> Seq<u8> {
    seq![82u8, 73, 70, 70] + le32(36 + data) + seq![87u8, 65, 86, 69, 102, 109, 116, 32] + le32(16)
        + le16(1) + le16(2) + le32(48000) + le32(192000) + le16(4) + le16(16) + seq![
        100u8,
        97,
        116,
        97,
    ] + le32(data)
}

fn put_le16(h: &mut [u8; 44], at: usize, x: u16)
    requires
        at + 2 <= 44,
    ensures
        final(h)@ == old(h)@.update(at as int, le16(x as nat)[0]).update(at + 1, le16(x as nat)[1]),
{
    h[at] = (x % 256) as u8;
    h[at + 1] = ((x / 256) % 256) as u8;
}

fn put_le32(h: &mut [u8; 44], at: usize, x: u32)
    requires
        at + 4 <= 44,
    ensures
        final(h)@ == old(h)@.update(at as int, le32(x as nat)[0]).update(at + 1, le32(x as nat)[1]).update(
            at + 2,
            le32(x as nat)[2],
        ).update(at + 3, le32(x as nat)[3]),
{
    h[at] = (x % 256) as u8;
    h[at + 1] = ((x / 256) % 256) as u8;
    h[at + 2] = ((x / 65536) % 256) as u8;
    h[at + 3] = ((x / 16777216) % 256) as u8;
}

fn put_tag(h: &mut [u8; 44], at: usize, a: u8, b: u8, c: u8, d: u8)
    requires
        at + 4 <= 44,
    ensures
        final(h)@ == old(h)@.update(at as int, a).update(at + 1, b).update(at + 2, c).update(at + 3, d),
{
    h[at] = a;
    h[at + 1] = b;
    h[at + 2] = c;
    h[at + 3] = d;
}

/// The WAV header for `data` bytes of PCM.
pub fn wav_header(data: u32) -> (h: [u8; 44])
    requires
        data <= u32::MAX - 36,
    ensures
        h@ == wav_header_bytes(data as nat),
{
    let mut h = [0u8; 44];
    put_tag(&mut h, 0, 82, 73, 70, 70);
    put_le32(&mut h, 4, 36 + data);
    put_tag(&mut h, 8, 87, 65, 86, 69);
    put_tag(&mut h, 12, 102, 109, 116, 32);
    put_le32(&mut h, 16, 16);
    put_le16(&mut h, 20, 1);
    put_le16(&mut h, 22, 2);
    put_le32(&mut h, 24, 48_000);
    put_le32(&mut h, 28, 192_000);
    put_le16(&mut h, 32, 4);
    put_le16(&mut h, 34, 16);
    put_tag(&mut h, 36, 100, 97, 116, 97);
    put_le32(&mut h, 40, data);
    assert(h@ =~= wav_header_bytes(data as nat));
    h
}

/// Samples as little-endian 16-bit two's complement, in order.
pub open spec fn pcm_bytes(samples: Seq<i16>) -> Seq<u8>
    decreases samples.len(),
{
    if samples.len() == 0 {
        Seq::empty()
    } else {
        pcm_bytes(samples.drop_last()) + le16((samples.last() as u16) as nat)
    }
}

/// Encodes samples for the archive's data chunk.
pub fn encode_pcm(samples: &[i16]) -> (r: Vec<u8>)
    ensures
        r@ == pcm_bytes(samples@),
        r@.len() == 2 * samples@.len(),
{
    let mut out: Vec<u8> = Vec::new();
    let mut i: usize = 0;
    while i < samples.len()
        invariant
            i <= samples@.len(),
            out@ == pcm_bytes(samples@.take(i as int)),
            out@.len() == 2 * i,
        decreases samples.len() - i,
    {
        let u = samples[i] as u16;
        out.push((u % 256) as u8);
        out.push(((u / 256) % 256) as u8);
        proof {
            assert(samples@.take(i + 1).drop_last() =~= samples@.take(i as int));
            assert(out@ =~= pcm_bytes(samples@.take(i + 1)));
        }
        i = i + 1;
    }
    proof {
        assert(samples@.take(samples@.len() as int) =~= samples@);
    }
    out
}

/// Why an archive cannot be recovered.
#[derive(Debug, Clone, Copy, PartialEq, Eq, Structural)]
pub enum RecoveryError {
    /// The file is shorter than a WAV header.
    TooShort,
}

impl RecoveryError {
    pub fn message(&self) -> (r: &'static str)
        ensures
            r@ == "WAV is too short"@,
    {
        "WAV is too short"
    }
}

/// Data size a recovered archive of `file_len` bytes declares: everything after
/// the header, truncated to 32 bits.
pub open spec fn recovered_data_len(file_len: u64) -> nat {
    ((file_len - 44) % 0x1_0000_0000) as nat
}

/// The header that makes an interrupted archive of `file_len` bytes playable:
/// it declares everything after the 44-byte header as PCM data.
pub fn recovery_header(file_len: u64) -> (r: Result<[u8; 44], RecoveryError>)
    requires
        file_len >= 44 ==> recovered_data_len(file_len) <= u32::MAX - 36,
    ensures
        (match r {
            Err(_) => file_len < 44,
            Ok(h) => file_len >= 44 && h@ == wav_header_bytes(recovered_data_len(file_len)),
        }),
{
    if file_len < 44 {
        return Err(RecoveryError::TooShort);
    }
    let data = ((file_len - 44) % 0x1_0000_0000) as u32;
    Ok(wav_header(data))
}

/// A chapter marker within a recording.
#[derive(Debug, Clone)]
pub struct RecordingMarker {
    pub id: String,
    pub at_ms: u64,
    pub title: String,
}

/// Why a marker cannot be added.
#[derive(Debug, Clone, Copy, PartialEq, Eq, Structural)]
pub enum MarkerError {
    /// The title is blank.
    EmptyTitle,
}

impl MarkerError {
    pub fn message(&self) -> (r: &'static str)
        ensures
            r@ == "Enter an interview or chapter title before adding a marker."@,
    {
        "Enter an interview or chapter title before adding a marker."
    }
}

/// The marker added as the `(existing + 1)`-th chapter at `at_ms`: its title
/// is trimmed and may not be empty, its id is `chapter-` and its position.
pub fn new_marker(title: &str, existing: usize, at_ms: u64) -> (r: Result<RecordingMarker, MarkerError>)
    requires
        existing < usize::MAX,
    ensures
        (match r {
            Err(_) => trim(title@).len() == 0,
            Ok(m) => trim(title@).len() > 0 && m.title@ == trim(title@) && m.at_ms == at_ms
                && m.id@ == "chapter-"@ + decimal((existing + 1) as nat),
        }),
{
    let t = trimmed(title);
    if t.as_str().unicode_len() == 0 {
        return Err(MarkerError::EmptyTitle);
    }
    let mut id = String::new();
    id.append("chapter-");
    push_decimal(&mut id, (existing as u64) + 1);
    Ok(RecordingMarker { id, at_ms, title: t })
}


/// Recording needs a native 48 kHz input.
pub fn check_recording_rate(sample_rate: u32) -> (r: Result<(), String>)
    ensures
        (match r {
            Ok(()) => sample_rate == 48_000,
            Err(m) => sample_rate != 48_000 && m@ == "Input is "@ + decimal(sample_rate as nat)
                + " Hz. This build records only native 48 kHz devices until the resampler is bundled."@,
        }),
{
    if sample_rate == 48_000 {
        return Ok(());
    }
    let mut m = String::new();
    m.append("Input is ");
    push_decimal(&mut m, sample_rate as u64);
    m.append(" Hz. This build records only native 48 kHz devices until the resampler is bundled.");
    Err(m)
}

/// A partial archive recovered after an interruption declares exactly the
/// data it holds: recovering a file of a 44-byte header plus `n` data bytes
/// gives the header a clean finish writes for `n` bytes.
pub proof fn recovery_matches_clean_finish(n: u32)
    requires
        n <= u32::MAX - 36,
    ensures
        recovered_data_len((44 + n) as u64) == n,
        wav_header_bytes(recovered_data_len((44 + n) as u64)) == wav_header_bytes(n as nat),
{
}

/// The number that bytes stand for, read least significant byte first.
pub open spec fn le_value(b: Seq<u8>) -> nat
    decreases b.len(),
{
    if b.len() == 0 {
        0
    } else {
        b[0] as nat + 256 * le_value(b.drop_first())
    }
}

/// The four bytes written for a 32-bit field read back as its value.
pub proof fn le32_reads_back(x: u32)
    ensures
        le_value(le32(x as nat)) == x,
{
    let n = x as int;
    let b0 = n % 256;
    let q1 = n / 256;
    let b1 = q1 % 256;
    let q2 = q1 / 256;
    let b2 = q2 % 256;
    let q3 = q2 / 256;
    vstd::arithmetic::div_mod::lemma_div_denominator(n, 256, 256);
    vstd::arithmetic::div_mod::lemma_div_denominator(n, 65536, 256);
    assert(n / 65536 == q2);
    assert(n / 16777216 == q3);
    assert(q3 < 256) by (nonlinear_arith)
        requires q3 == n / 16777216, 0 <= n < 4294967296int;
    assert(q3 % 256 == q3);
    assert(n == b0 + 256 * (b1 + 256 * (b2 + 256 * q3))) by (nonlinear_arith)
        requires
            b0 == n % 256, q1 == n / 256, b1 == q1 % 256, q2 == q1 / 256, b2 == q2 % 256, q3 == q2 / 256,
            0 <= n;
    let s = le32(x as nat);
    assert(s[0] == b0 && s[1] == b1 && s[2] == b2 && s[3] == q3);
    reveal_with_fuel(le_value, 5);
    assert(s.drop_first().drop_first().drop_first().drop_first() =~= Seq::<u8>::empty());
}

/// The two bytes written for a 16-bit field read back as its value.
pub proof fn le16_reads_back(x: u16)
    ensures
        le_value(le16(x as nat)) == x,
{
    let s = le16(x as nat);
    reveal_with_fuel(le_value, 3);
    assert(s.drop_first().drop_first() =~= Seq::<u8>::empty());
}

/// A header declares exactly its sizes: bytes 4..8 read back as `36 + data`
/// and bytes 40..44 as `data`, so a player reads every byte of the recording.
pub proof fn wav_header_declares_its_sizes(data: u32)
    requires
        data <= u32::MAX - 36,
    ensures
        wav_header_bytes(data as nat).len() == 44,
        le_value(wav_header_bytes(data as nat).subrange(4, 8)) == 36 + data,
        le_value(wav_header_bytes(data as nat).subrange(40, 44)) == data,
{
    let h = wav_header_bytes(data as nat);
    le32_reads_back((36 + data) as u32);
    le32_reads_back(data);
    assert(h.subrange(4, 8) =~= le32((36 + data) as nat));
    assert(h.subrange(40, 44) =~= le32(data as nat));
}

} // verus!
