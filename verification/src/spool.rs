//! The contribution spool: checksummed chunks kept until the receiver
//! acknowledges them, within a byte budget. The directory holding the chunk
//! files is read and written by the caller; the spool decides what is pending,
//! what may be appended and what may be pruned.
use vstd::prelude::*;
use crate::text::push_char;
use std::path::PathBuf;

verus! {

/// The SHA-256 digest of `data`.
pub uninterp spec fn sha256(data: Seq<u8>) -> Seq<u8>;

/// `sha2::Sha256::digest`: the 32-byte SHA-256 digest of `data`.
#[verifier::external_body]
fn sha256_digest(data: &[u8]) -> (r: Vec<u8>)
    ensures
        r@ == sha256(data@),
        r@.len() == 32,
{
    <sha2::Sha256 as sha2::Digest>::digest(data).to_vec()
}

/// Lower-case hexadecimal digit for `d < 16`.
pub open spec fn hex_lower(d: u8) -> char {
    if d < 10 {
        ((48 + d) as u8) as char
    } else {
        ((87 + d) as u8) as char
    }
}

/// Lower-case hexadecimal rendering, two digits per byte.
pub open spec fn hex_text(bs: Seq<u8>) -> Seq<char>
    decreases bs.len(),
{
    if bs.len() == 0 {
        Seq::empty()
    } else {
        hex_text(bs.drop_last()) + seq![hex_lower(bs.last() / 16), hex_lower(bs.last() % 16)]
    }
}

proof fn lemma_hex_len(bs: Seq<u8>)
    ensures
        hex_text(bs).len() == 2 * bs.len(),
    decreases bs.len(),
{
    if bs.len() > 0 {
        lemma_hex_len(bs.drop_last());
    }
}

fn hex_digit_lower(d: u8) -> (c: char)
    requires
        d < 16,
    ensures
        c == hex_lower(d),
{
    if d < 10 {
        (48u8 + d) as char
    } else {
        (87u8 + d) as char
    }
}

/// Lower-case hexadecimal rendering of `bytes`.
pub fn to_hex(bytes: &Vec<u8>) -> (r: String)
    ensures
        r@ == hex_text(bytes@),
{
    let mut out = String::new();
    let mut i: usize = 0;
    while i < bytes.len()
        invariant
            i <= bytes@.len(),
            out@ == hex_text(bytes@.take(i as int)),
        decreases bytes.len() - i,
    {
        let b = bytes[i];
        push_char(&mut out, hex_digit_lower(b / 16));
        push_char(&mut out, hex_digit_lower(b % 16));
        proof {
            assert(bytes@.take(i + 1).drop_last() =~= bytes@.take(i as int));
            assert(out@ =~= hex_text(bytes@.take(i + 1)));
        }
        i = i + 1;
    }
    proof {
        assert(bytes@.take(bytes@.len() as int) =~= bytes@);
    }
    out
}

/// The checksum text of a payload: its SHA-256 digest in lower-case hexadecimal.
pub open spec fn checksum_text(payload: Seq<u8>) -> Seq<char> {
    hex_text(sha256(payload))
}

/// A chunk of the programme stream with its checksum.
#[derive(Debug, Clone, PartialEq, Eq)]
pub struct Chunk {
    pub sequence: u64,
    pub timestamp_ms: u64,
    pub payload: Vec<u8>,
    pub sha256: String,
}

/// The chunk's stored checksum matches its payload.
pub open spec fn intact(c: Chunk) -> bool {
    c.sha256@ == checksum_text(c.payload@)
}

impl Chunk {
    pub fn new(sequence: u64, timestamp_ms: u64, payload: Vec<u8>) -> (c: Chunk)
        ensures
            c.sequence == sequence,
            c.timestamp_ms == timestamp_ms,
            c.payload@ == payload@,
            c.sha256@ == checksum_text(payload@),
            c.sha256@.len() == 64,
            intact(c),
    {
        let digest = sha256_digest(payload.as_slice());
        let sha256 = to_hex(&digest);
        proof {
            lemma_hex_len(digest@);
        }
        Chunk { sequence, timestamp_ms, payload, sha256 }
    }

    /// Whether the stored checksum matches the payload.
    pub fn verify(&self) -> (r: bool)
        ensures
            r == intact(*self),
    {
        let digest = sha256_digest(self.payload.as_slice());
        let expected = to_hex(&digest);
        crate::text::same_text(self.sha256.as_str(), expected.as_str())
    }

    /// A field-by-field copy.
    pub fn duplicate(&self) -> (r: Chunk)
        ensures
            r.sequence == self.sequence,
            r.timestamp_ms == self.timestamp_ms,
            r.payload@ == self.payload@,
            r.sha256@ == self.sha256@,
    {
        Chunk {
            sequence: self.sequence,
            timestamp_ms: self.timestamp_ms,
            payload: vstd::slice::slice_to_vec(self.payload.as_slice()),
            sha256: self.sha256.clone(),
        }
    }
}


/// A chunk as a value: sequence, timestamp, payload and checksum text.
pub type ChunkView = (u64, u64, Seq<u8>, Seq<char>);

impl View for Chunk {
    type V = ChunkView;

    open spec fn view(&self) -> ChunkView {
        (self.sequence, self.timestamp_ms, self.payload@, self.sha256@)
    }
}

pub open spec fn intact_view(c: ChunkView) -> bool {
    c.3 == checksum_text(c.2)
}

/// The values of a list of chunks.
pub open spec fn views(cs: Seq<Chunk>) -> Seq<ChunkView> {
    cs.map_values(|c: Chunk| c@)
}

/// The stored chunks whose checksum holds, in stored order.
pub open spec fn kept(stored: Seq<ChunkView>) -> Seq<ChunkView> {
    stored.filter(|c: ChunkView| intact_view(c))
}

/// Two chunks carry the same sequence number.
pub open spec fn has_duplicate(cs: Seq<ChunkView>) -> bool {
    exists|i: int, j: int| 0 <= i < j < cs.len() && #[trigger] cs[i].0 == #[trigger] cs[j].0
}

/// Sequence numbers strictly increase along `cs`.
pub open spec fn strictly_ordered(cs: Seq<ChunkView>) -> bool {
    forall|i: int, j: int| 0 <= i < j < cs.len() ==> #[trigger] cs[i].0 < #[trigger] cs[j].0
}

/// Why the spool refuses an operation.
#[derive(Debug, Clone, Copy, PartialEq, Eq, Structural)]
pub enum SpoolError {
    /// A chunk's checksum does not match its payload.
    Checksum,
    /// The spool's byte budget would be exceeded.
    Full,
    /// Two stored chunks carry the same sequence number.
    Unordered,
}

impl SpoolError {
    pub fn message(&self) -> (r: &'static str)
        ensures
            r@ == (match *self {
                SpoolError::Checksum => "chunk checksum"@,
                SpoolError::Full => "spool limit reached"@,
                SpoolError::Unordered => "unordered spool"@,
            }),
    {
        match self {
            SpoolError::Checksum => "chunk checksum",
            SpoolError::Full => "spool limit reached",
            SpoolError::Unordered => "unordered spool",
        }
    }
}

proof fn lemma_duplicate_extends(a: Seq<ChunkView>, b: Seq<ChunkView>)
    requires
        has_duplicate(a),
    ensures
        has_duplicate(a + b),
{
    let (i, j) = choose|i: int, j: int| 0 <= i < j < a.len() && #[trigger] a[i].0 == #[trigger] a[j].0;
    assert((a + b)[i] == a[i]);
    assert((a + b)[j] == a[j]);
}

proof fn lemma_kept_split(stored: Seq<ChunkView>, i: int)
    requires
        0 <= i <= stored.len(),
    ensures
        kept(stored) == kept(stored.take(i)) + kept(stored.skip(i)),
{
    assert(stored =~= stored.take(i) + stored.skip(i));
    Seq::<ChunkView>::filter_distributes_over_add(stored.take(i), stored.skip(i), |c: ChunkView| intact_view(c));
}

/// Puts the intact stored chunks in sequence order, refusing duplicates.
pub fn ordered_intact(stored: &Vec<Chunk>) -> (r: Result<Vec<Chunk>, SpoolError>)
    ensures
        (match r {
            Err(e) => e == SpoolError::Unordered && has_duplicate(kept(views(stored@))),
            Ok(v) => !has_duplicate(kept(views(stored@))) && strictly_ordered(views(v@))
                && views(v@).to_multiset() == kept(views(stored@)).to_multiset(),
        }),
{
    broadcast use vstd::seq_lib::group_to_multiset_ensures;
    let ghost sv = views(stored@);
    let ghost pred = |c: ChunkView| intact_view(c);
    let mut result: Vec<Chunk> = Vec::new();
    let mut i: usize = 0;
    while i < stored.len()
        invariant
            sv == views(stored@),
            pred == (|c: ChunkView| intact_view(c)),
            i <= stored@.len(),
            strictly_ordered(views(result@)),
            views(result@).to_multiset() == sv.take(i as int).filter(pred).to_multiset(),
            !has_duplicate(sv.take(i as int).filter(pred)),
        decreases stored.len() - i,
    {
        let ghost kp = sv.take(i as int).filter(pred);
        proof {
            reveal_with_fuel(Seq::<_>::filter, 1);
            assert(sv.take(i + 1).drop_last() =~= sv.take(i as int));
            assert(sv.take(i + 1).last() == stored@[i as int]@);
        }
        if stored[i].verify() {
            let x = stored[i].duplicate();
            assert(x@ == stored@[i as int]@);
            assert(sv.take(i + 1).filter(pred) == kp.push(x@));
            let mut pos: usize = 0;
            while pos < result.len() && result[pos].sequence < x.sequence
                invariant
                    pos <= result@.len(),
                    forall|a: int| 0 <= a < pos ==> #[trigger] result@[a].sequence < x.sequence,
                decreases result.len() - pos,
            {
                pos = pos + 1;
            }
            if pos < result.len() && result[pos].sequence == x.sequence {
                proof {
                    let rv = views(result@);
                    assert(rv[pos as int] == result@[pos as int]@);
                    assert(rv.contains(rv[pos as int]));
                    vstd::seq_lib::to_multiset_contains(rv, rv[pos as int]);
                    vstd::seq_lib::to_multiset_contains(kp, rv[pos as int]);
                    assert(kp.to_multiset().count(rv[pos as int]) > 0);
                    assert(kp.contains(rv[pos as int]));
                    let b = choose|b: int| 0 <= b < kp.len() && kp[b] == rv[pos as int];
                    let kp2 = kp.push(x@);
                    assert(kp2[b].0 == kp2[kp.len() as int].0);
                    assert(has_duplicate(kp2));
                    lemma_kept_split(sv, i + 1);
                    assert(kept(sv.take(i + 1)) == kp2);
                    lemma_duplicate_extends(kp2, kept(sv.skip(i + 1)));
                }
                return Err(SpoolError::Unordered);
            }
            proof {
                let rv = views(result@);
                let kp2 = kp.push(x@);
                assert forall|a: int, b: int| 0 <= a < b < kp2.len() implies #[trigger] kp2[a].0 != #[trigger] kp2[b].0 by {
                    if b == kp.len() {
                        assert(kp.contains(kp[a]));
                        vstd::seq_lib::to_multiset_contains(rv, kp[a]);
                        vstd::seq_lib::to_multiset_contains(kp, kp[a]);
                        assert(rv.to_multiset().count(kp[a]) > 0);
                        assert(rv.contains(kp[a]));
                        let c = choose|c: int| 0 <= c < rv.len() && rv[c] == kp[a];
                        assert(rv[c] == result@[c]@);
                        if c < pos {
                        } else {
                            assert(pos < result@.len());
                            if c > pos {
                                assert(rv[pos as int].0 < rv[c].0);
                            }
                        }
                    }
                }
            }
            let ghost old_result = result@;
            result.insert(pos, x);
            proof {
                assert(views(result@) =~= views(old_result).insert(pos as int, x@));
                vstd::seq_lib::to_multiset_insert(views(old_result), pos as int, x@);
                vstd::seq_lib::to_multiset_build(kp, x@);
                let rv = views(result@);
                assert forall|a: int, b: int| 0 <= a < b < rv.len() implies #[trigger] rv[a].0 < #[trigger] rv[b].0 by {
                    let ov = views(old_result);
                    if a < pos && b < pos {
                        assert(rv[a] == ov[a] && rv[b] == ov[b]);
                    } else if a < pos && b == pos {
                        assert(rv[a] == ov[a]);
                    } else if a < pos {
                        assert(rv[a] == ov[a] && rv[b] == ov[b - 1]);
                    } else if a == pos {
                        assert(rv[b] == ov[b - 1]);
                        if b - 1 > pos {
                            assert(ov[pos as int].0 < ov[b - 1].0);
                        }
                    } else {
                        assert(rv[a] == ov[a - 1] && rv[b] == ov[b - 1]);
                    }
                }
            }
        } else {
            assert(sv.take(i + 1).filter(pred) == kp);
        }
        i = i + 1;
    }
    proof {
        assert(sv.take(i as int) =~= sv);
    }
    Ok(result)
}


/// Total payload bytes of `cs`.
pub open spec fn total_bytes(cs: Seq<ChunkView>) -> nat
    decreases cs.len(),
{
    if cs.len() == 0 {
        0
    } else {
        total_bytes(cs.drop_last()) + cs.last().2.len()
    }
}

proof fn lemma_total_add(a: Seq<ChunkView>, b: Seq<ChunkView>)
    ensures
        total_bytes(a + b) == total_bytes(a) + total_bytes(b),
    decreases b.len(),
{
    if b.len() > 0 {
        assert((a + b).drop_last() =~= a + b.drop_last());
        lemma_total_add(a, b.drop_last());
    } else {
        assert(a + b =~= a);
    }
}

proof fn lemma_total_remove(b: Seq<ChunkView>, k: int)
    requires
        0 <= k < b.len(),
    ensures
        total_bytes(b) == total_bytes(b.remove(k)) + b[k].2.len(),
{
    assert(b =~= b.take(k) + seq![b[k]] + b.skip(k + 1));
    assert(b.remove(k) =~= b.take(k) + b.skip(k + 1));
    lemma_total_add(b.take(k) + seq![b[k]], b.skip(k + 1));
    lemma_total_add(b.take(k), seq![b[k]]);
    lemma_total_add(b.take(k), b.skip(k + 1));
    assert(seq![b[k]].drop_last() =~= Seq::<ChunkView>::empty());
    assert(total_bytes(Seq::<ChunkView>::empty()) == 0);
    assert(total_bytes(seq![b[k]]) == b[k].2.len());
}

/// Two lists holding the same chunks, in any order, hold the same number of
/// payload bytes.
pub proof fn reordering_keeps_total_bytes(a: Seq<ChunkView>, b: Seq<ChunkView>)
    requires
        a.to_multiset() == b.to_multiset(),
    ensures
        total_bytes(a) == total_bytes(b),
    decreases a.len(),
{
    broadcast use vstd::seq_lib::group_to_multiset_ensures;
    if a.len() == 0 {
        if b.len() > 0 {
            assert(b.to_multiset().count(b[0]) > 0);
        }
    } else {
        let x = a.last();
        assert(a.contains(x));
        assert(a.to_multiset().count(x) > 0);
        assert(b.contains(x));
        let k = choose|k: int| 0 <= k < b.len() && b[k] == x;
        assert(a.drop_last().to_multiset() == a.to_multiset().remove(x)) by {
            assert(a =~= a.drop_last().push(x));
        }
        assert(b.remove(k).to_multiset() == b.to_multiset().remove(x));
        reordering_keeps_total_bytes(a.drop_last(), b.remove(k));
        lemma_total_remove(b, k);
    }
}

/// Sum of the payload lengths of the intact stored chunks.
fn intact_bytes(stored: &Vec<Chunk>) -> (r: u64)
    requires
        total_bytes(kept(views(stored@))) <= u64::MAX,
    ensures
        r == total_bytes(kept(views(stored@))),
{
    let ghost sv = views(stored@);
    let ghost pred = |c: ChunkView| intact_view(c);
    let mut sum: u64 = 0;
    let mut i: usize = 0;
    while i < stored.len()
        invariant
            sv == views(stored@),
            pred == (|c: ChunkView| intact_view(c)),
            total_bytes(kept(sv)) <= u64::MAX,
            i <= stored@.len(),
            sum == total_bytes(sv.take(i as int).filter(pred)),
        decreases stored.len() - i,
    {
        proof {
            reveal_with_fuel(Seq::<_>::filter, 1);
            assert(sv.take(i + 1).drop_last() =~= sv.take(i as int));
            assert(sv.take(i + 1).last() == stored@[i as int]@);
            lemma_kept_split(sv, i + 1);
            lemma_total_add(kept(sv.take(i + 1)), kept(sv.skip(i + 1)));
        }
        if stored[i].verify() {
            proof {
                let kp2 = sv.take(i + 1).filter(pred);
                assert(kp2.drop_last() =~= sv.take(i as int).filter(pred));
            }
            sum = sum + stored[i].payload.len() as u64;
        }
        i = i + 1;
    }
    proof {
        assert(sv.take(i as int) =~= sv);
    }
    sum
}

/// Sum of the payload lengths of the intact stored chunks, or `None` when it
/// does not fit in a `u64`.
fn intact_bytes_checked(stored: &Vec<Chunk>) -> (r: Option<u64>)
    ensures
        r is Some <==> total_bytes(kept(views(stored@))) <= u64::MAX,
        r matches Some(n) ==> n == total_bytes(kept(views(stored@))),
{
    let ghost sv = views(stored@);
    let ghost pred = |c: ChunkView| intact_view(c);
    let mut sum: u64 = 0;
    let mut i: usize = 0;
    while i < stored.len()
        invariant
            sv == views(stored@),
            pred == (|c: ChunkView| intact_view(c)),
            i <= stored@.len(),
            sum == total_bytes(sv.take(i as int).filter(pred)),
        decreases stored.len() - i,
    {
        proof {
            reveal_with_fuel(Seq::<_>::filter, 1);
            assert(sv.take(i + 1).drop_last() =~= sv.take(i as int));
            assert(sv.take(i + 1).last() == stored@[i as int]@);
            lemma_kept_split(sv, i + 1);
            lemma_total_add(kept(sv.take(i + 1)), kept(sv.skip(i + 1)));
        }
        if stored[i].verify() {
            proof {
                let kp2 = sv.take(i + 1).filter(pred);
                assert(kp2.drop_last() =~= sv.take(i as int).filter(pred));
            }
            match sum.checked_add(stored[i].payload.len() as u64) {
                Some(t) => { sum = t; },
                None => { return None; },
            }
        }
        i = i + 1;
    }
    proof {
        assert(sv.take(i as int) =~= sv);
    }
    Some(sum)
}

/// What appending `c` to a spool with this limit and these stored chunks
/// answers: a bad checksum first, then an unordered spool, then a full one.
pub open spec fn append_outcome(limit: u64, c: Chunk, stored: Seq<ChunkView>) -> Result<(), SpoolError> {
    if !intact(c) {
        Err(SpoolError::Checksum)
    } else if has_duplicate(kept(stored)) {
        Err(SpoolError::Unordered)
    } else if total_bytes(kept(stored)) + c.payload@.len() > limit {
        Err(SpoolError::Full)
    } else {
        Ok(())
    }
}

/// File name of a chunk: its sequence number zero-padded to twenty digits,
/// then `.json`.
pub open spec fn chunk_file_name(sequence: u64) -> Seq<char> {
    fixed_digits(sequence as nat, 20) + ".json"@
}

/// The last `width` decimal digits of `n`, zero-padded.
pub open spec fn fixed_digits(n: nat, width: nat) -> Seq<char>
    decreases width,
{
    if width == 0 {
        Seq::empty()
    } else {
        fixed_digits(n / 10, (width - 1) as nat).push(crate::text::digit_char(n % 10))
    }
}

fn push_fixed_digits(out: &mut String, n: u64, width: u32)
    ensures
        final(out)@ == old(out)@ + fixed_digits(n as nat, width as nat),
    decreases width,
{
    if width > 0 {
        push_fixed_digits(out, n / 10, width - 1);
        let d: u8 = (n % 10) as u8;
        push_char(out, (48u8 + d) as char);
    }
    proof {
        assert(final(out)@ =~= old(out)@ + fixed_digits(n as nat, width as nat));
    }
}

/// A filesystem path, carried through the spool unread.
#[verifier::external_type_specification]
#[verifier::external_body]
pub struct ExPathBuf(std::path::PathBuf);

/// The file name of the chunk with this sequence number; the caller places it
/// in the spool's root directory.
pub fn chunk_file(sequence: u64) -> (r: String)
    ensures
        r@ == chunk_file_name(sequence),
{
    let mut out = String::new();
    push_fixed_digits(&mut out, sequence, 20);
    out.append(".json");
    proof {
        assert(out@ =~= chunk_file_name(sequence));
    }
    out
}

/// A spool of chunk files under a root directory, holding at most
/// `limit_bytes` of payload.
#[derive(Debug)]
pub struct Spool {
    pub root: PathBuf,
    pub limit_bytes: u64,
}

impl Spool {
    /// A spool rooted at `root`; the caller creates the directory.
    pub fn open(root: PathBuf, limit_bytes: u64) -> (s: Spool)
        ensures
            s.root == root,
            s.limit_bytes == limit_bytes,
    {
        Spool { root, limit_bytes }
    }

    /// The chunks still to be delivered, given the chunks read from the spool's
    /// files: those whose checksum holds, in sequence order; two chunks with one
    /// sequence number make the spool unordered.
    pub fn pending(&self, stored: &Vec<Chunk>) -> (r: Result<Vec<Chunk>, SpoolError>)
        ensures
            (match r {
                Err(e) => e == SpoolError::Unordered && has_duplicate(kept(views(stored@))),
                Ok(v) => !has_duplicate(kept(views(stored@))) && strictly_ordered(views(v@))
                    && views(v@).to_multiset() == kept(views(stored@)).to_multiset()
                    && total_bytes(views(v@)) == total_bytes(kept(views(stored@))),
            }),
    {
        let r = ordered_intact(stored);
        proof {
            if r is Ok {
                reordering_keeps_total_bytes(views(r->Ok_0@), kept(views(stored@)));
            }
        }
        r
    }

    /// Payload bytes the pending chunks occupy.
    pub fn used_bytes(&self, stored: &Vec<Chunk>) -> (r: Result<u64, SpoolError>)
        requires
            !has_duplicate(kept(views(stored@))) ==> total_bytes(kept(views(stored@))) <= u64::MAX,
        ensures
            (match r {
                Err(e) => e == SpoolError::Unordered && has_duplicate(kept(views(stored@))),
                Ok(n) => !has_duplicate(kept(views(stored@))) && n == total_bytes(kept(views(stored@))),
            }),
    {
        match ordered_intact(stored) {
            Err(e) => Err(e),
            Ok(_) => Ok(intact_bytes(stored)),
        }
    }

    /// Whether `c` may be appended: its checksum must hold, the spool must be
    /// ordered, and the pending bytes plus its payload must stay within the
    /// limit. The caller then writes the chunk's file.
    pub fn append(&self, c: &Chunk, stored: &Vec<Chunk>) -> (r: Result<(), SpoolError>)
        requires
            intact(*c) && !has_duplicate(kept(views(stored@))) ==> total_bytes(
                kept(views(stored@)),
            ) + c.payload@.len() <= u64::MAX,
        ensures
            r == append_outcome(self.limit_bytes, *c, views(stored@)),
    {
        if !c.verify() {
            return Err(SpoolError::Checksum);
        }
        let used = match self.used_bytes(stored) {
            Err(e) => { return Err(e); },
            Ok(n) => n,
        };
        if used + c.payload.len() as u64 > self.limit_bytes {
            return Err(SpoolError::Full);
        }
        Ok(())
    }

    /// `used_bytes` where its total fits in a `u64`; `None` when the intact
    /// stored chunks hold more bytes than a `u64` counts.
    pub fn try_used_bytes(&self, stored: &Vec<Chunk>) -> (r: Option<Result<u64, SpoolError>>)
        ensures
            r is None <==> (!has_duplicate(kept(views(stored@))) && total_bytes(kept(views(stored@))) > u64::MAX),
            r matches Some(x) ==> (match x {
                Err(e) => e == SpoolError::Unordered && has_duplicate(kept(views(stored@))),
                Ok(n) => !has_duplicate(kept(views(stored@))) && n == total_bytes(kept(views(stored@))),
            }),
    {
        match intact_bytes_checked(stored) {
            Some(_) => Some(self.used_bytes(stored)),
            None => match ordered_intact(stored) {
                Err(_) => Some(self.used_bytes(stored)),
                Ok(_) => None,
            },
        }
    }

    /// `append` where the byte count it needs fits in a `u64`; `None` when the
    /// chunk is intact, the spool ordered, and the pending bytes plus the new
    /// payload exceed what a `u64` counts.
    pub fn try_append(&self, c: &Chunk, stored: &Vec<Chunk>) -> (r: Option<Result<(), SpoolError>>)
        ensures
            r is None <==> (intact(*c) && !has_duplicate(kept(views(stored@)))
                && total_bytes(kept(views(stored@))) + c.payload@.len() > u64::MAX),
            r matches Some(x) ==> x == append_outcome(self.limit_bytes, *c, views(stored@)),
    {
        let fits = match intact_bytes_checked(stored) {
            Some(n) => n.checked_add(c.payload.len() as u64).is_some(),
            None => false,
        };
        if fits || !c.verify() {
            return Some(self.append(c, stored));
        }
        match ordered_intact(stored) {
            Err(_) => Some(self.append(c, stored)),
            Ok(_) => None,
        }
    }

    /// Sequence numbers of the pending chunks up to and including `sequence`,
    /// in increasing order: the chunks whose files the caller removes.
    pub fn acknowledge_through(&self, stored: &Vec<Chunk>, sequence: u64) -> (r: Result<Vec<u64>, SpoolError>)
        ensures
            (match r {
                Err(e) => e == SpoolError::Unordered && has_duplicate(kept(views(stored@))),
                Ok(v) => {
                    &&& !has_duplicate(kept(views(stored@)))
                    &&& forall|a: int, b: int| 0 <= a < b < v@.len() ==> #[trigger] v@[a] < #[trigger] v@[b]
                    &&& forall|x: u64| v@.contains(x) <==> (x <= sequence && exists|k: int|
                        0 <= k < kept(views(stored@)).len() && #[trigger] kept(views(stored@))[k].0 == x)
                },
            }),
    {
        let p = match ordered_intact(stored) {
            Err(e) => { return Err(e); },
            Ok(p) => p,
        };
        let ghost kv = kept(views(stored@));
        let ghost pv = views(p@);
        let mut out: Vec<u64> = Vec::new();
        let mut k: usize = 0;
        while k < p.len()
            invariant
                pv == views(p@),
                strictly_ordered(pv),
                k <= p@.len(),
                forall|a: int| #![trigger out@[a]] 0 <= a < out@.len() ==> exists|j: int| 0 <= j < k && #[trigger] pv[j].0 == out@[a],
                forall|a: int, b: int| 0 <= a < b < out@.len() ==> #[trigger] out@[a] < #[trigger] out@[b],
                forall|a: int| 0 <= a < out@.len() ==> out@[a] <= sequence,
                out@.len() > 0 ==> forall|j: int| k <= j < pv.len() ==> out@.last() < #[trigger] pv[j].0,
                forall|j: int| 0 <= j < k && pv[j].0 <= sequence ==> out@.contains(#[trigger] pv[j].0),
            decreases p.len() - k,
        {
            let sq = p[k].sequence;
            assert(pv[k as int].0 == sq);
            if sq <= sequence {
                let ghost before = out@;
                out.push(sq);
                proof {
                    assert forall|j: int| 0 <= j < k + 1 && pv[j].0 <= sequence implies out@.contains(#[trigger] pv[j].0) by {
                        if j == k {
                            assert(out@[out@.len() - 1] == sq);
                        } else {
                            let old_out = before;
                            assert(out@.drop_last() =~= before);
                            assert(old_out.contains(pv[j].0));
                            let t = choose|t: int| 0 <= t < old_out.len() && old_out[t] == pv[j].0;
                            assert(out@[t] == pv[j].0);
                        }
                    }
                    assert forall|a: int| #![trigger out@[a]] 0 <= a < out@.len() implies exists|j: int| 0 <= j < k + 1 && #[trigger] pv[j].0 == out@[a] by {
                        if a == out@.len() - 1 {
                            assert(pv[k as int].0 == out@[a]);
                        }
                    }
                }
            }
            k = k + 1;
        }
        proof {
            broadcast use vstd::seq_lib::group_to_multiset_ensures;
            assert forall|x: u64| out@.contains(x) <==> (x <= sequence && exists|j: int|
                0 <= j < kv.len() && #[trigger] kv[j].0 == x) by {
                if out@.contains(x) {
                    let a = choose|a: int| 0 <= a < out@.len() && out@[a] == x;
                    let j = choose|j: int| 0 <= j < k && #[trigger] pv[j].0 == out@[a];
                    assert(pv.contains(pv[j]));
                    vstd::seq_lib::to_multiset_contains(pv, pv[j]);
                    vstd::seq_lib::to_multiset_contains(kv, pv[j]);
                    assert(kv.contains(pv[j]));
                    let t = choose|t: int| 0 <= t < kv.len() && kv[t] == pv[j];
                    assert(kv[t].0 == x);
                }
                if x <= sequence && exists|j: int| 0 <= j < kv.len() && #[trigger] kv[j].0 == x {
                    let t = choose|t: int| 0 <= t < kv.len() && #[trigger] kv[t].0 == x;
                    assert(kv.contains(kv[t]));
                    vstd::seq_lib::to_multiset_contains(pv, kv[t]);
                    vstd::seq_lib::to_multiset_contains(kv, kv[t]);
                    assert(pv.contains(kv[t]));
                    let j = choose|j: int| 0 <= j < pv.len() && pv[j] == kv[t];
                    assert(pv[j].0 <= sequence);
                }
            }
        }
        Ok(out)
    }
}


/// The stored chunks left once the files of the acknowledged sequence numbers
/// `acked` are removed.
pub open spec fn after_removal(stored: Seq<ChunkView>, acked: Seq<u64>) -> Seq<ChunkView> {
    stored.filter(|c: ChunkView| !acked.contains(c.0))
}

/// Pruning after an acknowledgement: once the files that
/// `acknowledge_through(sequence)` names are removed, no pending chunk is at or
/// below `sequence`, and every intact chunk above it is still there.
pub proof fn acknowledged_chunks_are_pruned(stored: Seq<ChunkView>, acked: Seq<u64>, sequence: u64)
    requires
        forall|x: u64| acked.contains(x) <==> (x <= sequence && exists|k: int|
            0 <= k < kept(stored).len() && #[trigger] kept(stored)[k].0 == x),
    ensures
        forall|c: ChunkView| kept(after_removal(stored, acked)).contains(c) ==> c.0 > sequence,
        forall|c: ChunkView| kept(stored).contains(c) && c.0 > sequence ==> kept(after_removal(stored, acked)).contains(c),
{
    let rp = |c: ChunkView| !acked.contains(c.0);
    let ip = |c: ChunkView| intact_view(c);
    let rest = after_removal(stored, acked);
    assert forall|c: ChunkView| kept(rest).contains(c) implies c.0 > sequence by {
        rest.lemma_filter_contains_rev(ip, c);
        stored.lemma_filter_contains_rev(rp, c);
        assert(ip(c));
        assert(rp(c));
        let i = choose|i: int| 0 <= i < stored.len() && stored[i] == c;
        stored.lemma_filter_contains(ip, i);
        if c.0 <= sequence {
            assert(kept(stored).contains(c));
            let k = choose|k: int| 0 <= k < kept(stored).len() && kept(stored)[k] == c;
            assert(kept(stored)[k].0 == c.0);
            assert(acked.contains(c.0));
        }
    }
    assert forall|c: ChunkView| kept(stored).contains(c) && c.0 > sequence implies kept(rest).contains(c) by {
        stored.lemma_filter_contains_rev(ip, c);
        let i = choose|i: int| 0 <= i < stored.len() && stored[i] == c;
        assert(!acked.contains(c.0));
        stored.lemma_filter_contains(rp, i);
        let j = choose|j: int| 0 <= j < rest.len() && rest[j] == c;
        rest.lemma_filter_contains(ip, j);
    }
}


proof fn lemma_filter_total(s: Seq<ChunkView>, q: spec_fn(ChunkView) -> bool)
    ensures
        total_bytes(s.filter(q)) <= total_bytes(s),
    decreases s.len(),
{
    reveal_with_fuel(Seq::<_>::filter, 1);
    if s.len() > 0 {
        lemma_filter_total(s.drop_last(), q);
        let f = s.filter(q);
        if q(s.last()) {
            assert(f == s.drop_last().filter(q).push(s.last()));
            assert(f.drop_last() =~= s.drop_last().filter(q));
        } else {
            assert(f == s.drop_last().filter(q));
        }
    }
}

proof fn lemma_filter_keeps_distinct(s: Seq<ChunkView>, q: spec_fn(ChunkView) -> bool)
    requires
        has_duplicate(s.filter(q)),
    ensures
        has_duplicate(s),
    decreases s.len(),
{
    reveal_with_fuel(Seq::<_>::filter, 1);
    let f = s.filter(q);
    let prev = s.drop_last().filter(q);
    if s.len() == 0 {
        assert(f.len() == 0);
    } else {
        let (i, j) = choose|i: int, j: int| 0 <= i < j < f.len() && #[trigger] f[i].0 == #[trigger] f[j].0;
        if q(s.last()) && j == f.len() - 1 {
            assert(f == prev.push(s.last()));
            assert(prev.contains(f[i]));
            s.drop_last().lemma_filter_contains_rev(q, f[i]);
            let k = choose|k: int| 0 <= k < s.drop_last().len() && s.drop_last()[k] == f[i];
            assert(s[k] == f[i]);
            assert(s[s.len() - 1] == s.last());
        } else {
            if q(s.last()) {
                assert(f == prev.push(s.last()));
                assert(prev[i] == f[i] && prev[j] == f[j]);
            } else {
                assert(f == prev);
            }
            assert(has_duplicate(prev));
            lemma_filter_keeps_distinct(s.drop_last(), q);
            let (a, b) = choose|a: int, b: int| 0 <= a < b < s.drop_last().len() && #[trigger] s.drop_last()[a].0 == #[trigger] s.drop_last()[b].0;
            assert(s[a] == s.drop_last()[a] && s[b] == s.drop_last()[b]);
        }
    }
}

proof fn lemma_filters_commute(s: Seq<ChunkView>, p: spec_fn(ChunkView) -> bool, q: spec_fn(ChunkView) -> bool)
    ensures
        s.filter(p).filter(q) == s.filter(q).filter(p),
    decreases s.len(),
{
    reveal_with_fuel(Seq::<_>::filter, 2);
    if s.len() > 0 {
        lemma_filters_commute(s.drop_last(), p, q);
        let x = s.last();
        let d = s.drop_last();
        if p(x) {
            assert(s.filter(p) == d.filter(p).push(x));
            assert(s.filter(p).drop_last() =~= d.filter(p));
        } else {
            assert(s.filter(p) == d.filter(p));
        }
        if q(x) {
            assert(s.filter(q) == d.filter(q).push(x));
            assert(s.filter(q).drop_last() =~= d.filter(q));
        } else {
            assert(s.filter(q) == d.filter(q));
        }
    }
}

/// The stored chunks after appending `c`: its file replaces any file with
/// the same sequence number.
pub open spec fn after_append(stored: Seq<ChunkView>, c: ChunkView) -> Seq<ChunkView> {
    stored.filter(|x: ChunkView| x.0 != c.0).push(c)
}

/// An append the spool accepts keeps it ordered, within its byte limit, and
/// makes the new chunk pending.
pub proof fn accepted_append_stays_within_limit(stored: Seq<ChunkView>, c: ChunkView, limit: u64)
    requires
        intact_view(c),
        !has_duplicate(kept(stored)),
        total_bytes(kept(stored)) + c.2.len() <= limit,
    ensures
        !has_duplicate(kept(after_append(stored, c))),
        total_bytes(kept(after_append(stored, c))) <= limit,
        kept(after_append(stored, c)).contains(c),
{
    let ip = |x: ChunkView| intact_view(x);
    let q = |x: ChunkView| x.0 != c.0;
    let rest = stored.filter(q);
    let after = after_append(stored, c);
    reveal_with_fuel(Seq::<_>::filter, 1);
    assert(after.drop_last() =~= rest);
    assert(kept(after) == kept(rest).push(c));
    lemma_filters_commute(stored, q, ip);
    assert(kept(rest) == kept(stored).filter(q));
    lemma_filter_total(kept(stored), q);
    assert(kept(after).drop_last() =~= kept(rest));
    assert(total_bytes(kept(after)) == total_bytes(kept(rest)) + c.2.len());
    if has_duplicate(kept(rest)) {
        lemma_filter_keeps_distinct(kept(stored), q);
    }
    let ka = kept(after);
    assert forall|i: int, j: int| 0 <= i < j < ka.len() implies #[trigger] ka[i].0 != #[trigger] ka[j].0 by {
        if j == ka.len() - 1 {
            assert(kept(rest).contains(ka[i]));
            kept(stored).lemma_filter_contains_rev(q, ka[i]);
        } else {
            assert(ka[i] == kept(rest)[i] && ka[j] == kept(rest)[j]);
        }
    }
    assert(ka[ka.len() - 1] == c);
}

} // verus!
