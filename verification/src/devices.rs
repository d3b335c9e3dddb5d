//! Audio input devices as the shell reports them, and the order in which they
//! are offered: ASIO devices first, then by name.
use vstd::prelude::*;
use crate::text::{chars_of, join, same_text};

verus! {

/// An input device as offered for selection.
#[derive(Debug, Clone)]
pub struct AudioDevice {
    pub id: String,
    pub name: String,
    pub is_default: bool,
    pub backend: String,
    pub sample_rate: u32,
    pub input_channels: u16,
    pub output_channels: u16,
    pub supports_48khz: bool,
}

/// `a[i..]` comes strictly before `b[i..]` in code-point lexicographic order
/// (the order of `String`s, since UTF-8 preserves it).
pub open spec fn lex_lt_from(a: Seq<char>, b: Seq<char>, i: int) -> bool
    decreases a.len() - i,
{
    if i < 0 || i >= b.len() {
        false
    } else if i >= a.len() {
        true
    } else if (a[i] as u32) < (b[i] as u32) {
        true
    } else if (a[i] as u32) > (b[i] as u32) {
        false
    } else {
        lex_lt_from(a, b, i + 1)
    }
}

pub open spec fn lex_lt(a: Seq<char>, b: Seq<char>) -> bool {
    lex_lt_from(a, b, 0)
}

proof fn lemma_lex_asym(a: Seq<char>, b: Seq<char>, i: int)
    requires
        0 <= i,
    ensures
        !(lex_lt_from(a, b, i) && lex_lt_from(b, a, i)),
    decreases a.len() - i,
{
    if i < a.len() && i < b.len() && (a[i] as u32) == (b[i] as u32) {
        lemma_lex_asym(a, b, i + 1);
    }
}

proof fn lemma_lex_trans(a: Seq<char>, b: Seq<char>, c: Seq<char>, i: int)
    requires
        0 <= i,
        lex_lt_from(a, b, i),
        lex_lt_from(b, c, i),
    ensures
        lex_lt_from(a, c, i),
    decreases a.len() - i,
{
    if i < a.len() && i < b.len() && i < c.len() && (a[i] as u32) == (b[i] as u32) && (b[i] as u32) == (c[i] as u32) {
        lemma_lex_trans(a, b, c, i + 1);
    }
}

fn lex_less(a: &str, b: &str) -> (r: bool)
    ensures
        r == lex_lt(a@, b@),
{
    let x = chars_of(a);
    let y = chars_of(b);
    let mut i: usize = 0;
    loop
        invariant
            x@ == a@,
            y@ == b@,
            i <= x@.len() || i <= y@.len(),
            lex_lt(x@, y@) == lex_lt_from(x@, y@, i as int),
        decreases x@.len() - i,
    {
        if i >= y.len() {
            return false;
        }
        if i >= x.len() {
            return true;
        }
        let p = x[i] as u32;
        let q = y[i] as u32;
        if p < q {
            return true;
        }
        if p > q {
            return false;
        }
        i = i + 1;
    }
}

/// Whether the device's backend is ASIO.
pub open spec fn is_asio(d: AudioDevice) -> bool {
    d.backend@ == "asio"@
}

/// `a` is offered before `b`: ASIO devices first, then by name.
pub open spec fn offered_before(a: AudioDevice, b: AudioDevice) -> bool {
    (is_asio(a) && !is_asio(b)) || (is_asio(a) == is_asio(b) && lex_lt(a.name@, b.name@))
}

/// No device is offered after one that should follow it.
pub open spec fn in_offer_order(ds: Seq<AudioDevice>) -> bool {
    forall|i: int, j: int| 0 <= i < j < ds.len() ==> !offered_before(#[trigger] ds[j], #[trigger] ds[i])
}

proof fn lemma_offer_asym(a: AudioDevice, b: AudioDevice)
    ensures
        !(offered_before(a, b) && offered_before(b, a)),
{
    lemma_lex_asym(a.name@, b.name@, 0);
}

proof fn lemma_offer_trans(a: AudioDevice, b: AudioDevice, c: AudioDevice)
    requires
        offered_before(a, b),
        offered_before(b, c),
    ensures
        offered_before(a, c),
{
    if is_asio(a) == is_asio(b) && is_asio(b) == is_asio(c) {
        lemma_lex_trans(a.name@, b.name@, c.name@, 0);
    }
}

proof fn lemma_lex_total(a: Seq<char>, b: Seq<char>, i: int)
    requires
        0 <= i <= a.len(),
        i <= b.len(),
    ensures
        lex_lt_from(a, b, i) || lex_lt_from(b, a, i) || a.skip(i) == b.skip(i),
    decreases a.len() - i,
{
    if i < a.len() && i < b.len() && (a[i] as u32) == (b[i] as u32) {
        lemma_lex_total(a, b, i + 1);
        if a.skip(i + 1) == b.skip(i + 1) {
            vstd::utf8::char_u32_cast(a[i], a[i] as u32);
            vstd::utf8::char_u32_cast(b[i], b[i] as u32);
            assert(a[i] == b[i]);
            assert(a.skip(i + 1).len() == b.skip(i + 1).len());
            assert(a.len() == b.len());
            assert forall|k: int| 0 <= k < a.skip(i).len() implies a.skip(i)[k] == b.skip(i)[k] by {
                if k > 0 {
                    assert(a.skip(i)[k] == a.skip(i + 1)[k - 1]);
                    assert(b.skip(i)[k] == b.skip(i + 1)[k - 1]);
                }
            }
            assert(a.skip(i) =~= b.skip(i));
        }
    } else if i == a.len() && i == b.len() {
        assert(a.skip(i) =~= b.skip(i));
    }
}

/// Neither device is offered before the other.
pub open spec fn tied(a: AudioDevice, b: AudioDevice) -> bool {
    !offered_before(a, b) && !offered_before(b, a)
}

/// The devices of `ds` tied with `d`, in their order in `ds`.
pub open spec fn tied_with(ds: Seq<AudioDevice>, d: AudioDevice) -> Seq<AudioDevice> {
    ds.filter(|e: AudioDevice| tied(e, d))
}

proof fn lemma_tied_means_same_place(a: AudioDevice, b: AudioDevice)
    ensures
        tied(a, b) <==> (is_asio(a) == is_asio(b) && a.name@ == b.name@),
{
    lemma_lex_asym(a.name@, a.name@, 0);
    if is_asio(a) == is_asio(b) && !lex_lt(a.name@, b.name@) && !lex_lt(b.name@, a.name@) {
        lemma_lex_total(a.name@, b.name@, 0);
        assert(a.name@ == a.name@.skip(0));
        assert(b.name@ == b.name@.skip(0));
        if a.name@.len() > b.name@.len() {
            lemma_lex_total(b.name@, a.name@, 0);
        }
    }
}

proof fn lemma_filter_insert(s: Seq<AudioDevice>, pos: int, x: AudioDevice, p: spec_fn(AudioDevice) -> bool)
    requires
        0 <= pos <= s.len(),
    ensures
        s.filter(p) == s.take(pos).filter(p) + s.skip(pos).filter(p),
        s.insert(pos, x).filter(p) == s.take(pos).filter(p) + seq![x].filter(p) + s.skip(pos).filter(p),
{
    assert(s =~= s.take(pos) + s.skip(pos));
    Seq::filter_distributes_over_add(s.take(pos), s.skip(pos), p);
    assert(s.insert(pos, x) =~= (s.take(pos) + seq![x]) + s.skip(pos));
    Seq::filter_distributes_over_add(s.take(pos) + seq![x], s.skip(pos), p);
    Seq::filter_distributes_over_add(s.take(pos), seq![x], p);
}

proof fn lemma_filter_none(s: Seq<AudioDevice>, p: spec_fn(AudioDevice) -> bool)
    requires
        forall|k: int| 0 <= k < s.len() ==> !p(#[trigger] s[k]),
    ensures
        s.filter(p) == Seq::<AudioDevice>::empty(),
{
    if s.filter(p).len() > 0 {
        let e = s.filter(p)[0];
        assert(s.filter(p).contains(e));
        s.lemma_filter_contains_rev(p, e);
    }
    assert(s.filter(p) =~= Seq::<AudioDevice>::empty());
}

fn before(a: &AudioDevice, b: &AudioDevice) -> (r: bool)
    ensures
        r == offered_before(*a, *b),
{
    let aa = same_text(a.backend.as_str(), "asio");
    let ba = same_text(b.backend.as_str(), "asio");
    (aa && !ba) || (aa == ba && lex_less(a.name.as_str(), b.name.as_str()))
}

/// Puts devices in offer order; devices that compare equal keep their order.
pub fn order_devices(devices: Vec<AudioDevice>) -> (r: Vec<AudioDevice>)
    ensures
        in_offer_order(r@),
        r@.to_multiset() == devices@.to_multiset(),
        forall|d: AudioDevice| #[trigger] tied_with(r@, d) == tied_with(devices@, d),
{
    broadcast use vstd::seq_lib::group_to_multiset_ensures;
    let ghost orig = devices@;
    let n = devices.len();
    assert(orig.len() == n);
    let mut rest = devices;
    let mut result: Vec<AudioDevice> = Vec::new();
    let mut i: usize = 0;
    while rest.len() > 0
        invariant
            i <= orig.len(),
            orig.len() <= usize::MAX,
            rest@ == orig.skip(i as int),
            in_offer_order(result@),
            result@.to_multiset() == orig.take(i as int).to_multiset(),
            forall|d: AudioDevice| #[trigger] tied_with(result@, d) == tied_with(orig.take(i as int), d),
        decreases rest.len(),
    {
        let x = rest.remove(0);
        assert(x == orig[i as int]);
        let mut pos: usize = 0;
        while pos < result.len() && !before(&x, &result[pos])
            invariant
                pos <= result@.len(),
                forall|k: int| 0 <= k < pos ==> !offered_before(x, #[trigger] result@[k]),
            decreases result.len() - pos,
        {
            pos = pos + 1;
        }
        let ghost old_r = result@;
        result.insert(pos, x);
        proof {
            vstd::seq_lib::to_multiset_insert(old_r, pos as int, x);
            assert(orig.take(i + 1) =~= orig.take(i as int).push(x));
            vstd::seq_lib::to_multiset_build(orig.take(i as int), x);
            assert(orig.skip(i + 1) =~= orig.skip(i as int).remove(0));
            let nr = result@;
            assert forall|a: int, b: int| 0 <= a < b < nr.len() implies !offered_before(#[trigger] nr[b], #[trigger] nr[a]) by {
                if a < pos && b < pos {
                    assert(nr[a] == old_r[a] && nr[b] == old_r[b]);
                } else if a < pos && b == pos {
                    assert(nr[a] == old_r[a]);
                } else if a < pos {
                    assert(nr[a] == old_r[a] && nr[b] == old_r[b - 1]);
                } else if a == pos {
                    assert(nr[b] == old_r[b - 1]);
                    assert(pos < old_r.len());
                    assert(offered_before(x, old_r[pos as int]));
                    if offered_before(old_r[b - 1], x) {
                        if b - 1 == pos {
                            lemma_offer_asym(x, old_r[pos as int]);
                        } else {
                            lemma_offer_trans(old_r[b - 1], x, old_r[pos as int]);
                        }
                    }
                } else {
                    assert(nr[a] == old_r[a - 1] && nr[b] == old_r[b - 1]);
                }
            }
            assert forall|d: AudioDevice| #[trigger] tied_with(nr, d) == tied_with(orig.take(i + 1), d) by {
                let p = |e: AudioDevice| tied(e, d);
                lemma_filter_insert(old_r, pos as int, x, p);
                reveal_with_fuel(Seq::<_>::filter, 1);
                assert(orig.take(i + 1).drop_last() =~= orig.take(i as int));
                assert(seq![x].drop_last() =~= Seq::<AudioDevice>::empty());
                if tied(x, d) {
                    assert forall|k: int| 0 <= k < old_r.skip(pos as int).len() implies !p(#[trigger] old_r.skip(pos as int)[k]) by {
                        let e = old_r[pos + k];
                        assert(old_r.skip(pos as int)[k] == e);
                        if tied(e, d) {
                            lemma_tied_means_same_place(e, d);
                            lemma_tied_means_same_place(x, d);
                            assert(offered_before(x, old_r[pos as int]));
                            assert(offered_before(e, old_r[pos as int]));
                            if k == 0 {
                                lemma_offer_asym(e, e);
                            } else {
                                assert(!offered_before(old_r[pos + k], old_r[pos as int]));
                            }
                        }
                    }
                    lemma_filter_none(old_r.skip(pos as int), p);
                    assert(tied_with(nr, d) =~= tied_with(old_r, d).push(x));
                } else {
                    assert(Seq::<AudioDevice>::empty().filter(p) =~= Seq::<AudioDevice>::empty());
                    assert(seq![x].filter(p) =~= Seq::<AudioDevice>::empty());
                    assert(tied_with(nr, d) =~= tied_with(old_r, d));
                }
            }
        }
        i = i + 1;
    }
    proof {
        assert(orig.take(i as int) =~= orig);
    }
    result
}

/// The listing offered to the user: the devices in offer order, or, when no
/// device was found and some backend failed, an error naming the failures.
pub fn device_listing(devices: Vec<AudioDevice>, errors: Vec<String>) -> (r: Result<Vec<AudioDevice>, String>)
    ensures
        (match r {
            Err(m) => devices@.len() == 0 && errors@.len() > 0 && m@
                == "Cannot enumerate native input devices: "@ + join(errors@.map_values(|e: String| e@), "; "@),
            Ok(v) => !(devices@.len() == 0 && errors@.len() > 0) && in_offer_order(v@)
                && v@.to_multiset() == devices@.to_multiset()
                && forall|d: AudioDevice| #[trigger] tied_with(v@, d) == tied_with(devices@, d),
        }),
{
    if devices.len() == 0 && errors.len() > 0 {
        let ghost es = errors@.map_values(|e: String| e@);
        let mut m = String::new();
        m.append("Cannot enumerate native input devices: ");
        let ghost start = m@;
        let mut k: usize = 0;
        while k < errors.len()
            invariant
                k <= errors@.len(),
                es == errors@.map_values(|e: String| e@),
                m@ == start + join(es.take(k as int), "; "@),
            decreases errors.len() - k,
        {
            if k > 0 {
                m.append("; ");
            }
            m.append(errors[k].as_str());
            proof {
                let t = es.take(k + 1);
                assert(t.drop_last() =~= es.take(k as int));
                assert(t.last() == errors@[k as int]@);
                if k == 0 {
                    assert(es.take(0) =~= Seq::<Seq<char>>::empty());
                }
            }
            k = k + 1;
        }
        proof {
            assert(es.take(k as int) =~= es);
        }
        return Err(m);
    }
    Ok(order_devices(devices))
}


/// Sample format of a device stream configuration.
#[derive(Debug, Clone, Copy, PartialEq, Eq, Structural)]
pub enum SampleKind {
    F32,
    I16,
    U16,
    Other,
}

/// Preference of a sample format: 32-bit float, then signed 16-bit, then
/// unsigned 16-bit, then anything else.
pub open spec fn kind_score(k: SampleKind) -> int {
    match k {
        SampleKind::F32 => 3,
        SampleKind::I16 => 2,
        SampleKind::U16 => 1,
        SampleKind::Other => 0,
    }
}

pub fn format_score(k: SampleKind) -> (r: u8)
    ensures
        r == kind_score(k),
{
    match k {
        SampleKind::F32 => 3,
        SampleKind::I16 => 2,
        SampleKind::U16 => 1,
        SampleKind::Other => 0,
    }
}

/// The 48 kHz input configuration to use among `candidates`: the one with the
/// most preferred sample format; of equally preferred ones, the last.
pub fn best_input_format(candidates: &Vec<SampleKind>) -> (r: Option<usize>)
    ensures
        (match r {
            None => candidates@.len() == 0,
            Some(i) => i < candidates@.len()
                && (forall|j: int| 0 <= j < candidates@.len() ==> kind_score(#[trigger] candidates@[j]) <= kind_score(candidates@[i as int]))
                && (forall|j: int| i < j < candidates@.len() ==> kind_score(#[trigger] candidates@[j]) < kind_score(candidates@[i as int])),
        }),
{
    if candidates.len() == 0 {
        return None;
    }
    let mut best: usize = 0;
    let mut k: usize = 1;
    while k < candidates.len()
        invariant
            1 <= k <= candidates@.len(),
            best < k,
            forall|j: int| 0 <= j < k ==> kind_score(#[trigger] candidates@[j]) <= kind_score(candidates@[best as int]),
            forall|j: int| best < j < k ==> kind_score(#[trigger] candidates@[j]) < kind_score(candidates@[best as int]),
        decreases candidates.len() - k,
    {
        if format_score(candidates[k]) >= format_score(candidates[best]) {
            best = k;
        }
        k = k + 1;
    }
    Some(best)
}

/// Output configuration key: channel count first, then format preference.
pub open spec fn output_key_le(a: (u16, SampleKind), b: (u16, SampleKind)) -> bool {
    a.0 < b.0 || (a.0 == b.0 && kind_score(a.1) <= kind_score(b.1))
}

/// The 48 kHz output configuration to use among `candidates` (channel count,
/// sample format): the most channels, then the most preferred format; of equal
/// ones, the last.
pub fn best_output_format(candidates: &Vec<(u16, SampleKind)>) -> (r: Option<usize>)
    ensures
        (match r {
            None => candidates@.len() == 0,
            Some(i) => i < candidates@.len()
                && (forall|j: int| 0 <= j < candidates@.len() ==> output_key_le(#[trigger] candidates@[j], candidates@[i as int]))
                && (forall|j: int| i < j < candidates@.len() ==> !output_key_le(candidates@[i as int], #[trigger] candidates@[j])),
        }),
{
    if candidates.len() == 0 {
        return None;
    }
    let mut best: usize = 0;
    let mut k: usize = 1;
    while k < candidates.len()
        invariant
            1 <= k <= candidates@.len(),
            best < k,
            forall|j: int| 0 <= j < k ==> output_key_le(#[trigger] candidates@[j], candidates@[best as int]),
            forall|j: int| best < j < k ==> !output_key_le(candidates@[best as int], #[trigger] candidates@[j]),
        decreases candidates.len() - k,
    {
        let (c, f) = candidates[k];
        let (bc, bf) = candidates[best];
        if c > bc || (c == bc && format_score(f) >= format_score(bf)) {
            best = k;
        }
        k = k + 1;
    }
    Some(best)
}

} // verus!
