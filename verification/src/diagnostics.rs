//! Diagnostic events and the redaction of secrets from support material.
use vstd::prelude::*;
use crate::text::{
    ascii_lower, chars_of, contains_ci, contains_ci_in, lemma_next_newline_bounds, line_end, lines, lines_from, line_at,
    next_newline, occurs_ci_at, push_char,
};

verus! {

/// How serious a logged event is.
#[derive(Debug, Clone, Copy, PartialEq, Eq, Structural)]
pub enum Severity {
    Info,
    Warning,
    Error,
}

/// One logged event; `at_seconds` / `at_nanos` give the UTC instant as a Unix
/// timestamp.
#[derive(Debug, Clone)]
pub struct Event {
    pub at_seconds: i64,
    pub at_nanos: u32,
    pub subsystem: String,
    pub message: String,
    pub severity: Severity,
}

/// A line is sensitive when, folded to ASCII lower case, it mentions a
/// password, passphrase, token, authorization or secret.
pub open spec fn is_sensitive(line: Seq<char>) -> bool {
    ||| contains_ci(line, "password"@)
    ||| contains_ci(line, "passphrase"@)
    ||| contains_ci(line, "token"@)
    ||| contains_ci(line, "authorization"@)
    ||| contains_ci(line, "secret"@)
}

/// What one line becomes in redacted text.
pub open spec fn redact_line(line: Seq<char>) -> Seq<char> {
    if is_sensitive(line) {
        "[redacted]\n"@
    } else {
        line.push('\n')
    }
}

pub open spec fn redact_lines(ls: Seq<Seq<char>>) -> Seq<char>
    decreases ls.len(),
{
    if ls.len() == 0 {
        Seq::empty()
    } else {
        redact_line(ls[0]) + redact_lines(ls.drop_first())
    }
}

/// The redacted form of a text: each of its lines, sensitive lines replaced
/// by `[redacted]`, each followed by a line feed.
pub open spec fn redacted(s: Seq<char>) -> Seq<char> {
    redact_lines(lines(s))
}

pub fn redact(value: &str) -> (out: String)
    ensures
        out@ == redacted(value@),
{
    let v = chars_of(value);
    let keywords: Vec<Vec<char>> = vec![
        chars_of("password"),
        chars_of("passphrase"),
        chars_of("token"),
        chars_of("authorization"),
        chars_of("secret"),
    ];
    let mut out = String::new();
    let mut start: usize = 0;
    while start < v.len()
        invariant
            v@ == value@,
            keywords@.len() == 5,
            keywords@[0]@ == "password"@,
            keywords@[1]@ == "passphrase"@,
            keywords@[2]@ == "token"@,
            keywords@[3]@ == "authorization"@,
            keywords@[4]@ == "secret"@,
            start <= v@.len(),
            redacted(v@) == out@ + redact_lines(lines_from(v@, start as int)),
        decreases v.len() - start,
    {
        let (e, end) = line_end(&v, start);
        let ghost line = line_at(v@, start as int);
        let mut sensitive = false;
        let mut k: usize = 0;
        while k < keywords.len()
            invariant
                keywords@.len() == 5,
                start <= end <= v@.len(),
                v@.subrange(start as int, end as int) == line,
                k <= 5,
                sensitive == (exists|m: int| 0 <= m < k && contains_ci(line, #[trigger] keywords@[m]@)),
            decreases keywords.len() - k,
        {
            let hit = contains_ci_in(&v, start, end, &keywords[k]);
            sensitive = sensitive || hit;
            k = k + 1;
        }
        proof {
            assert(sensitive == is_sensitive(line)) by {
                if is_sensitive(line) {
                    if contains_ci(line, "password"@) { assert(contains_ci(line, keywords@[0]@)); }
                    if contains_ci(line, "passphrase"@) { assert(contains_ci(line, keywords@[1]@)); }
                    if contains_ci(line, "token"@) { assert(contains_ci(line, keywords@[2]@)); }
                    if contains_ci(line, "authorization"@) { assert(contains_ci(line, keywords@[3]@)); }
                    if contains_ci(line, "secret"@) { assert(contains_ci(line, keywords@[4]@)); }
                }
            }
            let ls = lines_from(v@, start as int);
            assert(ls == seq![line] + lines_from(v@, e + 1));
            assert(ls.drop_first() =~= lines_from(v@, e + 1));
            if e == v@.len() {
                assert(lines_from(v@, e + 1) == lines_from(v@, e as int));
            }
        }
        if sensitive {
            out.append("[redacted]\n");
        } else {
            let piece = value.substring_char(start, end);
            out.append(piece);
            push_char(&mut out, '\n');
        }
        start = if e < v.len() { e + 1 } else { e };
    }
    out
}

/// What stands in place of a line in redacted text, before its line feed.
pub open spec fn redacted_content(line: Seq<char>) -> Seq<char> {
    if is_sensitive(line) {
        "[redacted]"@
    } else {
        line
    }
}

/// Lines, each followed by a line feed.
pub open spec fn joined_lines(ms: Seq<Seq<char>>) -> Seq<char>
    decreases ms.len(),
{
    if ms.len() == 0 {
        Seq::empty()
    } else {
        ms[0] + seq!['\n'] + joined_lines(ms.drop_first())
    }
}

/// A line with neither a line feed nor a carriage return in it.
pub open spec fn plain_line(l: Seq<char>) -> bool {
    !l.contains('\n') && !l.contains('\r')
}

proof fn lemma_newline_at(s: Seq<char>, i: int, j: int)
    requires
        0 <= i <= j < s.len(),
        s[j] == '\n',
        forall|k: int| i <= k < j ==> s[k] != '\n',
    ensures
        next_newline(s, i) == j,
    decreases j - i,
{
    if i < j {
        lemma_newline_at(s, i + 1, j);
    }
}

proof fn lemma_newline_shift(a: Seq<char>, b: Seq<char>, i: int)
    requires
        0 <= i <= b.len(),
    ensures
        next_newline(a + b, a.len() + i) == a.len() + next_newline(b, i),
    decreases b.len() - i,
{
    if i < b.len() {
        assert((a + b)[a.len() + i] == b[i]);
        if b[i] != '\n' {
            lemma_newline_shift(a, b, i + 1);
        }
    }
}

proof fn lemma_lines_shift(a: Seq<char>, b: Seq<char>, i: int)
    requires
        0 <= i,
    ensures
        lines_from(a + b, a.len() + i) == lines_from(b, i),
    decreases b.len() + 1 - i,
{
    if i < b.len() {
        lemma_newline_shift(a, b, i);
        lemma_next_newline_bounds(b, i);
        let e = next_newline(b, i);
        assert((a + b).subrange(a.len() + i, a.len() + e) =~= b.subrange(i, e));
        assert(line_at(a + b, a.len() + i) == line_at(b, i));
        lemma_lines_shift(a, b, e + 1);
        assert(a.len() + e + 1 == next_newline(a + b, a.len() + i) + 1);
    }
}

proof fn lemma_lines_of_joined(ms: Seq<Seq<char>>)
    requires
        forall|k: int| 0 <= k < ms.len() ==> plain_line(#[trigger] ms[k]),
    ensures
        lines(joined_lines(ms)) == ms,
    decreases ms.len(),
{
    if ms.len() == 0 {
        assert(lines(joined_lines(ms)) =~= ms);
    } else {
        let m0 = ms[0];
        let head = m0 + seq!['\n'];
        let rest = joined_lines(ms.drop_first());
        let t = joined_lines(ms);
        assert(t == head + rest);
        assert(plain_line(m0));
        assert forall|k: int| 0 <= k < m0.len() implies t[k] != '\n' by {
            assert(t[k] == m0[k]);
            assert(m0.contains(m0[k]));
        }
        assert(t[m0.len() as int] == '\n');
        lemma_newline_at(t, 0, m0.len() as int);
        assert(t.subrange(0, m0.len() as int) =~= m0);
        if m0.len() > 0 {
            assert(m0.contains(m0.last()));
        }
        assert(line_at(t, 0) == m0);
        assert forall|k: int| 0 <= k < ms.drop_first().len() implies plain_line(#[trigger] ms.drop_first()[k]) by {
            assert(ms.drop_first()[k] == ms[k + 1]);
        }
        lemma_lines_of_joined(ms.drop_first());
        lemma_lines_shift(head, rest, 0);
        assert(lines_from(t, m0.len() + 1int) == lines_from(rest, 0));
        assert(lines(t) =~= seq![m0] + ms.drop_first());
        assert(ms =~= seq![m0] + ms.drop_first());
    }
}

proof fn lemma_lines_are_plain(s: Seq<char>, start: int)
    requires
        0 <= start,
        !s.contains('\r'),
    ensures
        forall|k: int| 0 <= k < lines_from(s, start).len() ==> plain_line(#[trigger] lines_from(s, start)[k]),
    decreases s.len() + 1 - start,
{
    if start < s.len() {
        lemma_next_newline_bounds(s, start);
        let e = next_newline(s, start);
        let l = line_at(s, start);
        assert(l == s.subrange(start, e));
        assert(!l.contains('\n')) by {
            if l.contains('\n') {
                let k = choose|k: int| 0 <= k < l.len() && l[k] == '\n';
                assert(s[start + k] == '\n');
            }
        }
        assert(!l.contains('\r')) by {
            if l.contains('\r') {
                let k = choose|k: int| 0 <= k < l.len() && l[k] == '\r';
                assert(s[start + k] == '\r');
                assert(s.contains(s[start + k]));
            }
        }
        lemma_lines_are_plain(s, e + 1);
        let ls = lines_from(s, start);
        assert forall|k: int| 0 <= k < ls.len() implies plain_line(#[trigger] ls[k]) by {
            if k > 0 {
                assert(ls[k] == lines_from(s, e + 1)[k - 1]);
            }
        }
    }
}

proof fn lemma_redacted_marker_is_plain()
    ensures
        !is_sensitive("[redacted]"@),
        plain_line("[redacted]"@),
        "[redacted]\n"@ == "[redacted]"@ + seq!['\n'],
{
    reveal_strlit("[redacted]");
    reveal_strlit("[redacted]\n");
    reveal_strlit("password");
    reveal_strlit("passphrase");
    reveal_strlit("token");
    reveal_strlit("authorization");
    reveal_strlit("secret");
    let r = "[redacted]"@;
    assert(r =~= seq!['[', 'r', 'e', 'd', 'a', 'c', 't', 'e', 'd', ']']);
    assert forall|i: int| !occurs_ci_at(r, "password"@, i) && !occurs_ci_at(r, "passphrase"@, i)
        && !occurs_ci_at(r, "secret"@, i) && !occurs_ci_at(r, "authorization"@, i) by {
        if 0 <= i < r.len() {
            assert(ascii_lower(r[i + 0]) != 'p' as u32);
            assert(ascii_lower(r[i + 0]) != 's' as u32);
        }
    }
    assert forall|i: int| !occurs_ci_at(r, "token"@, i) by {
        if 0 <= i && i + 5 <= r.len() {
            assert(ascii_lower(r[i + 0]) != 't' as u32);
        }
    }
    assert("[redacted]\n"@ =~= r + seq!['\n']);
}

proof fn lemma_redacted_is_joined(ls: Seq<Seq<char>>)
    ensures
        redact_lines(ls) == joined_lines(ls.map_values(|l: Seq<char>| redacted_content(l))),
    decreases ls.len(),
{
    lemma_redacted_marker_is_plain();
    let f = |l: Seq<char>| redacted_content(l);
    if ls.len() > 0 {
        lemma_redacted_is_joined(ls.drop_first());
        assert(ls.map_values(f).drop_first() =~= ls.drop_first().map_values(f));
        assert(redact_line(ls[0]) == redacted_content(ls[0]) + seq!['\n']);
    } else {
        assert(ls.map_values(f) =~= Seq::<Seq<char>>::empty());
    }
}

proof fn lemma_redact_contents(ls: Seq<Seq<char>>)
    ensures
        redact_lines(ls.map_values(|l: Seq<char>| redacted_content(l))) == redact_lines(ls),
    decreases ls.len(),
{
    lemma_redacted_marker_is_plain();
    let f = |l: Seq<char>| redacted_content(l);
    if ls.len() > 0 {
        lemma_redact_contents(ls.drop_first());
        assert(ls.map_values(f).drop_first() =~= ls.drop_first().map_values(f));
        assert(redact_line(redacted_content(ls[0])) == redact_line(ls[0]));
    } else {
        assert(ls.map_values(f) =~= Seq::<Seq<char>>::empty());
    }
}

/// Redacting text that holds no carriage return a second time changes
/// nothing: every line of redacted text is either `[redacted]`, which names
/// no secret, or a line that was already harmless.
pub proof fn redaction_is_idempotent(s: Seq<char>)
    requires
        !s.contains('\r'),
    ensures
        redacted(redacted(s)) == redacted(s),
{
    lemma_redacted_marker_is_plain();
    let ls = lines(s);
    let f = |l: Seq<char>| redacted_content(l);
    let ms = ls.map_values(f);
    lemma_lines_are_plain(s, 0);
    assert forall|k: int| 0 <= k < ms.len() implies plain_line(#[trigger] ms[k]) by {
        assert(ms[k] == redacted_content(ls[k]));
        assert(plain_line(ls[k]));
    }
    lemma_redacted_is_joined(ls);
    lemma_lines_of_joined(ms);
    lemma_redact_contents(ls);
}

/// The text of a support bundle: a header, the serialized events, and the
/// redacted settings.
pub open spec fn bundle_text(events_json: Seq<char>, settings_json: Seq<char>) -> Seq<char> {
    "Melukoda Studio support bundle\n\nEvents:\n"@ + events_json + "\nSettings (redacted):\n"@
        + redacted(settings_json)
}

/// Assembles a support bundle from the already serialized event log and the
/// settings text; the settings are redacted line by line.
pub fn support_bundle(events_json: &str, settings_json: &str) -> (out: String)
    ensures
        out@ == bundle_text(events_json@, settings_json@),
{
    let mut out = String::new();
    out.append("Melukoda Studio support bundle\n\nEvents:\n");
    out.append(events_json);
    out.append("\nSettings (redacted):\n");
    let r = redact(settings_json);
    out.append(r.as_str());
    out
}

} // verus!
