//! Prometheus text-format sample lines: `name{key="v1",key2="v2"} value
//! [timestamp]`, with `\` escaping the next character of a label value.
use vstd::prelude::*;
use crate::text::{
    chars_of, first_at, lemma_strip_leading_shorter, lemma_trim_shorter, next_token, parse_i64_window,
    parse_signed, push_char, string_of, strip_leading, strip_leading_window, strip_trailing,
    strip_trailing_window, tokens, trim, trim_window,
};

verus! {

/// Scans a quoted value from position `i` of `r` (just after the opening
/// quote): `\` takes the next character literally, `"` ends the value.
/// Returns the value and the position of the closing quote (`r.len()` when
/// the value is not closed).
pub open spec fn scan_value(r: Seq<char>, i: int) -> (Seq<char>, int)
    decreases r.len() - i,
{
    if i < 0 || i >= r.len() {
        (seq![], r.len() as int)
    } else if r[i] == '"' {
        (seq![], i)
    } else if r[i] == '\\' {
        if i + 1 < r.len() {
            let (v, e) = scan_value(r, i + 2);
            (seq![r[i + 1]] + v, e)
        } else {
            (seq![], r.len() as int)
        }
    } else {
        let (v, e) = scan_value(r, i + 1);
        (seq![r[i]] + v, e)
    }
}

pub proof fn lemma_scan_end(r: Seq<char>, i: int)
    requires
        0 <= i,
    ensures
        i <= scan_value(r, i).1 <= r.len() || (i > r.len() && scan_value(r, i).1 == r.len()),
    decreases r.len() - i,
{
    if i < r.len() && r[i] != '"' {
        if r[i] == '\\' {
            if i + 1 < r.len() {
                lemma_scan_end(r, i + 2);
            }
        } else {
            lemma_scan_end(r, i + 1);
        }
    }
}

/// What follows a value closed at `e` in `r3`: the text after the closing
/// quote, trimmed, leading commas removed, trimmed again.
pub open spec fn after_value(r3: Seq<char>, e: int) -> Seq<char> {
    let r4 = if e < r3.len() {
        r3.skip(e + 1)
    } else {
        seq![]
    };
    trim(strip_leading(trim(r4), ','))
}

/// Labels of the (trimmed) text `rest`: each `key = "value"` pair in turn,
/// keys trimmed; parsing stops at the first pair without `=` or whose value
/// does not start with a quote.
pub open spec fn labels_from(rest: Seq<char>) -> Seq<(Seq<char>, Seq<char>)>
    decreases rest.len(),
{
    if rest.len() == 0 {
        seq![]
    } else if exists|i: int| first_at(rest, '=', i) {
        let eq = choose|i: int| first_at(rest, '=', i);
        let key = trim(rest.take(eq));
        let r2 = trim(rest.skip(eq + 1));
        if r2.len() == 0 || r2[0] != '"' {
            seq![]
        } else {
            let r3 = r2.skip(1);
            let sv = scan_value(r3, 0);
            let next = after_value(r3, sv.1);
            proof {
                lemma_trim_shorter(rest.skip(eq + 1));
                lemma_scan_end(r3, 0);
                let r4 = if sv.1 < r3.len() {
                    r3.skip(sv.1 + 1)
                } else {
                    seq![]
                };
                lemma_trim_shorter(r4);
                lemma_strip_leading_shorter(trim(r4), ',');
                lemma_trim_shorter(strip_leading(trim(r4), ','));
            }
            seq![(key, sv.0)] + labels_from(next)
        }
    } else {
        seq![]
    }
}

/// Labels of a label list.
pub open spec fn labels_of(s: Seq<char>) -> Seq<(Seq<char>, Seq<char>)> {
    labels_from(trim(s))
}

pub open spec fn pairs_view(v: Seq<(String, String)>) -> Seq<(Seq<char>, Seq<char>)> {
    v.map_values(|p: (String, String)| (p.0@, p.1@))
}

/// Reads the value starting at `from` (just after the opening quote) in the
/// window ending at `hi`; returns it with the absolute position of its
/// closing quote (`hi` when not closed).
fn scan_value_exec(cs: &Vec<char>, from: usize, hi: usize) -> (r: (String, usize))
    requires
        from <= hi <= cs@.len(),
    ensures
        r.0@ == scan_value(cs@.subrange(from as int, hi as int), 0).0,
        r.1 - from == scan_value(cs@.subrange(from as int, hi as int), 0).1,
        from <= r.1 <= hi,
{
    let ghost r3 = cs@.subrange(from as int, hi as int);
    let mut val = String::new();
    let mut i = from;
    let mut end = hi;
    while i < hi
        invariant_except_break
            end == hi,
            from <= i <= hi,
            hi <= cs@.len(),
            r3 == cs@.subrange(from as int, hi as int),
            val@ + scan_value(r3, i - from).0 == scan_value(r3, 0).0,
            scan_value(r3, i - from).1 == scan_value(r3, 0).1,
        ensures
            from <= end <= hi,
            r3 == cs@.subrange(from as int, hi as int),
            val@ == scan_value(r3, 0).0,
            end - from == scan_value(r3, 0).1,
        decreases hi - i,
    {
        let c = cs[i];
        assert(r3[i - from] == c);
        if c == '"' {
            end = i;
            assert(val@ =~= val@ + seq![]);
            break;
        } else if c == '\\' {
            if i + 1 < hi {
                let ghost before = val@;
                push_char(&mut val, cs[i + 1]);
                assert(r3[i - from + 1] == cs@[i + 1]);
                assert(before + (seq![cs@[i + 1]] + scan_value(r3, i - from + 2).0) =~= val@
                    + scan_value(r3, i - from + 2).0);
                i += 2;
            } else {
                end = hi;
                assert(val@ =~= val@ + seq![]);
                break;
            }
        } else {
            let ghost before = val@;
            push_char(&mut val, c);
            assert(before + (seq![c] + scan_value(r3, i - from + 1).0) =~= val@ + scan_value(
                r3,
                i - from + 1,
            ).0);
            i += 1;
        }
    }
    proof {
        if i >= hi && end == hi {
            assert(scan_value(r3, i - from).0 =~= seq![]);
        }
    }
    (val, end)
}

/// Parses `key="val1",key2="val2"` into its (key, value) pairs.
pub fn parse_labels(s: &str) -> (r: Vec<(String, String)>)
    ensures
        pairs_view(r@) == labels_of(s@),
{
    let cs = chars_of(s);
    let n = cs.len();
    let (mut lo, mut hi) = trim_window(&cs, 0, n);
    assert(cs@.subrange(0, n as int) =~= s@);
    let mut result: Vec<(String, String)> = Vec::new();
    while lo < hi
        invariant
            lo <= hi <= cs@.len(),
            cs@ == s@,
            pairs_view(result@) + labels_from(cs@.subrange(lo as int, hi as int)) == labels_of(s@),
        ensures
            pairs_view(result@) == labels_of(s@),
        decreases hi - lo,
    {
        let ghost rest = cs@.subrange(lo as int, hi as int);
        // first '='
        let mut eq = lo;
        while eq < hi && cs[eq] != '='
            invariant
                lo <= eq <= hi,
                hi <= cs@.len(),
                rest == cs@.subrange(lo as int, hi as int),
                forall|k: int| lo <= k < eq ==> #[trigger] cs@[k] != '=',
            decreases hi - eq,
        {
            eq += 1;
        }
        if eq >= hi {
            assert(!exists|i: int| first_at(rest, '=', i)) by {
                assert forall|i: int| 0 <= i < rest.len() implies #[trigger] rest[i] != '=' by {
                    assert(rest[i] == cs@[lo + i]);
                }
            }
            assert(labels_from(rest) =~= seq![]);
            assert(pairs_view(result@) + labels_from(rest) =~= pairs_view(result@));
            break;
        }
        let ghost e = (eq - lo) as int;
        assert(first_at(rest, '=', e)) by {
            assert forall|k: int| 0 <= k < e implies #[trigger] rest[k] != '=' by {
                assert(rest[k] == cs@[lo + k]);
            }
        }
        let ghost chosen = choose|i: int| first_at(rest, '=', i);
        assert(chosen == e) by {
            if chosen < e {
                assert(rest[chosen] != '=');
            }
            if chosen > e {
                assert(rest[e] != '=');
            }
        }
        let (klo, khi) = trim_window(&cs, lo, eq);
        assert(cs@.subrange(lo as int, eq as int) =~= rest.take(e));
        let key = string_of(&cs, klo, khi);
        let (vlo, vhi) = trim_window(&cs, eq + 1, hi);
        assert(cs@.subrange(eq + 1, hi as int) =~= rest.skip(e + 1));
        let ghost r2 = cs@.subrange(vlo as int, vhi as int);
        if vlo == vhi || cs[vlo] != '"' {
            proof {
                if vlo < vhi {
                    assert(r2[0] == cs@[vlo as int]);
                }
            }
            assert(labels_from(rest) =~= seq![]);
            assert(pairs_view(result@) + labels_from(rest) =~= pairs_view(result@));
            break;
        }
        assert(r2[0] == cs@[vlo as int]);
        let ghost r3 = r2.skip(1);
        assert(cs@.subrange(vlo + 1, vhi as int) =~= r3);
        let (val, end) = scan_value_exec(&cs, vlo + 1, vhi);
        // text after the closing quote
        let start = if end < vhi {
            end + 1
        } else {
            vhi
        };
        proof {
            let sv1 = scan_value(r3, 0).1;
            if end < vhi {
                assert(cs@.subrange(start as int, vhi as int) =~= r3.skip(sv1 + 1));
            } else {
                assert(cs@.subrange(start as int, vhi as int) =~= seq![]);
            }
        }
        let (a1, b1) = trim_window(&cs, start, vhi);
        let a2 = strip_leading_window(&cs, a1, b1, ',');
        let (a3, b3) = trim_window(&cs, a2, b1);
        let ghost next = cs@.subrange(a3 as int, b3 as int);
        assert(next == after_value(r3, scan_value(r3, 0).1));
        let ghost pair = (key@, val@);
        assert(labels_from(rest) == seq![pair] + labels_from(next));
        let ghost before = pairs_view(result@);
        result.push((key, val));
        assert(pairs_view(result@) =~= before.push(pair));
        assert(before.push(pair) + labels_from(next) =~= before + (seq![pair] + labels_from(next)));
        proof {
            lemma_trim_shorter(rest.skip(e + 1));
        }
        lo = a3;
        hi = b3;
    }
    proof {
        if lo >= hi {
            assert(labels_from(cs@.subrange(lo as int, hi as int)) =~= seq![]);
            assert(pairs_view(result@) + seq![] =~= pairs_view(result@));
        }
    }
    result
}

/// `i` is the last position of `c` in `s`.
pub open spec fn last_at(s: Seq<char>, c: char, i: int) -> bool {
    0 <= i < s.len() && s[i] == c && forall|k: int| i < k < s.len() ==> #[trigger] s[k] != c
}

/// Metric part and value part of a line: split after the last `}` when
/// there is one, else at the first space; no split without either.
pub open spec fn sample_split(line: Seq<char>) -> Option<(Seq<char>, Seq<char>)> {
    if exists|i: int| last_at(line, '}', i) {
        let b = choose|i: int| last_at(line, '}', i);
        Some((line.take(b + 1), trim(line.skip(b + 1))))
    } else if exists|i: int| first_at(line, ' ', i) {
        let i = choose|i: int| first_at(line, ' ', i);
        Some((line.take(i), trim(line.skip(i))))
    } else {
        None
    }
}

/// Name and labels of the metric part: before and inside the first `{`
/// (trailing `}` removed), or the whole part trimmed without labels.
pub open spec fn name_and_labels(m: Seq<char>) -> (Seq<char>, Seq<(Seq<char>, Seq<char>)>) {
    if exists|i: int| first_at(m, '{', i) {
        let i = choose|i: int| first_at(m, '{', i);
        (trim(m.take(i)), labels_of(strip_trailing(m.skip(i + 1), '}')))
    } else {
        (trim(m), seq![])
    }
}

/// Timestamp token read as an `i64`, if there is one and it reads.
pub open spec fn timestamp_of(ts: Seq<Seq<char>>) -> Option<int> {
    if ts.len() > 1 {
        parse_signed(ts[1], 10, i64::MAX as nat)
    } else {
        None
    }
}

/// Name, labels, value text and timestamp of a sample line; `None` when it
/// has no split point, no value or an empty name.
pub open spec fn sample_of(line: Seq<char>) -> Option<
    (Seq<char>, Seq<(Seq<char>, Seq<char>)>, Seq<char>, Option<int>),
> {
    match sample_split(line) {
        Some((m, rest)) => {
            let ts = tokens(rest);
            let (name, labels) = name_and_labels(m);
            if ts.len() == 0 || name.len() == 0 {
                None
            } else {
                Some((name, labels, ts[0], timestamp_of(ts)))
            }
        },
        None => None,
    }
}

/// The parts of a sample line; reading the value as a number is left to
/// the caller.
#[derive(Debug, Clone)]
pub struct SampleParts {
    pub name: String,
    pub labels: Vec<(String, String)>,
    /// Text of the value.
    pub value: String,
    /// Timestamp in milliseconds, when given and readable.
    pub ts_ms: Option<i64>,
}

fn find_last(cs: &Vec<char>, c: char) -> (r: Option<usize>)
    ensures
        match r {
            Some(i) => last_at(cs@, c, i as int),
            None => forall|i: int| !last_at(cs@, c, i),
        },
{
    let mut i = cs.len();
    while i > 0
        invariant
            i <= cs@.len(),
            forall|k: int| i <= k < cs@.len() ==> #[trigger] cs@[k] != c,
        decreases i,
    {
        if cs[i - 1] == c {
            return Some(i - 1);
        }
        i -= 1;
    }
    None
}

fn find_first(cs: &Vec<char>, hi: usize, c: char) -> (r: Option<usize>)
    requires
        hi <= cs@.len(),
    ensures
        match r {
            Some(i) => first_at(cs@.take(hi as int), c, i as int),
            None => forall|i: int| !first_at(cs@.take(hi as int), c, i),
        },
{
    let mut i: usize = 0;
    while i < hi
        invariant
            hi <= cs@.len(),
            i <= hi,
            forall|k: int| 0 <= k < i ==> #[trigger] cs@[k] != c,
        decreases hi - i,
    {
        if cs[i] == c {
            assert forall|k: int| 0 <= k < i implies #[trigger] cs@.take(hi as int)[k] != c by {
                assert(cs@.take(hi as int)[k] == cs@[k]);
            }
            return Some(i);
        }
        i += 1;
    }
    assert forall|i: int| !first_at(cs@.take(hi as int), c, i) by {
        if 0 <= i < hi {
            assert(cs@.take(hi as int)[i] == cs@[i]);
        }
    }
    None
}

/// Splits a sample line into its name, labels, value text and timestamp.
pub fn sample_parts(line: &str) -> (r: Option<SampleParts>)
    ensures
        match r {
            Some(p) => sample_of(line@) == Some(
                (p.name@, pairs_view(p.labels@), p.value@, match p.ts_ms {
                    Some(t) => Some(t as int),
                    None => None,
                }),
            ),
            None => sample_of(line@) is None,
        },
{
    let cs = chars_of(line);
    let n = cs.len();
    let split = match find_last(&cs, '}') {
        Some(b) => b + 1,
        None => match find_first(&cs, n, ' ') {
            Some(i) => i,
            None => {
                proof {
                    assert(cs@.take(n as int) =~= cs@);
                }
                return None;
            },
        },
    };
    proof {
        assert(cs@.take(n as int) =~= cs@);
        assert(cs@.subrange(0, n as int) =~= cs@);
        assert(cs@.subrange(split as int, n as int) =~= cs@.skip(split as int));
        assert(cs@.subrange(0, split as int) =~= cs@.take(split as int));
    }
    let ghost m = cs@.take(split as int);
    let ghost rest = trim(cs@.skip(split as int));
    proof {
        assert(sample_split(line@) == Some((m, rest)));
    }
    let (a, b) = trim_window(&cs, split, n);
    let (v0, v1) = next_token(&cs, a, b);
    if v0 == v1 {
        return None;
    }
    let (t0, t1) = next_token(&cs, v1, b);
    let ts_ms = if t0 == t1 {
        None
    } else {
        parse_i64_window(&cs, t0, t1)
    };
    proof {
        assert(cs@.subrange(a as int, b as int) == rest);
        let ts = tokens(rest);
        if t0 == t1 {
            assert(ts.len() <= 1);
        } else {
            assert(ts[1] == ts.drop_first()[0]);
        }
    }
    let value = string_of(&cs, v0, v1);
    let (name, labels) = match find_first(&cs, split, '{') {
        Some(i) => {
            let (na, nb) = trim_window(&cs, 0, i);
            let e = strip_trailing_window(&cs, i + 1, split, '}');
            let inner = string_of(&cs, i + 1, e);
            proof {
                assert(cs@.subrange(0, i as int) =~= m.take(i as int));
                assert(cs@.subrange(i + 1, split as int) =~= m.skip(i + 1));
            }
            (string_of(&cs, na, nb), parse_labels(inner.as_str()))
        },
        None => {
            let (na, nb) = trim_window(&cs, 0, split);
            let none: Vec<(String, String)> = Vec::new();
            assert(pairs_view(none@) =~= seq![]);
            (string_of(&cs, na, nb), none)
        },
    };
    if name.unicode_len() == 0 {
        return None;
    }
    Some(SampleParts { name, labels, value, ts_ms })
}

} // verus!
