//! Character-level helpers shared by the parsers and formatters of the crate:
//! decimal rendering of integers, the Unicode `White_Space` class, and
//! string construction one character at a time.
use vstd::prelude::*;

verus! {

/// Appends one character to a string (`String::push`).
#[verifier::external_body]
pub(crate) fn push_char(s: &mut String, c: char)
    ensures
        final(s)@ == old(s)@.push(c),
{
    s.push(c);
}

/// The ASCII digit character for `d` (`0 <= d < 10`).
pub open spec fn digit(d: nat) -> char {
    ((d + 48) as u8) as char
}

/// Decimal digits of a natural number, most significant first, no leading zero.
pub open spec fn dec_digits(n: nat) -> Seq<char>
    decreases n,
{
    if n < 10 {
        seq![digit(n)]
    } else {
        dec_digits(n / 10).push(digit(n % 10))
    }
}

/// Decimal text of an integer, with a leading `-` when negative.
pub open spec fn int_text(n: int) -> Seq<char> {
    if n < 0 {
        seq!['-'] + dec_digits((-n) as nat)
    } else {
        dec_digits(n as nat)
    }
}

pub fn digit_char(d: u8) -> (c: char)
    requires
        d < 10,
    ensures
        c == digit(d as nat),
{
    (48u8 + d) as char
}

/// Appends the decimal text of `n` to `s`.
pub fn push_u64(s: &mut String, n: u64)
    ensures
        final(s)@ == old(s)@ + dec_digits(n as nat),
    decreases n,
{
    if n >= 10 {
        push_u64(s, n / 10);
    }
    let d = digit_char((n % 10) as u8);
    let ghost before = s@;
    push_char(s, d);
    proof {
        if n >= 10 {
            assert(s@ =~= old(s)@ + dec_digits(n as nat));
        } else {
            assert(s@ =~= old(s)@ + dec_digits(n as nat));
        }
    }
}

/// Appends the decimal text of `n` (with a `-` sign when negative) to `s`.
pub fn push_i64(s: &mut String, n: i64)
    ensures
        final(s)@ == old(s)@ + int_text(n as int),
{
    if n < 0 {
        push_char(s, '-');
        let mag: u64 = ((-(n + 1)) as u64) + 1;
        push_u64(s, mag);
        assert(s@ =~= old(s)@ + int_text(n as int));
    } else {
        push_u64(s, n as u64);
    }
}

/// Characters with the Unicode `White_Space` property (what `str::trim` and
/// `char::is_whitespace` remove or test).
pub open spec fn is_ws(c: char) -> bool {
    ||| ('\u{9}' <= c && c <= '\u{d}')
    ||| c == ' '
    ||| c == '\u{85}'
    ||| c == '\u{a0}'
    ||| c == '\u{1680}'
    ||| ('\u{2000}' <= c && c <= '\u{200a}')
    ||| c == '\u{2028}'
    ||| c == '\u{2029}'
    ||| c == '\u{202f}'
    ||| c == '\u{205f}'
    ||| c == '\u{3000}'
}

pub fn is_ws_char(c: char) -> (b: bool)
    ensures
        b == is_ws(c),
{
    ('\u{9}' <= c && c <= '\u{d}') || c == ' ' || c == '\u{85}' || c == '\u{a0}' || c == '\u{1680}'
        || ('\u{2000}' <= c && c <= '\u{200a}') || c == '\u{2028}' || c == '\u{2029}' || c
        == '\u{202f}' || c == '\u{205f}' || c == '\u{3000}'
}


/// `p` is a prefix of `s`.
pub open spec fn is_prefix(p: Seq<char>, s: Seq<char>) -> bool {
    p.len() <= s.len() && s.take(p.len() as int) == p
}

/// `p` is a suffix of `s`.
pub open spec fn is_suffix(p: Seq<char>, s: Seq<char>) -> bool {
    p.len() <= s.len() && s.skip(s.len() - p.len()) == p
}

/// `t` occurs in `s` starting at position `at`.
pub open spec fn occurs_at(s: Seq<char>, t: Seq<char>, at: int) -> bool {
    0 <= at && at + t.len() <= s.len() && s.subrange(at, at + t.len()) == t
}

/// `i` is the first position of `c` in `s`.
pub open spec fn first_at(s: Seq<char>, c: char, i: int) -> bool {
    0 <= i < s.len() && s[i] == c && forall|k: int| 0 <= k < i ==> #[trigger] s[k] != c
}

/// Whether `t` occurs in `s` at position `at` (`str` comparison char by char).
pub fn matches_at(s: &str, t: &str, at: usize) -> (b: bool)
    ensures
        b == occurs_at(s@, t@, at as int),
{
    let n = s.unicode_len();
    let m = t.unicode_len();
    if at > n || m > n - at {
        return false;
    }
    let mut i: usize = 0;
    while i < m
        invariant
            n == s@.len(),
            m == t@.len(),
            at + m <= n,
            i <= m,
            forall|j: int| 0 <= j < i ==> s@[at + j] == t@[j],
        decreases m - i,
    {
        if s.get_char(at + i) != t.get_char(i) {
            assert(s@.subrange(at as int, at + m)[i as int] != t@[i as int]);
            return false;
        }
        i += 1;
    }
    assert(s@.subrange(at as int, at + m) =~= t@);
    true
}

/// `str::starts_with` for a string pattern.
pub fn starts_with(s: &str, p: &str) -> (b: bool)
    ensures
        b == is_prefix(p@, s@),
{
    let r = matches_at(s, p, 0);
    proof {
        if p@.len() <= s@.len() {
            assert(s@.subrange(0, p@.len() as int) =~= s@.take(p@.len() as int));
        }
    }
    r
}

/// `str::ends_with` for a string pattern.
pub fn ends_with(s: &str, p: &str) -> (b: bool)
    ensures
        b == is_suffix(p@, s@),
{
    let n = s.unicode_len();
    let m = p.unicode_len();
    if m > n {
        return false;
    }
    let r = matches_at(s, p, n - m);
    proof {
        assert(s@.subrange(n - m, n as int) =~= s@.skip(n - m));
    }
    r
}

/// String equality of two `str`s.
pub fn str_eq(a: &str, b: &str) -> (r: bool)
    ensures
        r == (a@ == b@),
{
    let n = a.unicode_len();
    let m = b.unicode_len();
    if n != m {
        return false;
    }
    let r = matches_at(a, b, 0);
    proof {
        assert(a@.subrange(0, n as int) =~= a@);
    }
    r
}

/// Whether `c` occurs in `s`.
pub fn contains_char(s: &str, c: char) -> (b: bool)
    ensures
        b == s@.contains(c),
{
    let n = s.unicode_len();
    let mut i: usize = 0;
    while i < n
        invariant
            n == s@.len(),
            i <= n,
            forall|j: int| 0 <= j < i ==> s@[j] != c,
        decreases n - i,
    {
        if s.get_char(i) == c {
            assert(s@[i as int] == c);
            return true;
        }
        i += 1;
    }
    false
}

/// The part of `s` between a prefix of `plen` and a suffix of `slen` characters.
pub fn middle(s: &str, plen: usize, slen: usize) -> (r: &str)
    requires
        plen + slen <= s@.len(),
    ensures
        r@ == s@.subrange(plen as int, s@.len() - slen),
{
    let n = s.unicode_len();
    s.substring_char(plen, n - slen)
}


/// The text strictly between `prefix` and `suffix` when `s` starts with the
/// one and ends with the other without overlap.
pub open spec fn between_affixes(s: Seq<char>, prefix: Seq<char>, suffix: Seq<char>) -> Option<
    Seq<char>,
> {
    if prefix.len() + suffix.len() <= s.len() && is_prefix(prefix, s) && is_suffix(suffix, s) {
        Some(s.subrange(prefix.len() as int, s.len() - suffix.len()))
    } else {
        None
    }
}

/// Strips `prefix` then `suffix` from `s` (`strip_prefix` followed by
/// `strip_suffix` on the remainder).
pub fn strip_affixes<'a>(s: &'a str, prefix: &str, suffix: &str) -> (r: Option<&'a str>)
    ensures
        r matches Some(m) ==> between_affixes(s@, prefix@, suffix@) == Some(m@),
        r is None ==> between_affixes(s@, prefix@, suffix@) is None,
{
    let n = s.unicode_len();
    let pl = prefix.unicode_len();
    let sl = suffix.unicode_len();
    if pl > n || sl > n - pl {
        return None;
    }
    if !starts_with(s, prefix) || !ends_with(s, suffix) {
        return None;
    }
    Some(middle(s, pl, sl))
}

/// A topic segment usable as a zone name: non-empty, no `/`.
pub open spec fn zone_segment(z: Seq<char>) -> bool {
    z.len() > 0 && !z.contains('/')
}

/// The zone of `prefix<zone>suffix`, when that zone is a single non-empty segment.
pub open spec fn topic_zone(t: Seq<char>, prefix: Seq<char>, suffix: Seq<char>) -> Option<
    Seq<char>,
> {
    match between_affixes(t, prefix, suffix) {
        Some(z) => if zone_segment(z) {
            Some(z)
        } else {
            None
        },
        None => None,
    }
}

pub fn topic_zone_exec<'a>(t: &'a str, prefix: &str, suffix: &str) -> (r: Option<&'a str>)
    ensures
        r matches Some(z) ==> topic_zone(t@, prefix@, suffix@) == Some(z@),
        r is None ==> topic_zone(t@, prefix@, suffix@) is None,
{
    match strip_affixes(t, prefix, suffix) {
        Some(z) => {
            if z.unicode_len() > 0 && !contains_char(z, '/') {
                Some(z)
            } else {
                None
            }
        },
        None => None,
    }
}


/// `char::to_digit(radix)`: value of a digit character in `radix` (2..=36).
pub open spec fn digit_value(c: char, radix: nat) -> Option<nat> {
    let v: int = if '0' <= c && c <= '9' {
        c as int - '0' as int
    } else if 'a' <= c && c <= 'z' {
        c as int - 'a' as int + 10
    } else if 'A' <= c && c <= 'Z' {
        c as int - 'A' as int + 10
    } else {
        radix as int
    };
    if v < radix {
        Some(v as nat)
    } else {
        None
    }
}

pub open spec fn all_digits(s: Seq<char>, radix: nat) -> bool {
    forall|i: int| 0 <= i < s.len() ==> (#[trigger] digit_value(s[i], radix)) is Some
}

/// Value of a sequence of digits (most significant first).
pub open spec fn digits_value(s: Seq<char>, radix: nat) -> nat
    decreases s.len(),
{
    if s.len() == 0 {
        0
    } else {
        digits_value(s.drop_last(), radix) * radix + match digit_value(s.last(), radix) {
            Some(d) => d,
            None => 0,
        }
    }
}

/// `from_str_radix` of an unsigned integer type with maximum `max`: an
/// optional `+`, then at least one digit, the value not above `max`.
pub open spec fn parse_unsigned(s: Seq<char>, radix: nat, max: nat) -> Option<nat> {
    let body = if s.len() > 0 && s[0] == '+' {
        s.drop_first()
    } else {
        s
    };
    if body.len() > 0 && all_digits(body, radix) && digits_value(body, radix) <= max {
        Some(digits_value(body, radix))
    } else {
        None
    }
}

/// `from_str_radix` of a signed integer type ranging over `-(max + 1)..=max`:
/// an optional sign, then at least one digit.
pub open spec fn parse_signed(s: Seq<char>, radix: nat, max: nat) -> Option<int> {
    let neg = s.len() > 0 && s[0] == '-';
    let body = if s.len() > 0 && (s[0] == '+' || s[0] == '-') {
        s.drop_first()
    } else {
        s
    };
    if body.len() > 0 && all_digits(body, radix) {
        let v = digits_value(body, radix);
        if neg && v <= max + 1 {
            Some(-v)
        } else if !neg && v <= max {
            Some(v as int)
        } else {
            None
        }
    } else {
        None
    }
}

pub fn digit_value_exec(c: char, radix: u32) -> (r: Option<u32>)
    requires
        2 <= radix <= 36,
    ensures
        r matches Some(v) ==> digit_value(c, radix as nat) == Some(v as nat),
        r is None ==> digit_value(c, radix as nat) is None,
{
    let v: u32 = if '0' <= c && c <= '9' {
        (c as u32) - 48
    } else if 'a' <= c && c <= 'z' {
        (c as u32) - 97 + 10
    } else if 'A' <= c && c <= 'Z' {
        (c as u32) - 65 + 10
    } else {
        radix
    };
    if v < radix {
        Some(v)
    } else {
        None
    }
}

proof fn lemma_digits_value_grows(s: Seq<char>, radix: nat, i: int)
    requires
        radix >= 1,
        0 <= i <= s.len(),
    ensures
        digits_value(s.take(i), radix) <= digits_value(s, radix),
    decreases s.len() - i,
{
    if i < s.len() {
        lemma_digits_value_grows(s, radix, i + 1);
        assert(s.take(i + 1).drop_last() =~= s.take(i));
        assert(digits_value(s.take(i), radix) <= digits_value(s.take(i), radix) * radix) by (nonlinear_arith)
            requires
                radix >= 1,
        ;
    } else {
        assert(s.take(i) =~= s);
    }
}

/// Value of the digits of `s[from..]` when they all are digits of `radix`
/// and the value does not exceed `max`.
fn digits_in_range(s: &str, from: usize, radix: u32, max: u64) -> (r: Option<u64>)
    requires
        2 <= radix <= 36,
        from <= s@.len(),
        max < 0x1_0000_0000_0000,
    ensures
        r matches Some(v) ==> all_digits(s@.skip(from as int), radix as nat) && v == digits_value(
            s@.skip(from as int),
            radix as nat,
        ) && v <= max,
        r is None ==> !(all_digits(s@.skip(from as int), radix as nat) && digits_value(
            s@.skip(from as int),
            radix as nat,
        ) <= max),
{
    let ghost body = s@.skip(from as int);
    let n = s.unicode_len();
    let mut acc: u64 = 0;
    let mut i: usize = from;
    while i < n
        invariant
            n == s@.len(),
            from <= i <= n,
            body == s@.skip(from as int),
            2 <= radix <= 36,
            max < 0x1_0000_0000_0000,
            acc <= max,
            all_digits(body.take(i - from), radix as nat),
            acc == digits_value(body.take(i - from), radix as nat),
        decreases n - i,
    {
        let c = s.get_char(i);
        assert(body[i - from] == c);
        match digit_value_exec(c, radix) {
            Some(d) => {
                assert(body.take(i - from + 1).drop_last() =~= body.take(i - from));
                assert(body.take(i - from + 1).last() == c);
                assert(acc * (radix as u64) <= 0x1_0000_0000_0000 * 36) by (nonlinear_arith)
                    requires
                        acc <= 0x1_0000_0000_0000,
                        radix <= 36,
                ;
                let next: u64 = acc * (radix as u64) + (d as u64);
                assert(next == digits_value(body.take(i - from + 1), radix as nat));
                if next > max {
                    proof {
                        lemma_digits_value_grows(body, radix as nat, i - from + 1);
                    }
                    return None;
                }
                acc = next;
                i += 1;
                assert forall|k: int| 0 <= k < body.take(i - from).len() implies (#[trigger] digit_value(
                    body.take(i - from)[k],
                    radix as nat,
                )) is Some by {
                    if k < i - from - 1 {
                        assert(body.take(i - from)[k] == body.take(i - from - 1)[k]);
                    }
                }
            },
            None => {
                assert(digit_value(body[i - from], radix as nat) is None);
                return None;
            },
        }
    }
    assert(body.take(n - from) =~= body);
    Some(acc)
}

/// `u32::from_str_radix`.
pub fn parse_u32_radix(s: &str, radix: u32) -> (r: Option<u32>)
    requires
        2 <= radix <= 36,
    ensures
        r matches Some(v) ==> parse_unsigned(s@, radix as nat, u32::MAX as nat) == Some(v as nat),
        r is None ==> parse_unsigned(s@, radix as nat, u32::MAX as nat) is None,
{
    let n = s.unicode_len();
    let from: usize = if n > 0 && s.get_char(0) == '+' {
        1
    } else {
        0
    };
    proof {
        if from == 1 {
            assert(s@.skip(1) =~= s@.drop_first());
        } else {
            assert(s@.skip(0) =~= s@);
        }
    }
    if from >= n {
        return None;
    }
    match digits_in_range(s, from, radix, u32::MAX as u64) {
        Some(v) => Some(v as u32),
        None => None,
    }
}

/// `i32::from_str_radix`.
pub fn parse_i32_radix(s: &str, radix: u32) -> (r: Option<i32>)
    requires
        2 <= radix <= 36,
    ensures
        r matches Some(v) ==> parse_signed(s@, radix as nat, i32::MAX as nat) == Some(v as int),
        r is None ==> parse_signed(s@, radix as nat, i32::MAX as nat) is None,
{
    let n = s.unicode_len();
    let first = if n > 0 {
        s.get_char(0)
    } else {
        ' '
    };
    let neg = n > 0 && first == '-';
    let from: usize = if n > 0 && (first == '+' || first == '-') {
        1
    } else {
        0
    };
    proof {
        if from == 1 {
            assert(s@.skip(1) =~= s@.drop_first());
        } else {
            assert(s@.skip(0) =~= s@);
        }
    }
    if from >= n {
        return None;
    }
    let limit: u64 = if neg {
        0x8000_0000
    } else {
        0x7fff_ffff
    };
    match digits_in_range(s, from, radix, limit) {
        Some(v) => {
            if neg {
                let r: i64 = -(v as i64);
                Some(r as i32)
            } else {
                Some(v as i32)
            }
        },
        None => None,
    }
}

/// Lowercase hexadecimal digit of `d` (`0 <= d < 16`).
pub open spec fn hex_digit(d: nat) -> char {
    if d < 10 {
        digit(d)
    } else {
        ((d - 10 + 97) as u8) as char
    }
}

/// Lowercase hexadecimal digits of `n`, no leading zero.
pub open spec fn hex_digits(n: nat) -> Seq<char>
    decreases n,
{
    if n < 16 {
        seq![hex_digit(n)]
    } else {
        hex_digits(n / 16).push(hex_digit(n % 16))
    }
}

pub fn hex_digit_char(d: u8) -> (c: char)
    requires
        d < 16,
    ensures
        c == hex_digit(d as nat),
{
    if d < 10 {
        (48u8 + d) as char
    } else {
        (87u8 + d) as char
    }
}

/// Appends the lowercase hexadecimal digits of `n` to `s`.
pub fn push_hex(s: &mut String, n: u64)
    ensures
        final(s)@ == old(s)@ + hex_digits(n as nat),
    decreases n,
{
    if n >= 16 {
        push_hex(s, n / 16);
    }
    let d = hex_digit_char((n % 16) as u8);
    push_char(s, d);
    assert(s@ =~= old(s)@ + hex_digits(n as nat));
}


/// ASCII lowercase of a character (other characters unchanged).
pub open spec fn ascii_lower(c: char) -> char {
    if 'A' <= c && c <= 'Z' {
        ((c as u32 + 32) as u8) as char
    } else {
        c
    }
}

/// `a` equals the lowercase ASCII word `w` ignoring ASCII case.
pub open spec fn eq_ignore_ascii_case(a: Seq<char>, w: Seq<char>) -> bool {
    a.len() == w.len() && forall|i: int| 0 <= i < a.len() ==> ascii_lower(#[trigger] a[i]) == w[i]
}

pub fn eq_ignore_case_exec(a: &str, w: &str) -> (r: bool)
    ensures
        r == eq_ignore_ascii_case(a@, w@),
{
    let n = a.unicode_len();
    if n != w.unicode_len() {
        return false;
    }
    let mut i: usize = 0;
    while i < n
        invariant
            n == a@.len(),
            n == w@.len(),
            i <= n,
            forall|j: int| 0 <= j < i ==> ascii_lower(#[trigger] a@[j]) == w@[j],
        decreases n - i,
    {
        let c = a.get_char(i);
        let l = if 'A' <= c && c <= 'Z' {
            ((c as u32 + 32) as u8) as char
        } else {
            c
        };
        if l != w.get_char(i) {
            return false;
        }
        i += 1;
    }
    true
}

/// `str::trim_start_matches` with a string pattern: removes every leading
/// repetition of `p`.
pub open spec fn strip_all_prefixes(s: Seq<char>, p: Seq<char>) -> Seq<char>
    decreases s.len(),
{
    if p.len() > 0 && is_prefix(p, s) {
        strip_all_prefixes(s.skip(p.len() as int), p)
    } else {
        s
    }
}

pub fn trim_start_matches<'a>(s: &'a str, p: &str) -> (r: &'a str)
    ensures
        r@ == strip_all_prefixes(s@, p@),
{
    let n = s.unicode_len();
    let m = p.unicode_len();
    if m == 0 {
        return s;
    }
    let mut at: usize = 0;
    assert(s@.skip(0) =~= s@);
    while at <= n && m <= n - at && matches_at(s, p, at)
        invariant
            n == s@.len(),
            m == p@.len(),
            m > 0,
            at <= n,
            strip_all_prefixes(s@, p@) == strip_all_prefixes(s@.skip(at as int), p@),
        decreases n - at,
    {
        assert(s@.skip(at as int).take(m as int) =~= s@.subrange(at as int, at + m));
        assert(s@.skip(at as int).skip(m as int) =~= s@.skip(at + m));
        at = at + m;
    }
    proof {
        if at + m <= n {
            assert(s@.skip(at as int).take(m as int) =~= s@.subrange(at as int, at + m));
        }
    }
    let r = s.substring_char(at, n);
    assert(r@ =~= s@.skip(at as int));
    r
}


/// `trim_start`: leading `White_Space` removed.
pub open spec fn trim_start(s: Seq<char>) -> Seq<char>
    decreases s.len(),
{
    if s.len() > 0 && is_ws(s[0]) {
        trim_start(s.drop_first())
    } else {
        s
    }
}

/// `trim_end`: trailing `White_Space` removed.
pub open spec fn trim_end(s: Seq<char>) -> Seq<char>
    decreases s.len(),
{
    if s.len() > 0 && is_ws(s.last()) {
        trim_end(s.drop_last())
    } else {
        s
    }
}

/// `str::trim`.
pub open spec fn trim(s: Seq<char>) -> Seq<char> {
    trim_end(trim_start(s))
}

/// `trim_start_matches(c)` for one character: every leading `c` removed.
pub open spec fn strip_leading(s: Seq<char>, c: char) -> Seq<char>
    decreases s.len(),
{
    if s.len() > 0 && s[0] == c {
        strip_leading(s.drop_first(), c)
    } else {
        s
    }
}

pub proof fn lemma_trim_start_first(s: Seq<char>)
    ensures
        trim_start(s).len() > 0 ==> !is_ws(trim_start(s)[0]),
    decreases s.len(),
{
    if s.len() > 0 && is_ws(s[0]) {
        lemma_trim_start_first(s.drop_first());
    }
}

pub proof fn lemma_trim_start_shorter(s: Seq<char>)
    ensures
        trim_start(s).len() <= s.len(),
    decreases s.len(),
{
    if s.len() > 0 && is_ws(s[0]) {
        lemma_trim_start_shorter(s.drop_first());
    }
}

pub proof fn lemma_trim_end_shorter(s: Seq<char>)
    ensures
        trim_end(s).len() <= s.len(),
    decreases s.len(),
{
    if s.len() > 0 && is_ws(s.last()) {
        lemma_trim_end_shorter(s.drop_last());
    }
}

pub proof fn lemma_trim_shorter(s: Seq<char>)
    ensures
        trim(s).len() <= s.len(),
{
    lemma_trim_start_shorter(s);
    lemma_trim_end_shorter(trim_start(s));
}

pub proof fn lemma_strip_leading_shorter(s: Seq<char>, c: char)
    ensures
        strip_leading(s, c).len() <= s.len(),
    decreases s.len(),
{
    if s.len() > 0 && s[0] == c {
        lemma_strip_leading_shorter(s.drop_first(), c);
    }
}

/// The characters of a string, as a vector.
pub fn chars_of(s: &str) -> (r: Vec<char>)
    ensures
        r@ == s@,
{
    let n = s.unicode_len();
    let mut v: Vec<char> = Vec::new();
    let mut i: usize = 0;
    while i < n
        invariant
            n == s@.len(),
            i <= n,
            v@ == s@.take(i as int),
        decreases n - i,
    {
        v.push(s.get_char(i));
        i += 1;
        assert(v@ =~= s@.take(i as int));
    }
    assert(s@.take(n as int) =~= s@);
    v
}

/// The string made of `cs[lo..hi]`.
pub fn string_of(cs: &Vec<char>, lo: usize, hi: usize) -> (r: String)
    requires
        lo <= hi <= cs@.len(),
    ensures
        r@ == cs@.subrange(lo as int, hi as int),
{
    let mut s = String::new();
    let mut i = lo;
    while i < hi
        invariant
            lo <= i <= hi,
            hi <= cs@.len(),
            s@ == cs@.subrange(lo as int, i as int),
        decreases hi - i,
    {
        push_char(&mut s, cs[i]);
        i += 1;
        assert(s@ =~= cs@.subrange(lo as int, i as int));
    }
    s
}

/// Window `[lo2, hi2)` of `cs` holding `trim` of the window `[lo, hi)`.
pub fn trim_window(cs: &Vec<char>, lo: usize, hi: usize) -> (r: (usize, usize))
    requires
        lo <= hi <= cs@.len(),
    ensures
        lo <= r.0 <= r.1 <= hi,
        cs@.subrange(r.0 as int, r.1 as int) == trim(cs@.subrange(lo as int, hi as int)),
{
    let mut a = lo;
    while a < hi && is_ws_char(cs[a])
        invariant
            lo <= a <= hi,
            hi <= cs@.len(),
            trim_start(cs@.subrange(lo as int, hi as int)) == trim_start(
                cs@.subrange(a as int, hi as int),
            ),
        decreases hi - a,
    {
        assert(cs@.subrange(a as int, hi as int).drop_first() =~= cs@.subrange(a + 1, hi as int));
        a += 1;
    }
    let mut b = hi;
    while b > a && is_ws_char(cs[b - 1])
        invariant
            lo <= a <= b <= hi,
            hi <= cs@.len(),
            trim_start(cs@.subrange(lo as int, hi as int)) == cs@.subrange(a as int, hi as int),
            trim_end(cs@.subrange(a as int, hi as int)) == trim_end(cs@.subrange(a as int, b as int)),
        decreases b - a,
    {
        assert(cs@.subrange(a as int, b as int).drop_last() =~= cs@.subrange(a as int, b - 1));
        b -= 1;
    }
    (a, b)
}

/// Window after every leading `c` of the window `[lo, hi)`.
pub fn strip_leading_window(cs: &Vec<char>, lo: usize, hi: usize, c: char) -> (r: usize)
    requires
        lo <= hi <= cs@.len(),
    ensures
        lo <= r <= hi,
        cs@.subrange(r as int, hi as int) == strip_leading(cs@.subrange(lo as int, hi as int), c),
{
    let mut a = lo;
    while a < hi && cs[a] == c
        invariant
            lo <= a <= hi,
            hi <= cs@.len(),
            strip_leading(cs@.subrange(lo as int, hi as int), c) == strip_leading(
                cs@.subrange(a as int, hi as int),
                c,
            ),
        decreases hi - a,
    {
        assert(cs@.subrange(a as int, hi as int).drop_first() =~= cs@.subrange(a + 1, hi as int));
        a += 1;
    }
    a
}


/// Number of leading non-`White_Space` characters.
pub open spec fn token_len(t: Seq<char>) -> nat
    decreases t.len(),
{
    if t.len() > 0 && !is_ws(t[0]) {
        1 + token_len(t.drop_first())
    } else {
        0
    }
}

pub proof fn lemma_token_len_bounds(t: Seq<char>)
    ensures
        token_len(t) <= t.len(),
        t.len() > 0 && !is_ws(t[0]) ==> token_len(t) >= 1,
    decreases t.len(),
{
    if t.len() > 0 && !is_ws(t[0]) {
        lemma_token_len_bounds(t.drop_first());
    }
}

/// `str::split_whitespace`: the maximal runs of non-`White_Space` characters.
pub open spec fn tokens(s: Seq<char>) -> Seq<Seq<char>>
    decreases s.len(),
{
    let t = trim_start(s);
    if t.len() == 0 {
        seq![]
    } else {
        let k = token_len(t);
        proof {
            lemma_trim_start_shorter(s);
            lemma_token_len_bounds(t);
            lemma_trim_start_first(s);
        }
        seq![t.take(k as int)] + tokens(t.skip(k as int))
    }
}

/// First token of the window `[lo, hi)`: returns its window, or an empty
/// window at `hi` when there is none; the rest of the tokens follow it.
pub fn next_token(cs: &Vec<char>, lo: usize, hi: usize) -> (r: (usize, usize))
    requires
        lo <= hi <= cs@.len(),
    ensures
        lo <= r.0 <= r.1 <= hi,
        tokens(cs@.subrange(lo as int, hi as int)).len() == 0 ==> r.0 == r.1 && r.1 == hi,
        tokens(cs@.subrange(lo as int, hi as int)).len() > 0 ==> r.0 < r.1
            && cs@.subrange(r.0 as int, r.1 as int) == tokens(cs@.subrange(lo as int, hi as int))[0]
            && tokens(cs@.subrange(lo as int, hi as int)).drop_first() == tokens(
            cs@.subrange(r.1 as int, hi as int),
        ),
{
    let mut a = lo;
    while a < hi && is_ws_char(cs[a])
        invariant
            lo <= a <= hi,
            hi <= cs@.len(),
            trim_start(cs@.subrange(lo as int, hi as int)) == trim_start(
                cs@.subrange(a as int, hi as int),
            ),
        decreases hi - a,
    {
        assert(cs@.subrange(a as int, hi as int).drop_first() =~= cs@.subrange(a + 1, hi as int));
        a += 1;
    }
    let ghost t = cs@.subrange(a as int, hi as int);
    assert(trim_start(t) == t);
    let mut b = a;
    while b < hi && !is_ws_char(cs[b])
        invariant
            a <= b <= hi,
            hi <= cs@.len(),
            t == cs@.subrange(a as int, hi as int),
            token_len(t) == (b - a) + token_len(cs@.subrange(b as int, hi as int)),
        decreases hi - b,
    {
        assert(cs@.subrange(b as int, hi as int).drop_first() =~= cs@.subrange(b + 1, hi as int));
        b += 1;
    }
    proof {
        let k = token_len(t);
        assert(k == b - a);
        if t.len() > 0 {
            assert(t.take(k as int) =~= cs@.subrange(a as int, b as int));
            assert(t.skip(k as int) =~= cs@.subrange(b as int, hi as int));
            let ts = tokens(cs@.subrange(lo as int, hi as int));
            assert(ts == seq![t.take(k as int)] + tokens(t.skip(k as int)));
            assert(ts.drop_first() =~= tokens(t.skip(k as int)));
        }
    }
    (a, b)
}

/// `u64::from_str` of the window `[lo, hi)`.
pub fn parse_u64_window(cs: &Vec<char>, lo: usize, hi: usize) -> (r: Option<u64>)
    requires
        lo <= hi <= cs@.len(),
    ensures
        r matches Some(v) ==> parse_unsigned(cs@.subrange(lo as int, hi as int), 10, u64::MAX as nat)
            == Some(v as nat),
        r is None ==> parse_unsigned(cs@.subrange(lo as int, hi as int), 10, u64::MAX as nat) is None,
{
    let ghost s = cs@.subrange(lo as int, hi as int);
    let from: usize = if lo < hi && cs[lo] == '+' {
        lo + 1
    } else {
        lo
    };
    let ghost body = cs@.subrange(from as int, hi as int);
    proof {
        if from == lo + 1 {
            assert(body =~= s.drop_first());
        } else {
            assert(body =~= s);
        }
    }
    if from >= hi {
        return None;
    }
    let mut acc: u128 = 0;
    let mut i = from;
    while i < hi
        invariant
            from <= i <= hi,
            lo <= from < hi,
            hi <= cs@.len(),
            s == cs@.subrange(lo as int, hi as int),
            body == (if s.len() > 0 && s[0] == '+' { s.drop_first() } else { s }),
            body == cs@.subrange(from as int, hi as int),
            acc <= u64::MAX,
            all_digits(body.take(i - from), 10),
            acc == digits_value(body.take(i - from), 10),
        decreases hi - i,
    {
        let c = cs[i];
        assert(body[i - from] == c);
        match digit_value_exec(c, 10) {
            Some(d) => {
                assert(body.take(i - from + 1).drop_last() =~= body.take(i - from));
                assert(body.take(i - from + 1).last() == c);
                let next: u128 = acc * 10 + (d as u128);
                assert(next == digits_value(body.take(i - from + 1), 10));
                if next > u64::MAX as u128 {
                    proof {
                        lemma_digits_value_grows(body, 10, i - from + 1);
                    }
                    return None;
                }
                acc = next;
                i += 1;
                assert forall|k: int| 0 <= k < body.take(i - from).len() implies (#[trigger] digit_value(
                    body.take(i - from)[k],
                    10,
                )) is Some by {
                    if k < i - from - 1 {
                        assert(body.take(i - from)[k] == body.take(i - from - 1)[k]);
                    }
                }
            },
            None => {
                assert(digit_value(body[i - from], 10) is None);
                return None;
            },
        }
    }
    assert(body.take(hi - from) =~= body);
    Some(acc as u64)
}

/// Whether `t` occurs anywhere in `s` (`str::contains` for a string pattern).
pub fn contains_str(s: &str, t: &str) -> (b: bool)
    ensures
        b == exists|i: int| occurs_at(s@, t@, i),
{
    let n = s.unicode_len();
    let m = t.unicode_len();
    if m > n {
        assert(forall|i: int| !occurs_at(s@, t@, i));
        return false;
    }
    let last = n - m;
    let mut i: usize = 0;
    loop
        invariant
            n == s@.len(),
            m == t@.len(),
            last == n - m,
            i <= last,
            forall|j: int| 0 <= j < i ==> !occurs_at(s@, t@, j),
        ensures
            forall|j: int| 0 <= j <= last ==> !occurs_at(s@, t@, j),
        decreases last - i,
    {
        if matches_at(s, t, i) {
            return true;
        }
        if i == last {
            break;
        }
        i += 1;
    }
    assert forall|j: int| !occurs_at(s@, t@, j) by {
        if 0 <= j <= last {
        }
    }
    false
}

/// Length of the first field of `s`: the characters before the first `sep`.
pub open spec fn field_len(s: Seq<char>, sep: char) -> nat
    decreases s.len(),
{
    if s.len() == 0 || s[0] == sep {
        0
    } else {
        1 + field_len(s.skip(1), sep)
    }
}

/// `str::split(sep)`: the fields of `s` between the separators, empty ones
/// included (one empty field for an empty text).
pub open spec fn fields(s: Seq<char>, sep: char) -> Seq<Seq<char>>
    decreases s.len(),
{
    let k = field_len(s, sep);
    if k >= s.len() {
        seq![s]
    } else {
        seq![s.take(k as int)] + fields(s.skip(k + 1int), sep)
    }
}

/// A line with the `\r` of a `\r\n` ending removed.
pub open spec fn without_cr(l: Seq<char>) -> Seq<char> {
    if l.len() > 0 && l.last() == '\r' {
        l.drop_last()
    } else {
        l
    }
}

/// `str::lines`: the text split at each `\n`, a `\r` before it removed, and
/// no empty line after a final `\n`.
pub open spec fn text_lines(s: Seq<char>) -> Seq<Seq<char>>
    decreases s.len(),
{
    if s.len() == 0 {
        seq![]
    } else {
        let k = field_len(s, '\n');
        if k >= s.len() {
            seq![s]
        } else {
            seq![without_cr(s.take(k as int))] + text_lines(s.skip(k + 1int))
        }
    }
}

/// The first field ends at the first separator, or with the text.
pub proof fn lemma_field_len(s: Seq<char>, sep: char, m: int)
    requires
        0 <= m <= s.len(),
        forall|j: int| 0 <= j < m ==> s[j] != sep,
        m == s.len() || s[m] == sep,
    ensures
        field_len(s, sep) == m,
    decreases m,
{
    if m > 0 {
        lemma_field_len(s.skip(1), sep, m - 1);
    }
}

/// The views of a vector of strings.
pub open spec fn views_of(v: Seq<String>) -> Seq<Seq<char>> {
    v.map_values(|x: String| x@)
}

/// The lines of `s` (`str::lines`).
pub fn lines_of(s: &str) -> (r: Vec<String>)
    ensures
        views_of(r@) == text_lines(s@),
{
    let cs = chars_of(s);
    let n = cs.len();
    let mut out: Vec<String> = Vec::new();
    let mut pos: usize = 0;
    proof {
        assert(cs@.skip(0) =~= cs@);
        assert(views_of(out@) + text_lines(cs@) =~= text_lines(cs@));
    }
    while pos < n
        invariant
            n == cs@.len(),
            cs@ == s@,
            pos <= n,
            views_of(out@) + text_lines(cs@.skip(pos as int)) == text_lines(cs@),
        decreases n - pos,
    {
        let mut e = pos;
        while e < n && cs[e] != '\n'
            invariant
                n == cs@.len(),
                pos <= e <= n,
                forall|j: int| pos <= j < e ==> cs@[j] != '\n',
            decreases n - e,
        {
            e += 1;
        }
        let ghost rest = cs@.skip(pos as int);
        proof {
            lemma_field_len(rest, '\n', (e - pos) as int);
        }
        let ghost old_out = views_of(out@);
        if e < n {
            let end = if e > pos && cs[e - 1] == '\r' {
                e - 1
            } else {
                e
            };
            let line = string_of(&cs, pos, end);
            proof {
                assert(rest.take((e - pos) as int) =~= cs@.subrange(pos as int, e as int));
                assert(rest.skip((e - pos) + 1) =~= cs@.skip(e + 1));
                if e > pos && cs@[e - 1] == '\r' {
                    assert(cs@.subrange(pos as int, e as int).drop_last() =~= cs@.subrange(
                        pos as int,
                        end as int,
                    ));
                }
                assert(line@ == without_cr(rest.take((e - pos) as int)));
            }
            out.push(line);
            proof {
                assert(views_of(out@) =~= old_out.push(line@));
                assert(views_of(out@) + text_lines(cs@.skip(e + 1)) =~= old_out + text_lines(rest));
            }
            pos = e + 1;
        } else {
            let line = string_of(&cs, pos, n);
            proof {
                assert(rest =~= cs@.subrange(pos as int, n as int));
                assert(cs@.skip(n as int) =~= Seq::<char>::empty());
            }
            out.push(line);
            proof {
                assert(views_of(out@) =~= old_out.push(line@));
                assert(views_of(out@) + text_lines(cs@.skip(n as int)) =~= old_out + text_lines(rest));
            }
            pos = n;
        }
    }
    proof {
        assert(cs@.skip(n as int) =~= Seq::<char>::empty());
        assert(views_of(out@) + text_lines(cs@.skip(n as int)) =~= views_of(out@));
    }
    out
}

/// `str::replace` for a non-empty pattern: every occurrence of `p`, taken
/// from the left without overlap, replaced by `r`.
pub open spec fn replaced(s: Seq<char>, p: Seq<char>, r: Seq<char>) -> Seq<char>
    decreases s.len(),
{
    if p.len() == 0 || s.len() < p.len() {
        s
    } else if s.take(p.len() as int) == p {
        r + replaced(s.skip(p.len() as int), p, r)
    } else {
        seq![s[0]] + replaced(s.skip(1), p, r)
    }
}

/// `s.replace(p, r)` for a non-empty pattern.
pub fn replace_all(s: &str, p: &str, r: &str) -> (out: String)
    requires
        p@.len() > 0,
    ensures
        out@ == replaced(s@, p@, r@),
{
    let cs = chars_of(s);
    let ps = chars_of(p);
    let n = cs.len();
    let m = ps.len();
    let mut out = String::new();
    let mut i: usize = 0;
    proof {
        assert(cs@.skip(0) =~= cs@);
        assert(out@ + replaced(cs@, p@, r@) =~= replaced(cs@, p@, r@));
    }
    while i < n
        invariant
            n == cs@.len(),
            cs@ == s@,
            ps@ == p@,
            m == p@.len(),
            m > 0,
            i <= n,
            out@ + replaced(cs@.skip(i as int), p@, r@) == replaced(s@, p@, r@),
        decreases n - i,
    {
        let ghost rest = cs@.skip(i as int);
        let ghost before = out@;
        let mut hit = m <= n - i;
        let mut j: usize = 0;
        while hit && j < m
            invariant
                n == cs@.len(),
                m == ps@.len(),
                i < n,
                j <= m,
                hit ==> m <= n - i,
                hit ==> forall|q: int| 0 <= q < j ==> cs@[i + q] == ps@[q],
                !hit ==> (m > n - i || exists|q: int| 0 <= q < m && cs@[i + q] != ps@[q]),
            decreases m - j + (if hit {
                1int
            } else {
                0int
            }),
        {
            if cs[i + j] != ps[j] {
                hit = false;
            } else {
                j += 1;
            }
        }
        if hit {
            proof {
                assert(rest.take(m as int) =~= p@);
                assert(rest.skip(m as int) =~= cs@.skip(i + m));
            }
            out.append(r);
            i = i + m;
            proof {
                assert(out@ + replaced(cs@.skip(i as int), p@, r@) =~= before + replaced(rest, p@, r@));
            }
        } else {
            proof {
                if m <= n - i {
                    let q = choose|q: int| 0 <= q < m && cs@[i + q] != ps@[q];
                    assert(rest.take(m as int)[q] != p@[q]);
                }
                assert(rest.skip(1) =~= cs@.skip(i + 1));
            }
            push_char(&mut out, cs[i]);
            i = i + 1;
            proof {
                assert(out@ + replaced(cs@.skip(i as int), p@, r@) =~= before + replaced(rest, p@, r@));
            }
        }
    }
    proof {
        assert(cs@.skip(n as int) =~= Seq::<char>::empty());
        assert(out@ + replaced(cs@.skip(n as int), p@, r@) =~= out@);
    }
    out
}

/// `s` without its trailing `c` characters (`str::trim_end_matches(c)`).
pub open spec fn strip_trailing(s: Seq<char>, c: char) -> Seq<char>
    decreases s.len(),
{
    if s.len() > 0 && s.last() == c {
        strip_trailing(s.drop_last(), c)
    } else {
        s
    }
}

/// End of the window `[lo, hi)` once its trailing `c` are removed.
pub fn strip_trailing_window(cs: &Vec<char>, lo: usize, hi: usize, c: char) -> (r: usize)
    requires
        lo <= hi <= cs@.len(),
    ensures
        lo <= r <= hi,
        cs@.subrange(lo as int, r as int) == strip_trailing(cs@.subrange(lo as int, hi as int), c),
{
    let mut b = hi;
    while b > lo && cs[b - 1] == c
        invariant
            lo <= b <= hi,
            hi <= cs@.len(),
            strip_trailing(cs@.subrange(lo as int, hi as int), c) == strip_trailing(
                cs@.subrange(lo as int, b as int),
                c,
            ),
        decreases b - lo,
    {
        assert(cs@.subrange(lo as int, b as int).drop_last() =~= cs@.subrange(lo as int, b - 1));
        b -= 1;
    }
    b
}

/// `i64::from_str` of the window `[lo, hi)`.
pub fn parse_i64_window(cs: &Vec<char>, lo: usize, hi: usize) -> (r: Option<i64>)
    requires
        lo <= hi <= cs@.len(),
    ensures
        r matches Some(v) ==> parse_signed(cs@.subrange(lo as int, hi as int), 10, i64::MAX as nat)
            == Some(v as int),
        r is None ==> parse_signed(cs@.subrange(lo as int, hi as int), 10, i64::MAX as nat) is None,
{
    let ghost s = cs@.subrange(lo as int, hi as int);
    let neg = lo < hi && cs[lo] == '-';
    let from: usize = if lo < hi && (cs[lo] == '+' || cs[lo] == '-') {
        lo + 1
    } else {
        lo
    };
    let ghost body = cs@.subrange(from as int, hi as int);
    proof {
        if from == lo + 1 {
            assert(body =~= s.drop_first());
        } else {
            assert(body =~= s);
        }
    }
    if from >= hi {
        return None;
    }
    if cs[from] == '+' {
        assert(digit_value(body[0], 10) is None);
        return None;
    }
    match parse_u64_window(cs, from, hi) {
        Some(v) => {
            if neg {
                if v <= 0x8000_0000_0000_0000 {
                    let w: i128 = -(v as i128);
                    Some(w as i64)
                } else {
                    None
                }
            } else if v <= 0x7fff_ffff_ffff_ffff {
                Some(v as i64)
            } else {
                None
            }
        },
        None => None,
    }
}

} // verus!
