//! Platform monitoring: reading the `/proc` text files (memory and swap
//! from `/proc/meminfo`, network byte counters from `/proc/net/dev`, CPU
//! time counters from `/proc/stat`).
use vstd::prelude::*;
use crate::text::{
    chars_of, first_at, is_prefix, lines_of, next_token, parse_u64_window, parse_unsigned,
    starts_with, str_eq, string_of, text_lines, tokens, trim, trim_window, views_of,
};

verus! {

/// Value (in kB) of a `/proc/meminfo` line `Name:   12345 kB`: the second
/// whitespace-separated token read as `u64`, or 0 when absent or not a number.
pub open spec fn kb_of(line: Seq<char>) -> u64 {
    let ts = tokens(line);
    if ts.len() >= 2 {
        match parse_unsigned(ts[1], 10, u64::MAX as nat) {
            Some(v) => v as u64,
            None => 0,
        }
    } else {
        0
    }
}

pub fn parse_kb(line: &str) -> (r: u64)
    ensures
        r == kb_of(line@),
{
    let cs = chars_of(line);
    let n = cs.len();
    assert(cs@.subrange(0, n as int) =~= line@);
    let (a0, b0) = next_token(&cs, 0, n);
    if a0 == b0 {
        return 0;
    }
    let (a1, b1) = next_token(&cs, b0, n);
    if a1 == b1 {
        return 0;
    }
    match parse_u64_window(&cs, a1, b1) {
        Some(v) => v,
        None => 0,
    }
}

/// The last values of two `/proc/meminfo` fields: a line starting with
/// `k1` sets the first, otherwise one starting with `k2` sets the second;
/// a field never seen reads 0.
pub open spec fn meminfo_scan(ls: Seq<Seq<char>>, k1: Seq<char>, k2: Seq<char>) -> (u64, u64)
    decreases ls.len(),
{
    if ls.len() == 0 {
        (0, 0)
    } else {
        let (a, b) = meminfo_scan(ls.drop_last(), k1, k2);
        let l = ls.last();
        if is_prefix(k1, l) {
            (kb_of(l), b)
        } else if is_prefix(k2, l) {
            (a, kb_of(l))
        } else {
            (a, b)
        }
    }
}

/// Values (kB) of the fields `k1` and `k2` of a `/proc/meminfo` content.
pub fn meminfo_pair(content: &str, k1: &str, k2: &str) -> (r: (u64, u64))
    ensures
        r == meminfo_scan(text_lines(content@), k1@, k2@),
{
    let lines = lines_of(content);
    let ghost ls = views_of(lines@);
    let n = lines.len();
    let mut a: u64 = 0;
    let mut b: u64 = 0;
    let mut i: usize = 0;
    while i < n
        invariant
            n == lines@.len(),
            ls == views_of(lines@),
            ls == text_lines(content@),
            i <= n,
            (a, b) == meminfo_scan(ls.take(i as int), k1@, k2@),
        decreases n - i,
    {
        let line = lines[i].as_str();
        assert(ls.take(i + 1).drop_last() =~= ls.take(i as int));
        assert(ls.take(i + 1).last() == line@);
        if starts_with(line, k1) {
            a = parse_kb(line);
        } else if starts_with(line, k2) {
            b = parse_kb(line);
        }
        i += 1;
    }
    assert(ls.take(n as int) =~= ls);
    (a, b)
}

/// `a - b`, or 0 when `b` is larger.
pub open spec fn sat_sub(a: u64, b: u64) -> u64 {
    if a >= b {
        (a - b) as u64
    } else {
        0
    }
}

/// Memory in MB: total, used (total minus available) and available.
pub open spec fn memory_of(content: Seq<char>) -> (u64, u64, u64) {
    let (t, a) = meminfo_scan(text_lines(content), "MemTotal:"@, "MemAvailable:"@);
    (t / 1024, sat_sub(t, a) / 1024, a / 1024)
}

/// Swap in MB: total and used (total minus free).
pub open spec fn swap_of(content: Seq<char>) -> (u64, u64) {
    let (t, f) = meminfo_scan(text_lines(content), "SwapTotal:"@, "SwapFree:"@);
    (t / 1024, sat_sub(t, f) / 1024)
}

pub fn memory_mb(meminfo: &str) -> (r: (u64, u64, u64))
    ensures
        r == memory_of(meminfo@),
{
    let (t, a) = meminfo_pair(meminfo, "MemTotal:", "MemAvailable:");
    let used = if t >= a {
        t - a
    } else {
        0
    };
    (t / 1024, used / 1024, a / 1024)
}

pub fn swap_mb(meminfo: &str) -> (r: (u64, u64))
    ensures
        r == swap_of(meminfo@),
{
    let (t, f) = meminfo_pair(meminfo, "SwapTotal:", "SwapFree:");
    let used = if t >= f {
        t - f
    } else {
        0
    };
    (t / 1024, used / 1024)
}

/// A token read as a `u64`, 0 when it does not read.
pub open spec fn count_of(t: Seq<char>) -> int {
    match parse_unsigned(t, 10, u64::MAX as nat) {
        Some(v) => v as int,
        None => 0,
    }
}

/// Received and sent bytes of a `/proc/net/dev` line: the first and ninth
/// fields after the interface name; nothing for the loopback interface or
/// a line without `:`.
pub open spec fn iface_bytes(l: Seq<char>) -> (int, int) {
    let t = trim(l);
    if exists|i: int| first_at(t, ':', i) {
        let c = choose|i: int| first_at(t, ':', i);
        if trim(t.take(c)) == "lo"@ {
            (0, 0)
        } else {
            let fs = tokens(t.skip(c + 1));
            (if fs.len() > 0 {
                count_of(fs[0])
            } else {
                0
            }, if fs.len() > 8 {
                count_of(fs[8])
            } else {
                0
            })
        }
    } else {
        (0, 0)
    }
}

/// Bytes received and sent over every interface but the loopback.
pub open spec fn net_totals(ls: Seq<Seq<char>>) -> (int, int)
    decreases ls.len(),
{
    if ls.len() == 0 {
        (0, 0)
    } else {
        let (a, b) = net_totals(ls.drop_last());
        let (r, t) = iface_bytes(ls.last());
        (a + r, b + t)
    }
}

proof fn lemma_iface_bytes_nonneg(l: Seq<char>)
    ensures
        iface_bytes(l).0 >= 0,
        iface_bytes(l).1 >= 0,
{
    let t = trim(l);
    if exists|j: int| first_at(t, ':', j) {
        let c = choose|j: int| first_at(t, ':', j);
        let fs = tokens(t.skip(c + 1));
        if fs.len() > 0 {
            assert(count_of(fs[0]) >= 0);
        }
        if fs.len() > 8 {
            assert(count_of(fs[8]) >= 0);
        }
    }
}

proof fn lemma_net_totals_grow(ls: Seq<Seq<char>>, i: int)
    requires
        0 <= i <= ls.len(),
    ensures
        0 <= net_totals(ls.take(i)).0 <= net_totals(ls).0,
        0 <= net_totals(ls.take(i)).1 <= net_totals(ls).1,
    decreases ls.len(),
{
    if i == ls.len() {
        assert(ls.take(i) =~= ls);
        lemma_net_totals_nonneg(ls);
    } else {
        lemma_net_totals_grow(ls.drop_last(), i);
        assert(ls.drop_last().take(i) =~= ls.take(i));
        lemma_iface_bytes_nonneg(ls.last());
    }
}

proof fn lemma_net_totals_nonneg(ls: Seq<Seq<char>>)
    ensures
        net_totals(ls).0 >= 0,
        net_totals(ls).1 >= 0,
    decreases ls.len(),
{
    if ls.len() > 0 {
        lemma_net_totals_nonneg(ls.drop_last());
    }
}

fn first_index(cs: &Vec<char>, c: char) -> (r: Option<usize>)
    ensures
        match r {
            Some(i) => first_at(cs@, c, i as int),
            None => forall|i: int| !first_at(cs@, c, i),
        },
{
    let n = cs.len();
    let mut i: usize = 0;
    while i < n
        invariant
            n == cs@.len(),
            i <= n,
            forall|k: int| 0 <= k < i ==> #[trigger] cs@[k] != c,
        decreases n - i,
    {
        if cs[i] == c {
            return Some(i);
        }
        i += 1;
    }
    None
}

fn count_in(cs: &Vec<char>, lo: usize, hi: usize) -> (r: u64)
    requires
        lo <= hi <= cs@.len(),
    ensures
        r == count_of(cs@.subrange(lo as int, hi as int)),
{
    match parse_u64_window(cs, lo, hi) {
        Some(v) => v,
        None => 0,
    }
}

fn iface_bytes_exec(line: &str) -> (r: (u64, u64))
    ensures
        r.0 == iface_bytes(line@).0,
        r.1 == iface_bytes(line@).1,
{
    let all = chars_of(line);
    let (a, b) = trim_window(&all, 0, all.len());
    let t = string_of(&all, a, b);
    let cs = chars_of(t.as_str());
    proof {
        assert(all@.subrange(0, all@.len() as int) =~= line@);
    }
    let n = cs.len();
    let c = match first_index(&cs, ':') {
        Some(c) => c,
        None => return (0, 0),
    };
    let (na, nb) = trim_window(&cs, 0, c);
    let name = string_of(&cs, na, nb);
    proof {
        assert(cs@.subrange(0, c as int) =~= cs@.take(c as int));
    }
    if str_eq(name.as_str(), "lo") {
        return (0, 0);
    }
    let ghost fs = tokens(cs@.skip(c + 1));
    proof {
        assert(cs@.subrange(c + 1, n as int) =~= cs@.skip(c + 1));
    }
    let (r0, r1) = next_token(&cs, c + 1, n);
    let rx = if r0 < r1 {
        count_in(&cs, r0, r1)
    } else {
        0
    };
    let mut pos = r1;
    let mut k: usize = 1;
    while k < 8
        invariant
            n == cs@.len(),
            c + 1 <= pos <= n,
            1 <= k <= 8,
            fs == tokens(cs@.subrange(c + 1, n as int)),
            tokens(cs@.subrange(pos as int, n as int)) == (if fs.len() >= k {
                fs.skip(k as int)
            } else {
                Seq::<Seq<char>>::empty()
            }),
        decreases 8 - k,
    {
        let (s0, s1) = next_token(&cs, pos, n);
        proof {
            if fs.len() > k {
                assert(fs.skip(k as int).drop_first() =~= fs.skip(k + 1));
            } else if fs.len() == k {
                assert(fs.skip(k as int) =~= Seq::<Seq<char>>::empty());
            }
        }
        pos = s1;
        k += 1;
    }
    let (t0, t1) = next_token(&cs, pos, n);
    let tx = if t0 < t1 {
        count_in(&cs, t0, t1)
    } else {
        0
    };
    proof {
        if fs.len() > 8 {
            assert(fs.skip(8)[0] == fs[8]);
        }
    }
    (rx, tx)
}

/// Bytes received and sent over every interface but the loopback, from a
/// `/proc/net/dev` content whose totals fit in 64 bits.
pub fn net_dev_bytes(content: &str) -> (r: (u64, u64))
    requires
        net_totals(text_lines(content@)).0 <= u64::MAX,
        net_totals(text_lines(content@)).1 <= u64::MAX,
    ensures
        r.0 == net_totals(text_lines(content@)).0,
        r.1 == net_totals(text_lines(content@)).1,
{
    let lines = lines_of(content);
    let ghost ls = views_of(lines@);
    let n = lines.len();
    let mut rx: u64 = 0;
    let mut tx: u64 = 0;
    let mut i: usize = 0;
    while i < n
        invariant
            n == lines@.len(),
            ls == views_of(lines@),
            ls == text_lines(content@),
            net_totals(ls).0 <= u64::MAX,
            net_totals(ls).1 <= u64::MAX,
            i <= n,
            rx == net_totals(ls.take(i as int)).0,
            tx == net_totals(ls.take(i as int)).1,
        decreases n - i,
    {
        let (r, t) = iface_bytes_exec(lines[i].as_str());
        proof {
            assert(ls.take(i + 1).drop_last() =~= ls.take(i as int));
            assert(ls.take(i + 1).last() == lines@[i as int]@);
            lemma_net_totals_grow(ls, i + 1);
        }
        rx = rx + r;
        tx = tx + t;
        i += 1;
    }
    assert(ls.take(n as int) =~= ls);
    (rx, tx)
}

/// Total and idle (idle plus I/O wait) CPU time of the first line of
/// `/proc/stat`, when its seven first counters read.
pub open spec fn cpu_times_of(content: Seq<char>) -> Option<(int, int)> {
    let ls = text_lines(content);
    if ls.len() == 0 {
        None
    } else {
        let fs = tokens(ls[0]);
        if fs.len() >= 8 && forall|k: int|
            1 <= k <= 7 ==> #[trigger] parse_unsigned(fs[k], 10, u64::MAX as nat) is Some {
            let v = |k: int| parse_unsigned(fs[k], 10, u64::MAX as nat).unwrap() as int;
            Some((v(1) + v(2) + v(3) + v(4) + v(5) + v(6) + v(7), v(4) + v(5)))
        } else {
            None
        }
    }
}

/// The CPU time counters of a `/proc/stat` content whose total fits in 64
/// bits.
pub fn cpu_times(content: &str) -> (r: Option<(u64, u64)>)
    requires
        cpu_times_of(content@) matches Some((t, _)) ==> t <= u64::MAX,
    ensures
        match r {
            Some((t, i)) => cpu_times_of(content@) == Some((t as int, i as int)),
            None => cpu_times_of(content@) is None,
        },
{
    let lines = lines_of(content);
    if lines.len() == 0 {
        return None;
    }
    let first = chars_of(lines[0].as_str());
    let n = first.len();
    let ghost fs = tokens(first@);
    proof {
        assert(first@.subrange(0, n as int) =~= first@);
        assert(views_of(lines@)[0] == lines@[0]@);
        assert(fs == tokens(text_lines(content@)[0]));
    }
    let mut vals: Vec<u64> = Vec::new();
    let (_, s1) = next_token(&first, 0, n);
    let mut pos = s1;
    let mut k: usize = 1;
    while k < 8
        invariant
            n == first@.len(),
            pos <= n,
            1 <= k <= 8,
            fs == tokens(first@.subrange(0, n as int)),
            fs == tokens(text_lines(content@)[0]),
            text_lines(content@).len() > 0,
            vals@.len() == k - 1,
            tokens(first@.subrange(pos as int, n as int)) == (if fs.len() >= k {
                fs.skip(k as int)
            } else {
                Seq::<Seq<char>>::empty()
            }),
            forall|j: int| 1 <= j < k ==> fs.len() > j && #[trigger] parse_unsigned(fs[j], 10, u64::MAX as nat) == Some(vals@[j - 1] as nat),
        decreases 8 - k,
    {
        let (s0, s1) = next_token(&first, pos, n);
        if s0 == s1 {
            assert(fs.len() < 8);
            return None;
        }
        proof {
            assert(fs.skip(k as int)[0] == fs[k as int]);
            assert(fs.skip(k as int).drop_first() =~= fs.skip(k + 1));
        }
        match parse_u64_window(&first, s0, s1) {
            Some(v) => vals.push(v),
            None => {
                assert(parse_unsigned(fs[k as int], 10, u64::MAX as nat) is None);
                return None;
            },
        }
        pos = s1;
        k += 1;
    }
    proof {
        assert(parse_unsigned(fs[1], 10, u64::MAX as nat) == Some(vals@[0] as nat));
        assert(parse_unsigned(fs[2], 10, u64::MAX as nat) == Some(vals@[1] as nat));
        assert(parse_unsigned(fs[3], 10, u64::MAX as nat) == Some(vals@[2] as nat));
        assert(parse_unsigned(fs[4], 10, u64::MAX as nat) == Some(vals@[3] as nat));
        assert(parse_unsigned(fs[5], 10, u64::MAX as nat) == Some(vals@[4] as nat));
        assert(parse_unsigned(fs[6], 10, u64::MAX as nat) == Some(vals@[5] as nat));
        assert(parse_unsigned(fs[7], 10, u64::MAX as nat) == Some(vals@[6] as nat));
    }
    let total: u128 = vals[0] as u128 + vals[1] as u128 + vals[2] as u128 + vals[3] as u128
        + vals[4] as u128 + vals[5] as u128 + vals[6] as u128;
    let idle: u128 = vals[3] as u128 + vals[4] as u128;
    Some((total as u64, idle as u64))
}

} // verus!
