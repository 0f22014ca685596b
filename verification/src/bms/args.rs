//! Command-line values of the server: the list of BMS addresses given to
//! `--bms` (`0x01,0x02`, `1, 2`...), the serial port given to `--port`, and
//! which auto-detections run at start-up.
use vstd::prelude::*;
use crate::text::{
    fields, is_prefix, lemma_field_len, parse_u32_radix, parse_unsigned, starts_with, string_of,
    trim, trim_window, chars_of,
};

verus! {

/// Value of one address: hexadecimal after a `0x`/`0X` prefix, decimal
/// otherwise; it must fit in a byte.
pub open spec fn address_value(t: Seq<char>) -> Option<nat> {
    if is_prefix("0x"@, t) || is_prefix("0X"@, t) {
        parse_unsigned(t.skip(2), 16, 255)
    } else {
        parse_unsigned(t, 10, 255)
    }
}

/// The addresses read from the fields, each trimmed; fields that are not a
/// valid address are skipped.
pub open spec fn parsed_addresses(fs: Seq<Seq<char>>) -> Seq<u8>
    decreases fs.len(),
{
    if fs.len() == 0 {
        seq![]
    } else {
        let head: Seq<u8> = match address_value(trim(fs[0])) {
            Some(v) => seq![v as u8],
            None => seq![],
        };
        head + parsed_addresses(fs.skip(1))
    }
}

fn byte_value(s: &str, radix: u32) -> (r: Option<u8>)
    requires
        2 <= radix <= 36,
    ensures
        match r {
            Some(v) => parse_unsigned(s@, radix as nat, 255) == Some(v as nat),
            None => parse_unsigned(s@, radix as nat, 255) is None,
        },
{
    match parse_u32_radix(s, radix) {
        Some(v) => if v <= 255 {
            Some(v as u8)
        } else {
            None
        },
        None => None,
    }
}

/// Addresses of `--bms a,b,...`, in the order given, without the fields
/// that do not hold one.
pub fn parse_addresses(s: &str) -> (r: Vec<u8>)
    ensures
        r@ == parsed_addresses(fields(s@, ',')),
{
    let cs = chars_of(s);
    let n = cs.len();
    let mut out: Vec<u8> = Vec::new();
    let mut pos: usize = 0;
    let mut done = false;
    proof {
        assert(cs@.skip(0) =~= cs@);
        assert(out@ + parsed_addresses(fields(cs@, ',')) =~= parsed_addresses(fields(cs@, ',')));
    }
    while !done
        invariant
            n == cs@.len(),
            cs@ == s@,
            pos <= n,
            !done ==> out@ + parsed_addresses(fields(cs@.skip(pos as int), ',')) == parsed_addresses(
                fields(s@, ','),
            ),
            done ==> out@ == parsed_addresses(fields(s@, ',')),
        decreases n - pos + (if done {
            0int
        } else {
            1int
        }),
    {
        let mut e = pos;
        while e < n && cs[e] != ','
            invariant
                n == cs@.len(),
                pos <= e <= n,
                forall|j: int| pos <= j < e ==> cs@[j] != ',',
            decreases n - e,
        {
            e += 1;
        }
        let ghost rest = cs@.skip(pos as int);
        let ghost seg = cs@.subrange(pos as int, e as int);
        let ghost before = out@;
        proof {
            lemma_field_len(rest, ',', (e - pos) as int);
            assert(rest.take((e - pos) as int) =~= seg);
        }
        let (a, b) = trim_window(&cs, pos, e);
        let t = string_of(&cs, a, b);
        proof {
            reveal_strlit("0x");
            reveal_strlit("0X");
        }
        let value = if starts_with(t.as_str(), "0x") || starts_with(t.as_str(), "0X") {
            let digits = string_of(&cs, a + 2, b);
            proof {
                assert(digits@ =~= t@.skip(2));
            }
            byte_value(digits.as_str(), 16)
        } else {
            byte_value(t.as_str(), 10)
        };
        let ghost head: Seq<u8> = match address_value(trim(seg)) {
            Some(v) => seq![v as u8],
            None => seq![],
        };
        match value {
            Some(v) => out.push(v),
            None => {},
        }
        proof {
            assert(out@ =~= before + head);
        }
        if e < n {
            proof {
                assert(rest.skip((e - pos) + 1) =~= cs@.skip(e + 1));
                let fs = fields(rest, ',');
                assert(fs[0] == seg);
                assert(fs.skip(1) =~= fields(cs@.skip(e + 1), ','));
                assert(out@ + parsed_addresses(fields(cs@.skip(e + 1), ',')) =~= before
                    + parsed_addresses(fs));
            }
            pos = e + 1;
        } else {
            proof {
                assert(rest =~= seg);
                let fs = fields(rest, ',');
                assert(fs =~= seq![seg]);
                assert(fs.skip(1) =~= Seq::<Seq<char>>::empty());
                assert(parsed_addresses(fs.skip(1)) =~= Seq::<u8>::empty());
                assert(fs[0] == seg);
                assert(parsed_addresses(fs) =~= head);
            }
            done = true;
        }
    }
    out
}

/// Index of the first argument among the first `i` that is one of the
/// flags `f1`, `f2` and is followed by a value.
pub open spec fn flag_index(args: Seq<Seq<char>>, f1: Seq<char>, f2: Seq<char>, i: int) -> Option<int>
    decreases i,
{
    if i <= 0 {
        None
    } else {
        match flag_index(args, f1, f2, i - 1) {
            Some(k) => Some(k),
            None => if i < args.len() && (args[i - 1] == f1 || args[i - 1] == f2) {
                Some(i - 1)
            } else {
                None
            },
        }
    }
}

/// Value following the first occurrence of `--flag` (or its short form).
pub open spec fn flag_value(args: Seq<Seq<char>>, f1: Seq<char>, f2: Seq<char>) -> Option<Seq<char>> {
    match flag_index(args, f1, f2, args.len() as int) {
        Some(k) => Some(args[k + 1]),
        None => None,
    }
}

pub open spec fn arg_views(args: Seq<String>) -> Seq<Seq<char>> {
    args.map_values(|a: String| a@)
}

/// Command-line options of the server.
#[derive(Debug, Clone)]
pub struct ServerArgs {
    /// Explicit serial port (`--port` / `-p`).
    pub port: Option<String>,
    /// BMS addresses (`--bms`), empty when not given.
    pub bms_addrs: Vec<u8>,
    /// `--check-config`: validate the configuration and exit.
    pub check_config: bool,
}

fn find_flag(args: &Vec<String>, f1: &str, f2: &str) -> (r: Option<usize>)
    ensures
        match r {
            Some(k) => flag_index(arg_views(args@), f1@, f2@, args@.len() as int) == Some(k as int),
            None => flag_index(arg_views(args@), f1@, f2@, args@.len() as int) is None,
        },
        r matches Some(k) ==> k + 1 < args.len(),
{
    let ghost v = arg_views(args@);
    let n = args.len();
    let mut i: usize = 0;
    while i < n
        invariant
            n == args@.len(),
            v == arg_views(args@),
            i <= n,
            flag_index(v, f1@, f2@, i as int) is None,
        decreases n - i,
    {
        proof {
            assert(v[i as int] == args@[i as int]@);
        }
        if i + 1 < n && (crate::text::str_eq(args[i].as_str(), f1) || crate::text::str_eq(
            args[i].as_str(),
            f2,
        )) {
            assert(flag_index(v, f1@, f2@, i + 1) == Some(i as int));
            proof {
                lemma_flag_index_stable(v, f1@, f2@, i + 1, n as int);
            }
            return Some(i);
        }
        i += 1;
    }
    None
}

proof fn lemma_flag_index_stable(args: Seq<Seq<char>>, f1: Seq<char>, f2: Seq<char>, i: int, j: int)
    requires
        i <= j,
        flag_index(args, f1, f2, i) is Some,
    ensures
        flag_index(args, f1, f2, j) == flag_index(args, f1, f2, i),
    decreases j - i,
{
    if i < j {
        lemma_flag_index_stable(args, f1, f2, i, j - 1);
    }
}

fn has_arg(args: &Vec<String>, a: &str) -> (r: bool)
    ensures
        r == arg_views(args@).contains(a@),
{
    let ghost v = arg_views(args@);
    let n = args.len();
    let mut i: usize = 0;
    while i < n
        invariant
            n == args@.len(),
            v == arg_views(args@),
            i <= n,
            forall|j: int| 0 <= j < i ==> v[j] != a@,
        decreases n - i,
    {
        if crate::text::str_eq(args[i].as_str(), a) {
            assert(v[i as int] == a@);
            return true;
        }
        i += 1;
    }
    false
}

impl ServerArgs {
    /// Reads the options from the program arguments: the value after the
    /// first `--port`/`-p`, the addresses after the first `--bms`, and
    /// whether `--check-config` is present.
    pub fn from_args(args: &Vec<String>) -> (r: Self)
        ensures
            match r.port {
                Some(p) => flag_value(arg_views(args@), "--port"@, "-p"@) == Some(p@),
                None => flag_value(arg_views(args@), "--port"@, "-p"@) is None,
            },
            r.bms_addrs@ == match flag_value(arg_views(args@), "--bms"@, "--bms"@) {
                Some(s) => parsed_addresses(fields(s, ',')),
                None => Seq::<u8>::empty(),
            },
            r.check_config == arg_views(args@).contains("--check-config"@),
    {
        let port = match find_flag(args, "--port", "-p") {
            Some(k) => Some(args[k + 1].clone()),
            None => None,
        };
        let bms_addrs = match find_flag(args, "--bms", "--bms") {
            Some(k) => parse_addresses(args[k + 1].as_str()),
            None => Vec::new(),
        };
        ServerArgs { port, bms_addrs, check_config: has_arg(args, "--check-config") }
    }
}

/// Which detections run at start-up: the serial port is auto-detected only
/// without `--port` and without a configured port (a missing configuration
/// file counts as none); the BMS addresses are discovered only without
/// `--bms` and without a configuration file.
pub fn startup_detection(args: &ServerArgs, config_from_file: bool, config_port_empty: bool) -> (r: (
    bool,
    bool,
))
    ensures
        r.0 == (args.port is None && (!config_from_file || config_port_empty)),
        r.1 == (args.bms_addrs@.len() == 0 && !config_from_file),
{
    (
        args.port.is_none() && (!config_from_file || config_port_empty),
        args.bms_addrs.len() == 0 && !config_from_file,
    )
}

} // verus!
