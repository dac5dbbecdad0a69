//! The command-line and environment surface, as pure logic.
//!
//! The platform reads argv and the environment; what arrives here is
//! plain strings and bytes. This module owns everything decidable about
//! them: the option table, the fallback to the default configuration
//! path, the fixed-point decimal parser, the center-list parser, and the
//! override rules that lay CLI parameters over an environment-derived
//! configuration — applied all-or-nothing, never partially.

use vstd::prelude::*;

verus! {

use crate::fixed::Vec2;

/// One value-taking command-line option and its environment twin.
#[derive(Clone, Copy, Debug)]
pub struct CliOpt {
    pub short_name: &'static str,
    pub long_name: &'static str,
    pub description: &'static str,
    pub placeholder: &'static str,
    pub evar_name: &'static str,
}

impl CliOpt {
    pub fn new(
        short_name: &'static str,
        long_name: &'static str,
        description: &'static str,
        placeholder: &'static str,
        evar_name: &'static str,
    ) -> (r: CliOpt)
        ensures
            r.short_name == short_name,
            r.long_name == long_name,
            r.description == description,
            r.placeholder == placeholder,
            r.evar_name == evar_name,
    {
        CliOpt { short_name, long_name, description, placeholder, evar_name }
    }
}

/// One boolean command-line flag.
#[derive(Clone, Copy, Debug)]
pub struct CliFlag {
    pub short_name: &'static str,
    pub long_name: &'static str,
    pub description: &'static str,
}

impl CliFlag {
    pub fn new(
        short_name: &'static str,
        long_name: &'static str,
        description: &'static str,
    ) -> (r: CliFlag)
        ensures
            r.short_name == short_name,
            r.long_name == long_name,
            r.description == description,
    {
        CliFlag { short_name, long_name, description }
    }
}

/// The parsed command line: at most a configuration file path.
pub struct CliArgs {
    pub config_file: Option<String>,
}

/// The value-taking options the program accepts, in presentation order.
pub fn cli_options() -> (r: Vec<CliOpt>)
    ensures
        r@.len() == 9,
{
    let mut opts: Vec<CliOpt> = Vec::new();
    opts.push(CliOpt::new("", "env-file", "set .env filepath", "FILEPATH", "ENV_FILEPATH"));
    opts.push(CliOpt::new("c", "centers", "define a new spinner with it's center", "CENTERS", "CENTERS"));
    opts.push(CliOpt::new("d", "density-factor", "set the density factor", "DENSITY_FACTOR", "DENSITY_FACTOR"));
    opts.push(CliOpt::new("D", "density-max", "set the maximum density", "DENSITY_MAX", "DENSITY_MAX"));
    opts.push(CliOpt::new("P", "point-max", "set the maximum number of points at every iteration", "POINT_MAX", "POINT_MAX"));
    opts.push(CliOpt::new("w", "point-weight", "set weight of every point", "POINT_WEIGHT", "POINT_WEIGHT"));
    opts.push(CliOpt::new("T", "theta-max", "set the angular maximum rotation in radian", "THETA_MAX", "THETA_MAX"));
    opts.push(CliOpt::new("t", "theta-incr", "set the angular increment in radian", "THETA_STEP", "THETA_STEP"));
    opts.push(CliOpt::new("s", "size", "set the frame size", "WIN_SIZE", "WIN_SIZE"));
    opts
}

/// The flags the program accepts.
pub fn cli_flags() -> (r: Vec<CliFlag>)
    ensures
        r@.len() == 1,
{
    let mut flags: Vec<CliFlag> = Vec::new();
    flags.push(CliFlag::new("h", "help", "display this message"));
    flags
}

/// The configuration path to use: the one given, or the default.
pub fn config_path_or_default(path: Option<String>) -> (r: String)
    ensures
        path is Some ==> r@ == path->0@,
        path is None ==> r@ == "configs/spinners/default.toml"@,
{
    match path {
        Some(p) => p,
        None => {
            let d = "configs/spinners/default.toml";
            <String as vstd::string::StringExecFns>::from_str(d)
        },
    }
}

/// Why a value string was rejected.
#[derive(Clone, Copy, PartialEq, Eq, Structural, Debug)]
pub enum ParseError {
    InvalidNumber,
    InvalidCenter,
}

impl ParseError {
    /// A short account of the rejection, for reporting at the edge.
    pub fn describe(&self) -> (r: &'static str)
    {
        match self {
            ParseError::InvalidNumber => "a numeric value could not be parsed",
            ParseError::InvalidCenter => "a center coordinate could not be parsed",
        }
    }
}

/// Whether `b` is a decimal digit.
pub open spec fn is_digit(b: u8) -> bool {
    48 <= b <= 57
}

/// Every byte a decimal digit.
pub open spec fn all_digits(s: Seq<u8>) -> bool {
    forall|i: int| 0 <= i < s.len() ==> is_digit(#[trigger] s[i])
}

/// The number the digit string denotes, most significant digit first.
pub open spec fn digits_val(s: Seq<u8>) -> int
    decreases s.len(),
{
    if s.len() == 0 {
        0
    } else {
        digits_val(s.drop_last()) * 10 + (s.last() - 48)
    }
}

/// Ten to the `n`-th.
pub open spec fn ten_pow(n: nat) -> int
    decreases n,
{
    if n == 0 {
        1
    } else {
        10 * ten_pow((n - 1) as nat)
    }
}

proof fn lemma_ten_pow_mono(a: nat, b: nat)
    requires
        a <= b,
    ensures
        0 < ten_pow(a) <= ten_pow(b),
    decreases b,
{
    if b == 0 {
    } else if a == b {
        lemma_ten_pow_mono((a - 1) as nat, (b - 1) as nat);
    } else {
        lemma_ten_pow_mono(a, (b - 1) as nat);
    }
}

proof fn lemma_digits_val_bound(s: Seq<u8>)
    requires
        all_digits(s),
    ensures
        0 <= digits_val(s) < ten_pow(s.len()),
    decreases s.len(),
{
    if s.len() == 0 {
    } else {
        assert(all_digits(s.drop_last())) by {
            assert(forall|i: int| 0 <= i < s.len() - 1 ==> s.drop_last()[i] == #[trigger] s[i]);
        }
        lemma_digits_val_bound(s.drop_last());
        assert(is_digit(s.last()));
    }
}

/// A nonempty all-digit string of at most 15 digits denotes its number;
/// anything else is rejected.
pub open spec fn parse_uint_spec(s: Seq<u8>) -> Option<int> {
    if s.len() == 0 || s.len() > 15 || !all_digits(s) {
        None
    } else {
        Some(digits_val(s))
    }
}

/// Parses the digit range `[a, b)` of `s` as an unsigned number.
fn parse_digit_range(s: &[u8], a: usize, b: usize) -> (r: Option<u64>)
    requires
        a <= b <= s@.len(),
    ensures
        r is Some <==> parse_uint_spec(s@.subrange(a as int, b as int)) is Some,
        r is Some ==> r->0 == parse_uint_spec(s@.subrange(a as int, b as int))->0,
{
    if a == b || b - a > 15 {
        return None;
    }
    let mut acc: u64 = 0;
    let mut i: usize = a;
    while i < b
        invariant
            a <= i <= b <= s@.len(),
            b - a <= 15,
            all_digits(s@.subrange(a as int, i as int)),
            acc == digits_val(s@.subrange(a as int, i as int)),
            acc < 1_000_000_000_000_000u64,
        decreases b - i,
    {
        let c: u8 = s[i];
        if c < 48 || c > 57 {
            proof {
                assert(s@.subrange(a as int, b as int)[i - a] == s@[i as int]);
                assert(!all_digits(s@.subrange(a as int, b as int)));
            }
            return None;
        }
        proof {
            let pre = s@.subrange(a as int, i as int);
            let now = s@.subrange(a as int, i + 1);
            assert(now.drop_last() =~= pre);
            assert(now.last() == s@[i as int]);
            assert(all_digits(now)) by {
                assert(forall|j: int| 0 <= j < now.len() - 1 ==> now[j] == #[trigger] pre[j]);
            }
            lemma_digits_val_bound(now);
            lemma_ten_pow_mono(now.len(), 15);
            assert(ten_pow(15) == 1_000_000_000_000_000) by {
                reveal_with_fuel(ten_pow, 16);
            }
        }
        acc = acc * 10 + ((c - 48) as u64);
        i = i + 1;
    }
    proof {
        lemma_digits_val_bound(s@.subrange(a as int, b as int));
    }
    Some(acc)
}

/// The first position of `sep` in `s`, or the length if it never occurs.
pub open spec fn find_byte(s: Seq<u8>, sep: u8) -> int
    decreases s.len(),
{
    if s.len() == 0 {
        0
    } else if s[0] == sep {
        0
    } else {
        1 + find_byte(s.skip(1), sep)
    }
}

proof fn lemma_find_byte_at(s: Seq<u8>, sep: u8, m: int)
    requires
        0 <= m <= s.len(),
        forall|k: int| 0 <= k < m ==> s[k] != sep,
        m == s.len() || s[m] == sep,
    ensures
        find_byte(s, sep) == m,
    decreases s.len(),
{
    if s.len() == 0 {
    } else if s[0] == sep {
        assert(m == 0);
    } else {
        assert(m >= 1);
        let t = s.skip(1);
        assert(forall|k: int| 0 <= k < m - 1 ==> t[k] == #[trigger] s[k + 1]);
        lemma_find_byte_at(t, sep, m - 1);
    }
}

/// Scaled to three decimal places: the first three fractional digits,
/// padded with zeros where fewer were written.
pub open spec fn frac3(fp: Seq<u8>) -> int {
    if fp.len() >= 3 {
        digits_val(fp.take(3))
    } else if fp.len() == 2 {
        digits_val(fp) * 10
    } else {
        digits_val(fp) * 100
    }
}

/// A nonnegative decimal numeral, scaled by one thousand: digits, with
/// an optional point and at least one fractional digit, of which the
/// first three count.
pub open spec fn parse_pos_fixed_spec(s: Seq<u8>) -> Option<int> {
    let d = find_byte(s, 46);
    if d == s.len() {
        match parse_uint_spec(s) {
            Some(v) => Some(v * 1000),
            None => None,
        }
    } else {
        let ip = s.take(d);
        let fp = s.skip(d + 1);
        if parse_uint_spec(ip) is Some && fp.len() >= 1 && all_digits(fp) {
            Some(parse_uint_spec(ip)->0 * 1000 + frac3(fp))
        } else {
            None
        }
    }
}

/// A signed decimal numeral in fixed point: an optional leading minus
/// over [`parse_pos_fixed_spec`].
pub open spec fn parse_fixed_spec(s: Seq<u8>) -> Option<int> {
    if s.len() > 0 && s[0] == 45 {
        match parse_pos_fixed_spec(s.skip(1)) {
            Some(v) => Some(-v),
            None => None,
        }
    } else {
        parse_pos_fixed_spec(s)
    }
}

fn find_byte_exec(s: &[u8], from: usize, sep: u8) -> (r: usize)
    requires
        from <= s@.len(),
    ensures
        from <= r <= s@.len(),
        r - from == find_byte(s@.skip(from as int), sep),
        r < s@.len() ==> s@[r as int] == sep,
        forall|k: int| from <= k < r ==> s@[k] != sep,
{
    let mut i: usize = from;
    while i < s.len()
        invariant
            from <= i <= s@.len(),
            forall|k: int| from <= k < i ==> s@[k] != sep,
        decreases s@.len() - i,
    {
        if s[i] == sep {
            proof {
                let t = s@.skip(from as int);
                assert(forall|k: int| 0 <= k < t.len() ==> t[k] == #[trigger] s@[k + from]);
                lemma_find_byte_at(t, sep, i - from);
            }
            return i;
        }
        i = i + 1;
    }
    proof {
        let t = s@.skip(from as int);
        assert(forall|k: int| 0 <= k < t.len() ==> t[k] == #[trigger] s@[k + from]);
        lemma_find_byte_at(t, sep, s@.len() - from);
    }
    s.len()
}

/// Parses the range `[a, b)` of `s` as a nonnegative fixed-point
/// numeral.
fn parse_pos_fixed_range(s: &[u8], a: usize, b: usize) -> (r: Option<i64>)
    requires
        a <= b <= s@.len(),
    ensures
        r is Some <==> parse_pos_fixed_spec(s@.subrange(a as int, b as int)) is Some,
        r is Some ==> r->0 == parse_pos_fixed_spec(s@.subrange(a as int, b as int))->0,
        r is Some ==> 0 <= r->0 <= 1_000_000_000_000_000_000i64,
{
    let ghost seg = s@.subrange(a as int, b as int);
    let dot: usize = find_byte_exec(s, a, 46);
    let d: usize = if dot > b {
        b
    } else {
        dot
    };
    proof {
        let t = s@.skip(a as int);
        assert(forall|k: int| 0 <= k < seg.len() ==> seg[k] == #[trigger] s@[k + a]);
        if dot >= b {
            lemma_find_byte_at(seg, 46, b - a);
        } else {
            lemma_find_byte_at(seg, 46, dot - a);
        }
        assert(find_byte(seg, 46) == d - a);
    }
    if d == b {
        match parse_digit_range(s, a, b) {
            Some(v) => {
                proof {
                    lemma_digits_val_bound(seg);
                    lemma_ten_pow_mono(seg.len(), 15);
                    assert(ten_pow(15) == 1_000_000_000_000_000) by {
                        reveal_with_fuel(ten_pow, 16);
                    }
                }
                Some((v as i64) * 1000)
            },
            None => None,
        }
    } else {
        let ip = parse_digit_range(s, a, d);
        proof {
            assert(seg.take(d - a) =~= s@.subrange(a as int, d as int));
            assert(seg.skip(d - a + 1) =~= s@.subrange(d + 1, b as int));
        }
        if d + 1 >= b {
            proof {
                assert(s@.subrange(d + 1, b as int).len() == b - d - 1);
            }
            return None;
        }
        let fp_ok = check_all_digits(s, d + 1, b);
        match (ip, fp_ok) {
            (Some(v), true) => {
                let f: i64 = frac3_range(s, d + 1, b);
                proof {
                    let ipseg = s@.subrange(a as int, d as int);
                    lemma_digits_val_bound(ipseg);
                    lemma_ten_pow_mono(ipseg.len(), 15);
                    assert(ten_pow(15) == 1_000_000_000_000_000) by {
                        reveal_with_fuel(ten_pow, 16);
                    }
                }
                Some((v as i64) * 1000 + f)
            },
            _ => None,
        }
    }
}

/// Whether every byte of the range `[a, b)` is a digit.
fn check_all_digits(s: &[u8], a: usize, b: usize) -> (r: bool)
    requires
        a <= b <= s@.len(),
    ensures
        r <==> all_digits(s@.subrange(a as int, b as int)),
{
    let ghost seg = s@.subrange(a as int, b as int);
    let mut i: usize = a;
    while i < b
        invariant
            a <= i <= b <= s@.len(),
            seg == s@.subrange(a as int, b as int),
            forall|k: int| 0 <= k < i - a ==> is_digit(#[trigger] seg[k]),
        decreases b - i,
    {
        let c: u8 = s[i];
        proof {
            assert(seg[i - a] == s@[i as int]);
        }
        if c < 48 || c > 57 {
            return false;
        }
        i = i + 1;
    }
    true
}

/// The three-place fraction of the all-digit range `[a, b)`.
fn frac3_range(s: &[u8], a: usize, b: usize) -> (r: i64)
    requires
        a < b <= s@.len(),
        all_digits(s@.subrange(a as int, b as int)),
    ensures
        r == frac3(s@.subrange(a as int, b as int)),
        0 <= r < 1000,
{
    let ghost seg = s@.subrange(a as int, b as int);
    proof {
        lemma_digits_val_bound(seg);
    }
    if b - a >= 3 {
        proof {
            assert(seg.take(3) =~= s@.subrange(a as int, a + 3));
            assert(all_digits(seg.take(3))) by {
                assert(forall|k: int| 0 <= k < 3 ==> seg.take(3)[k] == #[trigger] seg[k]);
            }
            lemma_digits_val_bound(seg.take(3));
            assert(ten_pow(3) == 1000) by {
                reveal_with_fuel(ten_pow, 4);
            }
        }
        let v = parse_digit_range(s, a, a + 3);
        match v {
            Some(x) => x as i64,
            None => 0,
        }
    } else {
        proof {
            assert(ten_pow(1) == 10 && ten_pow(2) == 100) by {
                reveal_with_fuel(ten_pow, 4);
            }
        }
        let v = parse_digit_range(s, a, b);
        let x: i64 = match v {
            Some(x) => x as i64,
            None => 0,
        };
        if b - a == 2 {
            x * 10
        } else {
            x * 100
        }
    }
}

/// Parses a whole byte string as a signed fixed-point numeral.
pub fn parse_fixed_bytes(s: &[u8]) -> (r: Option<i64>)
    ensures
        r is Some <==> parse_fixed_spec(s@) is Some,
        r is Some ==> r->0 == parse_fixed_spec(s@)->0,
{
    if s.len() > 0 && s[0] == 45 {
        proof {
            assert(s@.skip(1) =~= s@.subrange(1, s@.len() as int));
        }
        match parse_pos_fixed_range(s, 1, s.len()) {
            Some(v) => Some(-v),
            None => None,
        }
    } else {
        proof {
            assert(s@ =~= s@.subrange(0, s@.len() as int));
        }
        parse_pos_fixed_range(s, 0, s.len())
    }
}

/// A whole byte string as a signed integer (no decimal point).
pub open spec fn parse_int_spec(s: Seq<u8>) -> Option<int> {
    if s.len() > 0 && s[0] == 45 {
        match parse_uint_spec(s.skip(1)) {
            Some(v) => Some(-v),
            None => None,
        }
    } else {
        parse_uint_spec(s)
    }
}

/// Parses a whole byte string as a signed integer.
pub fn parse_int_bytes(s: &[u8]) -> (r: Option<i64>)
    ensures
        r is Some <==> parse_int_spec(s@) is Some,
        r is Some ==> r->0 == parse_int_spec(s@)->0,
{
    if s.len() > 0 && s[0] == 45 {
        proof {
            assert(s@.skip(1) =~= s@.subrange(1, s@.len() as int));
        }
        match parse_digit_range(s, 1, s.len()) {
            Some(v) => {
                proof {
                    let sub = s@.subrange(1, s@.len() as int);
                    if parse_uint_spec(sub) is Some {
                        lemma_digits_val_bound(sub);
                        lemma_ten_pow_mono(sub.len(), 15);
                        assert(ten_pow(15) == 1_000_000_000_000_000) by {
                            reveal_with_fuel(ten_pow, 16);
                        }
                    }
                }
                Some(-(v as i64))
            },
            None => None,
        }
    } else {
        proof {
            assert(s@ =~= s@.subrange(0, s@.len() as int));
        }
        match parse_digit_range(s, 0, s.len()) {
            Some(v) => {
                proof {
                    let sub = s@.subrange(0, s@.len() as int);
                    if parse_uint_spec(sub) is Some {
                        lemma_digits_val_bound(sub);
                        lemma_ten_pow_mono(sub.len(), 15);
                        assert(ten_pow(15) == 1_000_000_000_000_000) by {
                            reveal_with_fuel(ten_pow, 16);
                        }
                    }
                }
                Some(v as i64)
            },
            None => None,
        }
    }
}

/// The segments of `s` between occurrences of `sep`: splitting the
/// empty string yields one empty segment, and every separator ends the
/// segment before it.
pub open spec fn split_on(s: Seq<u8>, sep: u8) -> Seq<Seq<u8>>
    decreases s.len(),
{
    if s.len() == 0 {
        seq![Seq::<u8>::empty()]
    } else if s[0] == sep {
        seq![Seq::<u8>::empty()] + split_on(s.skip(1), sep)
    } else {
        let rest = split_on(s.skip(1), sep);
        seq![seq![s[0]] + rest[0]] + rest.skip(1)
    }
}

proof fn lemma_split_nonempty(s: Seq<u8>, sep: u8)
    ensures
        split_on(s, sep).len() >= 1,
    decreases s.len(),
{
    if s.len() == 0 {
    } else {
        lemma_split_nonempty(s.skip(1), sep);
    }
}

/// Splits a byte string on a separator, as [`split_on`] says.
pub fn split_bytes(s: &[u8], sep: u8) -> (r: Vec<Vec<u8>>)
    ensures
        r@.map_values(|v: Vec<u8>| v@) =~~= split_on(s@, sep),
{
    let mut out: Vec<Vec<u8>> = Vec::new();
    let mut current: Vec<u8> = Vec::new();
    let mut i: usize = 0;
    proof {
        lemma_split_nonempty(s@.skip(0), sep);
        assert(s@.skip(0) =~= s@);
    }
    while i < s.len()
        invariant
            i <= s@.len(),
            split_on(s@, sep) =~~= out@.map_values(|v: Vec<u8>| v@) + seq![
                current@ + split_on(s@.skip(i as int), sep)[0],
            ] + split_on(s@.skip(i as int), sep).skip(1),
        decreases s@.len() - i,
    {
        let c: u8 = s[i];
        proof {
            let suf = s@.skip(i as int);
            assert(suf.len() > 0);
            assert(suf[0] == s@[i as int]);
            assert(suf.skip(1) =~= s@.skip(i + 1));
            lemma_split_nonempty(s@.skip(i + 1), sep);
        }
        if c == sep {
            let done = current;
            current = Vec::new();
            out.push(done);
            proof {
                let suf = s@.skip(i as int);
                let nxt = split_on(s@.skip(i + 1), sep);
                assert(split_on(suf, sep) =~~= seq![Seq::<u8>::empty()] + nxt);
                assert(done@ + split_on(suf, sep)[0] =~= done@);
                assert(out@.map_values(|v: Vec<u8>| v@) =~~= out@.map_values(
                    |v: Vec<u8>| v@,
                ).take(out@.len() - 1).push(done@));
            }
        } else {
            current.push(c);
            proof {
                let suf = s@.skip(i as int);
                let nxt = split_on(s@.skip(i + 1), sep);
                assert(split_on(suf, sep)[0] =~= seq![suf[0]] + nxt[0]);
                assert(split_on(suf, sep).skip(1) =~~= nxt.skip(1));
            }
        }
        i = i + 1;
    }
    proof {
        assert(s@.skip(i as int) =~= Seq::<u8>::empty());
        assert(split_on(Seq::<u8>::empty(), sep) =~~= seq![Seq::<u8>::empty()]);
        assert(current@ + Seq::<u8>::empty() =~= current@);
    }
    out.push(current);
    out
}

/// One `x,y` entry of a center list: a point where both halves parse, a
/// skip where the entry does not have exactly two halves, and an error
/// where a half fails to parse.
pub open spec fn center_of(e: Seq<u8>) -> Option<Option<(int, int)>> {
    let parts = split_on(e, 44);
    if parts.len() != 2 {
        Some(None)
    } else {
        match (parse_fixed_spec(parts[0]), parse_fixed_spec(parts[1])) {
            (Some(x), Some(y)) => Some(Some((x, y))),
            _ => None,
        }
    }
}

/// The points of a list of entries: skipped entries vanish, a bad
/// coordinate rejects the whole list.
pub open spec fn centers_of(entries: Seq<Seq<u8>>) -> Option<Seq<(int, int)>>
    decreases entries.len(),
{
    if entries.len() == 0 {
        Some(Seq::empty())
    } else {
        match (center_of(entries[0]), centers_of(entries.skip(1))) {
            (Some(Some(p)), Some(rest)) => Some(seq![p] + rest),
            (Some(None), Some(rest)) => Some(rest),
            _ => None,
        }
    }
}

/// The centers denoted by a `x,y;x,y;...` byte string.
pub open spec fn parse_centers_spec(s: Seq<u8>) -> Option<Seq<(int, int)>> {
    centers_of(split_on(s, 59))
}

/// Parses a semicolon-separated center list: entries without exactly
/// one comma are skipped, as the configuration surface tolerates them,
/// but a malformed coordinate rejects the whole list — a configuration
/// is applied fully or not at all.
pub fn parse_centers(s: &[u8]) -> (r: Result<Vec<Vec2>, ParseError>)
    ensures
        r is Ok <==> parse_centers_spec(s@) is Some,
        r is Ok ==> r->Ok_0@.map_values(|v: Vec2| (v.x as int, v.y as int)) =~= parse_centers_spec(
            s@,
        )->0,
        r is Err ==> r->Err_0 == ParseError::InvalidCenter,
{
    let entries: Vec<Vec<u8>> = split_bytes(s, 59);
    let ghost ev = entries@.map_values(|v: Vec<u8>| v@);
    let mut pts: Vec<Vec2> = Vec::new();
    let mut i: usize = 0;
    proof {
        assert(ev.skip(0) =~~= ev);
        if centers_of(ev) is Some {
            assert(pts@.map_values(|v: Vec2| (v.x as int, v.y as int)) + centers_of(ev)->0
                =~= centers_of(ev)->0);
        }
    }
    while i < entries.len()
        invariant
            i <= entries@.len(),
            ev == entries@.map_values(|v: Vec<u8>| v@),
            ev =~~= split_on(s@, 59),
            centers_of(ev) is Some <==> centers_of(ev.skip(i as int)) is Some,
            centers_of(ev) is Some ==> centers_of(ev)->0 =~= pts@.map_values(
                |v: Vec2| (v.x as int, v.y as int),
            ) + centers_of(ev.skip(i as int))->0,
        decreases entries@.len() - i,
    {
        proof {
            assert(ev.skip(i as int)[0] == ev[i as int]);
            assert(ev.skip(i as int).skip(1) =~~= ev.skip(i + 1));
            assert(entries@[i as int]@ == ev[i as int]);
        }
        let entry: &Vec<u8> = &entries[i];
        let parts: Vec<Vec<u8>> = split_bytes(entry.as_slice(), 44);
        let ghost pv = parts@.map_values(|v: Vec<u8>| v@);
        if parts.len() == 2 {
            proof {
                assert(pv[0] == parts@[0]@ && pv[1] == parts@[1]@);
            }
            let x = parse_fixed_bytes(parts[0].as_slice());
            let y = parse_fixed_bytes(parts[1].as_slice());
            match (x, y) {
                (Some(xv), Some(yv)) => {
                    let ghost before = pts@;
                    pts.push(Vec2 { x: xv, y: yv });
                    proof {
                        assert(pts@.map_values(|v: Vec2| (v.x as int, v.y as int))
                            =~= before.map_values(|v: Vec2| (v.x as int, v.y as int)).push(
                            (xv as int, yv as int),
                        ));
                        if centers_of(ev.skip(i + 1)) is Some {
                            assert(before.map_values(|v: Vec2| (v.x as int, v.y as int)) + (seq![
                                (xv as int, yv as int),
                            ] + centers_of(ev.skip(i + 1))->0) =~= pts@.map_values(
                                |v: Vec2| (v.x as int, v.y as int),
                            ) + centers_of(ev.skip(i + 1))->0);
                        }
                    }
                },
                _ => {
                    proof {
                        assert(center_of(ev[i as int]) is None);
                        assert(centers_of(ev.skip(i as int)) is None);
                    }
                    return Err(ParseError::InvalidCenter);
                },
            }
        } else {
            proof {
                assert(center_of(ev[i as int]) == Some(None::<(int, int)>));
            }
        }
        i = i + 1;
    }
    proof {
        assert(ev.skip(i as int) =~~= Seq::<Seq<u8>>::empty());
        assert(centers_of(ev.skip(i as int)) == Some(Seq::<(int, int)>::empty()));
        if centers_of(ev) is Some {
            assert(centers_of(ev)->0 =~= pts@.map_values(|v: Vec2| (v.x as int, v.y as int)));
        }
    }
    Ok(pts)
}

/// The environment-derived configuration of the whole surface.
pub struct Config {
    pub centers: Vec<Vec2>,
    pub density_factor: i64,
    pub density_max: i64,
    pub point_max: i64,
    pub point_weight: i64,
    pub theta_max: i64,
    pub theta_step: i64,
    pub win_size: i64,
}

/// The raw strings the platform read from the environment, one per
/// configuration field.
pub struct EnvValues {
    pub centers: Vec<u8>,
    pub density_factor: Vec<u8>,
    pub density_max: Vec<u8>,
    pub point_max: Vec<u8>,
    pub point_weight: Vec<u8>,
    pub theta_max: Vec<u8>,
    pub theta_step: Vec<u8>,
    pub win_size: Vec<u8>,
}

/// The raw strings the platform read from the command line; an absent
/// option leaves its field alone.
pub struct CliParamValues {
    pub centers: Option<Vec<u8>>,
    pub density_factor: Option<Vec<u8>>,
    pub density_max: Option<Vec<u8>>,
    pub point_max: Option<Vec<u8>>,
    pub point_weight: Option<Vec<u8>>,
    pub theta_max: Option<Vec<u8>>,
    pub theta_step: Option<Vec<u8>>,
    pub win_size: Option<Vec<u8>>,
}

/// Whether an optional raw value parses as a fixed-point numeral.
pub open spec fn opt_fixed_ok(o: Option<Vec<u8>>) -> bool {
    o is Some ==> parse_fixed_spec(o->0@) is Some
}

/// An optional raw value's number, over the field's old value.
pub open spec fn opt_fixed_val(o: Option<Vec<u8>>, oldv: i64) -> int {
    if o is Some {
        parse_fixed_spec(o->0@)->0
    } else {
        oldv as int
    }
}

/// Whether every present CLI parameter parses.
pub open spec fn cli_params_ok(p: CliParamValues) -> bool {
    &&& (p.centers is Some ==> parse_centers_spec(p.centers->0@) is Some)
    &&& opt_fixed_ok(p.density_factor)
    &&& opt_fixed_ok(p.density_max)
    &&& (p.point_max is Some ==> parse_int_spec(p.point_max->0@) is Some)
    &&& opt_fixed_ok(p.point_weight)
    &&& opt_fixed_ok(p.theta_max)
    &&& opt_fixed_ok(p.theta_step)
    &&& (p.win_size is Some ==> parse_int_spec(p.win_size->0@) is Some)
}

impl Config {
    /// Builds the configuration from the environment's raw values;
    /// exactly the fully parseable environments are accepted.
    pub fn load_env_values(values: &EnvValues) -> (r: Result<Config, ParseError>)
        ensures
            r is Ok <==> {
                &&& parse_centers_spec(values.centers@) is Some
                &&& parse_fixed_spec(values.density_factor@) is Some
                &&& parse_fixed_spec(values.density_max@) is Some
                &&& parse_int_spec(values.point_max@) is Some
                &&& parse_fixed_spec(values.point_weight@) is Some
                &&& parse_fixed_spec(values.theta_max@) is Some
                &&& parse_fixed_spec(values.theta_step@) is Some
                &&& parse_int_spec(values.win_size@) is Some
            },
            r is Ok ==> {
                let c = r->Ok_0;
                &&& c.centers@.map_values(|v: Vec2| (v.x as int, v.y as int))
                    =~= parse_centers_spec(values.centers@)->0
                &&& c.density_factor == parse_fixed_spec(values.density_factor@)->0
                &&& c.density_max == parse_fixed_spec(values.density_max@)->0
                &&& c.point_max == parse_int_spec(values.point_max@)->0
                &&& c.point_weight == parse_fixed_spec(values.point_weight@)->0
                &&& c.theta_max == parse_fixed_spec(values.theta_max@)->0
                &&& c.theta_step == parse_fixed_spec(values.theta_step@)->0
                &&& c.win_size == parse_int_spec(values.win_size@)->0
            },
    {
        let centers = match parse_centers(values.centers.as_slice()) {
            Ok(v) => v,
            Err(e) => {
                return Err(e);
            },
        };
        let density_factor = match parse_fixed_bytes(values.density_factor.as_slice()) {
            Some(v) => v,
            None => {
                return Err(ParseError::InvalidNumber);
            },
        };
        let density_max = match parse_fixed_bytes(values.density_max.as_slice()) {
            Some(v) => v,
            None => {
                return Err(ParseError::InvalidNumber);
            },
        };
        let point_max = match parse_int_bytes(values.point_max.as_slice()) {
            Some(v) => v,
            None => {
                return Err(ParseError::InvalidNumber);
            },
        };
        let point_weight = match parse_fixed_bytes(values.point_weight.as_slice()) {
            Some(v) => v,
            None => {
                return Err(ParseError::InvalidNumber);
            },
        };
        let theta_max = match parse_fixed_bytes(values.theta_max.as_slice()) {
            Some(v) => v,
            None => {
                return Err(ParseError::InvalidNumber);
            },
        };
        let theta_step = match parse_fixed_bytes(values.theta_step.as_slice()) {
            Some(v) => v,
            None => {
                return Err(ParseError::InvalidNumber);
            },
        };
        let win_size = match parse_int_bytes(values.win_size.as_slice()) {
            Some(v) => v,
            None => {
                return Err(ParseError::InvalidNumber);
            },
        };
        Ok(
            Config {
                centers,
                density_factor,
                density_max,
                point_max,
                point_weight,
                theta_max,
                theta_step,
                win_size,
            },
        )
    }

    /// Lays the present CLI parameters over the configuration — all of
    /// them, or none: a parameter that does not parse leaves the whole
    /// configuration untouched and reports the fault.
    pub fn update_with_cli_params(&mut self, params: &CliParamValues) -> (r: Result<
        (),
        ParseError,
    >)
        ensures
            r is Ok <==> cli_params_ok(*params),
            r is Err ==> *final(self) == *old(self),
            r is Ok ==> {
                &&& params.centers is Some ==> final(self).centers@.map_values(
                    |v: Vec2| (v.x as int, v.y as int),
                ) =~= parse_centers_spec(params.centers->0@)->0
                &&& params.centers is None ==> final(self).centers == old(self).centers
                &&& final(self).density_factor == opt_fixed_val(
                    params.density_factor,
                    old(self).density_factor,
                )
                &&& final(self).density_max == opt_fixed_val(
                    params.density_max,
                    old(self).density_max,
                )
                &&& final(self).point_max == if params.point_max is Some {
                    parse_int_spec(params.point_max->0@)->0
                } else {
                    old(self).point_max as int
                }
                &&& final(self).point_weight == opt_fixed_val(
                    params.point_weight,
                    old(self).point_weight,
                )
                &&& final(self).theta_max == opt_fixed_val(params.theta_max, old(self).theta_max)
                &&& final(self).theta_step == opt_fixed_val(
                    params.theta_step,
                    old(self).theta_step,
                )
                &&& final(self).win_size == if params.win_size is Some {
                    parse_int_spec(params.win_size->0@)->0
                } else {
                    old(self).win_size as int
                }
            },
    {
        let centers: Option<Vec<Vec2>> = match &params.centers {
            Some(raw) => match parse_centers(raw.as_slice()) {
                Ok(v) => Some(v),
                Err(e) => {
                    return Err(e);
                },
            },
            None => None,
        };
        let density_factor = match opt_parse_fixed(&params.density_factor) {
            Ok(v) => v,
            Err(e) => {
                return Err(e);
            },
        };
        let density_max = match opt_parse_fixed(&params.density_max) {
            Ok(v) => v,
            Err(e) => {
                return Err(e);
            },
        };
        let point_max = match opt_parse_int(&params.point_max) {
            Ok(v) => v,
            Err(e) => {
                return Err(e);
            },
        };
        let point_weight = match opt_parse_fixed(&params.point_weight) {
            Ok(v) => v,
            Err(e) => {
                return Err(e);
            },
        };
        let theta_max = match opt_parse_fixed(&params.theta_max) {
            Ok(v) => v,
            Err(e) => {
                return Err(e);
            },
        };
        let theta_step = match opt_parse_fixed(&params.theta_step) {
            Ok(v) => v,
            Err(e) => {
                return Err(e);
            },
        };
        let win_size = match opt_parse_int(&params.win_size) {
            Ok(v) => v,
            Err(e) => {
                return Err(e);
            },
        };
        if let Some(v) = centers {
            self.centers = v;
        }
        if let Some(v) = density_factor {
            self.density_factor = v;
        }
        if let Some(v) = density_max {
            self.density_max = v;
        }
        if let Some(v) = point_max {
            self.point_max = v;
        }
        if let Some(v) = point_weight {
            self.point_weight = v;
        }
        if let Some(v) = theta_max {
            self.theta_max = v;
        }
        if let Some(v) = theta_step {
            self.theta_step = v;
        }
        if let Some(v) = win_size {
            self.win_size = v;
        }
        Ok(())
    }
}

/// A present value must parse as a fixed-point numeral; an absent one
/// stays absent.
fn opt_parse_fixed(o: &Option<Vec<u8>>) -> (r: Result<Option<i64>, ParseError>)
    ensures
        r is Ok <==> opt_fixed_ok(*o),
        r is Ok ==> match r->Ok_0 {
            Some(v) => o is Some && v == parse_fixed_spec(o->0@)->0,
            None => o is None,
        },
        r is Err ==> r->Err_0 == ParseError::InvalidNumber,
{
    match o {
        Some(raw) => match parse_fixed_bytes(raw.as_slice()) {
            Some(v) => Ok(Some(v)),
            None => Err(ParseError::InvalidNumber),
        },
        None => Ok(None),
    }
}

/// A present value must parse as an integer; an absent one stays absent.
fn opt_parse_int(o: &Option<Vec<u8>>) -> (r: Result<Option<i64>, ParseError>)
    ensures
        r is Ok <==> (o is Some ==> parse_int_spec(o->0@) is Some),
        r is Ok ==> match r->Ok_0 {
            Some(v) => o is Some && v == parse_int_spec(o->0@)->0,
            None => o is None,
        },
        r is Err ==> r->Err_0 == ParseError::InvalidNumber,
{
    match o {
        Some(raw) => match parse_int_bytes(raw.as_slice()) {
            Some(v) => Ok(Some(v)),
            None => Err(ParseError::InvalidNumber),
        },
        None => Ok(None),
    }
}


} // verus!
