//! Deterministic rate-limit-key derivation.
//!
//! A key is assembled from ordered components joined by `-`: an optional
//! static prefix, the client address, the request path, and an optional
//! dynamically computed component. Addresses are normalized: IPv4 addresses
//! (including IPv4-mapped IPv6 addresses) are rendered in dotted-decimal
//! form; other IPv6 addresses are grouped by zeroing the lower 64 bits and
//! rendering the `/64` network, so clients rotating through one /64 block
//! share a bucket. A malformed address is a hard error, never an unlimited
//! key.

use vstd::prelude::*;

use crate::backend::SimpleInput;

verus! {

/// The client address could not be parsed as an IP address.
#[derive(Copy, Clone, Debug, PartialEq, Eq, Structural)]
pub struct InvalidIpError;

// ---------------------------------------------------------------------------
// Address grammar, at the specification level.
// ---------------------------------------------------------------------------

pub open spec fn is_dec_digit(c: char) -> bool {
    '0' <= c && c <= '9'
}

pub open spec fn dec_digit_val(c: char) -> int {
    c as u32 - '0' as u32
}

pub open spec fn is_hex_digit(c: char) -> bool {
    is_dec_digit(c) || ('a' <= c && c <= 'f') || ('A' <= c && c <= 'F')
}

pub open spec fn hex_digit_val(c: char) -> int {
    if is_dec_digit(c) {
        dec_digit_val(c)
    } else if 'a' <= c && c <= 'f' {
        10 + (c as u32 - 'a' as u32)
    } else {
        10 + (c as u32 - 'A' as u32)
    }
}

/// Index just past the run of decimal digits starting at `i`.
pub open spec fn dec_run_end(s: Seq<char>, i: int) -> int
    decreases s.len() - i,
{
    if 0 <= i && i < s.len() && is_dec_digit(s[i]) {
        dec_run_end(s, i + 1)
    } else {
        i
    }
}

/// Index just past the run of hexadecimal digits starting at `i`.
pub open spec fn hex_run_end(s: Seq<char>, i: int) -> int
    decreases s.len() - i,
{
    if 0 <= i && i < s.len() && is_hex_digit(s[i]) {
        hex_run_end(s, i + 1)
    } else {
        i
    }
}

/// The number the decimal digits `s[i..j)` denote.
pub open spec fn dec_value(s: Seq<char>, i: int, j: int) -> int
    decreases j - i,
{
    if i < j {
        dec_value(s, i, j - 1) * 10 + dec_digit_val(s[j - 1])
    } else {
        0
    }
}

/// The number the hexadecimal digits `s[i..j)` denote.
pub open spec fn hex_value(s: Seq<char>, i: int, j: int) -> int
    decreases j - i,
{
    if i < j {
        hex_value(s, i, j - 1) * 16 + hex_digit_val(s[j - 1])
    } else {
        0
    }
}

pub open spec fn ten_pow(n: int) -> int
    decreases n,
{
    if n <= 0 {
        1
    } else {
        10 * ten_pow(n - 1)
    }
}

pub open spec fn sixteen_pow(n: int) -> int
    decreases n,
{
    if n <= 0 {
        1
    } else {
        16 * sixteen_pow(n - 1)
    }
}

proof fn lemma_dec_run_digits(s: Seq<char>, i: int)
    requires
        0 <= i,
    ensures
        i <= dec_run_end(s, i),
        dec_run_end(s, i) <= s.len() || dec_run_end(s, i) == i,
        forall|k: int| i <= k < dec_run_end(s, i) ==> is_dec_digit(#[trigger] s[k]),
        dec_run_end(s, i) < s.len() ==> !is_dec_digit(s[dec_run_end(s, i)]),
    decreases s.len() - i,
{
    if 0 <= i && i < s.len() && is_dec_digit(s[i]) {
        lemma_dec_run_digits(s, i + 1);
    }
}

proof fn lemma_hex_run_digits(s: Seq<char>, i: int)
    requires
        0 <= i,
    ensures
        i <= hex_run_end(s, i),
        hex_run_end(s, i) <= s.len() || hex_run_end(s, i) == i,
        forall|k: int| i <= k < hex_run_end(s, i) ==> is_hex_digit(#[trigger] s[k]),
        hex_run_end(s, i) < s.len() ==> !is_hex_digit(s[hex_run_end(s, i)]),
    decreases s.len() - i,
{
    if 0 <= i && i < s.len() && is_hex_digit(s[i]) {
        lemma_hex_run_digits(s, i + 1);
    }
}

proof fn lemma_dec_value_bound(s: Seq<char>, i: int, j: int)
    requires
        i <= j,
        forall|k: int| i <= k < j ==> is_dec_digit(#[trigger] s[k]),
    ensures
        0 <= dec_value(s, i, j) < ten_pow(j - i),
    decreases j - i,
{
    if i < j {
        lemma_dec_value_bound(s, i, j - 1);
    }
}

proof fn lemma_hex_value_bound(s: Seq<char>, i: int, j: int)
    requires
        i <= j,
        forall|k: int| i <= k < j ==> is_hex_digit(#[trigger] s[k]),
    ensures
        0 <= hex_value(s, i, j) < sixteen_pow(j - i),
    decreases j - i,
{
    if i < j {
        lemma_hex_value_bound(s, i, j - 1);
    }
}

/// A dotted-decimal octet at `i`: 1 to 3 digits, no leading zero, value at
/// most 255. Yields the value and the index just past it.
pub open spec fn v4_octet_at(s: Seq<char>, i: int) -> Option<(u8, int)> {
    let j = dec_run_end(s, i);
    if 1 <= j - i && j - i <= 3 && !(j - i > 1 && s[i] == '0') && dec_value(s, i, j) <= 255 {
        Some((dec_value(s, i, j) as u8, j))
    } else {
        None
    }
}

/// An IPv4 address at `i`: four octets separated by `.`. Yields the octets
/// and the index just past them.
pub open spec fn parse_v4_at(s: Seq<char>, i: int) -> Option<((u8, u8, u8, u8), int)> {
    match v4_octet_at(s, i) {
        None => None,
        Some((a, i1)) => if i1 < s.len() && s[i1] == '.' {
            match v4_octet_at(s, i1 + 1) {
                None => None,
                Some((b, i2)) => if i2 < s.len() && s[i2] == '.' {
                    match v4_octet_at(s, i2 + 1) {
                        None => None,
                        Some((c, i3)) => if i3 < s.len() && s[i3] == '.' {
                            match v4_octet_at(s, i3 + 1) {
                                None => None,
                                Some((d, i4)) => Some(((a, b, c, d), i4)),
                            }
                        } else {
                            None
                        },
                    }
                } else {
                    None
                },
            }
        } else {
            None
        },
    }
}

/// A whole string that is exactly an IPv4 address.
pub open spec fn parse_v4_full(s: Seq<char>) -> Option<(u8, u8, u8, u8)> {
    match parse_v4_at(s, 0) {
        Some((o, j)) => if j == s.len() {
            Some(o)
        } else {
            None
        },
        None => None,
    }
}

/// A hexadecimal group at `i`: 1 to 4 hex digits (leading zeros allowed).
/// Yields the value and the index just past it.
pub open spec fn hex_group_at(s: Seq<char>, i: int) -> Option<(u16, int)> {
    let j = hex_run_end(s, i);
    if 1 <= j - i && j - i <= 4 {
        Some((hex_value(s, i, j) as u16, j))
    } else {
        None
    }
}

/// `n` zero groups.
pub open spec fn zeros16(n: int) -> Seq<u16>
    decreases n,
{
    if n <= 0 {
        Seq::empty()
    } else {
        zeros16(n - 1).push(0u16)
    }
}

/// Reads a colon-separated run of at most `max` groups starting at `i`. The
/// group at `i` itself carries no leading colon when `first` holds. A
/// trailing embedded IPv4 address stands for two groups and ends the run;
/// it is admitted only while at least two group slots remain. Returns the
/// groups, the index where reading stopped, and whether the run ended in an
/// embedded IPv4 address.
pub open spec fn read_groups(s: Seq<char>, i: int, first: bool, max: int) -> (Seq<u16>, int, bool)
    decreases max,
{
    if max <= 0 {
        (Seq::empty(), i, false)
    } else {
        let sep_ok = first || (i < s.len() && s[i] == ':');
        let p = if first {
            i
        } else {
            i + 1
        };
        if !sep_ok {
            (Seq::empty(), i, false)
        } else if max >= 2 && parse_v4_at(s, p) is Some {
            match parse_v4_at(s, p) {
                Some(((a, b, c, d), j)) => (
                    seq![
                        ((a as u16) * 256 + (b as u16)) as u16,
                        ((c as u16) * 256 + (d as u16)) as u16,
                    ],
                    j,
                    true,
                ),
                None => (Seq::empty(), i, false),
            }
        } else {
            match hex_group_at(s, p) {
                None => (Seq::empty(), i, false),
                Some((g, j)) => {
                    let (rest, k, v4) = read_groups(s, j, false, max - 1);
                    (seq![g] + rest, k, v4)
                },
            }
        }
    }
}

/// A whole string that is exactly an IPv6 address: up to eight groups, with
/// one `::` standing for at least one zero group, and an optional trailing
/// embedded IPv4 address. Yields the eight groups.
pub open spec fn parse_v6_full(s: Seq<char>) -> Option<Seq<u16>> {
    let (head, i, head_v4) = read_groups(s, 0, true, 8);
    if head.len() == 8 {
        if i == s.len() {
            Some(head)
        } else {
            None
        }
    } else if head_v4 {
        None
    } else if i + 1 < s.len() && s[i] == ':' && s[i + 1] == ':' {
        let tail_max = 8 - head.len() - 1;
        let (tail, j, _) = read_groups(s, i + 2, true, tail_max as int);
        if j == s.len() {
            Some(head + zeros16(8 - head.len() - tail.len()) + tail)
        } else {
            None
        }
    } else {
        None
    }
}

/// The embedded IPv4 address of an IPv4-mapped IPv6 address: the first
/// five groups zero and the sixth 0xffff. Only mapped addresses convert;
/// every other IPv6 address, `::` and `::1` included, groups as a /64.
pub open spec fn v6_to_v4(g: Seq<u16>) -> Option<(u8, u8, u8, u8)> {
    if g[0] == 0 && g[1] == 0 && g[2] == 0 && g[3] == 0 && g[4] == 0 && g[5] == 0xffff {
        Some(
            (
                (g[6] / 256) as u8,
                (g[6] % 256) as u8,
                (g[7] / 256) as u8,
                (g[7] % 256) as u8,
            ),
        )
    } else {
        None
    }
}

// ---------------------------------------------------------------------------
// The parser.
// ---------------------------------------------------------------------------

/// The characters of `s`, one slot each.
fn chars_of(s: &str) -> (v: Vec<char>)
    ensures
        v@ == s@,
{
    let n = s.unicode_len();
    let mut v: Vec<char> = Vec::new();
    let mut i: usize = 0;
    while i < n
        invariant
            i <= n,
            n == s@.len(),
            v@ == s@.subrange(0, i as int),
        decreases n - i,
    {
        let c = s.get_char(i);
        v.push(c);
        proof {
            assert(s@.subrange(0, i + 1 as int) =~= s@.subrange(0, i as int).push(s@[i as int]));
        }
        i = i + 1;
    }
    proof {
        assert(s@.subrange(0, n as int) =~= s@);
    }
    v
}

fn dec_run_end_x(s: &Vec<char>, i: usize) -> (j: usize)
    requires
        i <= s@.len(),
    ensures
        j == dec_run_end(s@, i as int),
        i <= j <= s@.len(),
    decreases s@.len() - i,
{
    if i < s.len() && '0' <= s[i] && s[i] <= '9' {
        dec_run_end_x(s, i + 1)
    } else {
        i
    }
}

fn hex_run_end_x(s: &Vec<char>, i: usize) -> (j: usize)
    requires
        i <= s@.len(),
    ensures
        j == hex_run_end(s@, i as int),
        i <= j <= s@.len(),
    decreases s@.len() - i,
{
    if i < s.len() && (('0' <= s[i] && s[i] <= '9') || ('a' <= s[i] && s[i] <= 'f') || ('A' <= s[i]
        && s[i] <= 'F')) {
        hex_run_end_x(s, i + 1)
    } else {
        i
    }
}

fn dec_value_x(s: &Vec<char>, i: usize, j: usize) -> (v: u32)
    requires
        i <= j <= s@.len(),
        j - i <= 3,
        forall|k: int| i <= k < j ==> is_dec_digit(#[trigger] s@[k]),
    ensures
        v == dec_value(s@, i as int, j as int),
        v < 1000,
    decreases j - i,
{
    proof {
        reveal_with_fuel(ten_pow, 5);
        lemma_dec_value_bound(s@, i as int, j as int);
        if i < j {
            lemma_dec_value_bound(s@, i as int, j - 1 as int);
        }
    }
    if i < j {
        let lead = dec_value_x(s, i, j - 1);
        let c = s[j - 1];
        lead * 10 + (c as u32 - '0' as u32)
    } else {
        0
    }
}

fn hex_value_x(s: &Vec<char>, i: usize, j: usize) -> (v: u16)
    requires
        i <= j <= s@.len(),
        j - i <= 4,
        forall|k: int| i <= k < j ==> is_hex_digit(#[trigger] s@[k]),
    ensures
        v == hex_value(s@, i as int, j as int),
    decreases j - i,
{
    proof {
        reveal_with_fuel(sixteen_pow, 6);
        lemma_hex_value_bound(s@, i as int, j as int);
        if i < j {
            lemma_hex_value_bound(s@, i as int, j - 1 as int);
        }
    }
    if i < j {
        let lead = hex_value_x(s, i, j - 1);
        let c = s[j - 1];
        let d: u16 = if '0' <= c && c <= '9' {
            (c as u32 - '0' as u32) as u16
        } else if 'a' <= c && c <= 'f' {
            (10 + (c as u32 - 'a' as u32)) as u16
        } else {
            (10 + (c as u32 - 'A' as u32)) as u16
        };
        lead * 16 + d
    } else {
        0
    }
}

fn v4_octet_x(s: &Vec<char>, i: usize) -> (r: Option<(u8, usize)>)
    requires
        i <= s@.len(),
    ensures
        r matches Some((v, j)) ==> v4_octet_at(s@, i as int) == Some((v, j as int)) && i < j
            <= s@.len(),
        r is None ==> v4_octet_at(s@, i as int) is None,
{
    let j = dec_run_end_x(s, i);
    proof {
        lemma_dec_run_digits(s@, i as int);
    }
    if 1 <= j - i && j - i <= 3 && !(j - i > 1 && s[i] == '0') {
        let v = dec_value_x(s, i, j);
        if v <= 255 {
            Some((v as u8, j))
        } else {
            None
        }
    } else {
        None
    }
}

fn hex_group_x(s: &Vec<char>, i: usize) -> (r: Option<(u16, usize)>)
    requires
        i <= s@.len(),
    ensures
        r matches Some((v, j)) ==> hex_group_at(s@, i as int) == Some((v, j as int)) && i < j
            <= s@.len(),
        r is None ==> hex_group_at(s@, i as int) is None,
{
    let j = hex_run_end_x(s, i);
    proof {
        lemma_hex_run_digits(s@, i as int);
    }
    if 1 <= j - i && j - i <= 4 {
        let v = hex_value_x(s, i, j);
        Some((v, j))
    } else {
        None
    }
}

fn parse_v4_at_x(s: &Vec<char>, i: usize) -> (r: Option<((u8, u8, u8, u8), usize)>)
    requires
        i <= s@.len(),
    ensures
        r matches Some((o, j)) ==> parse_v4_at(s@, i as int) == Some((o, j as int)) && i < j
            <= s@.len(),
        r is None ==> parse_v4_at(s@, i as int) is None,
{
    match v4_octet_x(s, i) {
        None => None,
        Some((a, i1)) => {
            if i1 < s.len() && s[i1] == '.' {
                match v4_octet_x(s, i1 + 1) {
                    None => None,
                    Some((b, i2)) => {
                        if i2 < s.len() && s[i2] == '.' {
                            match v4_octet_x(s, i2 + 1) {
                                None => None,
                                Some((c, i3)) => {
                                    if i3 < s.len() && s[i3] == '.' {
                                        match v4_octet_x(s, i3 + 1) {
                                            None => None,
                                            Some((d, i4)) => Some(((a, b, c, d), i4)),
                                        }
                                    } else {
                                        None
                                    }
                                },
                            }
                        } else {
                            None
                        }
                    },
                }
            } else {
                None
            }
        },
    }
}

fn read_groups_x(s: &Vec<char>, i: usize, first: bool, max: usize) -> (r: (Vec<u16>, usize, bool))
    requires
        i <= s@.len(),
        max <= 8,
    ensures
        ({
            let (gs, k, v4) = read_groups(s@, i as int, first, max as int);
            &&& r.0@ == gs
            &&& r.1 == k
            &&& r.2 == v4
            &&& i <= r.1 <= s@.len()
            &&& r.0@.len() <= max
        }),
    decreases max,
{
    if max == 0 {
        (Vec::new(), i, false)
    } else {
        let sep_ok = first || (i < s.len() && s[i] == ':');
        if !sep_ok {
            (Vec::new(), i, false)
        } else {
            let p = if first {
                i
            } else {
                i + 1
            };
            let v4r = if max >= 2 {
                parse_v4_at_x(s, p)
            } else {
                None
            };
            match v4r {
                Some(((a, b, c, d), j)) => {
                    let mut gs: Vec<u16> = Vec::new();
                    gs.push((a as u16) * 256 + (b as u16));
                    gs.push((c as u16) * 256 + (d as u16));
                    proof {
                        assert(gs@ =~= seq![
                            ((a as u16) * 256 + (b as u16)) as u16,
                            ((c as u16) * 256 + (d as u16)) as u16,
                        ]);
                    }
                    (gs, j, true)
                },
                None => {
                    match hex_group_x(s, p) {
                        None => (Vec::new(), i, false),
                        Some((g, j)) => {
                            let (mut rest, k, v4) = read_groups_x(s, j, false, max - 1);
                            let mut gs: Vec<u16> = Vec::new();
                            gs.push(g);
                            gs.append(&mut rest);
                            proof {
                                let (sgs, sk, sv4) = read_groups(s@, i as int, first, max as int);
                                assert(gs@ =~= sgs);
                            }
                            (gs, k, v4)
                        },
                    }
                },
            }
        }
    }
}

fn parse_v6_full_x(s: &Vec<char>) -> (r: Option<Vec<u16>>)
    ensures
        r matches Some(g) ==> parse_v6_full(s@) == Some(g@) && g@.len() == 8,
        r is None ==> parse_v6_full(s@) is None,
{
    let (head, i, head_v4) = read_groups_x(s, 0, true, 8);
    if head.len() == 8 {
        if i == s.len() {
            Some(head)
        } else {
            None
        }
    } else if head_v4 {
        None
    } else if i < s.len() && i + 1 < s.len() && s[i] == ':' && s[i + 1] == ':' {
        let tail_max = 8 - head.len() - 1;
        let (tail, j, _) = read_groups_x(s, i + 2, true, tail_max);
        if j == s.len() {
            let ghost spec_head = head@;
            let ghost spec_tail = tail@;
            let zcount = 8 - head.len() - tail.len();
            let mut g = head;
            let mut z: usize = 0;
            while z < zcount
                invariant
                    z <= zcount,
                    g@ == spec_head + zeros16(z as int),
                    g@.len() == spec_head.len() + z,
                decreases zcount - z,
            {
                g.push(0);
                z = z + 1;
            }
            let mut t: usize = 0;
            while t < tail.len()
                invariant
                    t <= tail.len(),
                    tail@ == spec_tail,
                    g@ == spec_head + zeros16(zcount as int) + spec_tail.take(t as int),
                    g@.len() == spec_head.len() + zcount + t,
                decreases tail.len() - t,
            {
                let x = tail[t];
                g.push(x);
                proof {
                    assert(spec_tail.take(t + 1 as int) =~= spec_tail.take(t as int).push(
                        spec_tail[t as int],
                    ));
                }
                t = t + 1;
            }
            proof {
                assert(spec_tail.take(spec_tail.len() as int) =~= spec_tail);
                assert(g@ == spec_head + zeros16(zcount as int) + spec_tail);
                assert(parse_v6_full(s@) == Some(g@));
            }
            Some(g)
        } else {
            None
        }
    } else {
        None
    }
}

// ---------------------------------------------------------------------------
// Rendering the normalized key component, at the specification level.
// ---------------------------------------------------------------------------

pub open spec fn dec_digit_char(d: int) -> char {
    if d == 0 {
        '0'
    } else if d == 1 {
        '1'
    } else if d == 2 {
        '2'
    } else if d == 3 {
        '3'
    } else if d == 4 {
        '4'
    } else if d == 5 {
        '5'
    } else if d == 6 {
        '6'
    } else if d == 7 {
        '7'
    } else if d == 8 {
        '8'
    } else {
        '9'
    }
}

pub open spec fn hex_digit_char(d: int) -> char {
    if d < 10 {
        dec_digit_char(d)
    } else if d == 10 {
        'a'
    } else if d == 11 {
        'b'
    } else if d == 12 {
        'c'
    } else if d == 13 {
        'd'
    } else if d == 14 {
        'e'
    } else {
        'f'
    }
}

/// `n` in decimal, without leading zeros (for octets, 0 to 255).
pub open spec fn dec_text(n: int) -> Seq<char> {
    if n >= 100 {
        seq![dec_digit_char(n / 100), dec_digit_char((n / 10) % 10), dec_digit_char(n % 10)]
    } else if n >= 10 {
        seq![dec_digit_char(n / 10), dec_digit_char(n % 10)]
    } else {
        seq![dec_digit_char(n)]
    }
}

/// `n` in lowercase hexadecimal, without leading zeros (for groups, 0 to
/// 0xffff).
pub open spec fn hex_text(n: int) -> Seq<char> {
    if n >= 0x1000 {
        seq![
            hex_digit_char(n / 0x1000),
            hex_digit_char((n / 0x100) % 16),
            hex_digit_char((n / 16) % 16),
            hex_digit_char(n % 16),
        ]
    } else if n >= 0x100 {
        seq![hex_digit_char(n / 0x100), hex_digit_char((n / 16) % 16), hex_digit_char(n % 16)]
    } else if n >= 16 {
        seq![hex_digit_char(n / 16), hex_digit_char(n % 16)]
    } else {
        seq![hex_digit_char(n)]
    }
}

/// Dotted-decimal text of an IPv4 address.
pub open spec fn v4_text(a: u8, b: u8, c: u8, d: u8) -> Seq<char> {
    dec_text(a as int) + seq!['.'] + dec_text(b as int) + seq!['.'] + dec_text(c as int)
        + seq!['.'] + dec_text(d as int)
}

/// Where the zero run that `::` will stand for begins, among the four
/// leading groups of an address whose lower 64 bits are zero: the first
/// index from which every group through the fourth is zero.
pub open spec fn zero_run_start(g0: u16, g1: u16, g2: u16, g3: u16) -> int {
    if g0 == 0 && g1 == 0 && g2 == 0 && g3 == 0 {
        0
    } else if g1 == 0 && g2 == 0 && g3 == 0 {
        1
    } else if g2 == 0 && g3 == 0 {
        2
    } else if g3 == 0 {
        3
    } else {
        4
    }
}

/// The first `j` of the four leading groups, in hexadecimal, joined by `:`.
pub open spec fn prefix_groups_text(g0: u16, g1: u16, g2: u16, g3: u16, j: int) -> Seq<char>
    decreases j,
{
    if j <= 0 {
        Seq::empty()
    } else if j == 1 {
        hex_text(g0 as int)
    } else if j == 2 {
        prefix_groups_text(g0, g1, g2, g3, 1) + seq![':'] + hex_text(g1 as int)
    } else if j == 3 {
        prefix_groups_text(g0, g1, g2, g3, 2) + seq![':'] + hex_text(g2 as int)
    } else {
        prefix_groups_text(g0, g1, g2, g3, 3) + seq![':'] + hex_text(g3 as int)
    }
}

/// The `/64` network of an IPv6 address as text: the leading groups up to
/// the zero run, then `::`, then `/64`.
pub open spec fn grouped_v6_text(g0: u16, g1: u16, g2: u16, g3: u16) -> Seq<char> {
    prefix_groups_text(g0, g1, g2, g3, zero_run_start(g0, g1, g2, g3)) + seq![
        ':',
        ':',
        '/',
        '6',
        '4',
    ]
}

/// The normalized key component for a client address: dotted-decimal for an
/// IPv4 address or the IPv4 address embedded in an IPv4-mapped IPv6 one,
/// the `/64` network for any other IPv6 address, and nothing for text that
/// is no IP address at all.
pub open spec fn ip_key_spec(s: Seq<char>) -> Option<Seq<char>> {
    match parse_v4_full(s) {
        Some((a, b, c, d)) => Some(v4_text(a, b, c, d)),
        None => match parse_v6_full(s) {
            Some(g) => match v6_to_v4(g) {
                Some((a, b, c, d)) => Some(v4_text(a, b, c, d)),
                None => Some(grouped_v6_text(g[0], g[1], g[2], g[3])),
            },
            None => None,
        },
    }
}

// ---------------------------------------------------------------------------
// Rendering, executable.
// ---------------------------------------------------------------------------

fn dec_digit_str(d: u8) -> (t: &'static str)
    requires
        d < 10,
    ensures
        t@ == seq![dec_digit_char(d as int)],
{
    let t: &'static str = match d {
        0 => "0",
        1 => "1",
        2 => "2",
        3 => "3",
        4 => "4",
        5 => "5",
        6 => "6",
        7 => "7",
        8 => "8",
        _ => "9",
    };
    proof {
        reveal_strlit("0");
        reveal_strlit("1");
        reveal_strlit("2");
        reveal_strlit("3");
        reveal_strlit("4");
        reveal_strlit("5");
        reveal_strlit("6");
        reveal_strlit("7");
        reveal_strlit("8");
        reveal_strlit("9");
        assert(t@ =~= seq![dec_digit_char(d as int)]);
    }
    t
}

fn hex_digit_str(d: u8) -> (t: &'static str)
    requires
        d < 16,
    ensures
        t@ == seq![hex_digit_char(d as int)],
{
    if d < 10 {
        dec_digit_str(d)
    } else {
        let t: &'static str = match d {
            10 => "a",
            11 => "b",
            12 => "c",
            13 => "d",
            14 => "e",
            _ => "f",
        };
        proof {
            reveal_strlit("a");
            reveal_strlit("b");
            reveal_strlit("c");
            reveal_strlit("d");
            reveal_strlit("e");
            reveal_strlit("f");
            assert(t@ =~= seq![hex_digit_char(d as int)]);
        }
        t
    }
}

fn dec_text_x(n: u8) -> (t: String)
    ensures
        t@ == dec_text(n as int),
{
    let mut t = String::new();
    if n >= 100 {
        t.append(dec_digit_str(n / 100));
        t.append(dec_digit_str((n / 10) % 10));
        t.append(dec_digit_str(n % 10));
    } else if n >= 10 {
        t.append(dec_digit_str(n / 10));
        t.append(dec_digit_str(n % 10));
    } else {
        t.append(dec_digit_str(n));
    }
    proof {
        assert(t@ =~= dec_text(n as int));
    }
    t
}

fn hex_text_x(n: u16) -> (t: String)
    ensures
        t@ == hex_text(n as int),
{
    let mut t = String::new();
    if n >= 0x1000 {
        t.append(hex_digit_str((n / 0x1000) as u8));
        t.append(hex_digit_str(((n / 0x100) % 16) as u8));
        t.append(hex_digit_str(((n / 16) % 16) as u8));
        t.append(hex_digit_str((n % 16) as u8));
    } else if n >= 0x100 {
        t.append(hex_digit_str((n / 0x100) as u8));
        t.append(hex_digit_str(((n / 16) % 16) as u8));
        t.append(hex_digit_str((n % 16) as u8));
    } else if n >= 16 {
        t.append(hex_digit_str((n / 16) as u8));
        t.append(hex_digit_str((n % 16) as u8));
    } else {
        t.append(hex_digit_str(n as u8));
    }
    proof {
        assert(t@ =~= hex_text(n as int));
    }
    t
}

fn v4_text_x(a: u8, b: u8, c: u8, d: u8) -> (t: String)
    ensures
        t@ == v4_text(a, b, c, d),
{
    let mut t = dec_text_x(a);
    t.append(".");
    let tb = dec_text_x(b);
    t.append(tb.as_str());
    t.append(".");
    let tc = dec_text_x(c);
    t.append(tc.as_str());
    t.append(".");
    let td = dec_text_x(d);
    t.append(td.as_str());
    proof {
        reveal_strlit(".");
        assert(t@ =~= v4_text(a, b, c, d));
    }
    t
}

fn grouped_v6_text_x(g0: u16, g1: u16, g2: u16, g3: u16) -> (t: String)
    ensures
        t@ == grouped_v6_text(g0, g1, g2, g3),
{
    let mut t = String::new();
    let j: usize = if g0 == 0 && g1 == 0 && g2 == 0 && g3 == 0 {
        0
    } else if g1 == 0 && g2 == 0 && g3 == 0 {
        1
    } else if g2 == 0 && g3 == 0 {
        2
    } else if g3 == 0 {
        3
    } else {
        4
    };
    if j >= 1 {
        let h = hex_text_x(g0);
        t.append(h.as_str());
    }
    if j >= 2 {
        t.append(":");
        let h = hex_text_x(g1);
        t.append(h.as_str());
    }
    if j >= 3 {
        t.append(":");
        let h = hex_text_x(g2);
        t.append(h.as_str());
    }
    if j >= 4 {
        t.append(":");
        let h = hex_text_x(g3);
        t.append(h.as_str());
    }
    t.append("::/64");
    proof {
        reveal_strlit(":");
        reveal_strlit("::/64");
        reveal_with_fuel(prefix_groups_text, 5);
        assert(j == zero_run_start(g0, g1, g2, g3));
        assert(t@ =~= grouped_v6_text(g0, g1, g2, g3));
    }
    t
}

/// The rate-limit key component for a client address, normalized: exactly
/// [`ip_key_spec`] of the given text, or an error where the text is no IP
/// address.
pub fn ip_key(ip_str: &str) -> (r: Result<String, InvalidIpError>)
    ensures
        r matches Ok(k) ==> ip_key_spec(ip_str@) == Some(k@),
        (r is Err) == (ip_key_spec(ip_str@) is None),
{
    let s = chars_of(ip_str);
    let v4 = match parse_v4_at_x(&s, 0) {
        Some((o, j)) => if j == s.len() {
            Some(o)
        } else {
            None
        },
        None => None,
    };
    proof {
        assert(v4 == parse_v4_full(s@));
    }
    match v4 {
        Some((a, b, c, d)) => Ok(v4_text_x(a, b, c, d)),
        None => {
            match parse_v6_full_x(&s) {
                Some(g) => {
                    if g[0] == 0 && g[1] == 0 && g[2] == 0 && g[3] == 0 && g[4] == 0 && g[5]
                        == 0xffff {
                        let a = (g[6] / 256) as u8;
                        let b = (g[6] % 256) as u8;
                        let c = (g[7] / 256) as u8;
                        let d = (g[7] % 256) as u8;
                        Ok(v4_text_x(a, b, c, d))
                    } else {
                        Ok(grouped_v6_text_x(g[0], g[1], g[2], g[3]))
                    }
                },
                None => Err(InvalidIpError),
            }
        },
    }
}

// ---------------------------------------------------------------------------
// Assembling the key.
// ---------------------------------------------------------------------------

/// The given components joined by `sep`.
pub open spec fn joined(parts: Seq<Seq<char>>, sep: char) -> Seq<char>
    decreases parts.len(),
{
    if parts.len() == 0 {
        Seq::empty()
    } else if parts.len() == 1 {
        parts[0]
    } else {
        joined(parts.drop_last(), sep) + seq![sep] + parts.last()
    }
}

fn join_dash(parts: &Vec<String>) -> (t: String)
    ensures
        t@ == joined(parts.deep_view(), '-'),
{
    let ghost dv = parts.deep_view();
    let mut t = String::new();
    let mut i: usize = 0;
    while i < parts.len()
        invariant
            i <= parts@.len(),
            dv == parts.deep_view(),
            dv.len() == parts@.len(),
            t@ == joined(dv.take(i as int), '-'),
        decreases parts@.len() - i,
    {
        if i > 0 {
            t.append("-");
        }
        t.append(parts[i].as_str());
        proof {
            reveal_strlit("-");
            assert(dv.take(i + 1 as int).drop_last() =~= dv.take(i as int));
            assert(dv.take(i + 1 as int).last() == dv[i as int]);
            assert(dv[i as int] == parts@[i as int]@);
            assert(t@ =~= joined(dv.take(i + 1 as int), '-'));
        }
        i = i + 1;
    }
    proof {
        assert(dv.take(dv.len() as int) =~= dv);
    }
    t
}

/// Utility to create an input function that produces a [`SimpleInput`].
///
/// You should take care to ensure that you are producing unique keys per
/// backend.
pub struct SimpleInputFunctionBuilder {
    interval: u64,
    max_requests: u64,
    real_ip_key: bool,
    peer_ip_key: bool,
    path_key: bool,
    custom_key: Option<String>,
}

/// The ordered key components a builder derives from one request, or
/// nothing where a required client address does not normalize.
pub open spec fn components_spec(
    b: SimpleInputFunctionBuilder,
    real_ip: Option<Seq<char>>,
    peer_ip: Option<Seq<char>>,
    path: Seq<char>,
    custom: Option<Seq<char>>,
) -> Option<Seq<Seq<char>>> {
    let cs0: Seq<Seq<char>> = match b.custom_key_spec() {
        Some(k) => seq![k],
        None => Seq::empty(),
    };
    if b.uses_real_ip() && (real_ip is None || ip_key_spec(real_ip->0) is None) {
        None
    } else if b.uses_peer_ip() && (peer_ip is None || ip_key_spec(peer_ip->0) is None) {
        None
    } else {
        let cs1 = if b.uses_real_ip() {
            cs0.push(ip_key_spec(real_ip->0)->0)
        } else {
            cs0
        };
        let cs2 = if b.uses_peer_ip() {
            cs1.push(ip_key_spec(peer_ip->0)->0)
        } else {
            cs1
        };
        let cs3 = if b.uses_path() {
            cs2.push(path)
        } else {
            cs2
        };
        let cs4 = match custom {
            Some(c) => cs3.push(c),
            None => cs3,
        };
        Some(cs4)
    }
}

impl SimpleInputFunctionBuilder {
    pub closed spec fn interval_spec(&self) -> u64 {
        self.interval
    }

    pub closed spec fn max_requests_spec(&self) -> u64 {
        self.max_requests
    }

    pub closed spec fn uses_real_ip(&self) -> bool {
        self.real_ip_key
    }

    pub closed spec fn uses_peer_ip(&self) -> bool {
        self.peer_ip_key
    }

    pub closed spec fn uses_path(&self) -> bool {
        self.path_key
    }

    pub closed spec fn custom_key_spec(&self) -> Option<Seq<char>> {
        match self.custom_key {
            Some(k) => Some(k@),
            None => None,
        }
    }

    /// A builder for the given window (milliseconds) and permitted count,
    /// with no key components configured yet.
    pub fn new(interval: u64, max_requests: u64) -> (b: Self)
        ensures
            b.interval_spec() == interval,
            b.max_requests_spec() == max_requests,
            !b.uses_real_ip(),
            !b.uses_peer_ip(),
            !b.uses_path(),
            b.custom_key_spec() is None,
    {
        Self {
            interval,
            max_requests,
            real_ip_key: false,
            peer_ip_key: false,
            path_key: false,
            custom_key: None,
        }
    }

    /// Adds the client's real IP to the rate limiting key.
    ///
    /// # Security
    ///
    /// The forwarded client address is only trustworthy when the service
    /// runs behind a proxy under your control; it is a different trust
    /// boundary from the peer address and must not be conflated with it.
    ///
    /// # IPv6
    ///
    /// IPv6 addresses will be grouped into a single key per /64
    pub fn real_ip_key(self) -> (b: Self)
        ensures
            b.uses_real_ip(),
            b.uses_peer_ip() == self.uses_peer_ip(),
            b.uses_path() == self.uses_path(),
            b.interval_spec() == self.interval_spec(),
            b.max_requests_spec() == self.max_requests_spec(),
            b.custom_key_spec() == self.custom_key_spec(),
    {
        Self { real_ip_key: true, ..self }
    }

    /// Adds the connection peer IP to the rate limiting key.
    ///
    /// This is suitable when clients connect directly to the service.
    ///
    /// # IPv6
    ///
    /// IPv6 addresses will be grouped into a single key per /64
    pub fn peer_ip_key(self) -> (b: Self)
        ensures
            b.uses_peer_ip(),
            b.uses_real_ip() == self.uses_real_ip(),
            b.uses_path() == self.uses_path(),
            b.interval_spec() == self.interval_spec(),
            b.max_requests_spec() == self.max_requests_spec(),
            b.custom_key_spec() == self.custom_key_spec(),
    {
        Self { peer_ip_key: true, ..self }
    }

    /// Add the request path to the rate limiting key
    pub fn path_key(self) -> (b: Self)
        ensures
            b.uses_path(),
            b.uses_real_ip() == self.uses_real_ip(),
            b.uses_peer_ip() == self.uses_peer_ip(),
            b.interval_spec() == self.interval_spec(),
            b.max_requests_spec() == self.max_requests_spec(),
            b.custom_key_spec() == self.custom_key_spec(),
    {
        Self { path_key: true, ..self }
    }

    /// Add a custom component to the rate limiting key
    pub fn custom_key(self, key: &str) -> (b: Self)
        ensures
            b.custom_key_spec() == Some(key@),
            b.uses_real_ip() == self.uses_real_ip(),
            b.uses_peer_ip() == self.uses_peer_ip(),
            b.uses_path() == self.uses_path(),
            b.interval_spec() == self.interval_spec(),
            b.max_requests_spec() == self.max_requests_spec(),
    {
        Self { custom_key: Some(key.to_owned()), ..self }
    }

    /// Derive one input from the pieces of an incoming operation: the
    /// forwarded client address and the direct peer address (each required
    /// exactly when the corresponding component is configured), the
    /// operation's path, and an optionally precomputed dynamic component.
    /// The configured components, addresses normalized, joined by `-`, form
    /// the key; a malformed address fails the derivation.
    pub fn build_input(
        &self,
        real_ip: Option<&str>,
        peer_ip: Option<&str>,
        path: &str,
        custom: Option<String>,
    ) -> (r: Result<SimpleInput, InvalidIpError>)
        requires
            self.uses_real_ip() ==> real_ip is Some,
            self.uses_peer_ip() ==> peer_ip is Some,
        ensures
            ({
                let ri: Option<Seq<char>> = match real_ip {
                    Some(s) => Some(s@),
                    None => None,
                };
                let pi: Option<Seq<char>> = match peer_ip {
                    Some(s) => Some(s@),
                    None => None,
                };
                let cu: Option<Seq<char>> = match custom {
                    Some(c) => Some(c@),
                    None => None,
                };
                let cs = components_spec(*self, ri, pi, path@, cu);
                match r {
                    Ok(input) => {
                        &&& cs is Some
                        &&& input.interval == self.interval_spec()
                        &&& input.max_requests == self.max_requests_spec()
                        &&& input.key@ == joined(cs->0, '-')
                    },
                    Err(_) => cs is None,
                }
            }),
    {
        let ghost ri: Option<Seq<char>> = match real_ip {
            Some(s) => Some(s@),
            None => None,
        };
        let ghost pi: Option<Seq<char>> = match peer_ip {
            Some(s) => Some(s@),
            None => None,
        };
        let ghost cu: Option<Seq<char>> = match &custom {
            Some(c) => Some(c@),
            None => None,
        };
        let mut components: Vec<String> = Vec::new();
        match &self.custom_key {
            Some(ck) => {
                let c = ck.clone();
                components.push(c);
            },
            None => {},
        }
        if self.real_ip_key {
            match ip_key(real_ip.unwrap()) {
                Ok(k) => components.push(k),
                Err(e) => {
                    return Err(e);
                },
            }
        }
        if self.peer_ip_key {
            match ip_key(peer_ip.unwrap()) {
                Ok(k) => components.push(k),
                Err(e) => {
                    return Err(e);
                },
            }
        }
        if self.path_key {
            components.push(path.to_owned());
        }
        match custom {
            Some(c) => components.push(c),
            None => {},
        }
        proof {
            assert(components.deep_view() =~= components_spec(*self, ri, pi, path@, cu)->0);
        }
        let key = join_dash(&components);
        Ok(SimpleInput { interval: self.interval, max_requests: self.max_requests, key })
    }
}

} // verus!
