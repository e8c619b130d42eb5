//! Numeric IP-address literals.
//!
//! Only literal addresses are accepted — no name resolution of any kind.
//! The grammar is the standard one:
//!
//! - IPv4: four decimal octets separated by `.`; each octet is one to
//!   three digits, has no leading zero, and is at most 255.
//! - IPv6: 16-bit hexadecimal groups of one to four digits separated by
//!   `:`; exactly eight groups, or fewer with one `::` standing for a
//!   run of at least one zero group; the final 32 bits may instead be
//!   written as an embedded IPv4 literal.
//!
//! The grammar is unambiguous, because `.` and `:` are not digits: every
//! digit run below is maximal, so the spec functions read the literal
//! deterministically, and the executable parsers are proved to return
//! exactly what the spec functions read.

use vstd::prelude::*;
use crate::address::IpAddress;

verus! {

/// A decimal digit `0`..`9`.
pub open spec fn is_dec_digit(c: char) -> bool {
    48 <= c as int && c as int <= 57
}

/// The value of a decimal digit.
pub open spec fn dec_digit_val(c: char) -> int {
    c as int - 48
}

/// A hexadecimal digit `0`..`9`, `a`..`f` or `A`..`F`.
pub open spec fn is_hex_digit(c: char) -> bool {
    is_dec_digit(c) || (97 <= c as int && c as int <= 102) || (65 <= c as int && c as int <= 70)
}

/// The value of a hexadecimal digit.
pub open spec fn hex_digit_val(c: char) -> int {
    if is_dec_digit(c) {
        c as int - 48
    } else if 97 <= c as int && c as int <= 102 {
        c as int - 97 + 10
    } else {
        c as int - 65 + 10
    }
}

/// The end of the maximal run of decimal digits of `s` that starts at
/// `i` and stays short of `end`.
pub open spec fn dec_run_end(s: Seq<char>, i: int, end: int) -> int
    decreases end - i,
{
    if 0 <= i && i < end && end <= s.len() && is_dec_digit(s[i]) {
        dec_run_end(s, i + 1, end)
    } else {
        i
    }
}

/// The end of the maximal run of hexadecimal digits of `s` that starts
/// at `i` and stays short of `end`.
pub open spec fn hex_run_end(s: Seq<char>, i: int, end: int) -> int
    decreases end - i,
{
    if 0 <= i && i < end && end <= s.len() && is_hex_digit(s[i]) {
        hex_run_end(s, i + 1, end)
    } else {
        i
    }
}

/// The value of the decimal digits `s[i .. e)`, most significant first.
pub open spec fn dec_value(s: Seq<char>, i: int, e: int) -> int
    decreases e - i,
{
    if i < e {
        dec_value(s, i, e - 1) * 10 + dec_digit_val(s[e - 1])
    } else {
        0
    }
}

/// The value of the hexadecimal digits `s[i .. e)`, most significant
/// first.
pub open spec fn hex_value(s: Seq<char>, i: int, e: int) -> int
    decreases e - i,
{
    if i < e {
        hex_value(s, i, e - 1) * 16 + hex_digit_val(s[e - 1])
    } else {
        0
    }
}

/// A decimal octet stands at `i`: its digit run is one to three digits,
/// has no leading zero, and its value is at most 255.
pub open spec fn octet_ok(s: Seq<char>, i: int, end: int) -> bool {
    let e = dec_run_end(s, i, end);
    1 <= e - i && e - i <= 3 && (e - i > 1 ==> s[i] != '0') && dec_value(s, i, e) <= 255
}

/// An IPv4 literal fills `s[i .. end)` exactly: four octets separated
/// by `.`.
pub open spec fn is_ipv4_at(s: Seq<char>, i: int, end: int) -> bool {
    let e1 = dec_run_end(s, i, end);
    let e2 = dec_run_end(s, e1 + 1, end);
    let e3 = dec_run_end(s, e2 + 1, end);
    let e4 = dec_run_end(s, e3 + 1, end);
    octet_ok(s, i, end) && e1 < end && s[e1] == '.' && octet_ok(s, e1 + 1, end) && e2 < end
        && s[e2] == '.' && octet_ok(s, e2 + 1, end) && e3 < end && s[e3] == '.' && octet_ok(
        s,
        e3 + 1,
        end,
    ) && e4 == end
}

/// The first octet of the IPv4 literal at `i`.
pub open spec fn ipv4_o1(s: Seq<char>, i: int, end: int) -> int {
    dec_value(s, i, dec_run_end(s, i, end))
}

/// The second octet of the IPv4 literal at `i`.
pub open spec fn ipv4_o2(s: Seq<char>, i: int, end: int) -> int {
    let e1 = dec_run_end(s, i, end);
    dec_value(s, e1 + 1, dec_run_end(s, e1 + 1, end))
}

/// The third octet of the IPv4 literal at `i`.
pub open spec fn ipv4_o3(s: Seq<char>, i: int, end: int) -> int {
    let e1 = dec_run_end(s, i, end);
    let e2 = dec_run_end(s, e1 + 1, end);
    dec_value(s, e2 + 1, dec_run_end(s, e2 + 1, end))
}

/// The fourth octet of the IPv4 literal at `i`.
pub open spec fn ipv4_o4(s: Seq<char>, i: int, end: int) -> int {
    let e1 = dec_run_end(s, i, end);
    let e2 = dec_run_end(s, e1 + 1, end);
    let e3 = dec_run_end(s, e2 + 1, end);
    dec_value(s, e3 + 1, dec_run_end(s, e3 + 1, end))
}

/// The address denoted by the IPv4 literal at `i`.
pub open spec fn ipv4_value(s: Seq<char>, i: int, end: int) -> IpAddress {
    IpAddress::V4(
        ipv4_o1(s, i, end) as u8,
        ipv4_o2(s, i, end) as u8,
        ipv4_o3(s, i, end) as u8,
        ipv4_o4(s, i, end) as u8,
    )
}

/// The high 16-bit group of an embedded IPv4 literal.
pub open spec fn v4_high(s: Seq<char>, i: int, end: int) -> u16 {
    (ipv4_o1(s, i, end) * 256 + ipv4_o2(s, i, end)) as u16
}

/// The low 16-bit group of an embedded IPv4 literal.
pub open spec fn v4_low(s: Seq<char>, i: int, end: int) -> u16 {
    (ipv4_o3(s, i, end) * 256 + ipv4_o4(s, i, end)) as u16
}

/// The maximal digit run starting at `i` stays between `i` and `end`,
/// holds digits only, and ends at `end` or at a non-digit.
proof fn lemma_dec_run_end(s: Seq<char>, i: int, end: int)
    requires
        0 <= i <= end <= s.len(),
    ensures
        i <= dec_run_end(s, i, end) <= end,
        forall|k: int| i <= k < dec_run_end(s, i, end) ==> is_dec_digit(s[k]),
        dec_run_end(s, i, end) < end ==> !is_dec_digit(s[dec_run_end(s, i, end)]),
    decreases end - i,
{
    if i < end && is_dec_digit(s[i]) {
        lemma_dec_run_end(s, i + 1, end);
    }
}

/// As `lemma_dec_run_end`, for hexadecimal runs.
proof fn lemma_hex_run_end(s: Seq<char>, i: int, end: int)
    requires
        0 <= i <= end <= s.len(),
    ensures
        i <= hex_run_end(s, i, end) <= end,
        forall|k: int| i <= k < hex_run_end(s, i, end) ==> is_hex_digit(s[k]),
        hex_run_end(s, i, end) < end ==> !is_hex_digit(s[hex_run_end(s, i, end)]),
    decreases end - i,
{
    if i < end && is_hex_digit(s[i]) {
        lemma_hex_run_end(s, i + 1, end);
    }
}

/// Bounds on the value of up to three decimal digits.
proof fn lemma_dec_value_bound(s: Seq<char>, i: int, e: int)
    requires
        0 <= i <= e <= s.len(),
        e - i <= 3,
        forall|k: int| i <= k < e ==> is_dec_digit(s[k]),
    ensures
        0 <= dec_value(s, i, e),
        dec_value(s, i, e) <= 999,
        e - i <= 2 ==> dec_value(s, i, e) <= 99,
        e - i <= 1 ==> dec_value(s, i, e) <= 9,
        e == i ==> dec_value(s, i, e) == 0,
    decreases e - i,
{
    if i < e {
        lemma_dec_value_bound(s, i, e - 1);
    }
}

/// Bounds on the value of up to four hexadecimal digits.
proof fn lemma_hex_value_bound(s: Seq<char>, i: int, e: int)
    requires
        0 <= i <= e <= s.len(),
        e - i <= 4,
        forall|k: int| i <= k < e ==> is_hex_digit(s[k]),
    ensures
        0 <= hex_value(s, i, e),
        hex_value(s, i, e) <= 65535,
        e - i <= 3 ==> hex_value(s, i, e) <= 4095,
        e - i <= 2 ==> hex_value(s, i, e) <= 255,
        e - i <= 1 ==> hex_value(s, i, e) <= 15,
        e == i ==> hex_value(s, i, e) == 0,
    decreases e - i,
{
    if i < e {
        lemma_hex_value_bound(s, i, e - 1);
    }
}

/// Finds the end of the maximal decimal-digit run starting at `i`.
fn dec_run_end_exec(s: &str, i: usize, end: usize) -> (r: usize)
    requires
        i <= end,
        end <= s@.len(),
    ensures
        r as int == dec_run_end(s@, i as int, end as int),
        i <= r <= end,
    decreases end - i,
{
    proof {
        lemma_dec_run_end(s@, i as int, end as int);
    }
    if i < end {
        let cv = s.get_char(i) as u32;
        if 48 <= cv && cv <= 57 {
            dec_run_end_exec(s, i + 1, end)
        } else {
            i
        }
    } else {
        i
    }
}

/// Finds the end of the maximal hexadecimal-digit run starting at `i`.
fn hex_run_end_exec(s: &str, i: usize, end: usize) -> (r: usize)
    requires
        i <= end,
        end <= s@.len(),
    ensures
        r as int == hex_run_end(s@, i as int, end as int),
        i <= r <= end,
    decreases end - i,
{
    proof {
        lemma_hex_run_end(s@, i as int, end as int);
    }
    if i < end {
        let cv = s.get_char(i) as u32;
        if (48 <= cv && cv <= 57) || (97 <= cv && cv <= 102) || (65 <= cv && cv <= 70) {
            hex_run_end_exec(s, i + 1, end)
        } else {
            i
        }
    } else {
        i
    }
}

/// Reads the value of the decimal digits `s[i .. e)`.
fn dec_value_exec(s: &str, i: usize, e: usize) -> (r: u32)
    requires
        i <= e,
        e <= s@.len(),
        e - i <= 3,
        forall|k: int| i <= k < e ==> is_dec_digit(s@[k]),
    ensures
        r as int == dec_value(s@, i as int, e as int),
    decreases e - i,
{
    proof {
        lemma_dec_value_bound(s@, i as int, e as int);
        if i < e {
            lemma_dec_value_bound(s@, i as int, e as int - 1);
        }
    }
    if i < e {
        let rest = dec_value_exec(s, i, e - 1);
        let cv = s.get_char(e - 1) as u32;
        rest * 10 + (cv - 48)
    } else {
        0
    }
}

/// Reads the value of the hexadecimal digits `s[i .. e)`.
fn hex_value_exec(s: &str, i: usize, e: usize) -> (r: u16)
    requires
        i <= e,
        e <= s@.len(),
        e - i <= 4,
        forall|k: int| i <= k < e ==> is_hex_digit(s@[k]),
    ensures
        r as int == hex_value(s@, i as int, e as int),
    decreases e - i,
{
    proof {
        lemma_hex_value_bound(s@, i as int, e as int);
        if i < e {
            lemma_hex_value_bound(s@, i as int, e as int - 1);
        }
    }
    if i < e {
        let rest = hex_value_exec(s, i, e - 1);
        let cv = s.get_char(e - 1) as u32;
        let d: u16 = if 48 <= cv && cv <= 57 {
            (cv - 48) as u16
        } else if 97 <= cv && cv <= 102 {
            (cv - 97 + 10) as u16
        } else {
            (cv - 65 + 10) as u16
        };
        rest * 16 + d
    } else {
        0
    }
}

/// Reads the decimal octet at `i`, if one stands there.
fn octet_value_at(s: &str, i: usize, end: usize) -> (r: Option<u8>)
    requires
        i <= end,
        end <= s@.len(),
    ensures
        r is Some <==> octet_ok(s@, i as int, end as int),
        r matches Some(v) ==> v as int == dec_value(
            s@,
            i as int,
            dec_run_end(s@, i as int, end as int),
        ),
{
    let e = dec_run_end_exec(s, i, end);
    proof {
        lemma_dec_run_end(s@, i as int, end as int);
    }
    if e - i >= 1 && e - i <= 3 {
        if e - i > 1 && s.get_char(i) == '0' {
            None
        } else {
            let v = dec_value_exec(s, i, e);
            proof {
                lemma_dec_value_bound(s@, i as int, e as int);
            }
            if v <= 255 {
                Some(v as u8)
            } else {
                None
            }
        }
    } else {
        None
    }
}

/// The `:`-separated hexadecimal groups filling `s[i .. end)` exactly,
/// or `None` if none do.  The last group may instead be an embedded
/// IPv4 literal, which contributes two groups, when `allow_v4` holds.
pub open spec fn groups_at(s: Seq<char>, i: int, end: int, allow_v4: bool) -> Option<Seq<u16>>
    decreases end - i,
{
    let e = hex_run_end(s, i, end);
    if i < e && e < end && s[e] == '.' {
        if allow_v4 && is_ipv4_at(s, i, end) {
            Some(seq![v4_high(s, i, end), v4_low(s, i, end)])
        } else {
            None
        }
    } else if e == i || e - i > 4 {
        None
    } else if e == end {
        Some(seq![hex_value(s, i, e) as u16])
    } else if i < e && s[e] == ':' && e + 1 < end {
        match groups_at(s, e + 1, end, allow_v4) {
            Some(rest) => Some(seq![hex_value(s, i, e) as u16] + rest),
            None => None,
        }
    } else {
        None
    }
}

/// The first position at or after `i` where `::` stands in `s`, or -1.
pub open spec fn double_colon_pos(s: Seq<char>, i: int) -> int
    decreases s.len() - i,
{
    if 0 <= i && i + 1 < s.len() {
        if s[i] == ':' && s[i + 1] == ':' {
            i
        } else {
            double_colon_pos(s, i + 1)
        }
    } else {
        -1
    }
}

/// `n` zero groups.
pub open spec fn zero_groups(n: nat) -> Seq<u16> {
    Seq::new(n, |k: int| 0u16)
}

/// The eight 16-bit groups denoted by the IPv6 literal `s`, or `None`.
/// Either the groups fill the literal exactly, or one `::` stands for
/// the elided run of zero groups, which must have at least one member.
pub open spec fn ipv6_groups(s: Seq<char>) -> Option<Seq<u16>> {
    let len = s.len() as int;
    let dc = double_colon_pos(s, 0);
    if dc < 0 {
        match groups_at(s, 0, len, true) {
            Some(gs) => if gs.len() == 8 {
                Some(gs)
            } else {
                None
            },
            None => None,
        }
    } else {
        let head = if dc == 0 {
            Some(Seq::<u16>::empty())
        } else {
            groups_at(s, 0, dc, false)
        };
        let tail = if dc + 2 == len {
            Some(Seq::<u16>::empty())
        } else {
            groups_at(s, dc + 2, len, true)
        };
        match (head, tail) {
            (Some(h), Some(t)) => if h.len() + t.len() <= 7 {
                Some(h + zero_groups((8 - h.len() - t.len()) as nat) + t)
            } else {
                None
            },
            _ => None,
        }
    }
}

/// The address made of eight 16-bit groups.
pub open spec fn groups_to_v6(g: Seq<u16>) -> IpAddress {
    IpAddress::V6(g[0], g[1], g[2], g[3], g[4], g[5], g[6], g[7])
}

/// The address denoted by the literal `s`: an IPv4 literal if `s` is
/// one, else an IPv6 literal, else nothing.
pub open spec fn parse_ip(s: Seq<char>) -> Option<IpAddress> {
    if is_ipv4_at(s, 0, s.len() as int) {
        Some(ipv4_value(s, 0, s.len() as int))
    } else {
        match ipv6_groups(s) {
            Some(g) => Some(groups_to_v6(g)),
            None => None,
        }
    }
}

/// The four octets of an IPv4 literal are in range.
proof fn lemma_ipv4_octet_bounds(s: Seq<char>, i: int, end: int)
    requires
        0 <= i <= end <= s.len(),
        is_ipv4_at(s, i, end),
    ensures
        0 <= ipv4_o1(s, i, end) <= 255,
        0 <= ipv4_o2(s, i, end) <= 255,
        0 <= ipv4_o3(s, i, end) <= 255,
        0 <= ipv4_o4(s, i, end) <= 255,
{
    let e1 = dec_run_end(s, i, end);
    let e2 = dec_run_end(s, e1 + 1, end);
    let e3 = dec_run_end(s, e2 + 1, end);
    let e4 = dec_run_end(s, e3 + 1, end);
    lemma_dec_run_end(s, i, end);
    lemma_dec_value_bound(s, i, e1);
    lemma_dec_run_end(s, e1 + 1, end);
    lemma_dec_value_bound(s, e1 + 1, e2);
    lemma_dec_run_end(s, e2 + 1, end);
    lemma_dec_value_bound(s, e2 + 1, e3);
    lemma_dec_run_end(s, e3 + 1, end);
    lemma_dec_value_bound(s, e3 + 1, e4);
}

/// A found `::` is in bounds and made of two colons.
proof fn lemma_double_colon_pos(s: Seq<char>, i: int)
    requires
        0 <= i,
    ensures
        double_colon_pos(s, i) == -1 || (i <= double_colon_pos(s, i)
            && double_colon_pos(s, i) + 1 < s.len() && s[double_colon_pos(s, i)] == ':'
            && s[double_colon_pos(s, i) + 1] == ':'),
    decreases s.len() - i,
{
    if i + 1 < s.len() && !(s[i] == ':' && s[i + 1] == ':') {
        lemma_double_colon_pos(s, i + 1);
    }
}

/// Reads the IPv4 literal filling `s[i .. end)`, if one stands there.
fn parse_ipv4_at(s: &str, i: usize, end: usize) -> (r: Option<(u8, u8, u8, u8)>)
    requires
        i <= end,
        end <= s@.len(),
    ensures
        r is Some <==> is_ipv4_at(s@, i as int, end as int),
        r matches Some(o) ==> IpAddress::V4(o.0, o.1, o.2, o.3) == ipv4_value(
            s@,
            i as int,
            end as int,
        ),
{
    match octet_value_at(s, i, end) {
        None => None,
        Some(o1) => {
            let e1 = dec_run_end_exec(s, i, end);
            if e1 < end && s.get_char(e1) == '.' {
                match octet_value_at(s, e1 + 1, end) {
                    None => None,
                    Some(o2) => {
                        let e2 = dec_run_end_exec(s, e1 + 1, end);
                        if e2 < end && s.get_char(e2) == '.' {
                            match octet_value_at(s, e2 + 1, end) {
                                None => None,
                                Some(o3) => {
                                    let e3 = dec_run_end_exec(s, e2 + 1, end);
                                    if e3 < end && s.get_char(e3) == '.' {
                                        match octet_value_at(s, e3 + 1, end) {
                                            None => None,
                                            Some(o4) => {
                                                let e4 = dec_run_end_exec(s, e3 + 1, end);
                                                if e4 == end {
                                                    Some((o1, o2, o3, o4))
                                                } else {
                                                    None
                                                }
                                            },
                                        }
                                    } else {
                                        None
                                    }
                                },
                            }
                        } else {
                            None
                        }
                    },
                }
            } else {
                None
            }
        },
    }
}

/// Finds the first `::` at or after `i`.
fn double_colon_pos_exec(s: &str, i: usize) -> (r: Option<usize>)
    ensures
        r matches Some(p) ==> p as int == double_colon_pos(s@, i as int),
        r is None ==> double_colon_pos(s@, i as int) == -1,
    decreases s@.len() - i,
{
    let len = s.unicode_len();
    if i < len && i + 1 < len {
        if s.get_char(i) == ':' && s.get_char(i + 1) == ':' {
            Some(i)
        } else {
            double_colon_pos_exec(s, i + 1)
        }
    } else {
        None
    }
}

/// Reads the `:`-separated groups filling `s[i .. end)`, if any do.
fn parse_groups(s: &str, i: usize, end: usize, allow_v4: bool) -> (r: Option<Vec<u16>>)
    requires
        i <= end,
        end <= s@.len(),
    ensures
        r matches Some(v) ==> groups_at(s@, i as int, end as int, allow_v4) == Some(v@),
        r is None ==> groups_at(s@, i as int, end as int, allow_v4) is None,
    decreases end - i,
{
    let e = hex_run_end_exec(s, i, end);
    proof {
        lemma_hex_run_end(s@, i as int, end as int);
    }
    if i < e && e < end && s.get_char(e) == '.' {
        if allow_v4 {
            match parse_ipv4_at(s, i, end) {
                Some(o) => {
                    proof {
                        lemma_ipv4_octet_bounds(s@, i as int, end as int);
                    }
                    let hi: u16 = (o.0 as u16) * 256 + (o.1 as u16);
                    let lo: u16 = (o.2 as u16) * 256 + (o.3 as u16);
                    let mut v: Vec<u16> = Vec::new();
                    v.push(hi);
                    v.push(lo);
                    proof {
                        assert(v@ =~= seq![
                            v4_high(s@, i as int, end as int),
                            v4_low(s@, i as int, end as int),
                        ]);
                    }
                    Some(v)
                },
                None => None,
            }
        } else {
            None
        }
    } else if e == i || e - i > 4 {
        None
    } else if e == end {
        let g = hex_value_exec(s, i, e);
        let mut v: Vec<u16> = Vec::new();
        v.push(g);
        proof {
            assert(v@ =~= seq![hex_value(s@, i as int, e as int) as u16]);
        }
        Some(v)
    } else if s.get_char(e) == ':' && e + 1 < end {
        let g = hex_value_exec(s, i, e);
        match parse_groups(s, e + 1, end, allow_v4) {
            Some(mut rest) => {
                rest.insert(0, g);
                proof {
                    assert(rest@ =~= seq![hex_value(s@, i as int, e as int) as u16]
                        + rest@.subrange(1, rest@.len() as int));
                }
                Some(rest)
            },
            None => None,
        }
    } else {
        None
    }
}

/// Turns eight parsed groups into an address.
fn vec_to_v6(v: &Vec<u16>) -> (r: IpAddress)
    requires
        v@.len() == 8,
    ensures
        r == groups_to_v6(v@),
{
    IpAddress::V6(v[0], v[1], v[2], v[3], v[4], v[5], v[6], v[7])
}

/// Reads `s` as an IPv6 literal.
fn parse_ipv6(s: &str) -> (r: Option<IpAddress>)
    ensures
        match ipv6_groups(s@) {
            Some(g) => r == Some(groups_to_v6(g)),
            None => r is None,
        },
{
    let len = s.unicode_len();
    match double_colon_pos_exec(s, 0) {
        None => {
            match parse_groups(s, 0, len, true) {
                Some(v) => {
                    if v.len() == 8 {
                        Some(vec_to_v6(&v))
                    } else {
                        None
                    }
                },
                None => None,
            }
        },
        Some(dc) => {
            proof {
                lemma_double_colon_pos(s@, 0);
            }
            let head: Option<Vec<u16>> = if dc == 0 {
                Some(Vec::new())
            } else {
                parse_groups(s, 0, dc, false)
            };
            let tail: Option<Vec<u16>> = if dc + 2 == len {
                Some(Vec::new())
            } else {
                parse_groups(s, dc + 2, len, true)
            };
            match (head, tail) {
                (Some(h), Some(mut t)) => {
                    if h.len() <= 7 && t.len() <= 7 - h.len() {
                        let ghost h0 = h@;
                        let ghost t0 = t@;
                        let nz: usize = 8 - h.len() - t.len();
                        let mut groups = h;
                        let mut k: usize = 0;
                        while k < nz
                            invariant
                                k <= nz,
                                groups@ == h0 + zero_groups(k as nat),
                            decreases nz - k,
                        {
                            groups.push(0);
                            k = k + 1;
                            proof {
                                assert(zero_groups(k as nat) =~= zero_groups((k - 1) as nat).push(
                                    0u16,
                                ));
                                assert(groups@ =~= h0 + zero_groups(k as nat));
                            }
                        }
                        groups.append(&mut t);
                        proof {
                            assert(groups@ =~= h0 + zero_groups(nz as nat) + t0);
                        }
                        Some(vec_to_v6(&groups))
                    } else {
                        None
                    }
                },
                _ => None,
            }
        },
    }
}

/// Reads `s` as an IP-address literal: first as IPv4, then as IPv6.
pub fn parse_ip_literal(s: &str) -> (r: Option<IpAddress>)
    ensures
        r == parse_ip(s@),
{
    let len = s.unicode_len();
    match parse_ipv4_at(s, 0, len) {
        Some(o) => Some(IpAddress::V4(o.0, o.1, o.2, o.3)),
        None => parse_ipv6(s),
    }
}

} // verus!
