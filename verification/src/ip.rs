//! Addresses of the Internet Protocol, read from their usual text.
//!
//! An address of version 4 is four decimal numbers of at most 255, with dots
//! between them and without leading zeros. An address of version 6 is eight
//! groups of one to four hexadecimal digits with colons between them, where
//! `::` may stand once for one or more groups of zero and the last two groups
//! may be written as an address of version 4. The text is read from left to
//! right, each part as long as it can be, and nothing may follow the address.

use vstd::prelude::*;

use crate::text::chars_of;

verus! {

/// An address, as the number that its bits write.
#[derive(PartialEq, Eq, Structural, Clone, Copy, Debug)]
pub enum IpAddress {
    /// The four bytes of an address of version 4, the first byte highest.
    V4(u32),
    /// The eight groups of an address of version 6, the first group
    /// highest.
    V6(u128),
}

/// An address with a port.
#[derive(PartialEq, Eq, Structural, Clone, Copy, Debug)]
pub struct SocketAddress {
    pub ip: IpAddress,
    pub port: u16,
}

/// The value of `c` as a digit: decimal, or hexadecimal where `hex`.
pub open spec fn digit_of(c: char, hex: bool) -> Option<nat> {
    if '0' <= c <= '9' {
        Some((c as u32 - '0' as u32) as nat)
    } else if hex && 'a' <= c <= 'f' {
        Some((c as u32 - 'a' as u32 + 10) as nat)
    } else if hex && 'A' <= c <= 'F' {
        Some((c as u32 - 'A' as u32 + 10) as nat)
    } else {
        None
    }
}

/// The base of the digits.
pub open spec fn radix(hex: bool) -> nat {
    if hex {
        16
    } else {
        10
    }
}

/// The number of digits that stand at `pos` without a break.
pub open spec fn run_len(s: Seq<char>, pos: int, hex: bool) -> int
    decreases s.len() - pos,
{
    if pos < 0 || pos >= s.len() || digit_of(s[pos], hex).is_none() {
        0
    } else {
        1 + run_len(s, pos + 1, hex)
    }
}

/// The number that the `n` digits at `pos` write.
pub open spec fn run_value(s: Seq<char>, pos: int, n: int, hex: bool) -> nat
    decreases n,
{
    if n <= 0 {
        0
    } else {
        run_value(s, pos, n - 1, hex) * radix(hex) + digit_of(s[pos + n - 1], hex).unwrap()
    }
}

/// The number at `pos` and the index behind it: all the digits that stand
/// there, one at least and `max_digits` at most, which write `max_value` at
/// most. A decimal number of several digits does not start with a zero.
pub open spec fn number_at(s: Seq<char>, pos: int, hex: bool, max_digits: int, max_value: nat)
    -> Option<(nat, int)> {
    let n = run_len(s, pos, hex);
    if 1 <= n <= max_digits && (hex || n == 1 || s[pos] != '0') && run_value(s, pos, n, hex)
        <= max_value {
        Some((run_value(s, pos, n, hex), pos + n))
    } else {
        None
    }
}

/// A part of an address of version 4, at `pos`.
pub open spec fn octet_at(s: Seq<char>, pos: int) -> Option<(nat, int)> {
    number_at(s, pos, false, 3, 255)
}

/// A dot at `pos` and a part of an address of version 4 behind it.
pub open spec fn dot_octet_at(s: Seq<char>, pos: int) -> Option<(nat, int)> {
    if 0 <= pos < s.len() && s[pos] == '.' {
        octet_at(s, pos + 1)
    } else {
        None
    }
}

/// The address of version 4 at `pos`, as the number of its 32 bits, and the
/// index behind it.
pub open spec fn ipv4_at(s: Seq<char>, pos: int) -> Option<(nat, int)> {
    match octet_at(s, pos) {
        None => None,
        Some((a, p1)) => match dot_octet_at(s, p1) {
            None => None,
            Some((b, p2)) => match dot_octet_at(s, p2) {
                None => None,
                Some((c, p3)) => match dot_octet_at(s, p3) {
                    None => None,
                    Some((d, p4)) => Some((((a * 256 + b) * 256 + c) * 256 + d, p4)),
                },
            },
        },
    }
}

/// A group of an address of version 6, at `pos`.
pub open spec fn group_at(s: Seq<char>, pos: int) -> Option<(nat, int)> {
    number_at(s, pos, true, 4, 0xffff)
}

/// Groups read from a text: the groups, the index behind them, and whether
/// the last two were written as an address of version 4.
pub struct Groups {
    pub groups: Seq<u16>,
    pub next: int,
    pub v4: bool,
}

/// `read` with the groups `done` in front.
pub open spec fn with_front(done: Seq<u16>, read: Groups) -> Groups {
    Groups { groups: done + read.groups, next: read.next, v4: read.v4 }
}

/// The groups at `pos`, of which `i` stand before and `limit` may stand in
/// all: as many as can be read. Each group but the first of all follows a
/// colon. Where two groups or more may still stand, an address of version 4
/// is read as two groups, and ends the reading.
pub open spec fn groups_at(s: Seq<char>, pos: int, i: int, limit: int) -> Groups
    decreases limit - i,
{
    let none = Groups { groups: Seq::empty(), next: pos, v4: false };
    if i >= limit {
        none
    } else if i > 0 && !(0 <= pos < s.len() && s[pos] == ':') {
        none
    } else {
        let start = if i > 0 {
            pos + 1
        } else {
            pos
        };
        if i < limit - 1 && ipv4_at(s, start).is_some() {
            let (bits, next) = ipv4_at(s, start).unwrap();
            Groups { groups: seq![(bits / 0x1_0000) as u16, (bits % 0x1_0000) as u16], next, v4: true }
        } else {
            match group_at(s, start) {
                None => none,
                Some((group, next)) => with_front(
                    seq![group as u16],
                    groups_at(s, next, i + 1, limit),
                ),
            }
        }
    }
}

/// The number that eight groups write, the first group highest.
pub open spec fn groups_bits(g: Seq<u16>) -> nat
    recommends
        g.len() == 8,
{
    (g[0] as nat) * 0x1_0000_0000_0000_0000_0000_0000_0000 + (g[1] as nat)
        * 0x1_0000_0000_0000_0000_0000_0000 + (g[2] as nat) * 0x1_0000_0000_0000_0000_0000 + (
    g[3] as nat) * 0x1_0000_0000_0000_0000 + (g[4] as nat) * 0x1_0000_0000_0000 + (g[5] as nat)
        * 0x1_0000_0000 + (g[6] as nat) * 0x1_0000 + (g[7] as nat)
}

/// The eight groups that `head` and `tail` write with `::` between them:
/// groups of zero fill the gap.
pub open spec fn joined(head: Seq<u16>, tail: Seq<u16>) -> Seq<u16> {
    head + Seq::new((8 - head.len() - tail.len()) as nat, |i: int| 0u16) + tail
}

/// The address of version 6 that the whole of `s` writes, as the number of
/// its 128 bits.
pub open spec fn ipv6_of(s: Seq<char>) -> Option<nat> {
    let head = groups_at(s, 0, 0, 8);
    if head.groups.len() == 8 {
        if head.next == s.len() {
            Some(groups_bits(head.groups))
        } else {
            None
        }
    } else if head.v4 {
        None
    } else if !(0 <= head.next && head.next + 1 < s.len() && s[head.next] == ':' && s[head.next
        + 1] == ':') {
        None
    } else {
        let tail = groups_at(s, head.next + 2, 0, 7 - head.groups.len());
        if tail.next == s.len() {
            Some(groups_bits(joined(head.groups, tail.groups)))
        } else {
            None
        }
    }
}

/// The address that the whole of `s` writes. Where `s` starts with an
/// address of version 4, it is that address and nothing may follow.
pub open spec fn ip_of(s: Seq<char>) -> Option<IpAddress> {
    match ipv4_at(s, 0) {
        Some((bits, next)) => if next == s.len() {
            Some(IpAddress::V4(bits as u32))
        } else {
            None
        },
        None => match ipv6_of(s) {
            Some(bits) => Some(IpAddress::V6(bits as u128)),
            None => None,
        },
    }
}

/// A run of digits has a length.
pub proof fn lemma_run_len(s: Seq<char>, pos: int, hex: bool)
    ensures
        0 <= run_len(s, pos, hex),
        0 <= pos ==> pos + run_len(s, pos, hex) <= s.len() || run_len(s, pos, hex) == 0,
    decreases s.len() - pos,
{
    if !(pos < 0 || pos >= s.len() || digit_of(s[pos], hex).is_none()) {
        lemma_run_len(s, pos + 1, hex);
    }
}

/// The value of `c` as a digit.
fn read_digit(c: char, hex: bool) -> (r: Option<u32>)
    ensures
        r == match digit_of(c, hex) {
            Some(d) => Some(d as u32),
            None => None,
        },
        r matches Some(d) ==> d < radix(hex),
{
    if '0' <= c && c <= '9' {
        Some(c as u32 - '0' as u32)
    } else if hex && 'a' <= c && c <= 'f' {
        Some(c as u32 - 'a' as u32 + 10)
    } else if hex && 'A' <= c && c <= 'F' {
        Some(c as u32 - 'A' as u32 + 10)
    } else {
        None
    }
}

/// Reads the number at `pos`.
fn read_number(chars: &Vec<char>, pos: usize, hex: bool, max_digits: usize, max_value: u32) -> (r:
    Option<(u32, usize)>)
    requires
        pos <= chars@.len(),
        1 <= max_digits <= 4,
        max_value <= 0xffff,
    ensures
        match r {
            Some((value, next)) => number_at(
                chars@,
                pos as int,
                hex,
                max_digits as int,
                max_value as nat,
            ) == Some((value as nat, next as int)) && pos < next <= chars@.len() && value
                <= max_value,
            None => number_at(chars@, pos as int, hex, max_digits as int, max_value as nat).is_none(),
        },
{
    let ghost s = chars@;
    let len = chars.len();
    let mut count: usize = 0;
    let mut value: u32 = 0;
    loop
        invariant
            s == chars@,
            len == s.len(),
            pos + count <= s.len(),
            count <= max_digits <= 4,
            run_len(s, pos as int, hex) == count + run_len(s, pos + count, hex),
            value == run_value(s, pos as int, count as int, hex),
            count == 0 ==> value == 0,
            count <= 1 ==> value < 16,
            count <= 2 ==> value < 256,
            count <= 3 ==> value < 4096,
            value < 65536,
        ensures
            len == s.len(),
            pos + count <= s.len(),
            count <= max_digits,
            run_len(s, pos as int, hex) == count,
            value == run_value(s, pos as int, count as int, hex),
            value < 65536,
        decreases s.len() - pos - count,
    {
        if pos + count >= len {
            break ;
        }
        let d = match read_digit(chars[pos + count], hex) {
            Some(d) => d,
            None => {
                break ;
            },
        };
        if count == max_digits {
            proof {
                lemma_run_len(s, pos + count + 1, hex);
            }
            return None;
        }
        value = value * (if hex {
            16
        } else {
            10
        }) + d;
        count += 1;
    }
    if count == 0 {
        return None;
    }
    if !hex && count > 1 && chars[pos] == '0' {
        return None;
    }
    if value > max_value {
        return None;
    }
    Some((value, pos + count))
}

/// Reads a dot at `pos` and a part of an address of version 4 behind it.
fn read_dot_octet(chars: &Vec<char>, pos: usize) -> (r: Option<(u32, usize)>)
    requires
        pos <= chars@.len(),
    ensures
        match r {
            Some((value, next)) => dot_octet_at(chars@, pos as int) == Some(
                (value as nat, next as int),
            ) && pos < next <= chars@.len() && value <= 255,
            None => dot_octet_at(chars@, pos as int).is_none(),
        },
{
    if pos < chars.len() && chars[pos] == '.' {
        read_number(chars, pos + 1, false, 3, 255)
    } else {
        None
    }
}

/// Reads the address of version 4 at `pos`.
fn read_ipv4(chars: &Vec<char>, pos: usize) -> (r: Option<(u32, usize)>)
    requires
        pos <= chars@.len(),
    ensures
        match r {
            Some((bits, next)) => ipv4_at(chars@, pos as int) == Some((bits as nat, next as int))
                && pos < next <= chars@.len(),
            None => ipv4_at(chars@, pos as int).is_none(),
        },
{
    let (a, p1) = match read_number(chars, pos, false, 3, 255) {
        Some(found) => found,
        None => {
            return None;
        },
    };
    let (b, p2) = match read_dot_octet(chars, p1) {
        Some(found) => found,
        None => {
            return None;
        },
    };
    let (c, p3) = match read_dot_octet(chars, p2) {
        Some(found) => found,
        None => {
            return None;
        },
    };
    let (d, p4) = match read_dot_octet(chars, p3) {
        Some(found) => found,
        None => {
            return None;
        },
    };
    Some((((a * 256 + b) * 256 + c) * 256 + d, p4))
}

/// Reads as many groups at `start` as stand there, `limit` at most.
fn read_groups(chars: &Vec<char>, start: usize, limit: usize) -> (r: (Vec<u16>, usize, bool))
    requires
        start <= chars@.len(),
        limit <= 8,
    ensures
        groups_at(chars@, start as int, 0, limit as int) == (Groups {
            groups: r.0@,
            next: r.1 as int,
            v4: r.2,
        }),
        r.0@.len() <= limit,
        start <= r.1 <= chars@.len(),
{
    let ghost s = chars@;
    let mut out: Vec<u16> = Vec::new();
    let mut pos: usize = start;
    let mut i: usize = 0;
    proof {
        assert(out@ + groups_at(s, start as int, 0, limit as int).groups =~= groups_at(
            s,
            start as int,
            0,
            limit as int,
        ).groups);
    }
    while i < limit
        invariant
            s == chars@,
            i <= limit <= 8,
            out@.len() == i,
            start <= pos <= s.len(),
            groups_at(s, start as int, 0, limit as int) == with_front(
                out@,
                groups_at(s, pos as int, i as int, limit as int),
            ),
        decreases limit - i,
    {
        if i > 0 && !(pos < chars.len() && chars[pos] == ':') {
            proof {
                assert(out@ + Seq::<u16>::empty() =~= out@);
            }
            return (out, pos, false);
        }
        let from: usize = if i > 0 {
            pos + 1
        } else {
            pos
        };
        if i + 1 < limit {
            match read_ipv4(chars, from) {
                Some((bits, next)) => {
                    let ghost before = out@;
                    let high = (bits / 0x1_0000) as u16;
                    let low = (bits % 0x1_0000) as u16;
                    out.push(high);
                    out.push(low);
                    proof {
                        assert(out@ =~= before + seq![high, low]);
                    }
                    return (out, next, true);
                },
                None => {},
            }
        }
        match read_number(chars, from, true, 4, 0xffff) {
            None => {
                proof {
                    assert(out@ + Seq::<u16>::empty() =~= out@);
                }
                return (out, pos, false);
            },
            Some((group, next)) => {
                let ghost before = out@;
                out.push(group as u16);
                proof {
                    let rest = groups_at(s, next as int, i + 1, limit as int);
                    assert(before + (seq![group as u16] + rest.groups) =~= out@ + rest.groups);
                }
                pos = next;
                i += 1;
            },
        }
    }
    proof {
        assert(out@ + Seq::<u16>::empty() =~= out@);
    }
    (out, pos, false)
}

/// The number that the eight groups of `g` write.
fn bits_of(g: &Vec<u16>) -> (r: u128)
    requires
        g@.len() == 8,
    ensures
        r == groups_bits(g@),
{
    (g[0] as u128) * 0x1_0000_0000_0000_0000_0000_0000_0000 + (g[1] as u128)
        * 0x1_0000_0000_0000_0000_0000_0000 + (g[2] as u128) * 0x1_0000_0000_0000_0000_0000 + (
    g[3] as u128) * 0x1_0000_0000_0000_0000 + (g[4] as u128) * 0x1_0000_0000_0000 + (g[5] as u128)
        * 0x1_0000_0000 + (g[6] as u128) * 0x1_0000 + (g[7] as u128)
}

/// Reads the address of version 6 that the whole of `chars` writes.
fn read_ipv6(chars: &Vec<char>) -> (r: Option<u128>)
    ensures
        match r {
            Some(bits) => ipv6_of(chars@) == Some(bits as nat),
            None => ipv6_of(chars@).is_none(),
        },
{
    let (mut groups, next, v4) = read_groups(chars, 0, 8);
    if groups.len() == 8 {
        if next == chars.len() {
            return Some(bits_of(&groups));
        } else {
            return None;
        }
    }
    if v4 {
        return None;
    }
    if !(next < chars.len() && chars.len() - next >= 2 && chars[next] == ':' && chars[next + 1]
        == ':') {
        return None;
    }
    let ghost head = groups@;
    let (tail, end, _) = read_groups(chars, next + 2, 7 - groups.len());
    if end != chars.len() {
        return None;
    }
    let mut k: usize = groups.len() + tail.len();
    while k < 8
        invariant
            head.len() + tail@.len() <= k <= 8,
            groups@ == head + Seq::new((k - head.len() - tail@.len()) as nat, |i: int| 0u16),
        decreases 8 - k,
    {
        groups.push(0);
        k += 1;
        proof {
            assert(groups@ =~= head + Seq::new(
                (k - head.len() - tail@.len()) as nat,
                |i: int| 0u16,
            ));
        }
    }
    let mut j: usize = 0;
    let ghost filled = groups@;
    while j < tail.len()
        invariant
            j <= tail@.len(),
            filled.len() + tail@.len() == 8,
            groups@ == filled + tail@.take(j as int),
        decreases tail.len() - j,
    {
        groups.push(tail[j]);
        j += 1;
        proof {
            assert(groups@ =~= filled + tail@.take(j as int));
        }
    }
    proof {
        assert(tail@.take(j as int) =~= tail@);
        assert(groups@ =~= joined(head, tail@));
    }
    Some(bits_of(&groups))
}

impl IpAddress {
    /// Reads the address that `text` writes.
    pub fn parse(text: &str) -> (r: Option<IpAddress>)
        ensures
            r == ip_of(text@),
    {
        let chars = chars_of(text);
        match read_ipv4(&chars, 0) {
            Some((bits, next)) => if next == chars.len() {
                Some(IpAddress::V4(bits))
            } else {
                None
            },
            None => match read_ipv6(&chars) {
                Some(bits) => Some(IpAddress::V6(bits)),
                None => None,
            },
        }
    }
}

impl SocketAddress {
    /// The address `ip` with the port `port`.
    pub fn new(ip: IpAddress, port: u16) -> (r: SocketAddress)
        ensures
            r == (SocketAddress { ip, port }),
    {
        SocketAddress { ip, port }
    }
}

} // verus!
