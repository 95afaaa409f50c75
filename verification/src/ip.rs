//! Textual IP addresses, parsed into their bit form.
//!
//! IPv4 is four dot-separated decimal octets without leading zeros. IPv6 is
//! colon-separated groups of up to four hex digits, with one optional `::`
//! standing for at least one zero group, and an optional embedded IPv4
//! address as the last two groups.

use vstd::prelude::*;
use vstd::string::StringSliceAdditionalSpecFns;
use crate::model::{pow256, lemma_pow256_bounds, lemma_pow256_mono};

verus! {

/// A parsed IP address: the bits of the queried key.
#[derive(Clone, Copy, Debug, PartialEq, Eq, Structural)]
pub enum Ip {
    /// An IPv4 address as its 32 bits.
    V4(u32),
    /// An IPv6 address as its 128 bits.
    V6(u128),
}

/// ASCII decimal digit.
pub open spec fn is_digit(b: u8) -> bool {
    48 <= b <= 57
}

/// ASCII hex digit.
pub open spec fn is_hex(b: u8) -> bool {
    is_digit(b) || (97 <= b <= 102) || (65 <= b <= 70)
}

/// Value of an ASCII hex digit.
pub open spec fn hex_val(b: u8) -> nat {
    if is_digit(b) {
        (b - 48) as nat
    } else if 97 <= b <= 102 {
        (b - 87) as nat
    } else if 65 <= b <= 70 {
        (b - 55) as nat
    } else {
        0
    }
}

/// A decimal octet at `pos`: one to three digits, value at most 255, and
/// no leading zero (a `0` digit can only stand alone).
pub open spec fn spec_octet(s: Seq<u8>, pos: int) -> Option<(nat, int)> {
    if !(0 <= pos < s.len()) || !is_digit(s[pos]) {
        None
    } else if s[pos] == 48 {
        Some((0, pos + 1))
    } else {
        let v1 = (s[pos] - 48) as nat;
        if pos + 1 >= s.len() || !is_digit(s[pos + 1]) {
            Some((v1, pos + 1))
        } else {
            let v2 = (v1 * 10 + (s[pos + 1] - 48)) as nat;
            if pos + 2 >= s.len() || !is_digit(s[pos + 2]) {
                Some((v2, pos + 2))
            } else {
                let v3 = (v2 * 10 + (s[pos + 2] - 48)) as nat;
                if v3 <= 255 {
                    Some((v3, pos + 3))
                } else {
                    None
                }
            }
        }
    }
}

/// A dotted quad starting at `pos`: four octets joined by `.`.
pub open spec fn spec_v4_at(s: Seq<u8>, pos: int) -> Option<(nat, int)> {
    match spec_octet(s, pos) {
        None => None,
        Some((o1, p1)) => if p1 >= s.len() || s[p1] != 46 {
            None
        } else {
            match spec_octet(s, p1 + 1) {
                None => None,
                Some((o2, p2)) => if p2 >= s.len() || s[p2] != 46 {
                    None
                } else {
                    match spec_octet(s, p2 + 1) {
                        None => None,
                        Some((o3, p3)) => if p3 >= s.len() || s[p3] != 46 {
                            None
                        } else {
                            match spec_octet(s, p3 + 1) {
                                None => None,
                                Some((o4, p4)) => Some(
                                    (
                                        (o1 * 16777216 + o2 * 65536 + o3 * 256 + o4) as nat,
                                        p4,
                                    ),
                                ),
                            }
                        },
                    }
                },
            }
        },
    }
}

/// The whole text as an IPv4 address.
pub open spec fn spec_parse_v4(s: Seq<u8>) -> Option<nat> {
    match spec_v4_at(s, 0) {
        Some((v, p)) => if p == s.len() {
            Some(v)
        } else {
            None
        },
        None => None,
    }
}

/// A hex group at `pos`: one to four hex digits, greedily.
pub open spec fn spec_hexgroup(s: Seq<u8>, pos: int) -> Option<(nat, int)> {
    if !(0 <= pos < s.len()) || !is_hex(s[pos]) {
        None
    } else {
        let v1 = hex_val(s[pos]);
        if pos + 1 >= s.len() || !is_hex(s[pos + 1]) {
            Some((v1, pos + 1))
        } else {
            let v2 = (v1 * 16 + hex_val(s[pos + 1])) as nat;
            if pos + 2 >= s.len() || !is_hex(s[pos + 2]) {
                Some((v2, pos + 2))
            } else {
                let v3 = (v2 * 16 + hex_val(s[pos + 2])) as nat;
                if pos + 3 >= s.len() || !is_hex(s[pos + 3]) {
                    Some((v3, pos + 3))
                } else {
                    Some(((v3 * 16 + hex_val(s[pos + 3])) as nat, pos + 4))
                }
            }
        }
    }
}

/// How a run of groups ended: at the end of the text, or at a `::` whose
/// tail begins at the given position.
pub enum GroupsEnd {
    AtEnd,
    Dc(int),
}

/// Parses colon-separated groups from `pos`, at most `lim` of them; an
/// embedded IPv4 address may stand as the final two groups. Stops at the
/// end of the text or at a `::`.
pub open spec fn spec_groups(s: Seq<u8>, pos: int, lim: nat) -> Option<(Seq<u16>, GroupsEnd)>
    decreases lim,
{
    if lim == 0 {
        None
    } else {
        match spec_v4_at(s, pos) {
            Some((v, p)) => if p == s.len() {
                if lim >= 2 {
                    Some((seq![(v / 65536) as u16, (v % 65536) as u16], GroupsEnd::AtEnd))
                } else {
                    None
                }
            } else {
                spec_groups_hex(s, pos, lim)
            },
            None => spec_groups_hex(s, pos, lim),
        }
    }
}

/// The hex-group path of [`spec_groups`]: one group, then either the end,
/// a `::`, or a single `:` and more groups.
pub open spec fn spec_groups_hex(s: Seq<u8>, pos: int, lim: nat) -> Option<(Seq<u16>, GroupsEnd)>
    decreases lim, 0nat,
{
    if lim == 0 {
        None
    } else {
        match spec_hexgroup(s, pos) {
            None => None,
            Some((g, p)) => if p == s.len() {
                Some((seq![g as u16], GroupsEnd::AtEnd))
            } else if s[p] == 58 {
                if p + 1 < s.len() && s[p + 1] == 58 {
                    Some((seq![g as u16], GroupsEnd::Dc(p + 2)))
                } else {
                    match spec_groups(s, p + 1, (lim - 1) as nat) {
                        Some((gs, e)) => Some((seq![g as u16] + gs, e)),
                        None => None,
                    }
                }
            } else {
                None
            },
        }
    }
}

/// The big-endian value of a run of 16-bit groups.
pub open spec fn groups_val(gs: Seq<u16>) -> nat
    decreases gs.len(),
{
    if gs.len() == 0 {
        0
    } else {
        (groups_val(gs.drop_last()) * 65536 + gs.last()) as nat
    }
}

/// The eight groups of an address whose head groups and tail groups are
/// given, with the `::` gap filled by zero groups.
pub open spec fn v6_groups(head: Seq<u16>, tail: Seq<u16>) -> Seq<u16> {
    Seq::new(
        8,
        |i: int|
            if i < head.len() {
                head[i]
            } else if i >= 8 - tail.len() {
                tail[i - (8 - tail.len())]
            } else {
                0u16
            },
    )
}

/// The 128-bit value assembled from head and tail groups.
pub open spec fn spec_v6_of(head: Seq<u16>, tail: Seq<u16>) -> nat {
    groups_val(v6_groups(head, tail))
}

/// The whole text as an IPv6 address.
pub open spec fn spec_parse_v6(s: Seq<u8>) -> Option<nat> {
    if s.len() >= 2 && s[0] == 58 && s[1] == 58 {
        if s.len() == 2 {
            Some(0)
        } else {
            match spec_groups(s, 2, 7) {
                Some((tail, GroupsEnd::AtEnd)) => if tail.len() <= 7 {
                    Some(spec_v6_of(Seq::empty(), tail))
                } else {
                    None
                },
                _ => None,
            }
        }
    } else {
        match spec_groups(s, 0, 8) {
            Some((head, GroupsEnd::AtEnd)) => if head.len() == 8 {
                Some(spec_v6_of(head, Seq::empty()))
            } else {
                None
            },
            Some((head, GroupsEnd::Dc(q))) => if head.len() > 7 {
                None
            } else if q == s.len() {
                Some(spec_v6_of(head, Seq::empty()))
            } else {
                match spec_groups(s, q, 7) {
                    Some((tail, GroupsEnd::AtEnd)) => if head.len() + tail.len() <= 7 {
                        Some(spec_v6_of(head, tail))
                    } else {
                        None
                    },
                    _ => None,
                }
            },
            None => None,
        }
    }
}

/// The whole text as an IP address of either family; IPv4 is tried first.
pub open spec fn spec_parse_ip(s: Seq<u8>) -> Option<Ip> {
    match spec_parse_v4(s) {
        Some(v) => Some(Ip::V4(v as u32)),
        None => match spec_parse_v6(s) {
            Some(x) => Some(Ip::V6(x as u128)),
            None => None,
        },
    }
}

/// Reads a decimal octet at `pos`.
fn octet_at(s: &[u8], pos: usize) -> (r: Option<(u32, usize)>)
    ensures
        match spec_octet(s@, pos as int) {
            Some((v, p)) => r matches Some(t) && t.0 as nat == v && t.1 as int == p && t.0 <= 255,
            None => r is None,
        },
{
    if pos >= s.len() || !(48 <= s[pos] && s[pos] <= 57) {
        return None;
    }
    if s[pos] == 48 {
        return Some((0, pos + 1));
    }
    let v1: u32 = (s[pos] - 48) as u32;
    if pos + 1 >= s.len() || !(48 <= s[pos + 1] && s[pos + 1] <= 57) {
        return Some((v1, pos + 1));
    }
    let v2: u32 = v1 * 10 + (s[pos + 1] - 48) as u32;
    if pos + 2 >= s.len() || !(48 <= s[pos + 2] && s[pos + 2] <= 57) {
        return Some((v2, pos + 2));
    }
    let v3: u32 = v2 * 10 + (s[pos + 2] - 48) as u32;
    if v3 <= 255 {
        Some((v3, pos + 3))
    } else {
        None
    }
}

/// Reads a dotted quad at `pos`.
fn v4_at(s: &[u8], pos: usize) -> (r: Option<(u32, usize)>)
    ensures
        match spec_v4_at(s@, pos as int) {
            Some((v, p)) => r matches Some(t) && t.0 as nat == v && t.1 as int == p,
            None => r is None,
        },
{
    let (o1, p1) = match octet_at(s, pos) {
        Some(t) => t,
        None => {
            return None;
        },
    };
    if p1 >= s.len() || s[p1] != 46 {
        return None;
    }
    let (o2, p2) = match octet_at(s, p1 + 1) {
        Some(t) => t,
        None => {
            return None;
        },
    };
    if p2 >= s.len() || s[p2] != 46 {
        return None;
    }
    let (o3, p3) = match octet_at(s, p2 + 1) {
        Some(t) => t,
        None => {
            return None;
        },
    };
    if p3 >= s.len() || s[p3] != 46 {
        return None;
    }
    let (o4, p4) = match octet_at(s, p3 + 1) {
        Some(t) => t,
        None => {
            return None;
        },
    };
    Some((o1 * 16777216 + o2 * 65536 + o3 * 256 + o4, p4))
}

/// Reads a hex group at `pos`.
fn hexgroup_at(s: &[u8], pos: usize) -> (r: Option<(u16, usize)>)
    ensures
        match spec_hexgroup(s@, pos as int) {
            Some((v, p)) => r matches Some(t) && t.0 as nat == v && t.1 as int == p,
            None => r is None,
        },
{
    let _slen = s.len();
    let d1 = match hexd(s, pos) {
        Some(v) => v,
        None => {
            return None;
        },
    };
    let v1: u16 = d1 as u16;
    let d2 = match hexd(s, pos + 1) {
        Some(v) => v,
        None => {
            return Some((v1, pos + 1));
        },
    };
    let v2: u16 = v1 * 16 + d2 as u16;
    let d3 = match hexd(s, pos + 2) {
        Some(v) => v,
        None => {
            return Some((v2, pos + 2));
        },
    };
    let v3: u16 = v2 * 16 + d3 as u16;
    let d4 = match hexd(s, pos + 3) {
        Some(v) => v,
        None => {
            return Some((v3, pos + 3));
        },
    };
    Some((v3 * 16 + d4 as u16, pos + 4))
}

/// The hex digit at `pos`, if there is one.
fn hexd(s: &[u8], pos: usize) -> (r: Option<u8>)
    ensures
        match r {
            Some(v) => pos < s@.len() && is_hex(s@[pos as int]) && v as nat == hex_val(
                s@[pos as int],
            ) && v <= 15,
            None => pos >= s@.len() || !is_hex(s@[pos as int]),
        },
{
    let sl = s.len();
    if pos >= sl {
        return None;
    }
    let b = s[pos];
    if 48 <= b && b <= 57 {
        Some(b - 48)
    } else if 97 <= b && b <= 102 {
        Some(b - 87)
    } else if 65 <= b && b <= 70 {
        Some(b - 55)
    } else {
        None
    }
}

/// Reads colon-separated groups from `pos`; `None` in the second slot of
/// the pair means the text ended, `Some(q)` that a `::` was met and the
/// tail begins at `q`.
fn groups_at(s: &[u8], pos: usize, lim: u32) -> (r: Option<(Vec<u16>, Option<usize>)>)
    ensures
        match spec_groups(s@, pos as int, lim as nat) {
            Some((gs, e)) => r matches Some(t) && t.0@ == gs && (match e {
                GroupsEnd::AtEnd => t.1 is None,
                GroupsEnd::Dc(q) => t.1 matches Some(x) && x as int == q,
            }),
            None => r is None,
        },
    decreases lim,
{
    if lim == 0 {
        return None;
    }
    match v4_at(s, pos) {
        Some((v, p)) => {
            if p == s.len() {
                if lim >= 2 {
                    let gs: Vec<u16> = vec![(v / 65536) as u16, (v % 65536) as u16];
                    proof {
                        assert(gs@ =~= seq![
                            ((v as nat) / 65536) as u16,
                            ((v as nat) % 65536) as u16,
                        ]);
                    }
                    return Some((gs, None));
                } else {
                    return None;
                }
            }
        },
        None => {},
    }
    let (g, p) = match hexgroup_at(s, pos) {
        Some(t) => t,
        None => {
            return None;
        },
    };
    if p == s.len() {
        let gs: Vec<u16> = vec![g];
        proof {
            assert(gs@ =~= seq![g]);
        }
        return Some((gs, None));
    }
    if s[p] != 58 {
        return None;
    }
    if p + 1 < s.len() && s[p + 1] == 58 {
        let gs: Vec<u16> = vec![g];
        proof {
            assert(gs@ =~= seq![g]);
        }
        return Some((gs, Some(p + 2)));
    }
    match groups_at(s, p + 1, lim - 1) {
        Some((mut rest, e)) => {
            rest.insert(0, g);
            proof {
                assert(rest@ =~= seq![g] + rest@.drop_first());
            }
            Some((rest, e))
        },
        None => None,
    }
}

/// Assembles the 128-bit address from head and tail groups.
fn v6_value(head: &Vec<u16>, tail: &Vec<u16>) -> (r: u128)
    requires
        head@.len() + tail@.len() <= 8,
    ensures
        r as nat == spec_v6_of(head@, tail@),
{
    let ghost full = v6_groups(head@, tail@);
    let mut acc: u128 = 0;
    let mut i: usize = 0;
    while i < 8
        invariant
            head@.len() + tail@.len() <= 8,
            i <= 8,
            full == v6_groups(head@, tail@),
            acc as nat == groups_val(full.take(i as int)),
            (acc as nat) < pow256(2 * i as nat),
        decreases 8 - i,
    {
        let g: u16 = if i < head.len() {
            head[i]
        } else if i >= 8 - tail.len() {
            tail[i - (8 - tail.len())]
        } else {
            0
        };
        proof {
            lemma_pow256_bounds();
            lemma_pow256_mono(2 * i as nat, 14);
            assert(pow256(16) == 256 * pow256(15));
            assert(pow256(15) == 256 * pow256(14));
            assert(pow256(2 * (i + 1) as nat) == 256 * pow256((2 * i + 1) as nat));
            assert(pow256((2 * i + 1) as nat) == 256 * pow256(2 * i as nat));
            assert(full.take(i + 1).drop_last() =~= full.take(i as int));
            assert(full.take(i + 1).last() == full[i as int]);
            assert(full[i as int] == g);
        }
        acc = acc * 65536 + g as u128;
        i = i + 1;
    }
    proof {
        assert(full.take(8) =~= full);
    }
    acc
}

/// Parses the whole text as an IPv6 address.
fn parse_v6_bytes(s: &[u8]) -> (r: Option<u128>)
    ensures
        match spec_parse_v6(s@) {
            Some(v) => r matches Some(x) && x as nat == v,
            None => r is None,
        },
{
    if s.len() >= 2 && s[0] == 58 && s[1] == 58 {
        if s.len() == 2 {
            return Some(0);
        }
        let (tail, e) = match groups_at(s, 2, 7) {
            Some(t) => t,
            None => {
                return None;
            },
        };
        if e.is_some() {
            return None;
        }
        if tail.len() > 7 {
            return None;
        }
        let empty_head: Vec<u16> = Vec::new();
        return Some(v6_value(&empty_head, &tail));
    }
    let (head, e) = match groups_at(s, 0, 8) {
        Some(t) => t,
        None => {
            return None;
        },
    };
    match e {
        None => {
            if head.len() == 8 {
                let empty_tail: Vec<u16> = Vec::new();
                Some(v6_value(&head, &empty_tail))
            } else {
                None
            }
        },
        Some(q) => {
            if head.len() > 7 {
                return None;
            }
            if q == s.len() {
                let empty_tail: Vec<u16> = Vec::new();
                return Some(v6_value(&head, &empty_tail));
            }
            let (tail, e2) = match groups_at(s, q, 7) {
                Some(t) => t,
                None => {
                    return None;
                },
            };
            if e2.is_some() {
                return None;
            }
            if tail.len() > 7 - head.len() {
                return None;
            }
            Some(v6_value(&head, &tail))
        },
    }
}

/// Parses the whole byte text as an IP address of either family.
pub fn parse_ip_bytes(s: &[u8]) -> (r: Option<Ip>)
    ensures
        r == spec_parse_ip(s@),
{
    match v4_at(s, 0) {
        Some((v, p)) => {
            if p == s.len() {
                return Some(Ip::V4(v));
            }
        },
        None => {},
    }
    match parse_v6_bytes(s) {
        Some(x) => Some(Ip::V6(x)),
        None => None,
    }
}

/// Parses a string as an IP address of either family.
pub fn parse_ip(s: &str) -> (r: Option<Ip>)
    ensures
        r == spec_parse_ip(s.spec_bytes()),
{
    parse_ip_bytes(s.as_bytes())
}

} // verus!
