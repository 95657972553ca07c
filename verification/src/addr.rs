//! Network addresses as text.

use vstd::prelude::*;

use crate::text;

verus! {

/// The address family of IPv4.
pub const AF_INET: u16 = 2;

/// The address family of IPv6.
pub const AF_INET6: u16 = 10;

/// Dotted decimal: the bytes in decimal, with dots between them.
pub open spec fn ipv4_text(addr: Seq<u8>) -> Seq<char> {
    text::joined(addr.map_values(|b: u8| text::numeral(b as nat, 10)), "."@)
}

/// The eight 16-bit groups of an IPv6 address.
pub open spec fn groups(addr: Seq<u8>) -> Seq<nat> {
    Seq::new(8, |i: int| addr[2 * i] as nat * 256 + addr[2 * i + 1] as nat)
}

/// Groups in lower-case hexadecimal, with colons between them.
pub open spec fn groups_text(groups: Seq<nat>) -> Seq<char> {
    text::joined(groups.map_values(|g: nat| text::numeral(g, 16)), ":"@)
}

/// Whether the address is an IPv4 address in IPv6 form: five zero groups, then
/// one of all ones.
pub open spec fn is_mapped(groups: Seq<nat>) -> bool {
    &&& forall|i: int| 0 <= i < 5 ==> #[trigger] groups[i] == 0
    &&& groups[5] == 0xffff
}

/// Whether the `len` groups from `start` on are zero.
pub open spec fn zero_run(groups: Seq<nat>, start: int, len: int) -> bool {
    &&& 0 <= start
    &&& 0 <= len
    &&& start + len <= groups.len()
    &&& forall|i: int| start <= i < start + len ==> #[trigger] groups[i] == 0
}

/// Whether this run of zero groups is the first of the longest ones.
pub open spec fn longest_zero_run(groups: Seq<nat>, start: int, len: int) -> bool {
    &&& zero_run(groups, start, len)
    &&& forall|s: int, l: int| #[trigger]
        zero_run(groups, s, l) ==> l <= len && (0 < l == len ==> start <= s)
}

/// The canonical text of an IPv6 address: an address that stands for an IPv4
/// one ends in dotted decimal; else the first longest run of two or more zero
/// groups is written as two colons.
pub open spec fn ipv6_text(addr: Seq<u8>) -> Seq<char> {
    let groups = groups(addr);
    if is_mapped(groups) {
        "::ffff:"@ + ipv4_text(addr.skip(12))
    } else if exists|s: int, l: int| l > 1 && #[trigger] longest_zero_run(groups, s, l) {
        let (s, l) = choose|s: int, l: int| l > 1 && #[trigger] longest_zero_run(groups, s, l);
        groups_text(groups.take(s)) + "::"@ + groups_text(groups.skip(s + l))
    } else {
        groups_text(groups)
    }
}

/// The text of an address of the given family.
pub open spec fn addr_text(af: u16, addr: Seq<u8>) -> Seq<char> {
    if af == AF_INET {
        ipv4_text(addr.take(4))
    } else if af == AF_INET6 {
        ipv6_text(addr)
    } else {
        "?"@
    }
}

fn append_ipv4(out: &mut String, addr: &[u8; 16], at: usize)
    requires
        at + 4 <= 16,
    ensures
        final(out)@ == old(out)@ + ipv4_text(addr@.subrange(at as int, at + 4)),
{
    let ghost bytes = addr@.subrange(at as int, at + 4);
    let ghost parts = bytes.map_values(|b: u8| text::numeral(b as nat, 10));
    let mut i: usize = 0;
    while i < 4
        invariant
            at + 4 <= 16,
            0 <= i <= 4,
            bytes == addr@.subrange(at as int, at + 4),
            parts == bytes.map_values(|b: u8| text::numeral(b as nat, 10)),
            out@ == old(out)@ + text::joined(parts.take(i as int), "."@),
        decreases 4 - i,
    {
        if i > 0 {
            out.append(".");
        }
        text::append_numeral(out, addr[at + i] as u64, 10);
        proof {
            let next = parts.take(i + 1);
            assert(next.drop_last() =~= parts.take(i as int));
            assert(next.last() == text::numeral(addr@[at + i] as nat, 10));
            assert(out@ =~= old(out)@ + text::joined(next, "."@));
        }
        i += 1;
    }
    assert(parts.take(4) =~= parts);
}

fn append_groups(out: &mut String, groups: &Vec<u16>, from: usize, to: usize)
    requires
        from <= to <= groups@.len(),
    ensures
        final(out)@ == old(out)@ + groups_text(
            groups@.subrange(from as int, to as int).map_values(|g: u16| g as nat),
        ),
{
    let ghost values = groups@.subrange(from as int, to as int).map_values(|g: u16| g as nat);
    let ghost parts = values.map_values(|g: nat| text::numeral(g, 16));
    let mut i: usize = from;
    while i < to
        invariant
            from <= i <= to <= groups@.len(),
            values == groups@.subrange(from as int, to as int).map_values(|g: u16| g as nat),
            parts == values.map_values(|g: nat| text::numeral(g, 16)),
            out@ == old(out)@ + text::joined(parts.take(i - from), ":"@),
        decreases to - i,
    {
        if i > from {
            out.append(":");
        }
        text::append_numeral(out, groups[i] as u64, 16);
        proof {
            let next = parts.take(i - from + 1);
            assert(next.drop_last() =~= parts.take(i - from));
            assert(next.last() == text::numeral(groups@[i as int] as nat, 16));
            assert(out@ =~= old(out)@ + text::joined(next, ":"@));
        }
        i += 1;
    }
    assert(parts.take(to - from) =~= parts);
}

/// Finds the first of the longest runs of zeros: where it starts and how long
/// it is.
fn find_zeros(groups: &Vec<u16>) -> (run: (usize, usize))
    ensures
        longest_zero_run(groups@.map_values(|g: u16| g as nat), run.0 as int, run.1 as int),
{
    let ghost values = groups@.map_values(|g: u16| g as nat);
    let mut start: usize = 0;
    let mut len: usize = 0;
    let mut current_start: usize = 0;
    let mut current_len: usize = 0;
    let mut i: usize = 0;
    while i < groups.len()
        invariant
            values == groups@.map_values(|g: u16| g as nat),
            0 <= i <= groups@.len(),
            zero_run(values, start as int, len as int),
            start + len <= i,
            forall|s: int, l: int| #[trigger]
                zero_run(values, s, l) && s + l <= i ==> l <= len && (0 < l == len ==> start <= s),
            zero_run(values, current_start as int, current_len as int),
            current_len > 0 ==> current_start + current_len == i,
            forall|s: int, l: int| #[trigger]
                zero_run(values, s, l) && s + l == i ==> l <= current_len,
        decreases groups@.len() - i,
    {
        assert(values[i as int] == groups@[i as int]);
        let ghost before = current_len;
        if groups[i] == 0 {
            if current_len == 0 {
                current_start = i;
            }
            current_len += 1;
            if current_len > len {
                start = current_start;
                len = current_len;
            }
        } else {
            current_start = 0;
            current_len = 0;
        }
        proof {
            assert forall|s: int, l: int| #[trigger]
                zero_run(values, s, l) && s + l == i + 1 implies l <= current_len by {
                if l > 0 {
                    assert(values[i as int] == 0);
                    assert(zero_run(values, s, l - 1));
                }
            }
        }
        i += 1;
    }
    (start, len)
}

fn append_ipv6(out: &mut String, addr: &[u8; 16])
    ensures
        final(out)@ == old(out)@ + ipv6_text(addr@),
{
    let mut segments: Vec<u16> = Vec::new();
    let mut i: usize = 0;
    while i < 8
        invariant
            0 <= i <= 8,
            segments@.len() == i,
            forall|j: int|
                0 <= j < i ==> #[trigger] segments@[j] as nat == addr@[2 * j] as nat * 256 + addr@[2
                    * j + 1] as nat,
        decreases 8 - i,
    {
        segments.push(addr[2 * i] as u16 * 256 + addr[2 * i + 1] as u16);
        i += 1;
    }
    let ghost values = groups(addr@);
    assert(segments@.map_values(|g: u16| g as nat) =~= values);
    assert(forall|j: int| 0 <= j < 8 ==> #[trigger] segments@[j] as nat == values[j]);
    if segments[0] == 0 && segments[1] == 0 && segments[2] == 0 && segments[3] == 0 && segments[4]
        == 0 && segments[5] == 0xffff {
        assert(is_mapped(values));
        out.append("::ffff:");
        append_ipv4(out, addr, 12);
        assert(addr@.subrange(12, 16) =~= addr@.skip(12));
        assert(out@ =~= old(out)@ + ipv6_text(addr@));
        return ;
    }
    proof {
        if is_mapped(values) {
            assert(values[0] == 0 && values[1] == 0 && values[2] == 0 && values[3] == 0
                && values[4] == 0);
        }
    }
    let (start, len) = find_zeros(&segments);
    if len > 1 {
        append_groups(out, &segments, 0, start);
        out.append("::");
        append_groups(out, &segments, start + len, 8);
        proof {
            assert(longest_zero_run(values, start as int, len as int));
            let (s, l) = choose|s: int, l: int| l > 1 && #[trigger] longest_zero_run(values, s, l);
            assert(zero_run(values, s, l));
            assert(zero_run(values, start as int, len as int));
            assert(s == start && l == len);
            assert(segments@.subrange(0, start as int).map_values(|g: u16| g as nat)
                =~= values.take(start as int));
            assert(segments@.subrange(start + len, 8).map_values(|g: u16| g as nat)
                =~= values.skip(start + len));
            assert(out@ =~= old(out)@ + ipv6_text(addr@));
        }
    } else {
        append_groups(out, &segments, 0, 8);
        proof {
            assert(zero_run(values, start as int, len as int));
            assert(segments@.subrange(0, 8).map_values(|g: u16| g as nat) =~= values);
        }
    }
}

/// Format a captured address as a string for the given address family.
pub fn fmt_addr(af: u16, addr: &[u8; 16]) -> (text: String)
    ensures
        text@ == addr_text(af, addr@),
{
    let mut out: String = String::new();
    if af == AF_INET {
        append_ipv4(&mut out, addr, 0);
        assert(addr@.subrange(0, 4) =~= addr@.take(4));
    } else if af == AF_INET6 {
        append_ipv6(&mut out, addr);
    } else {
        out.append("?");
    }
    assert(out@ =~= addr_text(af, addr@));
    out
}

} // verus!
