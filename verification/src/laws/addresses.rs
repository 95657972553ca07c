//! Addresses: a destination can be told from its text.

use vstd::arithmetic::div_mod::lemma_fundamental_div_mod;
use vstd::prelude::*;

use crate::addr;
use crate::decode;
use crate::text;

verus! {

/// A digit of a numeral in base 16 or less.
spec fn is_hex(c: char) -> bool {
    '0' <= c <= '9' || 'a' <= c <= 'f'
}

spec fn all_hex(s: Seq<char>) -> bool {
    forall|i: int| 0 <= i < s.len() ==> is_hex(#[trigger] s[i])
}

/// Whether these parts can be told apart once they are joined with `sep`.
spec fn separable(parts: Seq<Seq<char>>, sep: char) -> bool {
    forall|i: int|
        0 <= i < parts.len() ==> (#[trigger] parts[i]).len() > 0 && !parts[i].contains(sep)
}

/// Whether two colons in a row occur.
spec fn has_pair(s: Seq<char>) -> bool {
    exists|i: int| 0 <= i < s.len() - 1 && #[trigger] s[i] == ':' && s[i + 1] == ':'
}

proof fn lemma_digit(d: nat)
    requires
        d < 16,
    ensures
        is_hex(text::digit(d)),
        text::digit(d) as int == (if d < 10 {
            48 + d
        } else {
            87 + d
        }),
{
}

proof fn lemma_numeral(n: nat, base: nat)
    requires
        2 <= base <= 16,
    ensures
        text::numeral(n, base).len() > 0,
        all_hex(text::numeral(n, base)),
    decreases n,
{
    if n < base {
        lemma_digit(n);
    } else {
        text::lemma_quotient_smaller(n, base);
        lemma_numeral(n / base, base);
        lemma_digit(n % base);
    }
}

proof fn lemma_numeral_injective(m: nat, n: nat, base: nat)
    requires
        2 <= base <= 16,
        text::numeral(m, base) == text::numeral(n, base),
    ensures
        m == n,
    decreases m,
{
    let s = text::numeral(m, base);
    if m < base && n < base {
        assert(s[0] == text::digit(m) && s[0] == text::digit(n));
        lemma_digit(m);
        lemma_digit(n);
    } else {
        lemma_numeral(m / base, base);
        lemma_numeral(n / base, base);
        if m < base {
            assert(s.len() == 1);
            assert(text::numeral(n, base).len() == text::numeral(n / base, base).len() + 1);
        }
        if n < base {
            assert(text::numeral(n, base).len() == 1);
            assert(s.len() == text::numeral(m / base, base).len() + 1);
        }
        assert(m >= base && n >= base);
        text::lemma_quotient_smaller(m, base);
        assert(s.drop_last() =~= text::numeral(m / base, base));
        assert(s.drop_last() =~= text::numeral(n / base, base));
        lemma_numeral_injective(m / base, n / base, base);
        assert(s.last() == text::digit(m % base) && s.last() == text::digit(n % base));
        lemma_digit(m % base);
        lemma_digit(n % base);
        lemma_fundamental_div_mod(m as int, base as int);
        lemma_fundamental_div_mod(n as int, base as int);
    }
}

/// Two texts that agree, each cut at its last `c`, agree on both sides of it.
proof fn lemma_cut_at_last(a: Seq<char>, x: Seq<char>, b: Seq<char>, y: Seq<char>, c: char)
    requires
        a + seq![c] + x == b + seq![c] + y,
        !x.contains(c),
        !y.contains(c),
    ensures
        a == b,
        x == y,
{
    let s = a + seq![c] + x;
    let t = b + seq![c] + y;
    assert(s.len() == a.len() + 1 + x.len() && t.len() == b.len() + 1 + y.len());
    if a.len() < b.len() {
        assert(t[b.len() as int] == c);
        assert(s[b.len() as int] == x[b.len() - a.len() - 1]);
        assert(x.contains(x[b.len() - a.len() - 1]));
    }
    if b.len() < a.len() {
        assert(s[a.len() as int] == c);
        assert(t[a.len() as int] == y[a.len() - b.len() - 1]);
        assert(y.contains(y[a.len() - b.len() - 1]));
    }
    assert(a =~= s.take(a.len() as int) && b =~= t.take(b.len() as int));
    let at: int = a.len() as int;
    assert(x =~= s.skip(at + 1) && y =~= t.skip(at + 1));
}

proof fn lemma_joined_injective(p: Seq<Seq<char>>, q: Seq<Seq<char>>, c: char)
    requires
        separable(p, c),
        separable(q, c),
        text::joined(p, seq![c]) == text::joined(q, seq![c]),
    ensures
        p == q,
    decreases p.len(),
{
    let s = text::joined(p, seq![c]);
    if p.len() == 0 || q.len() == 0 {
        lemma_joined_nonempty(p, c);
        lemma_joined_nonempty(q, c);
        assert(p =~= q);
    } else if p.len() == 1 && q.len() == 1 {
        assert(p =~= q);
    } else if p.len() == 1 {
        assert(s[text::joined(q.drop_last(), seq![c]).len() as int] == c);
        assert(p[0].contains(c));
    } else if q.len() == 1 {
        assert(s[text::joined(p.drop_last(), seq![c]).len() as int] == c);
        assert(q[0].contains(c));
    } else {
        assert(p.last() == p[p.len() - 1] && q.last() == q[q.len() - 1]);
        lemma_cut_at_last(
            text::joined(p.drop_last(), seq![c]),
            p.last(),
            text::joined(q.drop_last(), seq![c]),
            q.last(),
            c,
        );
        assert forall|i: int| 0 <= i < p.drop_last().len() implies (
        #[trigger] p.drop_last()[i]).len() > 0 && !p.drop_last()[i].contains(c) by {
            assert(p.drop_last()[i] == p[i]);
        }
        assert forall|i: int| 0 <= i < q.drop_last().len() implies (
        #[trigger] q.drop_last()[i]).len() > 0 && !q.drop_last()[i].contains(c) by {
            assert(q.drop_last()[i] == q[i]);
        }
        lemma_joined_injective(p.drop_last(), q.drop_last(), c);
        assert(p =~= p.drop_last().push(p.last()));
        assert(q =~= q.drop_last().push(q.last()));
    }
}

proof fn lemma_joined_nonempty(p: Seq<Seq<char>>, c: char)
    requires
        separable(p, c),
    ensures
        (text::joined(p, seq![c]).len() == 0) == (p.len() == 0),
{
    if p.len() == 1 {
        assert(p[0].len() > 0);
    }
}

/// Digits joined with `c` are digits and `c`, begin and end with a digit, and
/// hold no two colons in a row.
proof fn lemma_joined_digits(p: Seq<Seq<char>>, c: char)
    requires
        separable(p, c),
        forall|i: int| 0 <= i < p.len() ==> all_hex(#[trigger] p[i]),
        !is_hex(c),
    ensures
        ({
            let s = text::joined(p, seq![c]);
            &&& forall|i: int| 0 <= i < s.len() ==> is_hex(#[trigger] s[i]) || s[i] == c
            &&& s.len() > 0 ==> is_hex(s[0]) && is_hex(s.last())
            &&& !has_pair(s)
            &&& p.len() > 1 ==> s.contains(c)
        }),
    decreases p.len(),
{
    let s = text::joined(p, seq![c]);
    if p.len() == 1 {
        assert(all_hex(p[0]));
    } else if p.len() > 1 {
        let before = p.drop_last();
        let head = text::joined(before, seq![c]);
        let last = p.last();
        assert(last == p[p.len() - 1]);
        assert(all_hex(last) && last.len() > 0);
        assert forall|i: int| 0 <= i < before.len() implies (#[trigger] before[i]).len() > 0
            && !before[i].contains(c) && all_hex(before[i]) by {
            assert(before[i] == p[i]);
        }
        lemma_joined_digits(before, c);
        lemma_joined_nonempty(before, c);
        let at = head.len() as int;
        assert(s == head + seq![c] + last);
        assert(s[at] == c);
        assert forall|i: int| 0 <= i < s.len() implies is_hex(#[trigger] s[i]) || s[i] == c by {
            if i < at {
                assert(s[i] == head[i]);
            } else if i > at {
                assert(s[i] == last[i - at - 1]);
            }
        }
        assert(s[0] == head[0]);
        assert(s.last() == last[last.len() - 1]);
        assert forall|i: int| 0 <= i < s.len() - 1 && #[trigger] s[i] == ':' implies s[i + 1]
            != ':' by {
            if i + 1 < at {
                assert(head[i] == s[i] && head[i + 1] == s[i + 1]);
            } else if i + 1 == at {
                assert(head.last() == s[i]);
            } else if i == at {
                assert(s[i + 1] == last[0]);
            } else {
                assert(s[i] == last[i - at - 1]);
            }
        }
    }
}

spec fn octets(addr: Seq<u8>) -> Seq<Seq<char>> {
    addr.map_values(|b: u8| text::numeral(b as nat, 10))
}

spec fn words(groups: Seq<nat>) -> Seq<Seq<char>> {
    groups.map_values(|g: nat| text::numeral(g, 16))
}

proof fn lemma_separators()
    ensures
        "."@ == seq!['.'],
        ":"@ == seq![':'],
        "::"@ == seq![':', ':'],
{
    reveal_strlit(".");
    reveal_strlit(":");
    reveal_strlit("::");
    assert("."@ =~= seq!['.'] && ":"@ =~= seq![':'] && "::"@ =~= seq![':', ':']);
}

proof fn lemma_octets(addr: Seq<u8>)
    ensures
        separable(octets(addr), '.'),
        forall|i: int| 0 <= i < octets(addr).len() ==> all_hex(#[trigger] octets(addr)[i]),
{
    assert forall|i: int| 0 <= i < octets(addr).len() implies (#[trigger] octets(addr)[i]).len() > 0
        && !octets(addr)[i].contains('.') && all_hex(octets(addr)[i]) by {
        lemma_numeral(addr[i] as nat, 10);
    }
}

proof fn lemma_words(groups: Seq<nat>)
    ensures
        separable(words(groups), ':'),
        forall|i: int| 0 <= i < words(groups).len() ==> all_hex(#[trigger] words(groups)[i]),
{
    assert forall|i: int| 0 <= i < words(groups).len() implies (#[trigger] words(groups)[i]).len()
        > 0 && !words(groups)[i].contains(':') && all_hex(words(groups)[i]) by {
        lemma_numeral(groups[i], 16);
    }
}

/// Bytes can be told from their dotted decimal.
proof fn lemma_ipv4_injective(a: Seq<u8>, b: Seq<u8>)
    requires
        addr::ipv4_text(a) == addr::ipv4_text(b),
    ensures
        a == b,
{
    lemma_separators();
    lemma_octets(a);
    lemma_octets(b);
    lemma_joined_injective(octets(a), octets(b), '.');
    assert(octets(a).len() == a.len() && octets(b).len() == b.len());
    assert forall|i: int| 0 <= i < a.len() implies a[i] == b[i] by {
        assert(octets(a)[i] == octets(b)[i]);
        lemma_numeral_injective(a[i] as nat, b[i] as nat, 10);
    }
    assert(a =~= b);
}

/// Groups can be told from their text.
proof fn lemma_groups_injective(a: Seq<nat>, b: Seq<nat>)
    requires
        addr::groups_text(a) == addr::groups_text(b),
    ensures
        a == b,
{
    lemma_separators();
    lemma_words(a);
    lemma_words(b);
    lemma_joined_injective(words(a), words(b), ':');
    assert(words(a).len() == a.len() && words(b).len() == b.len());
    assert forall|i: int| 0 <= i < a.len() implies a[i] == b[i] by {
        assert(words(a)[i] == words(b)[i]);
        lemma_numeral_injective(a[i], b[i], 16);
    }
    assert(a =~= b);
}

proof fn lemma_groups_text(groups: Seq<nat>)
    ensures
        ({
            let s = addr::groups_text(groups);
            &&& forall|i: int| 0 <= i < s.len() ==> is_hex(#[trigger] s[i]) || s[i] == ':'
            &&& s.len() > 0 ==> s[0] != ':' && s.last() != ':'
            &&& !has_pair(s)
            &&& groups.len() > 1 ==> s.contains(':')
        }),
{
    lemma_separators();
    lemma_words(groups);
    lemma_joined_digits(words(groups), ':');
}

proof fn lemma_bytes_of_groups(a: Seq<u8>, b: Seq<u8>)
    requires
        a.len() == 16,
        b.len() == 16,
        addr::groups(a) == addr::groups(b),
    ensures
        a == b,
{
    assert forall|i: int| 0 <= i < 16 implies a[i] == b[i] by {
        let k = i / 2;
        assert(0 <= k < 8);
        assert(addr::groups(a)[k] == a[2 * k] as nat * 256 + a[2 * k + 1] as nat);
        assert(addr::groups(b)[k] == b[2 * k] as nat * 256 + b[2 * k + 1] as nat);
        assert(i == 2 * k || i == 2 * k + 1);
    }
    assert(a =~= b);
}

/// The run of zero groups that the text leaves out.
spec fn left_out(groups: Seq<nat>, s: int, l: int) -> bool {
    l > 1 && addr::longest_zero_run(groups, s, l)
}

/// Texts that leave out a run agree only where the groups do.
proof fn lemma_shortened_injective(a: Seq<nat>, s: int, l: int, b: Seq<nat>, t: int, m: int)
    requires
        a.len() == 8,
        b.len() == 8,
        left_out(a, s, l),
        left_out(b, t, m),
        addr::groups_text(a.take(s)) + "::"@ + addr::groups_text(a.skip(s + l))
            == addr::groups_text(b.take(t)) + "::"@ + addr::groups_text(b.skip(t + m)),
    ensures
        a == b,
{
    lemma_separators();
    let p = addr::groups_text(a.take(s));
    let q = addr::groups_text(b.take(t));
    let x = addr::groups_text(a.skip(s + l));
    let y = addr::groups_text(b.skip(t + m));
    lemma_groups_text(a.take(s));
    lemma_groups_text(b.take(t));
    let u = p + "::"@ + x;
    let v = q + "::"@ + y;
    let at_p: int = p.len() as int;
    let at_q: int = q.len() as int;
    assert(u[at_p] == ':' && u[at_p + 1] == ':');
    assert(v[at_q] == ':' && v[at_q + 1] == ':');
    if at_p < at_q {
        assert(q[at_p] == v[at_p]);
        if at_p + 1 < at_q {
            assert(q[at_p + 1] == v[at_p + 1]);
            assert(has_pair(q));
        } else {
            assert(q.last() == ':');
        }
    }
    if at_q < at_p {
        assert(p[at_q] == u[at_q]);
        if at_q + 1 < at_p {
            assert(p[at_q + 1] == u[at_q + 1]);
            assert(has_pair(p));
        } else {
            assert(p.last() == ':');
        }
    }
    assert(p =~= u.take(at_p) && q =~= v.take(at_q));
    assert(x =~= u.skip(at_p + 2) && y =~= v.skip(at_q + 2));
    lemma_groups_injective(a.take(s), b.take(t));
    lemma_groups_injective(a.skip(s + l), b.skip(t + m));
    assert(a.take(s).len() == s && b.take(t).len() == t);
    assert(a.skip(s + l).len() == 8 - s - l && b.skip(t + m).len() == 8 - t - m);
    assert(s == t && l == m);
    assert forall|i: int| 0 <= i < 8 implies a[i] == b[i] by {
        if i < s {
            assert(a.take(s)[i] == b.take(t)[i]);
        } else if i >= s + l {
            assert(a.skip(s + l)[i - s - l] == b.skip(t + m)[i - t - m]);
        }
    }
    assert(a =~= b);
}

/// The three forms of an IPv6 address are told apart by a dot and by two colons
/// in a row; each of them holds a colon.
proof fn lemma_ipv6_forms(a: Seq<u8>)
    requires
        a.len() == 16,
    ensures
        ({
            let g = addr::groups(a);
            let s = addr::ipv6_text(a);
            &&& s.contains(':')
            &&& s.contains('.') <==> addr::is_mapped(g)
            &&& !addr::is_mapped(g) ==> (has_pair(s) <==> exists|t: int, l: int|
                l > 1 && #[trigger] addr::longest_zero_run(g, t, l))
        }),
{
    lemma_separators();
    let g = addr::groups(a);
    let s = addr::ipv6_text(a);
    if addr::is_mapped(g) {
        reveal_strlit("::ffff:");
        let lead = "::ffff:"@;
        let v4 = addr::ipv4_text(a.skip(12));
        lemma_octets(a.skip(12));
        lemma_joined_digits(octets(a.skip(12)), '.');
        assert(octets(a.skip(12)).len() == 4);
        let i = choose|i: int| 0 <= i < v4.len() && v4[i] == '.';
        assert(s[lead.len() + i] == '.');
        assert(s[0] == ':');
    } else if exists|t: int, l: int| l > 1 && #[trigger] addr::longest_zero_run(g, t, l) {
        let (t, l) = choose|t: int, l: int| l > 1 && #[trigger] addr::longest_zero_run(g, t, l);
        let p = addr::groups_text(g.take(t));
        let x = addr::groups_text(g.skip(t + l));
        lemma_groups_text(g.take(t));
        lemma_groups_text(g.skip(t + l));
        assert(s == p + "::"@ + x);
        let at: int = p.len() as int;
        assert(s[at] == ':' && s[at + 1] == ':');
        assert forall|i: int| 0 <= i < s.len() implies s[i] != '.' by {
            if i < p.len() {
                assert(s[i] == p[i]);
            } else if i >= p.len() + 2 {
                assert(s[i] == x[i - p.len() - 2]);
            }
        }
    } else {
        lemma_groups_text(g);
    }
}

/// An IPv6 address can be told from its text.
proof fn lemma_ipv6_injective(a: Seq<u8>, b: Seq<u8>)
    requires
        a.len() == 16,
        b.len() == 16,
        addr::ipv6_text(a) == addr::ipv6_text(b),
    ensures
        a == b,
{
    let g = addr::groups(a);
    let h = addr::groups(b);
    lemma_ipv6_forms(a);
    lemma_ipv6_forms(b);
    if addr::is_mapped(g) {
        let lead = "::ffff:"@;
        let x = addr::ipv4_text(a.skip(12));
        let y = addr::ipv4_text(b.skip(12));
        assert(x =~= (lead + x).skip(lead.len() as int));
        assert(y =~= (lead + y).skip(lead.len() as int));
        lemma_ipv4_injective(a.skip(12), b.skip(12));
        assert forall|i: int| 0 <= i < 8 implies g[i] == h[i] by {
            if i >= 6 {
                assert(a.skip(12)[2 * i - 12] == b.skip(12)[2 * i - 12]);
                assert(a.skip(12)[2 * i - 11] == b.skip(12)[2 * i - 11]);
            }
        }
    } else if exists|s: int, l: int| l > 1 && #[trigger] addr::longest_zero_run(g, s, l) {
        let (s, l) = choose|s: int, l: int| l > 1 && #[trigger] addr::longest_zero_run(g, s, l);
        let (t, m) = choose|t: int, m: int| m > 1 && #[trigger] addr::longest_zero_run(h, t, m);
        lemma_shortened_injective(g, s, l, h, t, m);
    } else {
        lemma_groups_injective(g, h);
    }
    assert(g =~= h);
    lemma_bytes_of_groups(a, b);
}

proof fn lemma_ipv4_has_no_colon(a: Seq<u8>)
    ensures
        !addr::ipv4_text(a).contains(':'),
{
    lemma_separators();
    lemma_octets(a);
    lemma_joined_digits(octets(a), '.');
}

/// Whether two addresses of a family are the same: an IPv4 address has only
/// the first four bytes.
pub open spec fn same_address(af: u16, a: Seq<u8>, b: Seq<u8>) -> bool {
    if af == addr::AF_INET {
        a.take(4) == b.take(4)
    } else {
        a == b
    }
}

/// An address can be told from its text: two of a family are written alike
/// exactly where they are the same. One of any other family is a question mark.
pub proof fn law_address_is_told(af: u16, a: Seq<u8>, b: Seq<u8>)
    requires
        a.len() == 16,
        b.len() == 16,
    ensures
        af == addr::AF_INET || af == addr::AF_INET6 ==> (addr::addr_text(af, a) == addr::addr_text(
            af,
            b,
        ) <==> same_address(af, a, b)),
        af != addr::AF_INET && af != addr::AF_INET6 ==> addr::addr_text(af, a) == "?"@,
{
    if af == addr::AF_INET {
        if addr::addr_text(af, a) == addr::addr_text(af, b) {
            lemma_ipv4_injective(a.take(4), b.take(4));
        }
    } else if af == addr::AF_INET6 {
        if addr::addr_text(af, a) == addr::addr_text(af, b) {
            lemma_ipv6_injective(a, b);
        }
    }
}

/// A destination can be told from its text: two that are written alike are of
/// the same family, the same address and the same port.
pub proof fn law_destination_is_told(
    af: u16,
    a: Seq<u8>,
    port: u16,
    other_af: u16,
    b: Seq<u8>,
    other_port: u16,
)
    requires
        af == addr::AF_INET || af == addr::AF_INET6,
        other_af == addr::AF_INET || other_af == addr::AF_INET6,
        a.len() == 16,
        b.len() == 16,
        decode::destination(af, a, port as nat) == decode::destination(
            other_af,
            b,
            other_port as nat,
        ),
    ensures
        af == other_af,
        same_address(af, a, b),
        port == other_port,
{
    lemma_separators();
    lemma_numeral(port as nat, 10);
    lemma_numeral(other_port as nat, 10);
    lemma_cut_at_last(
        addr::addr_text(af, a),
        text::numeral(port as nat, 10),
        addr::addr_text(other_af, b),
        text::numeral(other_port as nat, 10),
        ':',
    );
    lemma_numeral_injective(port as nat, other_port as nat, 10);
    lemma_ipv4_has_no_colon(a.take(4));
    lemma_ipv4_has_no_colon(b.take(4));
    lemma_ipv6_forms(a);
    lemma_ipv6_forms(b);
    law_address_is_told(af, a, b);
}

/// An IPv4 address is written as its first four bytes in decimal, in their
/// order, with dots between them.
pub proof fn law_ipv4_form(a: Seq<u8>)
    requires
        a.len() >= 4,
    ensures
        addr::addr_text(2, a) == text::numeral(a[0] as nat, 10) + seq!['.'] + text::numeral(
            a[1] as nat,
            10,
        ) + seq!['.'] + text::numeral(a[2] as nat, 10) + seq!['.'] + text::numeral(a[3] as nat, 10),
{
    lemma_dotted(a.take(4));
}

proof fn lemma_dotted(b: Seq<u8>)
    requires
        b.len() == 4,
    ensures
        addr::ipv4_text(b) == text::numeral(b[0] as nat, 10) + seq!['.'] + text::numeral(
            b[1] as nat,
            10,
        ) + seq!['.'] + text::numeral(b[2] as nat, 10) + seq!['.'] + text::numeral(b[3] as nat, 10),
{
    lemma_separators();
    reveal_with_fuel(text::joined, 5);
    let p = octets(b);
    assert(p.drop_last() =~= p.take(3));
    assert(p.take(3).drop_last() =~= p.take(2));
    assert(p.take(2).drop_last() =~= p.take(1));
}

/// An IPv6 address that begins with ten zero bytes and two of all ones is
/// written as `::ffff:` and then its last four bytes as an IPv4 address.
pub proof fn law_ipv6_mapped_form(a: Seq<u8>)
    requires
        a.len() == 16,
        forall|i: int| 0 <= i < 10 ==> #[trigger] a[i] == 0,
        a[10] == 255,
        a[11] == 255,
    ensures
        addr::addr_text(10, a) == seq![':', ':', 'f', 'f', 'f', 'f', ':'] + text::numeral(
            a[12] as nat,
            10,
        ) + seq!['.'] + text::numeral(a[13] as nat, 10) + seq!['.'] + text::numeral(
            a[14] as nat,
            10,
        ) + seq!['.'] + text::numeral(a[15] as nat, 10),
{
    let g = addr::groups(a);
    assert forall|i: int| 0 <= i < 5 implies #[trigger] g[i] == 0 by {
        assert(a[2 * i] == 0 && a[2 * i + 1] == 0);
    }
    assert(g[5] == a[10] * 256 + a[11]);
    lemma_dotted(a.skip(12));
    reveal_strlit("::ffff:");
    assert("::ffff:"@ =~= seq![':', ':', 'f', 'f', 'f', 'f', ':']);
    assert(addr::addr_text(10, a) =~= seq![':', ':', 'f', 'f', 'f', 'f', ':'] + text::numeral(
        a[12] as nat,
        10,
    ) + seq!['.'] + text::numeral(a[13] as nat, 10) + seq!['.'] + text::numeral(a[14] as nat, 10)
        + seq!['.'] + text::numeral(a[15] as nat, 10));
}

proof fn lemma_not_mapped(a: Seq<u8>)
    requires
        a.len() == 16,
        !((forall|i: int| 0 <= i < 10 ==> #[trigger] a[i] == 0) && a[10] == 255 && a[11] == 255),
    ensures
        !addr::is_mapped(addr::groups(a)),
{
    let g = addr::groups(a);
    if addr::is_mapped(g) {
        assert forall|i: int| 0 <= i < 10 implies #[trigger] a[i] == 0 by {
            let k = i / 2;
            assert(0 <= k < 5);
            assert(g[k] == 0);
            assert(g[k] == a[2 * k] * 256 + a[2 * k + 1]);
            assert(i == 2 * k || i == 2 * k + 1);
        }
        assert(g[5] == a[10] * 256 + a[11]);
    }
}

/// Any other IPv6 address without two zero groups in a row is written as its
/// eight groups of two bytes in hexadecimal, in their order, with colons
/// between them.
pub proof fn law_ipv6_plain_form(a: Seq<u8>)
    requires
        a.len() == 16,
        forall|i: int|
            0 <= i < 7 ==> !(#[trigger] a[2 * i] == 0 && a[2 * i + 1] == 0 && a[2 * i + 2] == 0 && a[2
                * i + 3] == 0),
    ensures
        addr::addr_text(10, a) == text::joined(
            Seq::new(8, |i: int| text::numeral((a[2 * i] * 256 + a[2 * i + 1]) as nat, 16)),
            seq![':'],
        ),
{
    lemma_separators();
    let g = addr::groups(a);
    if addr::is_mapped(g) {
        assert(g[0] == 0 && g[1] == 0);
        assert(g[0] == a[0] * 256 + a[1] && g[1] == a[2] * 256 + a[3]);
        let first: int = 0;
        assert(a[2 * first] == 0);
    }
    assert forall|s: int, l: int| l > 1 implies !(#[trigger] addr::longest_zero_run(g, s, l)) by {
        if addr::longest_zero_run(g, s, l) {
            assert(addr::zero_run(g, s, l));
            assert(g[s] == 0 && g[s + 1] == 0);
            assert(g[s] == a[2 * s] * 256 + a[2 * s + 1]);
            assert(g[s + 1] == a[2 * (s + 1)] * 256 + a[2 * (s + 1) + 1]);
            assert(a[2 * s] == 0);
        }
    }
    assert(words(g) =~= Seq::new(
        8,
        |i: int| text::numeral((a[2 * i] * 256 + a[2 * i + 1]) as nat, 16),
    ));
}

/// Any other IPv6 address is written with two colons for one run of two or more
/// zero groups: no run is longer, and none of its length comes earlier. What is
/// before the run and what is after it are groups in hexadecimal, in their
/// order, with colons between them.
pub proof fn law_ipv6_short_form(a: Seq<u8>, s: int, l: int)
    requires
        a.len() == 16,
        !((forall|i: int| 0 <= i < 10 ==> #[trigger] a[i] == 0) && a[10] == 255 && a[11] == 255),
        0 <= s,
        2 <= l,
        s + l <= 8,
        forall|i: int| 2 * s <= i < 2 * (s + l) ==> #[trigger] a[i] == 0,
        forall|t: int, m: int|
            0 <= t && 0 < m && t + m <= 8 && (forall|i: int|
                2 * t <= i < 2 * (t + m) ==> #[trigger] a[i] == 0) ==> #[trigger] within(t, m, s, l),
    ensures
        addr::addr_text(10, a) == text::joined(
            Seq::new(
                s as nat,
                |i: int| text::numeral((a[2 * i] * 256 + a[2 * i + 1]) as nat, 16),
            ),
            seq![':'],
        ) + seq![':', ':'] + text::joined(
            Seq::new(
                (8 - s - l) as nat,
                |i: int|
                    text::numeral(
                        (a[2 * (s + l + i)] * 256 + a[2 * (s + l + i) + 1]) as nat,
                        16,
                    ),
            ),
            seq![':'],
        ),
{
    lemma_separators();
    lemma_not_mapped(a);
    let g = addr::groups(a);
    assert forall|i: int| s <= i < s + l implies #[trigger] g[i] == 0 by {
        assert(a[2 * i] == 0 && a[2 * i + 1] == 0);
    }
    assert(addr::zero_run(g, s, l));
    assert forall|t: int, m: int| #[trigger] addr::zero_run(g, t, m) implies m <= l && (0 < m == l
        ==> s <= t) by {
        if m > 0 {
            assert forall|i: int| 2 * t <= i < 2 * (t + m) implies #[trigger] a[i] == 0 by {
                let k = i / 2;
                assert(t <= k < t + m);
                assert(g[k] == 0);
                assert(g[k] == a[2 * k] * 256 + a[2 * k + 1]);
                assert(i == 2 * k || i == 2 * k + 1);
            }
            assert(within(t, m, s, l));
        }
    }
    assert(addr::longest_zero_run(g, s, l));
    let (t, m) = choose|t: int, m: int| m > 1 && #[trigger] addr::longest_zero_run(g, t, m);
    assert(addr::zero_run(g, t, m));
    assert(t == s && m == l);
    assert(words(g.take(s)) =~= Seq::new(
        s as nat,
        |i: int| text::numeral((a[2 * i] * 256 + a[2 * i + 1]) as nat, 16),
    ));
    assert(words(g.skip(s + l)) =~= Seq::new(
        (8 - s - l) as nat,
        |i: int|
            text::numeral((a[2 * (s + l + i)] * 256 + a[2 * (s + l + i) + 1]) as nat, 16),
    ));
}

/// Whether a run is no longer than another and, where it is as long, does not
/// come before it.
pub open spec fn within(start: int, len: int, other_start: int, other_len: int) -> bool {
    len < other_len || len == other_len && other_start <= start
}

} // verus!
