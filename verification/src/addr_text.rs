//! The text of IP and socket addresses: dotted decimal for version 4, and
//! for version 6 lowercase hexadecimal groups with the longest run of zero
//! groups written `::`, in brackets before the port.

use vstd::prelude::*;
use crate::addr::{IpAddr, SocketAddr};

verus! {

/// The character of digit `d`, lowercase past nine.
pub open spec fn digit_char(d: nat) -> char {
    if d < 10 { (48 + d) as char } else { (87 + d) as char }
}

/// `n` in decimal, without leading zeros.
pub open spec fn dec_text(n: nat) -> Seq<char>
    decreases n,
{
    if n < 10 { seq![digit_char(n)] } else { dec_text(n / 10).push(digit_char(n % 10)) }
}

/// `n` in lowercase hexadecimal, without leading zeros.
pub open spec fn hex_text(n: nat) -> Seq<char>
    decreases n,
{
    if n < 16 { seq![digit_char(n)] } else { hex_text(n / 16).push(digit_char(n % 16)) }
}

/// A version 4 address as four dotted decimal octets, first octet highest.
pub open spec fn v4_text(a: u32) -> Seq<char> {
    dec_text((a / 0x100_0000) as nat) + seq!['.'] + dec_text(((a / 0x1_0000) % 256) as nat) + seq!['.']
        + dec_text(((a / 0x100) % 256) as nat) + seq!['.'] + dec_text((a % 256) as nat)
}

/// The eight 16-bit groups of a version 6 address, first group highest.
pub open spec fn v6_groups(a: u128) -> Seq<nat> {
    seq![
        ((a / 0x1_0000_0000_0000_0000_0000_0000_0000) % 0x1_0000) as nat,
        ((a / 0x1_0000_0000_0000_0000_0000_0000) % 0x1_0000) as nat,
        ((a / 0x1_0000_0000_0000_0000_0000) % 0x1_0000) as nat,
        ((a / 0x1_0000_0000_0000_0000) % 0x1_0000) as nat,
        ((a / 0x1_0000_0000_0000) % 0x1_0000) as nat,
        ((a / 0x1_0000_0000) % 0x1_0000) as nat,
        ((a / 0x1_0000) % 0x1_0000) as nat,
        (a % 0x1_0000) as nat,
    ]
}

/// The number of zero groups in `g` from position `i` on, up to the first
/// nonzero one.
pub open spec fn zero_run(g: Seq<nat>, i: int) -> nat
    decreases g.len() - i,
{
    if 0 <= i < g.len() && g[i] == 0 { 1 + zero_run(g, i + 1) } else { 0 }
}

/// The longest run of zero groups that starts before position `k`, as
/// (start, length); the first one among runs of equal length.
pub open spec fn longest_zero_run(g: Seq<nat>, k: nat) -> (int, nat)
    decreases k,
{
    if k == 0 {
        (0, 0)
    } else {
        let best = longest_zero_run(g, (k - 1) as nat);
        let here = zero_run(g, k - 1);
        if here > best.1 { ((k - 1) as int, here) } else { best }
    }
}

/// Groups `g` in hexadecimal, separated by colons.
pub open spec fn groups_text(g: Seq<nat>) -> Seq<char>
    decreases g.len(),
{
    if g.len() == 0 {
        Seq::empty()
    } else if g.len() == 1 {
        hex_text(g[0])
    } else {
        groups_text(g.drop_last()) + seq![':'] + hex_text(g.last())
    }
}

/// A version 6 address: an IPv4-mapped one as `::ffff:` and its version 4
/// text; otherwise its groups, with the longest run of two or more zero
/// groups written `::`.
pub open spec fn v6_text(a: u128) -> Seq<char> {
    if a / 0x1_0000_0000 == 0xffff {
        seq![':', ':', 'f', 'f', 'f', 'f', ':'] + v4_text((a % 0x1_0000_0000) as u32)
    } else {
        let g = v6_groups(a);
        let run = longest_zero_run(g, 8);
        if run.1 > 1 {
            groups_text(g.take(run.0)) + seq![':', ':'] + groups_text(g.skip(run.0 + run.1))
        } else {
            groups_text(g)
        }
    }
}

/// The text of an IP address.
pub open spec fn ip_text(ip: IpAddr) -> Seq<char> {
    match ip {
        IpAddr::V4(a) => v4_text(a),
        IpAddr::V6(a) => v6_text(a),
    }
}

/// The text of a socket address: the IP, in brackets for version 6, a
/// colon and the port in decimal.
pub open spec fn socket_addr_text(addr: SocketAddr) -> Seq<char> {
    match addr.ip {
        IpAddr::V4(a) => v4_text(a) + seq![':'] + dec_text(addr.port as nat),
        IpAddr::V6(a) => seq!['['] + v6_text(a) + seq![']', ':'] + dec_text(addr.port as nat),
    }
}

/// Appends the character of digit `d`.
fn push_digit(s: &mut String, d: u64)
    requires
        d < 16,
    ensures
        final(s)@ == old(s)@.push(digit_char(d as nat)),
{
    let c: &str = match d {
        0 => "0",
        1 => "1",
        2 => "2",
        3 => "3",
        4 => "4",
        5 => "5",
        6 => "6",
        7 => "7",
        8 => "8",
        9 => "9",
        10 => "a",
        11 => "b",
        12 => "c",
        13 => "d",
        14 => "e",
        _ => "f",
    };
    proof {
        reveal_strlit("0");
        reveal_strlit("1");
        reveal_strlit("2");
        reveal_strlit("3");
        reveal_strlit("4");
        reveal_strlit("5");
        reveal_strlit("6");
        reveal_strlit("7");
        reveal_strlit("8");
        reveal_strlit("9");
        reveal_strlit("a");
        reveal_strlit("b");
        reveal_strlit("c");
        reveal_strlit("d");
        reveal_strlit("e");
        reveal_strlit("f");
    }
    s.append(c);
    proof {
        assert(c@ =~= seq![digit_char(d as nat)]);
    }
}

/// Appends `text`, a literal of the address syntax.
pub(crate) fn push_str(s: &mut String, text: &str)
    ensures
        final(s)@ == old(s)@ + text@,
{
    s.append(text);
}

/// Appends `n` in decimal.
pub(crate) fn push_dec(s: &mut String, n: u64)
    ensures
        final(s)@ == old(s)@ + dec_text(n as nat),
    decreases n,
{
    if n >= 10 {
        push_dec(s, n / 10);
    }
    push_digit(s, n % 10);
    proof {
        if n < 10 {
            assert(n % 10 == n);
        }
    }
}

/// Appends `n` in hexadecimal.
fn push_hex(s: &mut String, n: u64)
    ensures
        final(s)@ == old(s)@ + hex_text(n as nat),
    decreases n,
{
    if n >= 16 {
        push_hex(s, n / 16);
    }
    push_digit(s, n % 16);
    proof {
        if n < 16 {
            assert(n % 16 == n);
        }
    }
}

/// Appends a version 4 address.
fn push_v4(s: &mut String, a: u32)
    ensures
        final(s)@ == old(s)@ + v4_text(a),
{
    let ghost s0 = s@;
    push_dec(s, (a / 0x100_0000) as u64);
    push_str(s, ".");
    push_dec(s, ((a / 0x1_0000) % 256) as u64);
    push_str(s, ".");
    push_dec(s, ((a / 0x100) % 256) as u64);
    push_str(s, ".");
    push_dec(s, (a % 256) as u64);
    proof {
        reveal_strlit(".");
        assert(s@ =~= s0 + v4_text(a));
    }
}

/// The eight groups of a version 6 address.
fn groups_of(a: u128) -> (g: Vec<u64>)
    ensures
        g@.len() == 8,
        forall|i: int| 0 <= i < 8 ==> g@[i] as nat == #[trigger] v6_groups(a)[i],
{
    let mut g: Vec<u64> = Vec::new();
    g.push(((a / 0x1_0000_0000_0000_0000_0000_0000_0000) % 0x1_0000) as u64);
    g.push(((a / 0x1_0000_0000_0000_0000_0000_0000) % 0x1_0000) as u64);
    g.push(((a / 0x1_0000_0000_0000_0000_0000) % 0x1_0000) as u64);
    g.push(((a / 0x1_0000_0000_0000_0000) % 0x1_0000) as u64);
    g.push(((a / 0x1_0000_0000_0000) % 0x1_0000) as u64);
    g.push(((a / 0x1_0000_0000) % 0x1_0000) as u64);
    g.push(((a / 0x1_0000) % 0x1_0000) as u64);
    g.push((a % 0x1_0000) as u64);
    g
}

/// The groups as numbers.
pub open spec fn as_nats(g: Seq<u64>) -> Seq<nat> {
    g.map_values(|x: u64| x as nat)
}

/// A run of zeros from `i` is one longer than the run from `i + 1` when
/// group `i` is zero.
proof fn lemma_zero_run_step(g: Seq<nat>, i: int)
    requires
        0 <= i < g.len(),
    ensures
        g[i] == 0 ==> zero_run(g, i) == 1 + zero_run(g, i + 1),
        g[i] != 0 ==> zero_run(g, i) == 0,
{
}

/// The longest run of zero groups in `g`, as (start, length).
fn longest_run(g: &Vec<u64>) -> (r: (usize, usize))
    requires
        g@.len() == 8,
    ensures
        r.0 as int == longest_zero_run(as_nats(g@), 8).0,
        r.1 as nat == longest_zero_run(as_nats(g@), 8).1,
        r.0 + r.1 <= 8,
{
    let ghost gn = as_nats(g@);
    let mut best_start: usize = 0;
    let mut best_len: usize = 0;
    let mut k: usize = 0;
    while k < 8
        invariant
            g@.len() == 8,
            gn == as_nats(g@),
            k <= 8,
            best_start as int == longest_zero_run(gn, k as nat).0,
            best_len as nat == longest_zero_run(gn, k as nat).1,
            best_start + best_len <= 8,
        decreases 8 - k,
    {
        let mut j: usize = k;
        while j < 8 && g[j] == 0
            invariant
                g@.len() == 8,
                gn == as_nats(g@),
                k <= j <= 8,
                zero_run(gn, k as int) == (j - k) + zero_run(gn, j as int),
            decreases 8 - j,
        {
            proof { lemma_zero_run_step(gn, j as int); }
            j = j + 1;
        }
        proof {
            if j < 8 {
                lemma_zero_run_step(gn, j as int);
            }
            assert(zero_run(gn, k as int) == j - k);
        }
        if j - k > best_len {
            best_start = k;
            best_len = j - k;
        }
        k = k + 1;
    }
    (best_start, best_len)
}

/// Appends groups `from..to` of `g`, separated by colons.
fn push_groups(s: &mut String, g: &Vec<u64>, from: usize, to: usize)
    requires
        from <= to <= g@.len(),
    ensures
        final(s)@ == old(s)@ + groups_text(as_nats(g@).subrange(from as int, to as int)),
{
    let ghost s0 = s@;
    let ghost gn = as_nats(g@);
    let mut j: usize = from;
    while j < to
        invariant
            from <= j <= to <= g@.len(),
            gn == as_nats(g@),
            s@ == s0 + groups_text(gn.subrange(from as int, j as int)),
        decreases to - j,
    {
        proof {
            reveal_strlit(":");
            assert(gn.subrange(from as int, j + 1).drop_last() == gn.subrange(from as int, j as int));
            assert(gn.subrange(from as int, j + 1).last() == g@[j as int] as nat);
        }
        if j > from {
            push_str(s, ":");
        }
        push_hex(s, g[j]);
        proof {
            if j == from {
                assert(gn.subrange(from as int, j as int) =~= Seq::<nat>::empty());
                assert(s@ =~= s0 + groups_text(gn.subrange(from as int, j + 1)));
            } else {
                assert(s@ =~= s0 + groups_text(gn.subrange(from as int, j + 1)));
            }
        }
        j = j + 1;
    }
}

/// Appends a version 6 address.
fn push_v6(s: &mut String, a: u128)
    ensures
        final(s)@ == old(s)@ + v6_text(a),
{
    let ghost s0 = s@;
    if a / 0x1_0000_0000 == 0xffff {
        push_str(s, "::ffff:");
        push_v4(s, (a % 0x1_0000_0000) as u32);
        proof {
            reveal_strlit("::ffff:");
            assert(s@ =~= s0 + v6_text(a));
        }
        return;
    }
    let g = groups_of(a);
    proof {
        assert(as_nats(g@) =~= v6_groups(a));
    }
    let (start, len) = longest_run(&g);
    if len > 1 {
        push_groups(s, &g, 0, start);
        push_str(s, "::");
        push_groups(s, &g, start + len, 8);
        proof {
            reveal_strlit("::");
            assert(as_nats(g@).subrange(0, start as int) =~= v6_groups(a).take(start as int));
            assert(as_nats(g@).subrange(start + len, 8) =~= v6_groups(a).skip(start + len));
            assert(s@ =~= s0 + v6_text(a));
        }
    } else {
        push_groups(s, &g, 0, 8);
        proof {
            assert(as_nats(g@).subrange(0, 8) =~= v6_groups(a));
            assert(s@ =~= s0 + v6_text(a));
        }
    }
}

/// The text of an IP address.
pub fn ip_to_text(ip: IpAddr) -> (t: String)
    ensures
        t@ == ip_text(ip),
{
    let mut s = String::new();
    match ip {
        IpAddr::V4(a) => push_v4(&mut s, a),
        IpAddr::V6(a) => push_v6(&mut s, a),
    }
    proof { assert(s@ =~= ip_text(ip)); }
    s
}

/// The text of a socket address.
pub fn socket_addr_to_text(addr: SocketAddr) -> (t: String)
    ensures
        t@ == socket_addr_text(addr),
{
    let mut s = String::new();
    match addr.ip {
        IpAddr::V4(a) => {
            push_v4(&mut s, a);
        },
        IpAddr::V6(a) => {
            push_str(&mut s, "[");
            push_v6(&mut s, a);
            push_str(&mut s, "]");
        },
    }
    push_str(&mut s, ":");
    push_dec(&mut s, addr.port as u64);
    proof {
        reveal_strlit("[");
        reveal_strlit("]");
        reveal_strlit(":");
        assert(s@ =~= socket_addr_text(addr));
    }
    s
}

} // verus!
