//! Text form of IPv6 addresses (RFC 5952, as `std::net::Ipv6Addr` displays them).
use vstd::prelude::*;
use crate::text::{dec, hex_char, push_decimal};

verus! {

/// Lower-case hexadecimal text of a number, without leading zeros.
pub open spec fn hex_text(n: nat) -> Seq<char>
    decreases n,
{
    if n < 16 {
        seq![hex_char(n)]
    } else {
        hex_text(n / 16).push(hex_char(n % 16))
    }
}

fn hex_digit_char(n: u16) -> (c: char)
    requires
        n < 16,
    ensures
        c == hex_char(n as nat),
{
    if n == 0 { '0' } else if n == 1 { '1' } else if n == 2 { '2' } else if n == 3 { '3' }
    else if n == 4 { '4' } else if n == 5 { '5' } else if n == 6 { '6' } else if n == 7 { '7' }
    else if n == 8 { '8' } else if n == 9 { '9' } else if n == 10 { 'a' } else if n == 11 { 'b' }
    else if n == 12 { 'c' } else if n == 13 { 'd' } else if n == 14 { 'e' } else { 'f' }
}

/// Appends the lower-case hexadecimal text of `n` (`{:x}`).
pub fn push_hex(out: &mut String, n: u16)
    ensures
        final(out)@ == old(out)@ + hex_text(n as nat),
    decreases n,
{
    if n >= 16 {
        push_hex(out, n / 16);
    }
    out.push(hex_digit_char(n % 16));
    assert(old(out)@ + hex_text(n as nat) =~= out@);
}

/// The eight 16-bit groups of an address, most significant first.
pub open spec fn segments(a: u128) -> Seq<u16> {
    Seq::new(8, |i: int| ((a as nat / pow2_16(7 - i)) % 0x1_0000) as u16)
}

/// 2^(16 k).
pub open spec fn pow2_16(k: int) -> nat
    decreases k,
{
    if k <= 0 {
        1
    } else {
        0x1_0000 * pow2_16(k - 1)
    }
}

/// State of the scan for zero groups: (start, length) of the first longest run found so
/// far, and (start, length) of the run that ends at the scan position.
pub struct ZeroScan {
    pub best_start: nat,
    pub best_len: nat,
    pub cur_start: nat,
    pub cur_len: nat,
}

/// The scan for the first longest run of zero groups, over the first `k` groups.
pub open spec fn zero_scan(s: Seq<u16>, k: nat) -> ZeroScan
    decreases k,
{
    if k == 0 {
        ZeroScan { best_start: 0, best_len: 0, cur_start: 0, cur_len: 0 }
    } else {
        let p = zero_scan(s, (k - 1) as nat);
        if s[k - 1] == 0 {
            let cs = if p.cur_len == 0 { (k - 1) as nat } else { p.cur_start };
            let cl = p.cur_len + 1;
            if cl > p.best_len {
                ZeroScan { best_start: cs, best_len: cl, cur_start: cs, cur_len: cl }
            } else {
                ZeroScan { best_start: p.best_start, best_len: p.best_len, cur_start: cs, cur_len: cl }
            }
        } else {
            ZeroScan { best_start: p.best_start, best_len: p.best_len, cur_start: 0, cur_len: 0 }
        }
    }
}

/// Groups written in hexadecimal, separated by `:`.
pub open spec fn groups_text(s: Seq<u16>) -> Seq<char>
    decreases s.len(),
{
    if s.len() == 0 {
        Seq::empty()
    } else if s.len() == 1 {
        hex_text(s[0] as nat)
    } else {
        groups_text(s.drop_last()) + seq![':'] + hex_text(s.last() as nat)
    }
}

/// The text of an IPv6 address: an IPv4-mapped address (`::ffff:a.b.c.d`) shows its IPv4
/// part in dotted decimal; otherwise the groups are written in hexadecimal, and the
/// first longest run of two or more zero groups is written `::`.
pub open spec fn ipv6_text(a: u128) -> Seq<char> {
    let s = segments(a);
    if s[0] == 0 && s[1] == 0 && s[2] == 0 && s[3] == 0 && s[4] == 0 && s[5] == 0xffff {
        seq![':', ':', 'f', 'f', 'f', 'f', ':'] + dec((s[6] / 256) as nat) + seq!['.'] + dec(
            (s[6] % 256) as nat,
        ) + seq!['.'] + dec((s[7] / 256) as nat) + seq!['.'] + dec((s[7] % 256) as nat)
    } else {
        let z = zero_scan(s, 8);
        if z.best_len > 1 {
            groups_text(s.take(z.best_start as int)) + seq![':', ':'] + groups_text(
                s.skip((z.best_start + z.best_len) as int),
            )
        } else {
            groups_text(s)
        }
    }
}

proof fn lemma_pow2_16()
    ensures
        pow2_16(0) == 1,
        pow2_16(1) == 0x1_0000,
        pow2_16(2) == 0x1_0000_0000,
        pow2_16(3) == 0x1_0000_0000_0000,
        pow2_16(4) == 0x1_0000_0000_0000_0000,
        pow2_16(5) == 0x1_0000_0000_0000_0000_0000,
        pow2_16(6) == 0x1_0000_0000_0000_0000_0000_0000,
        pow2_16(7) == 0x1_0000_0000_0000_0000_0000_0000_0000,
{
    reveal_with_fuel(pow2_16, 8);
}

fn segments_of(a: u128) -> (r: Vec<u16>)
    ensures
        r@ == segments(a),
{
    proof {
        lemma_pow2_16();
    }
    let mut r: Vec<u16> = Vec::new();
    r.push(((a / 0x1_0000_0000_0000_0000_0000_0000_0000) % 0x1_0000) as u16);
    r.push(((a / 0x1_0000_0000_0000_0000_0000_0000) % 0x1_0000) as u16);
    r.push(((a / 0x1_0000_0000_0000_0000_0000) % 0x1_0000) as u16);
    r.push(((a / 0x1_0000_0000_0000_0000) % 0x1_0000) as u16);
    r.push(((a / 0x1_0000_0000_0000) % 0x1_0000) as u16);
    r.push(((a / 0x1_0000_0000) % 0x1_0000) as u16);
    r.push(((a / 0x1_0000) % 0x1_0000) as u16);
    r.push((a % 0x1_0000) as u16);
    assert(r@[0] == segments(a)[0]);
    assert(r@[1] == segments(a)[1]);
    assert(r@[2] == segments(a)[2]);
    assert(r@[3] == segments(a)[3]);
    assert(r@[4] == segments(a)[4]);
    assert(r@[5] == segments(a)[5]);
    assert(r@[6] == segments(a)[6]);
    assert(a as nat / pow2_16(0) == a as nat);
    assert(r@[7] == segments(a)[7]);
    assert(r@ =~= segments(a));
    r
}

/// Appends groups `s[from..to]` in hexadecimal, separated by `:`.
fn push_groups(out: &mut String, s: &Vec<u16>, from: usize, to: usize)
    requires
        from <= to <= s.len(),
    ensures
        final(out)@ == old(out)@ + groups_text(s@.subrange(from as int, to as int)),
{
    let mut i: usize = from;
    while i < to
        invariant
            from <= i <= to <= s.len(),
            out@ == old(out)@ + groups_text(s@.subrange(from as int, i as int)),
        decreases to - i,
    {
        if i > from {
            out.push(':');
        }
        push_hex(out, s[i]);
        assert(s@.subrange(from as int, i + 1).drop_last() =~= s@.subrange(from as int, i as int));
        assert(out@ =~= old(out)@ + groups_text(s@.subrange(from as int, i + 1)));
        i = i + 1;
    }
}

/// The text of an IPv6 address, as `Ipv6Addr`'s `Display` writes it.
pub fn ipv6_string(a: u128) -> (out: String)
    ensures
        out@ == ipv6_text(a),
{
    let s = segments_of(a);
    let mut out = String::new();
    if s[0] == 0 && s[1] == 0 && s[2] == 0 && s[3] == 0 && s[4] == 0 && s[5] == 0xffff {
        out.push(':');
        out.push(':');
        out.push('f');
        out.push('f');
        out.push('f');
        out.push('f');
        out.push(':');
        push_decimal(&mut out, (s[6] / 256) as u64);
        out.push('.');
        push_decimal(&mut out, (s[6] % 256) as u64);
        out.push('.');
        push_decimal(&mut out, (s[7] / 256) as u64);
        out.push('.');
        push_decimal(&mut out, (s[7] % 256) as u64);
        assert(out@ =~= ipv6_text(a));
        return out;
    }
    let mut best_start: usize = 0;
    let mut best_len: usize = 0;
    let mut cur_start: usize = 0;
    let mut cur_len: usize = 0;
    let mut i: usize = 0;
    while i < 8
        invariant
            s@ == segments(a),
            i <= 8,
            zero_scan(s@, i as nat) == (ZeroScan {
                best_start: best_start as nat,
                best_len: best_len as nat,
                cur_start: cur_start as nat,
                cur_len: cur_len as nat,
            }),
            best_start + best_len <= i,
            cur_len <= i,
            cur_len > 0 ==> cur_start + cur_len == i,
        decreases 8 - i,
    {
        if s[i] == 0 {
            if cur_len == 0 {
                cur_start = i;
            }
            cur_len = cur_len + 1;
            if cur_len > best_len {
                best_start = cur_start;
                best_len = cur_len;
            }
        } else {
            cur_start = 0;
            cur_len = 0;
        }
        i = i + 1;
    }
    if best_len > 1 {
        push_groups(&mut out, &s, 0, best_start);
        out.push(':');
        out.push(':');
        push_groups(&mut out, &s, best_start + best_len, 8);
        assert(s@.subrange(0, best_start as int) =~= s@.take(best_start as int));
        assert(s@.subrange((best_start + best_len) as int, 8) =~= s@.skip((best_start + best_len) as int));
    } else {
        push_groups(&mut out, &s, 0, 8);
        assert(s@.subrange(0, 8) =~= s@);
    }
    assert(out@ =~= ipv6_text(a));
    out
}

} // verus!
