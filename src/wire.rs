//! The byte layout of broadcast items: little-endian fixed-width integers,
//! length prefixes as variable-width integers, and one leading byte for
//! each choice between variants.

use vstd::prelude::*;
use crate::identity::PeerAddr;

verus! {

pub open spec fn pow256(n: nat) -> nat
    decreases n,
{
    if n == 0 {
        1
    } else {
        256 * pow256((n - 1) as nat)
    }
}

/// The `n` low-order bytes of `x`, least significant first.
pub open spec fn le_bytes(x: nat, n: nat) -> Seq<u8>
    decreases n,
{
    if n == 0 {
        seq![]
    } else {
        seq![(x % 256) as u8] + le_bytes(x / 256, (n - 1) as nat)
    }
}

/// The number that the little-endian bytes `s` stand for.
pub open spec fn le_value(s: Seq<u8>) -> nat
    decreases s.len(),
{
    if s.len() == 0 {
        0
    } else {
        s[0] as nat + 256 * le_value(s.drop_first())
    }
}

/// The `n`-byte little-endian integer at `pos` in `s`, if `s` is long enough.
pub open spec fn le_at(s: Seq<u8>, pos: nat, n: nat) -> Option<nat> {
    if pos + n <= s.len() {
        Some(le_value(s.subrange(pos as int, (pos + n) as int)))
    } else {
        None
    }
}

pub proof fn lemma_pow256_mono(a: nat, b: nat)
    requires
        a <= b,
    ensures
        1 <= pow256(a) <= pow256(b),
    decreases b,
{
    if b > a {
        lemma_pow256_mono(a, (b - 1) as nat);
    } else if a > 0 {
        lemma_pow256_mono((a - 1) as nat, (a - 1) as nat);
    }
}

pub proof fn lemma_pow256_values()
    ensures
        pow256(2) == 0x1_0000,
        pow256(4) == 0x1_0000_0000,
        pow256(8) == 0x1_0000_0000_0000_0000,
        pow256(16) == 0x1_0000_0000_0000_0000_0000_0000_0000_0000,
{
    reveal_with_fuel(pow256, 17);
}

pub proof fn lemma_le_bytes_len(x: nat, n: nat)
    ensures
        le_bytes(x, n).len() == n,
    decreases n,
{
    if n > 0 {
        lemma_le_bytes_len(x / 256, (n - 1) as nat);
    }
}

pub proof fn lemma_le_value_bound(s: Seq<u8>)
    ensures
        le_value(s) < pow256(s.len()),
    decreases s.len(),
{
    if s.len() > 0 {
        lemma_le_value_bound(s.drop_first());
    }
}

/// Reading back the bytes of a number that fits gives the number.
pub proof fn lemma_le_round_trip(x: nat, n: nat)
    requires
        x < pow256(n),
    ensures
        le_value(le_bytes(x, n)) == x,
    decreases n,
{
    lemma_le_bytes_len(x, n);
    if n > 0 {
        let q = x / 256;
        vstd::arithmetic::div_mod::lemma_fundamental_div_mod(x as int, 256);
        assert(q < pow256((n - 1) as nat));
        lemma_le_round_trip(q, (n - 1) as nat);
        assert(le_bytes(x, n).drop_first() =~= le_bytes(q, (n - 1) as nat));
    }
}

/// Where `s` holds the bytes of `x` at `pos`, reading there gives `x`.
pub proof fn lemma_le_at(s: Seq<u8>, pos: nat, x: nat, n: nat)
    requires
        x < pow256(n),
        pos + n <= s.len(),
        s.subrange(pos as int, (pos + n) as int) == le_bytes(x, n),
    ensures
        le_at(s, pos, n) == Some(x),
{
    lemma_le_round_trip(x, n);
}

/// Appends the `n` low-order bytes of `x`, least significant first.
pub fn push_le(buf: &mut Vec<u8>, x: u128, n: usize)
    ensures
        final(buf)@ == old(buf)@ + le_bytes(x as nat, n as nat),
{
    let mut v: u128 = x;
    let mut i: usize = 0;
    while i < n
        invariant
            i <= n,
            old(buf)@ + le_bytes(x as nat, n as nat) == buf@ + le_bytes(v as nat, (n - i) as nat),
        decreases n - i,
    {
        let ghost before = buf@;
        let b: u8 = (v % 256) as u8;
        buf.push(b);
        let ghost rest = le_bytes((v / 256) as nat, (n - i - 1) as nat);
        assert(le_bytes(v as nat, (n - i) as nat) == seq![b] + rest);
        assert(before + (seq![b] + rest) =~= buf@ + rest);
        v = v / 256;
        i = i + 1;
    }
    assert(buf@ + le_bytes(v as nat, 0) =~= buf@);
}

/// Reads the `n`-byte little-endian integer at `pos`.
pub fn read_le(data: &[u8], pos: usize, n: usize) -> (r: Option<u128>)
    requires
        n <= 16,
    ensures
        match r {
            Some(v) => le_at(data@, pos as nat, n as nat) == Some(v as nat),
            None => le_at(data@, pos as nat, n as nat) is None,
        },
{
    if n > data.len() || pos > data.len() - n {
        return None;
    }
    let ghost s = data@.subrange(pos as int, pos + n);
    let mut acc: u128 = 0;
    let mut i: usize = n;
    proof {
        lemma_pow256_values();
        lemma_pow256_mono(n as nat, 16);
    }
    while i > 0
        invariant
            i <= n <= 16,
            pos + n <= data@.len(),
            pos + n <= usize::MAX,
            s == data@.subrange(pos as int, pos + n),
            pow256(n as nat) <= pow256(16),
            pow256(16) == 0x1_0000_0000_0000_0000_0000_0000_0000_0000,
            acc as nat == le_value(s.subrange(i as int, n as int)),
            acc < pow256((n - i) as nat),
        decreases i,
    {
        i = i - 1;
        let b: u8 = data[pos + i];
        assert(s.subrange(i as int, n as int).drop_first() =~= s.subrange(i + 1, n as int));
        assert(s.subrange(i as int, n as int)[0] == b);
        proof {
            lemma_pow256_mono((n - i) as nat, n as nat);
        }
        acc = acc * 256 + b as u128;
    }
    assert(s.subrange(0, n as int) =~= s);
    Some(acc)
}

/// The length prefix: one byte below 251, else a marker byte and two, four
/// or eight bytes.
pub open spec fn varint_bytes(n: nat) -> Seq<u8> {
    if n < 251 {
        seq![n as u8]
    } else if n < 0x1_0000 {
        seq![251u8] + le_bytes(n, 2)
    } else if n < 0x1_0000_0000 {
        seq![252u8] + le_bytes(n, 4)
    } else {
        seq![253u8] + le_bytes(n, 8)
    }
}

/// The length prefix at `pos`: its value and the position after it.
pub open spec fn parse_varint(s: Seq<u8>, pos: nat) -> Option<(nat, nat)> {
    if pos >= s.len() {
        None
    } else {
        let b = s[pos as int];
        let width: nat = if b == 251 {
            2
        } else if b == 252 {
            4
        } else {
            8
        };
        if b < 251 {
            Some((b as nat, pos + 1))
        } else if b <= 253 {
            match le_at(s, pos + 1, width) {
                Some(v) => Some((v, pos + 1 + width)),
                None => None,
            }
        } else {
            None
        }
    }
}

pub fn push_varint(buf: &mut Vec<u8>, n: u64)
    ensures
        final(buf)@ == old(buf)@ + varint_bytes(n as nat),
{
    let ghost start = buf@;
    if n < 251 {
        buf.push(n as u8);
        assert(buf@ =~= start + varint_bytes(n as nat));
    } else {
        let (marker, width): (u8, usize) = if n < 0x1_0000 {
            (251, 2)
        } else if n < 0x1_0000_0000 {
            (252, 4)
        } else {
            (253, 8)
        };
        buf.push(marker);
        push_le(buf, n as u128, width);
        assert(buf@ =~= start + varint_bytes(n as nat));
    }
}

pub fn read_varint(data: &[u8], pos: usize) -> (r: Option<(u64, usize)>)
    ensures
        match r {
            Some((v, end)) => parse_varint(data@, pos as nat) == Some((v as nat, end as nat)),
            None => parse_varint(data@, pos as nat) is None,
        },
{
    if pos >= data.len() {
        return None;
    }
    let b: u8 = data[pos];
    if b < 251 {
        return Some((b as u64, pos + 1));
    }
    let width: usize = if b == 251 {
        2
    } else if b == 252 {
        4
    } else {
        8
    };
    if b > 253 {
        return None;
    }
    match read_le(data, pos + 1, width) {
        Some(v) => {
            proof {
                lemma_le_value_bound(data@.subrange(pos + 1, pos + 1 + width));
                lemma_pow256_values();
                lemma_pow256_mono(width as nat, 8);
            }
            Some((v as u64, pos + 1 + width))
        },
        None => None,
    }
}

pub proof fn lemma_varint_round_trip(s: Seq<u8>, pos: nat, n: nat)
    requires
        n < 0x1_0000_0000_0000_0000,
        pos + varint_bytes(n).len() <= s.len(),
        s.subrange(pos as int, (pos + varint_bytes(n).len()) as int) == varint_bytes(n),
    ensures
        parse_varint(s, pos) == Some((n, pos + varint_bytes(n).len())),
{
    lemma_pow256_values();
    let e = varint_bytes(n);
    assert(s[pos as int] == e[0]);
    if n >= 251 {
        let w: nat = if n < 0x1_0000 {
            2
        } else if n < 0x1_0000_0000 {
            4
        } else {
            8
        };
        lemma_le_bytes_len(n, w);
        assert(s.subrange(pos as int + 1, pos as int + 1 + w) =~= e.subrange(1, 1 + w as int));
        assert(e.subrange(1, 1 + w as int) =~= le_bytes(n, w));
        lemma_le_at(s, pos + 1, n, w);
    }
}

pub open spec fn addr_bytes(a: PeerAddr) -> Seq<u8> {
    match a {
        PeerAddr::V4 { ip, port } => seq![0u8] + le_bytes(ip as nat, 4) + le_bytes(port as nat, 2),
        PeerAddr::V6 { ip, port } => seq![1u8] + le_bytes(ip as nat, 16) + le_bytes(port as nat, 2),
    }
}

pub open spec fn parse_addr(s: Seq<u8>, pos: nat) -> Option<(PeerAddr, nat)> {
    if pos >= s.len() {
        None
    } else if s[pos as int] == 0 {
        match (le_at(s, pos + 1, 4), le_at(s, pos + 5, 2)) {
            (Some(ip), Some(port)) => Some((PeerAddr::V4 { ip: ip as u32, port: port as u16 }, pos + 7)),
            _ => None,
        }
    } else if s[pos as int] == 1 {
        match (le_at(s, pos + 1, 16), le_at(s, pos + 17, 2)) {
            (Some(ip), Some(port)) => Some((PeerAddr::V6 { ip: ip as u128, port: port as u16 }, pos + 19)),
            _ => None,
        }
    } else {
        None
    }
}

pub fn push_addr(buf: &mut Vec<u8>, a: PeerAddr)
    ensures
        final(buf)@ == old(buf)@ + addr_bytes(a),
{
    let ghost start = buf@;
    match a {
        PeerAddr::V4 { ip, port } => {
            buf.push(0);
            push_le(buf, ip as u128, 4);
            push_le(buf, port as u128, 2);
        },
        PeerAddr::V6 { ip, port } => {
            buf.push(1);
            push_le(buf, ip, 16);
            push_le(buf, port as u128, 2);
        },
    }
    assert(buf@ =~= start + addr_bytes(a));
}

pub fn read_addr(data: &[u8], pos: usize) -> (r: Option<(PeerAddr, usize)>)
    ensures
        match r {
            Some((a, end)) => parse_addr(data@, pos as nat) == Some((a, end as nat)),
            None => parse_addr(data@, pos as nat) is None,
        },
{
    if pos >= data.len() {
        return None;
    }
    proof {
        lemma_pow256_values();
    }
    let kind: u8 = data[pos];
    if kind == 0 {
        if data.len() - pos < 7 {
            return None;
        }
        match (read_le(data, pos + 1, 4), read_le(data, pos + 5, 2)) {
            (Some(ip), Some(port)) => {
                proof {
                    lemma_le_value_bound(data@.subrange(pos + 1, pos + 5));
                    lemma_le_value_bound(data@.subrange(pos + 5, pos + 7));
                }
                Some((PeerAddr::V4 { ip: ip as u32, port: port as u16 }, pos + 7))
            },
            _ => None,
        }
    } else if kind == 1 {
        if data.len() - pos < 19 {
            return None;
        }
        match (read_le(data, pos + 1, 16), read_le(data, pos + 17, 2)) {
            (Some(ip), Some(port)) => {
                proof {
                    lemma_le_value_bound(data@.subrange(pos + 17, pos + 19));
                }
                Some((PeerAddr::V6 { ip, port: port as u16 }, pos + 19))
            },
            _ => None,
        }
    } else {
        None
    }
}

pub proof fn lemma_addr_round_trip(s: Seq<u8>, pos: nat, a: PeerAddr)
    requires
        pos + addr_bytes(a).len() <= s.len(),
        s.subrange(pos as int, (pos + addr_bytes(a).len()) as int) == addr_bytes(a),
    ensures
        parse_addr(s, pos) == Some((a, pos + addr_bytes(a).len())),
{
    lemma_pow256_values();
    let e = addr_bytes(a);
    assert(s[pos as int] == e[0]);
    match a {
        PeerAddr::V4 { ip, port } => {
            lemma_le_bytes_len(ip as nat, 4);
            lemma_le_bytes_len(port as nat, 2);
            assert(s.subrange(pos as int + 1, pos as int + 5) =~= e.subrange(1, 5));
            assert(e.subrange(1, 5) =~= le_bytes(ip as nat, 4));
            assert(s.subrange(pos as int + 5, pos as int + 7) =~= e.subrange(5, 7));
            assert(e.subrange(5, 7) =~= le_bytes(port as nat, 2));
            lemma_le_at(s, pos + 1, ip as nat, 4);
            lemma_le_at(s, pos + 5, port as nat, 2);
        },
        PeerAddr::V6 { ip, port } => {
            lemma_le_bytes_len(ip as nat, 16);
            lemma_le_bytes_len(port as nat, 2);
            assert(s.subrange(pos as int + 1, pos as int + 17) =~= e.subrange(1, 17));
            assert(e.subrange(1, 17) =~= le_bytes(ip as nat, 16));
            assert(s.subrange(pos as int + 17, pos as int + 19) =~= e.subrange(17, 19));
            assert(e.subrange(17, 19) =~= le_bytes(port as nat, 2));
            lemma_le_at(s, pos + 1, ip as nat, 16);
            lemma_le_at(s, pos + 17, port as nat, 2);
        },
    }
}

} // verus!
