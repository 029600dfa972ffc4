//! Little-endian base-128 varints: the integer encoding underneath every
//! field of the wire format.

use vstd::prelude::*;

verus! {

/// The varint encoding of `n`: seven low bits per byte, least significant
/// group first, the high bit set on every byte except the last.
pub open spec fn varint_bytes(n: u64) -> Seq<u8>
    decreases n,
{
    if n < 0x80 {
        seq![n as u8]
    } else {
        seq![(0x80 + n % 0x80) as u8] + varint_bytes(n / 0x80)
    }
}

/// Parses one varint starting at index `i` of `s`. Yields the decoded value
/// together with the index just past its last byte, or nothing when the
/// buffer ends inside the varint or the value does not fit in 64 bits.
pub open spec fn parse_varint(s: Seq<u8>, i: int) -> Option<(u64, int)>
    decreases s.len() - i,
{
    if i < 0 || i >= s.len() {
        None
    } else if s[i] < 0x80 {
        Some((s[i] as u64, i + 1))
    } else {
        match parse_varint(s, i + 1) {
            None => None,
            Some((hi, j)) => {
                if hi <= 0x01ff_ffff_ffff_ffffu64 {
                    Some(((hi * 0x80 + (s[i] - 0x80)) as u64, j))
                } else {
                    None
                }
            },
        }
    }
}

/// Powers of 128, the radix of the encoding.
pub open spec fn pow128(k: nat) -> nat
    decreases k,
{
    if k == 0 {
        1
    } else {
        128 * pow128((k - 1) as nat)
    }
}

proof fn lemma_varint_len_aux(n: u64, k: nat)
    requires
        1 <= k,
        (n as nat) < pow128(k),
    ensures
        varint_bytes(n).len() <= k,
    decreases n,
{
    if n < 0x80 {
    } else {
        assert(pow128(1) == 128) by {
            reveal_with_fuel(pow128, 2);
        }
        assert(k != 1);
        assert((n as nat) / 128 < pow128((k - 1) as nat)) by (nonlinear_arith)
            requires
                (n as nat) < 128 * pow128((k - 1) as nat),
        ;
        lemma_varint_len_aux(n / 0x80, (k - 1) as nat);
    }
}

/// A varint never takes more than ten bytes.
pub proof fn lemma_varint_len(n: u64)
    ensures
        1 <= varint_bytes(n).len() <= 10,
{
    assert(pow128(10) > 0xffff_ffff_ffff_ffff) by {
        reveal_with_fuel(pow128, 11);
    }
    lemma_varint_len_aux(n, 10);
}

/// Returns the varint encoding of `n` as a fresh buffer.
pub fn encode_varint(n: u64) -> (out: Vec<u8>)
    ensures
        out@ == varint_bytes(n),
{
    let mut out: Vec<u8> = Vec::new();
    let mut m: u64 = n;
    while m >= 0x80
        invariant
            out@ + varint_bytes(m) == varint_bytes(n),
        decreases m,
    {
        let b: u8 = 0x80 + (m % 0x80) as u8;
        proof {
            assert(varint_bytes(m) == seq![b] + varint_bytes(m / 0x80));
            assert(out@ + varint_bytes(m) == (out@ + seq![b]) + varint_bytes(m / 0x80));
        }
        out.push(b);
        m = m / 0x80;
    }
    proof {
        assert(varint_bytes(m) == seq![m as u8]);
        assert(out@ + varint_bytes(m) == out@.push(m as u8));
    }
    out.push(m as u8);
    out
}

/// Decodes one varint starting at index `i` of `buf`, exactly as
/// `parse_varint` describes.
pub fn decode_varint(buf: &Vec<u8>, i: usize) -> (r: Option<(u64, usize)>)
    ensures
        r is None ==> parse_varint(buf@, i as int) is None,
        r matches Some(p) ==> parse_varint(buf@, i as int) == Some((p.0, p.1 as int))
            && i < p.1 <= buf@.len(),
    decreases buf@.len() - i,
{
    if i >= buf.len() {
        None
    } else {
        let b: u8 = buf[i];
        if b < 0x80 {
            Some((b as u64, i + 1))
        } else {
            match decode_varint(buf, i + 1) {
                None => None,
                Some((hi, j)) => {
                    if hi <= 0x01ff_ffff_ffff_ffff {
                        Some((hi * 0x80 + (b - 0x80) as u64, j))
                    } else {
                        None
                    }
                },
            }
        }
    }
}

/// Parsing finds exactly the encoded value: wherever the bytes of
/// `varint_bytes(n)` sit in `s`, the parse at that index yields `n` and
/// stops just past them.
pub proof fn lemma_parse_varint_at(s: Seq<u8>, i: int, n: u64)
    requires
        0 <= i,
        i + varint_bytes(n).len() <= s.len(),
        s.subrange(i, i + varint_bytes(n).len() as int) == varint_bytes(n),
    ensures
        parse_varint(s, i) == Some((n, i + varint_bytes(n).len())),
    decreases n,
{
    let e = varint_bytes(n);
    assert(s[i] == e[0]);
    if n < 0x80 {
        assert(e == seq![n as u8]);
        assert(s[i] == n as u8);
    } else {
        let e_hi = varint_bytes(n / 0x80);
        assert(e == seq![(0x80 + n % 0x80) as u8] + e_hi);
        assert(s[i] == (0x80 + n % 0x80) as u8);
        assert(s.subrange(i + 1, i + 1 + e_hi.len() as int) =~= e_hi) by {
            assert forall|k: int| 0 <= k < e_hi.len() implies
                s.subrange(i + 1, i + 1 + e_hi.len() as int)[k] == e_hi[k]
            by {
                assert(s[i + 1 + k] == e[1 + k]);
            }
        }
        lemma_parse_varint_at(s, i + 1, n / 0x80);
        assert(parse_varint(s, i + 1) == Some((n / 0x80, i + 1 + e_hi.len())));
        assert(n / 0x80 <= 0x01ff_ffff_ffff_ffffu64);
        assert((n / 0x80) * 0x80 + (s[i] - 0x80) == n) by {
            assert(s[i] - 0x80 == n % 0x80);
            assert(n == 0x80 * (n / 0x80) + n % 0x80) by {
                vstd::arithmetic::div_mod::lemma_fundamental_div_mod(n as int, 0x80);
            }
        }
    }
}

} // verus!
