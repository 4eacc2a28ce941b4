//! Integers as they are stored in a blob.
use vstd::prelude::*;

verus! {

/// Byte order of the integers in a blob.
#[derive(Debug, Clone, Copy, PartialEq, Eq, Structural)]
pub enum Endian {
    Little,
    Big,
}

/// `256` to the power `n`: one more than the largest integer of `n` bytes.
pub open spec fn byte_limit(n: nat) -> nat
    decreases n,
{
    if n == 0 {
        1
    } else {
        256 * byte_limit((n - 1) as nat)
    }
}

/// The integer whose little-endian bytes are `s`.
pub open spec fn uint_le(s: Seq<u8>) -> nat
    decreases s.len(),
{
    if s.len() == 0 {
        0
    } else {
        s[0] as nat + 256 * uint_le(s.subrange(1, s.len() as int))
    }
}

/// The integer whose big-endian bytes are `s`.
pub open spec fn uint_be(s: Seq<u8>) -> nat
    decreases s.len(),
{
    if s.len() == 0 {
        0
    } else {
        uint_be(s.subrange(0, s.len() - 1)) * 256 + s.last() as nat
    }
}

/// The unsigned integer of `width` bytes at `pos`, or `None` where the blob ends before it.
pub open spec fn uint_at(blob: Seq<u8>, pos: int, width: nat, endian: Endian) -> Option<nat> {
    if pos < 0 || pos + width > blob.len() {
        None
    } else {
        let s = blob.subrange(pos, pos + width);
        Some(
            match endian {
                Endian::Little => uint_le(s),
                Endian::Big => uint_be(s),
            },
        )
    }
}

pub proof fn lemma_byte_limit_mono(a: nat, b: nat)
    requires
        a <= b,
    ensures
        byte_limit(a) <= byte_limit(b),
    decreases b,
{
    if a < b {
        lemma_byte_limit_mono(a, (b - 1) as nat);
    }
}

pub proof fn lemma_byte_limit_8()
    ensures
        byte_limit(1) == 0x100,
        byte_limit(2) == 0x1_0000,
        byte_limit(4) == 0x1_0000_0000,
        byte_limit(8) == 0x1_0000_0000_0000_0000,
{
    reveal_with_fuel(byte_limit, 9);
}

pub proof fn lemma_uint_le_bound(s: Seq<u8>)
    ensures
        uint_le(s) < byte_limit(s.len()),
    decreases s.len(),
{
    if s.len() > 0 {
        let rest = s.subrange(1, s.len() as int);
        lemma_uint_le_bound(rest);
        let a = uint_le(rest);
        let l = byte_limit(rest.len());
        assert(s[0] as nat + 256 * a < 256 * l) by (nonlinear_arith)
            requires
                a < l,
                s[0] < 256,
        ;
    }
}

pub proof fn lemma_uint_be_bound(s: Seq<u8>)
    ensures
        uint_be(s) < byte_limit(s.len()),
    decreases s.len(),
{
    if s.len() > 0 {
        let init = s.subrange(0, s.len() - 1);
        lemma_uint_be_bound(init);
        let a = uint_be(init);
        let l = byte_limit(init.len());
        assert(a * 256 + s.last() < 256 * l) by (nonlinear_arith)
            requires
                a < l,
                s.last() < 256,
        ;
    }
}

/// An integer of `width` bytes is below `256` to the power `width`.
pub proof fn lemma_uint_at_bound(blob: Seq<u8>, pos: int, width: nat, e: Endian)
    ensures
        uint_at(blob, pos, width, e) matches Some(n) ==> n < byte_limit(width),
{
    if pos >= 0 && pos + width <= blob.len() {
        lemma_uint_le_bound(blob.subrange(pos, pos + width));
        lemma_uint_be_bound(blob.subrange(pos, pos + width));
    }
}

/// Reads the unsigned integer of `width` bytes (at most eight) at `pos`.
pub fn read_uint(blob: &[u8], pos: usize, width: usize, endian: Endian) -> (r: Option<u64>)
    requires
        width <= 8,
    ensures
        match r {
            Some(v) => uint_at(blob@, pos as int, width as nat, endian) == Some(v as nat)
                && (v as nat) < byte_limit(width as nat),
            None => uint_at(blob@, pos as int, width as nat, endian) is None,
        },
{
    if pos > blob.len() || width > blob.len() - pos {
        return None;
    }
    let ghost s = blob@.subrange(pos as int, pos + width);
    let mut acc: u64 = 0;
    let mut k: usize = 0;
    while k < width
        invariant
            k <= width <= 8,
            pos + width <= blob.len(),
            s == blob@.subrange(pos as int, pos + width),
            acc < byte_limit(k as nat),
            endian == Endian::Big ==> acc == uint_be(s.subrange(0, k as int)),
            endian == Endian::Little ==> acc == uint_le(s.subrange(width - k, width as int)),
        decreases width - k,
    {
        let b = match endian {
            Endian::Big => blob[pos + k],
            Endian::Little => blob[pos + width - 1 - k],
        };
        proof {
            lemma_byte_limit_mono((k + 1) as nat, 8);
            lemma_byte_limit_8();
            assert(acc * 256 + b < byte_limit((k + 1) as nat)) by (nonlinear_arith)
                requires
                    acc < byte_limit(k as nat),
                    b < 256,
                    byte_limit((k + 1) as nat) == 256 * byte_limit(k as nat),
            ;
            if endian == Endian::Big {
                assert(s.subrange(0, k + 1).subrange(0, k as int) =~= s.subrange(0, k as int));
            } else {
                assert(s.subrange(width - (k + 1), width as int).subrange(1, (k + 1) as int)
                    =~= s.subrange(width - k, width as int));
            }
        }
        acc = acc * 256 + b as u64;
        k = k + 1;
    }
    proof {
        assert(s.subrange(0, width as int) =~= s);
    }
    Some(acc)
}

} // verus!
