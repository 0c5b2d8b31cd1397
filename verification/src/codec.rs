//! Primitives of the binary framing: big-endian integers, raw byte runs,
//! and the helpers every entity's encoder and parser are built from.
//!
//! Encoders append to a growing buffer; parsers read at a position and
//! return the value with the position after it.  Each executable function
//! is pinned to the spec-level layout, so the byte format proved about is
//! the byte format produced.

use vstd::prelude::*;

verus! {

/// The four bytes of a `u32`, most significant first.
pub open spec fn be32_bytes(x: u32) -> Seq<u8> {
    seq![(x >> 24 & 0xff) as u8, (x >> 16 & 0xff) as u8, (x >> 8 & 0xff) as u8, (x & 0xff) as u8]
}

/// The `u32` four big-endian bytes stand for.
pub open spec fn be32_value(b0: u8, b1: u8, b2: u8, b3: u8) -> u32 {
    (b0 as u32) << 24 | (b1 as u32) << 16 | (b2 as u32) << 8 | b3 as u32
}

/// Reading back the four bytes of a `u32` gives the `u32`.
pub proof fn lemma_be32_value_of_bytes(x: u32)
    ensures
        be32_value(
            be32_bytes(x)[0],
            be32_bytes(x)[1],
            be32_bytes(x)[2],
            be32_bytes(x)[3],
        ) == x,
{
    assert(((x >> 24 & 0xff) as u8 as u32) << 24 | ((x >> 16 & 0xff) as u8 as u32) << 16 | ((x
        >> 8 & 0xff) as u8 as u32) << 8 | (x & 0xff) as u8 as u32 == x) by (bit_vector);
}

/// Encoding the `u32` four bytes stand for gives back those bytes.
pub proof fn lemma_be32_bytes_of_value(b0: u8, b1: u8, b2: u8, b3: u8)
    ensures
        be32_bytes(be32_value(b0, b1, b2, b3)) =~= seq![b0, b1, b2, b3],
{
    assert((((b0 as u32) << 24 | (b1 as u32) << 16 | (b2 as u32) << 8 | b3 as u32) >> 24
        & 0xff) as u8 == b0) by (bit_vector);
    assert((((b0 as u32) << 24 | (b1 as u32) << 16 | (b2 as u32) << 8 | b3 as u32) >> 16
        & 0xff) as u8 == b1) by (bit_vector);
    assert((((b0 as u32) << 24 | (b1 as u32) << 16 | (b2 as u32) << 8 | b3 as u32) >> 8
        & 0xff) as u8 == b2) by (bit_vector);
    assert((((b0 as u32) << 24 | (b1 as u32) << 16 | (b2 as u32) << 8 | b3 as u32)
        & 0xff) as u8 == b3) by (bit_vector);
}

/// Appends a byte.
pub fn write_u8(out: &mut Vec<u8>, b: u8)
    ensures
        final(out)@ == old(out)@ + seq![b],
{
    out.push(b);
    proof {
        assert(out@ =~= old(out)@ + seq![b]);
    }
}

/// Appends four big-endian bytes.
pub fn write_be_u32(out: &mut Vec<u8>, x: u32)
    ensures
        final(out)@ == old(out)@ + be32_bytes(x),
{
    out.push(((x >> 24) & 0xff) as u8);
    out.push(((x >> 16) & 0xff) as u8);
    out.push(((x >> 8) & 0xff) as u8);
    out.push((x & 0xff) as u8);
    proof {
        assert(out@ =~= old(out)@ + be32_bytes(x));
    }
}

/// Appends a run of raw bytes.
pub fn write_bytes(out: &mut Vec<u8>, data: &Vec<u8>)
    ensures
        final(out)@ == old(out)@ + data@,
{
    out.extend_from_slice(data.as_slice());
    proof {
        assert(out@ =~= old(out)@ + data@);
    }
}

/// Reads one byte.
pub fn read_u8(bytes: &Vec<u8>, pos: usize) -> (r: Option<(u8, usize)>)
    ensures
        match r {
            Some(p) => {
                &&& pos < bytes@.len()
                &&& p.0 == bytes@[pos as int]
                &&& p.1 == pos + 1
            },
            None => pos >= bytes@.len(),
        },
{
    if pos < bytes.len() {
        Some((bytes[pos], pos + 1))
    } else {
        None
    }
}

/// Reads an exact run of raw bytes.
pub fn read_exact(bytes: &Vec<u8>, pos: usize, n: usize) -> (r: Option<(Vec<u8>, usize)>)
    ensures
        match r {
            Some(p) => {
                &&& pos + n <= bytes@.len()
                &&& p.0@ == bytes@.subrange(pos as int, pos + n)
                &&& p.1 == pos + n
            },
            None => pos + n > bytes@.len(),
        },
{
    if n <= bytes.len() && pos <= bytes.len() - n {
        let mut out: Vec<u8> = Vec::new();
        let mut i: usize = 0;
        while i < n
            invariant
                pos + n <= bytes@.len(),
                pos + n <= usize::MAX,
                i <= n,
                out@ =~= bytes@.subrange(pos as int, pos + i),
            decreases n - i,
        {
            out.push(bytes[pos + i]);
            i = i + 1;
            proof {
                assert(out@ =~= bytes@.subrange(pos as int, pos + i));
            }
        }
        Some((out, pos + n))
    } else {
        None
    }
}

/// Reads a big-endian `u32`.
pub fn read_be_u32(bytes: &Vec<u8>, pos: usize) -> (r: Option<(u32, usize)>)
    ensures
        match r {
            Some(p) => {
                &&& pos + 4 <= bytes@.len()
                &&& be32_bytes(p.0) == bytes@.subrange(pos as int, pos + 4)
                &&& p.0 == be32_value(
                    bytes@[pos as int],
                    bytes@[pos + 1],
                    bytes@[pos + 2],
                    bytes@[pos + 3],
                )
                &&& p.1 == pos + 4
            },
            None => pos + 4 > bytes@.len(),
        },
{
    if 4 <= bytes.len() && pos <= bytes.len() - 4 {
        let b0 = bytes[pos];
        let b1 = bytes[pos + 1];
        let b2 = bytes[pos + 2];
        let b3 = bytes[pos + 3];
        let x = ((b0 as u32) << 24) | ((b1 as u32) << 16) | ((b2 as u32) << 8) | (b3 as u32);
        proof {
            lemma_be32_bytes_of_value(b0, b1, b2, b3);
            assert(be32_bytes(x) =~= bytes@.subrange(pos as int, pos + 4));
        }
        Some((x, pos + 4))
    } else {
        None
    }
}


/// A subrange of a window equals the matching subrange of its contents.
pub proof fn lemma_subrange_shift(s: Seq<u8>, i: int, enc: Seq<u8>, a: int, b: int)
    requires
        0 <= i,
        i + enc.len() <= s.len(),
        s.subrange(i, i + enc.len()) == enc,
        0 <= a <= b <= enc.len(),
    ensures
        s.subrange(i + a, i + b) == enc.subrange(a, b),
{
    assert forall|k: int| 0 <= k < b - a implies s.subrange(i + a, i + b)[k] == enc.subrange(
        a,
        b,
    )[k] by {
        assert(s.subrange(i, i + enc.len())[a + k] == s[i + (a + k)]);
        assert(s.subrange(i + a, i + b)[k] == s[i + a + k]);
        assert(enc.subrange(a, b)[k] == enc[a + k]);
    }
    assert(s.subrange(i + a, i + b) =~= enc.subrange(a, b));
}

/// Splitting a concatenation at the seam gives back its two halves.
pub proof fn lemma_concat_split(a: Seq<u8>, b: Seq<u8>)
    ensures
        (a + b).subrange(0, a.len() as int) == a,
        (a + b).subrange(a.len() as int, (a.len() + b.len()) as int) == b,
{
    assert((a + b).subrange(0, a.len() as int) =~= a);
    assert((a + b).subrange(a.len() as int, (a.len() + b.len()) as int) =~= b);
}


/// A subrange that stays inside the left half of a concatenation reads
/// from the left half alone.
pub proof fn lemma_concat_prefix_subrange(x: Seq<u8>, y: Seq<u8>, a: int, b: int)
    requires
        0 <= a <= b <= x.len(),
    ensures
        (x + y).subrange(a, b) == x.subrange(a, b),
{
    assert((x + y).subrange(a, b) =~= x.subrange(a, b));
}

/// Whether two byte vectors hold the same bytes.
pub fn bytes_eq(a: &Vec<u8>, b: &Vec<u8>) -> (r: bool)
    ensures
        r == (a@ == b@),
{
    if a.len() != b.len() {
        return false;
    }
    let n = a.len();
    for i in 0..n
        invariant
            n == a@.len(),
            a@.len() == b@.len(),
            forall|j: int| 0 <= j < i ==> a@[j] == b@[j],
    {
        if a[i] != b[i] {
            return false;
        }
    }
    proof {
        assert(a@ =~= b@);
    }
    true
}

} // verus!
