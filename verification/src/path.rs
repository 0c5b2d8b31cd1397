//! Constrained strings for human-facing names.
//!
//! A segment is a non-empty piece of text under 256 UTF-8 bytes whose
//! characters are each a space, a letter, a digit, pattern syntax or
//! emoji.  On the wire a segment is its UTF-8 bytes closed by a NUL, and
//! decoding re-validates the rules.

use vstd::prelude::*;

use crate::codec::read_exact;
use crate::codec::write_bytes;
use crate::codec::write_u8;
use crate::crypto;
use crate::crypto::segment_text_ok;
use vstd::utf8::decode_utf8;
use vstd::utf8::encode_utf8;
use vstd::utf8::encode_utf8_decode_utf8;
use vstd::utf8::encode_utf8_valid_utf8;
use vstd::utf8::valid_utf8;

verus! {

/// Why a name was rejected.
#[derive(Debug, Clone, Copy)]
pub enum PathError {
    InvalidSegment,
    TooManySegments,
}

/// A segment's byte form, NUL terminator included, must stay under this.
pub const MAX_SEGMENT_LENGTH: usize = 256;

/// What a segment accepts: UTF-8 under 256 bytes, no NUL byte anywhere
/// (the terminator must be unambiguous), and every character in the
/// allowed classes.
pub open spec fn spec_segment_valid(text: Seq<char>) -> bool {
    &&& encode_utf8(text).len() < 256
    &&& forall|j: int| 0 <= j < encode_utf8(text).len() ==> encode_utf8(text)[j] != 0
    &&& segment_text_ok(text)
}

/// The canonical byte layout of a segment: its UTF-8 bytes closed by NUL.
pub open spec fn spec_segment_bytes(text: Seq<char>) -> Seq<u8> {
    encode_utf8(text) + seq![0u8]
}

/// The position of the first NUL byte at or after `i`, if any.
pub open spec fn spec_nul_pos(s: Seq<u8>, i: int) -> Option<int>
    decreases s.len() - i,
{
    if i < 0 || i >= s.len() {
        None
    } else if s[i] == 0 {
        Some(i)
    } else {
        spec_nul_pos(s, i + 1)
    }
}

/// Parses a segment at position `i`: the bytes up to the first NUL must
/// be UTF-8 encoding a valid segment text.
pub open spec fn spec_parse_segment(s: Seq<u8>, i: int) -> Option<(Seq<char>, int)> {
    match spec_nul_pos(s, i) {
        Some(j) => {
            let bytes = s.subrange(i, j);
            if valid_utf8(bytes) && spec_segment_valid(decode_utf8(bytes)) {
                Some((decode_utf8(bytes), j + 1))
            } else {
                None
            }
        },
        None => None,
    }
}

proof fn lemma_nul_pos_found(s: Seq<u8>, i: int, k: int)
    requires
        0 <= i <= k < s.len(),
        s[k] == 0,
        forall|j: int| i <= j < k ==> s[j] != 0,
    ensures
        spec_nul_pos(s, i) == Some(k),
    decreases k - i,
{
    if i < k {
        lemma_nul_pos_found(s, i + 1, k);
    }
}

proof fn lemma_nul_pos_missing(s: Seq<u8>, i: int)
    requires
        0 <= i,
        forall|j: int| i <= j < s.len() ==> s[j] != 0,
    ensures
        spec_nul_pos(s, i) is None,
    decreases s.len() - i,
{
    if i < s.len() {
        lemma_nul_pos_missing(s, i + 1);
    }
}

/// Parsing reads back exactly what encoding wrote, wherever the encoding
/// stands in a longer byte string.
pub proof fn lemma_parse_segment_of_bytes(text: Seq<char>, s: Seq<u8>, i: int)
    requires
        spec_segment_valid(text),
        0 <= i,
        i + spec_segment_bytes(text).len() <= s.len(),
        s.subrange(i, i + spec_segment_bytes(text).len()) == spec_segment_bytes(text),
    ensures
        spec_parse_segment(s, i) == Some((text, i + spec_segment_bytes(text).len())),
{
    let enc = spec_segment_bytes(text);
    let u = encode_utf8(text);
    let n = u.len() as int;
    assert(enc.len() == n + 1);
    assert forall|j: int| 0 <= j < enc.len() implies s[i + j] == enc[j] by {
        assert(s.subrange(i, i + enc.len())[j] == s[i + j]);
    }
    assert(enc[n] == 0);
    assert(s[i + n] == 0);
    assert forall|j: int| i <= j < i + n implies s[j] != 0 by {
        assert(enc[j - i] == u[j - i]);
        assert(s[i + (j - i)] == enc[j - i]);
    }
    lemma_nul_pos_found(s, i, i + n);
    assert forall|k: int| 0 <= k < n implies s.subrange(i, i + n)[k] == u[k] by {
        assert(enc[k] == u[k]);
        assert(s[i + k] == enc[k]);
    }
    assert(s.subrange(i, i + n) =~= u);
    encode_utf8_valid_utf8(text);
    encode_utf8_decode_utf8(text);
}

/// Law: the segment byte format is bijective — parsing the encoding of
/// any valid segment text gives that text back, consuming all of it.
pub proof fn lemma_segment_codec_roundtrip(text: Seq<char>)
    requires
        spec_segment_valid(text),
    ensures
        spec_parse_segment(spec_segment_bytes(text), 0) == Some(
            (text, spec_segment_bytes(text).len() as int),
        ),
{
    let enc = spec_segment_bytes(text);
    assert(enc.subrange(0, enc.len() as int) =~= enc);
    lemma_parse_segment_of_bytes(text, enc, 0);
}

/// A validated human-facing name.
#[derive(Debug)]
pub struct Segment {
    segment: String,
}

impl View for Segment {
    type V = Seq<char>;

    closed spec fn view(&self) -> Seq<char> {
        self.segment@
    }
}

impl Segment {
    #[verifier::type_invariant]
    /// Every segment's text is valid.
    pub open spec fn inv(&self) -> bool {
        spec_segment_valid(self@)
    }

    /// Whether a text obeys the segment rules.
    pub fn is_valid(segment: &str) -> (r: bool)
        ensures
            r == spec_segment_valid(segment@),
    {
        if segment.len() >= MAX_SEGMENT_LENGTH {
            return false;
        }
        let bytes = segment.as_bytes();
        let n = bytes.len();
        let mut k: usize = 0;
        while k < n
            invariant
                n == encode_utf8(segment@).len(),
                bytes@ == encode_utf8(segment@),
                k <= n,
                forall|j: int| 0 <= j < k ==> encode_utf8(segment@)[j] != 0,
            decreases n - k,
        {
            if bytes[k] == 0 {
                return false;
            }
            k = k + 1;
        }
        crypto::segment_text_matches(segment)
    }

    /// Accepts exactly the texts that obey the segment rules.
    pub fn new(segment: &str) -> (r: Result<Segment, PathError>)
        ensures
            match r {
                Ok(seg) => seg@ == segment@ && spec_segment_valid(segment@),
                Err(e) => !spec_segment_valid(segment@) && e is InvalidSegment,
            },
    {
        if Self::is_valid(segment) {
            Ok(Segment { segment: segment.to_owned() })
        } else {
            Err(PathError::InvalidSegment)
        }
    }

    /// The text of the name.
    pub fn as_str(&self) -> (r: &str)
        ensures
            r@ == self@,
            spec_segment_valid(self@),
    {
        proof {
            use_type_invariant(self);
        }
        self.segment.as_str()
    }

    /// Appends the byte form: UTF-8 bytes closed by a NUL.
    pub fn write(&self, out: &mut Vec<u8>)
        ensures
            final(out)@ == old(out)@ + spec_segment_bytes(self@),
            spec_segment_valid(self@),
    {
        proof {
            use_type_invariant(self);
        }
        let bytes = self.segment.as_str().as_bytes();
        let v = vstd::slice::slice_to_vec(bytes);
        write_bytes(out, &v);
        write_u8(out, 0);
        proof {
            assert(out@ =~= old(out)@ + spec_segment_bytes(self@));
        }
    }

    /// Parses a segment at a position inside a byte string.
    pub fn parse_at(bytes: &Vec<u8>, pos: usize) -> (r: Option<(Segment, usize)>)
        ensures
            match r {
                Some(p) => {
                    &&& spec_parse_segment(bytes@, pos as int) == Some((p.0@, p.1 as int))
                    &&& spec_segment_valid(p.0@)
                    &&& pos < p.1 <= bytes@.len()
                },
                None => spec_parse_segment(bytes@, pos as int) is None,
            },
    {
        let n = bytes.len();
        if pos >= n {
            proof {
                lemma_nul_pos_missing(bytes@, pos as int);
            }
            return None;
        }
        let mut k: usize = pos;
        while k < n && bytes[k] != 0
            invariant
                pos <= k <= n,
                n == bytes@.len(),
                forall|j: int| pos <= j < k ==> bytes@[j] != 0,
            decreases n - k,
        {
            k = k + 1;
        }
        if k == n {
            proof {
                lemma_nul_pos_missing(bytes@, pos as int);
            }
            return None;
        }
        proof {
            lemma_nul_pos_found(bytes@, pos as int, k as int);
        }
        let (body, _) = read_exact(bytes, pos, k - pos).unwrap();
        match crypto::string_from_utf8(&body) {
            Some(text) => {
                if Self::is_valid(text.as_str()) {
                    Some((Segment { segment: text }, k + 1))
                } else {
                    None
                }
            },
            None => None,
        }
    }
}

impl Clone for Segment {
    fn clone(&self) -> (r: Self)
        ensures
            r@ == self@,
    {
        proof {
            use_type_invariant(self);
        }
        Segment { segment: self.segment.clone() }
    }
}

impl PartialEq for Segment {
    fn eq(&self, other: &Self) -> (r: bool) {
        self.segment == other.segment
    }
}

impl vstd::std_specs::cmp::PartialEqSpecImpl for Segment {
    open spec fn obeys_eq_spec() -> bool {
        true
    }

    open spec fn eq_spec(&self, other: &Self) -> bool {
        self@ == other@
    }
}

} // verus!
