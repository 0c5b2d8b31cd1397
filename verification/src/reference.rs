//! Domain-tagged references: the shard and hash that name a logical
//! entity before the distributed hash table resolves it to a record.
//!
//! On the wire a reference is its domain's magic byte, the 32-byte shard
//! and the 32-byte hash; decoding under any other domain fails.

use vstd::prelude::*;

use core::marker::PhantomData;

use crate::codec::read_exact;
use crate::codec::read_u8;
use crate::codec::write_bytes;
use crate::codec::write_u8;
use crate::domains::Domain;
use crate::keys::Shard;

verus! {

/// The mathematical shape of a reference; the domain lives in the type.
#[verifier::ext_equal]
pub struct ReferenceView {
    pub shard: Seq<u8>,
    pub hash: Seq<u8>,
}

impl ReferenceView {
    /// Both halves are 32 bytes.
    pub open spec fn wf(self) -> bool {
        &&& self.shard.len() == 32
        &&& self.hash.len() == 32
    }
}

/// The canonical byte layout of a reference under a domain tag:
/// `magic(1) || shard(32) || hash(32)`.
pub open spec fn spec_reference_bytes(magic: u8, v: ReferenceView) -> Seq<u8> {
    seq![magic] + v.shard + v.hash
}

/// Parses a reference under a domain tag at position `i`; any other
/// leading byte fails.
pub open spec fn spec_parse_reference(magic: u8, s: Seq<u8>, i: int) -> Option<
    (ReferenceView, int),
> {
    if 0 <= i && i + 65 <= s.len() && s[i] == magic {
        Some(
            (
                ReferenceView {
                    shard: s.subrange(i + 1, i + 33),
                    hash: s.subrange(i + 33, i + 65),
                },
                i + 65,
            ),
        )
    } else {
        None
    }
}

/// Parsing reads back exactly what encoding wrote, wherever the encoding
/// stands in a longer byte string.
pub proof fn lemma_parse_reference_of_bytes(magic: u8, v: ReferenceView, s: Seq<u8>, i: int)
    requires
        v.wf(),
        0 <= i,
        i + 65 <= s.len(),
        s.subrange(i, i + 65) == spec_reference_bytes(magic, v),
    ensures
        spec_parse_reference(magic, s, i) == Some((v, i + 65)),
{
    let enc = spec_reference_bytes(magic, v);
    assert(enc.len() == 65);
    assert forall|j: int| 0 <= j < 65 implies s[i + j] == enc[j] by {
        assert(s.subrange(i, i + 65)[j] == s[i + j]);
    }
    assert((seq![magic] + v.shard)[0] == seq![magic][0]);
    assert(enc[0] == (seq![magic] + v.shard)[0]);
    assert(s[i + 0] == enc[0]);
    assert forall|k: int| 0 <= k < 32 implies s.subrange(i + 1, i + 33)[k] == v.shard[k] by {
        assert((seq![magic] + v.shard)[1 + k] == v.shard[k]);
        assert(enc[1 + k] == (seq![magic] + v.shard)[1 + k]);
        assert(s[i + (1 + k)] == enc[1 + k]);
        assert(s.subrange(i + 1, i + 33)[k] == s[i + 1 + k]);
    }
    assert(s.subrange(i + 1, i + 33) =~= v.shard);
    assert forall|k: int| 0 <= k < 32 implies s.subrange(i + 33, i + 65)[k] == v.hash[k] by {
        assert((seq![magic] + v.shard).len() == 33);
        assert(enc[33 + k] == v.hash[k]);
        assert(s[i + (33 + k)] == enc[33 + k]);
        assert(s.subrange(i + 33, i + 65)[k] == s[i + 33 + k]);
    }
    assert(s.subrange(i + 33, i + 65) =~= v.hash);
    assert(spec_parse_reference(magic, s, i)->Some_0.0 =~= v);
}

/// Law: the reference byte format is bijective under its own domain tag.
pub proof fn lemma_reference_codec_roundtrip(magic: u8, v: ReferenceView)
    requires
        v.wf(),
    ensures
        spec_parse_reference(magic, spec_reference_bytes(magic, v), 0) == Some((v, 65int)),
{
    let enc = spec_reference_bytes(magic, v);
    assert(enc.subrange(0, 65) =~= enc);
    lemma_parse_reference_of_bytes(magic, v, enc, 0);
}

/// Law: a reference encoded under one domain tag fails to parse under any
/// other.
pub proof fn lemma_reference_magic_mismatch(m1: u8, m2: u8, v: ReferenceView)
    requires
        m1 != m2,
    ensures
        spec_parse_reference(m2, spec_reference_bytes(m1, v), 0) is None,
{
    let enc = spec_reference_bytes(m1, v);
    if 0 + 65 <= enc.len() {
        assert((seq![m1] + v.shard)[0] == seq![m1][0]);
        assert(enc[0] == (seq![m1] + v.shard)[0]);
    }
}

/// A shard and hash naming one logical entity of domain `D`.
#[derive(Debug)]
pub struct Reference<D: Domain> {
    shard: Shard,
    hash: crate::keys::Hash,
    _domain: PhantomData<D>,
}

impl<D: Domain> View for Reference<D> {
    type V = ReferenceView;

    closed spec fn view(&self) -> ReferenceView {
        ReferenceView { shard: self.shard@, hash: self.hash@ }
    }
}

impl<D: Domain> Reference<D> {
    #[verifier::type_invariant]
    /// Every reference is well formed.
    pub open spec fn inv(&self) -> bool {
        self@.wf()
    }

    /// Binds a shard and a derived hash into a reference.
    pub(crate) fn new(shard: Shard, hash: crate::keys::Hash) -> (r: Self)
        ensures
            r@ == (ReferenceView { shard: shard@, hash: hash@ }),
            r@.wf(),
    {
        proof {
            use_type_invariant(&shard);
            use_type_invariant(&hash);
        }
        Reference { shard, hash, _domain: PhantomData }
    }

    /// The shard half.
    pub fn shard(&self) -> (r: &Shard)
        ensures
            r@ == self@.shard,
            self@.wf(),
    {
        proof {
            use_type_invariant(self);
        }
        &self.shard
    }

    /// The hash half.
    pub fn hash(&self) -> (r: &crate::keys::Hash)
        ensures
            r@ == self@.hash,
            self@.wf(),
    {
        proof {
            use_type_invariant(self);
        }
        &self.hash
    }

    /// Encodes the reference into its canonical byte layout.
    pub fn to_bytes(&self) -> (r: Vec<u8>)
        ensures
            r@ == spec_reference_bytes(D::magic(), self@),
            self@.wf(),
    {
        proof {
            use_type_invariant(self);
        }
        let mut out: Vec<u8> = Vec::new();
        write_u8(&mut out, D::magic_byte());
        write_bytes(&mut out, self.shard.bytes());
        write_bytes(&mut out, self.hash.bytes());
        proof {
            assert(out@ =~= spec_reference_bytes(D::magic(), self@));
        }
        out
    }

    /// Parses a reference of this domain at a position inside a byte
    /// string.
    pub fn parse_at(bytes: &Vec<u8>, pos: usize) -> (r: Option<(Self, usize)>)
        ensures
            match r {
                Some(p) => {
                    &&& spec_parse_reference(D::magic(), bytes@, pos as int) == Some(
                        (p.0@, p.1 as int),
                    )
                    &&& p.0@.wf()
                    &&& pos < p.1 <= bytes@.len()
                },
                None => spec_parse_reference(D::magic(), bytes@, pos as int) is None,
            },
    {
        let (tag, p1) = match read_u8(bytes, pos) {
            Some(p) => p,
            None => {
                return None;
            },
        };
        if tag != D::magic_byte() {
            return None;
        }
        let (shard_bytes, p2) = match read_exact(bytes, p1, 32) {
            Some(p) => p,
            None => {
                return None;
            },
        };
        let (hash_bytes, p3) = match read_exact(bytes, p2, 32) {
            Some(p) => p,
            None => {
                return None;
            },
        };
        let reference = Reference {
            shard: Shard::from_bytes(shard_bytes),
            hash: crate::keys::Hash::from_bytes(hash_bytes),
            _domain: PhantomData,
        };
        Some((reference, p3))
    }

    /// Decodes a reference of this domain from the start of a byte
    /// string.
    pub fn from_bytes(bytes: &Vec<u8>) -> (r: Option<Self>)
        ensures
            match r {
                Some(reference) => {
                    &&& spec_parse_reference(D::magic(), bytes@, 0) is Some
                    &&& spec_parse_reference(D::magic(), bytes@, 0)->Some_0.0 == reference@
                    &&& reference@.wf()
                },
                None => spec_parse_reference(D::magic(), bytes@, 0) is None,
            },
    {
        match Self::parse_at(bytes, 0) {
            Some((reference, _)) => Some(reference),
            None => None,
        }
    }
}

impl<D: Domain> Clone for Reference<D> {
    fn clone(&self) -> (r: Self)
        ensures
            r@ == self@,
    {
        proof {
            use_type_invariant(self);
        }
        Reference { shard: self.shard.clone(), hash: self.hash.clone(), _domain: PhantomData }
    }
}

impl<D: Domain> PartialEq for Reference<D> {
    fn eq(&self, other: &Self) -> (r: bool) {
        let r = self.shard == other.shard && self.hash == other.hash;
        proof {
            if r {
                assert(self@ =~= other@);
            }
        }
        r
    }
}

impl<D: Domain> vstd::std_specs::cmp::PartialEqSpecImpl for Reference<D> {
    open spec fn obeys_eq_spec() -> bool {
        true
    }

    open spec fn eq_spec(&self, other: &Self) -> bool {
        self@ == other@
    }
}

} // verus!
