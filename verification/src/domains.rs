//! The four addressing domains and the rules that bind a logical entity
//! to a reference hash.
//!
//! Every domain is tagged by a 1-byte magic.  A reference hash is
//! `H(shard || H(magic) || raw_hash)`, where the raw hash is the domain's
//! own: content-addressed for fragments, freshly random for indexes and
//! links, and derived from a well-known name for roots.

use vstd::prelude::*;

use crate::codec::write_bytes;
use crate::crypto;
use crate::crypto::hash_of;
use crate::crypto::kdf_of;
use crate::keys::Secret;
use crate::keys::Shard;
use crate::path::Segment;
use vstd::utf8::encode_utf8;

verus! {

/// An addressing domain: how reference hashes for one kind of entity are
/// derived, and under which tag they are framed.
pub trait Domain: Sized {
    /// The 1-byte tag that separates this domain's hashes and frames its
    /// references.
    spec fn magic() -> u8;

    /// The tag as a runtime value.
    fn magic_byte() -> (r: u8)
        ensures
            r == Self::magic(),
    ;
}

/// A record handler kind: the 1-byte tag that frames its traces.
pub trait RecordType: Sized {
    /// The 1-byte tag that frames traces pointing at this record kind.
    spec fn magic() -> u8;

    /// The tag as a runtime value.
    fn magic_byte() -> (r: u8)
        ensures
            r == Self::magic(),
    ;
}

/// Marks the record kinds a domain may resolve to.
pub trait DomainRecord<D: Domain>: RecordType {

}

/// The preimage hashed for a domain-separated reference hash:
/// `shard || H(magic) || raw_hash`.
pub open spec fn spec_reference_preimage(magic: u8, shard: Seq<u8>, raw_hash: Seq<u8>) -> Seq<u8> {
    shard + hash_of(seq![magic]) + raw_hash
}

/// The domain-separated reference hash.
pub open spec fn spec_reference_hash(magic: u8, shard: Seq<u8>, raw_hash: Seq<u8>) -> Seq<u8> {
    hash_of(spec_reference_preimage(magic, shard, raw_hash))
}

/// Law (domain separation): two domains whose magic digests differ hash
/// different preimages, whatever the raw hashes are.  Only a collision of
/// the digest function itself could identify the final hashes.
pub proof fn lemma_domain_preimages_differ(
    m1: u8,
    m2: u8,
    shard: Seq<u8>,
    raw1: Seq<u8>,
    raw2: Seq<u8>,
)
    requires
        hash_of(seq![m1]) != hash_of(seq![m2]),
        hash_of(seq![m1]).len() == 32,
        hash_of(seq![m2]).len() == 32,
    ensures
        spec_reference_preimage(m1, shard, raw1) != spec_reference_preimage(m2, shard, raw2),
{
    let d1 = hash_of(seq![m1]);
    let d2 = hash_of(seq![m2]);
    let p1 = spec_reference_preimage(m1, shard, raw1);
    let p2 = spec_reference_preimage(m2, shard, raw2);
    let n = shard.len() as int;
    assert(exists|k: int| 0 <= k < 32 && d1[k] != d2[k]) by {
        if forall|k: int| 0 <= k < 32 ==> d1[k] == d2[k] {
            assert(d1 =~= d2);
        }
    }
    let k = choose|k: int| 0 <= k < 32 && d1[k] != d2[k];
    assert(p1[n + k] == d1[k]) by {
        assert((shard + d1)[n + k] == d1[k]);
        assert(p1[n + k] == (shard + d1)[n + k]);
    }
    assert(p2[n + k] == d2[k]) by {
        assert((shard + d2)[n + k] == d2[k]);
        assert(p2[n + k] == (shard + d2)[n + k]);
    }
}

/// Computes the domain-separated hash `H(shard || H(magic) || raw_hash)`.
pub fn domain_separated_hash(magic: u8, shard: &Shard, raw_hash: &crate::keys::Hash) -> (r:
    crate::keys::Hash)
    ensures
        r@ == spec_reference_hash(magic, shard@, raw_hash@),
{
    let mut magic_bytes: Vec<u8> = Vec::new();
    magic_bytes.push(magic);
    proof {
        assert(magic_bytes@ =~= seq![magic]);
    }
    let domain_digest = crypto::hash(&magic_bytes);
    let mut preimage: Vec<u8> = Vec::new();
    write_bytes(&mut preimage, shard.bytes());
    write_bytes(&mut preimage, &domain_digest);
    write_bytes(&mut preimage, raw_hash.bytes());
    proof {
        assert(preimage@ =~= spec_reference_preimage(magic, shard@, raw_hash@));
    }
    crate::keys::Hash::from_bytes(crypto::hash(&preimage))
}

/// The raw hash of content-addressed data: `H(shard || bytes)`.
pub open spec fn spec_content_raw_hash(shard: Seq<u8>, data: Seq<u8>) -> Seq<u8> {
    hash_of(shard + data)
}

/// The raw hash of a root name: `H(shard || utf8(name))`.
pub open spec fn spec_root_raw_hash(shard: Seq<u8>, name: Seq<char>) -> Seq<u8> {
    hash_of(shard + encode_utf8(name))
}

/// The ASCII bytes of `public secret`, the public-root salt tag.
pub open spec fn spec_public_salt_tag() -> Seq<u8> {
    seq![112u8, 117u8, 98u8, 108u8, 105u8, 99u8, 32u8, 115u8, 101u8, 99u8, 114u8, 101u8, 116u8]
}

/// The ASCII bytes of `private secret`, the private-root salt tag.
pub open spec fn spec_private_salt_tag() -> Seq<u8> {
    seq![
        112u8,
        114u8,
        105u8,
        118u8,
        97u8,
        116u8,
        101u8,
        32u8,
        115u8,
        101u8,
        99u8,
        114u8,
        101u8,
        116u8,
    ]
}

/// The secret every holder of the shard can derive for a public root:
/// `KDF(utf8(name), shard || "public secret")`.
pub open spec fn spec_public_secret(shard: Seq<u8>, name: Seq<char>) -> Seq<u8> {
    kdf_of(encode_utf8(name), shard + spec_public_salt_tag())
}

/// The secret only the identity owner can derive for a private root:
/// `KDF(utf8(name) || private_key, shard || "private secret")`.
pub open spec fn spec_private_secret(
    shard: Seq<u8>,
    private_key: Seq<u8>,
    name: Seq<char>,
) -> Seq<u8> {
    kdf_of(encode_utf8(name) + private_key, shard + spec_private_salt_tag())
}

/// The content domain: fragments, content-addressed by their ciphertext.
#[derive(Debug, Clone, Copy, PartialEq, Eq, Structural)]
pub struct ContentDomain;

impl Domain for ContentDomain {
    open spec fn magic() -> u8 {
        1
    }

    fn magic_byte() -> u8 {
        1
    }
}

/// The index domain: mutable pointer records under fresh random ids.
#[derive(Debug, Clone, Copy, PartialEq, Eq, Structural)]
pub struct IndexDomain;

impl Domain for IndexDomain {
    open spec fn magic() -> u8 {
        2
    }

    fn magic_byte() -> u8 {
        2
    }
}

/// The root domain: well-known indexes discoverable per (shard, name).
#[derive(Debug, Clone, Copy, PartialEq, Eq, Structural)]
pub struct RootDomain;

impl Domain for RootDomain {
    open spec fn magic() -> u8 {
        3
    }

    fn magic_byte() -> u8 {
        3
    }
}

/// The links domain: link-set records under fresh random ids.
#[derive(Debug, Clone, Copy, PartialEq, Eq, Structural)]
pub struct LinksDomain;

impl Domain for LinksDomain {
    open spec fn magic() -> u8 {
        4
    }

    fn magic_byte() -> u8 {
        4
    }
}

impl ContentDomain {
    /// The raw hash of content under a shard: `H(shard || bytes)`.
    pub fn compute_raw_hash(shard: &Shard, data: &Vec<u8>) -> (r: crate::keys::Hash)
        ensures
            r@ == spec_content_raw_hash(shard@, data@),
    {
        let mut preimage: Vec<u8> = Vec::new();
        write_bytes(&mut preimage, shard.bytes());
        write_bytes(&mut preimage, data);
        crate::keys::Hash::from_bytes(crypto::hash(&preimage))
    }
}

impl RootDomain {
    /// The raw hash of a root name under a shard: `H(shard || utf8(name))`.
    pub fn compute_raw_hash(shard: &Shard, name: &Segment) -> (r: crate::keys::Hash)
        ensures
            r@ == spec_root_raw_hash(shard@, name@),
    {
        let mut preimage: Vec<u8> = Vec::new();
        write_bytes(&mut preimage, shard.bytes());
        let name_bytes = vstd::slice::slice_to_vec(name.as_str().as_bytes());
        write_bytes(&mut preimage, &name_bytes);
        crate::keys::Hash::from_bytes(crypto::hash(&preimage))
    }

    /// Derives the public secret of `(shard, name)`: anyone who knows the
    /// shard can derive it, so such roots are readable from the shard
    /// alone.
    pub fn public_secret(shard: &Shard, root_name: &Segment) -> (r: Secret)
        ensures
            r@ == spec_public_secret(shard@, root_name@),
    {
        let mut salt: Vec<u8> = Vec::new();
        write_bytes(&mut salt, shard.bytes());
        let tag: Vec<u8> = vec![112, 117, 98, 108, 105, 99, 32, 115, 101, 99, 114, 101, 116];
        proof {
            assert(tag@ =~= spec_public_salt_tag());
        }
        write_bytes(&mut salt, &tag);
        let name_bytes = vstd::slice::slice_to_vec(root_name.as_str().as_bytes());
        Secret::from_bytes(crypto::derive_shared_secret(&name_bytes, &salt))
    }

    /// Derives the private secret of `(identity, name)`: it depends on the
    /// private key, so only the identity owner can derive it.
    pub fn private_secret(identity: &crate::keys::Identity, root_name: &Segment) -> (r: Secret)
        ensures
            r@ == spec_private_secret(identity@.0, identity@.1, root_name@),
    {
        let mut input: Vec<u8> = Vec::new();
        let name_bytes = vstd::slice::slice_to_vec(root_name.as_str().as_bytes());
        write_bytes(&mut input, &name_bytes);
        write_bytes(&mut input, identity.private_key().bytes());
        let mut salt: Vec<u8> = Vec::new();
        write_bytes(&mut salt, identity.shard().bytes());
        let tag: Vec<u8> = vec![
            112,
            114,
            105,
            118,
            97,
            116,
            101,
            32,
            115,
            101,
            99,
            114,
            101,
            116,
        ];
        proof {
            assert(tag@ =~= spec_private_salt_tag());
        }
        write_bytes(&mut salt, &tag);
        Secret::from_bytes(crypto::derive_shared_secret(&input, &salt))
    }
}


impl ContentDomain {
    /// The content-addressed reference of data under a shard:
    /// deterministic, so equal data meets itself in the table.
    pub fn new_reference(shard: &Shard, data: &Vec<u8>) -> (r: crate::reference::Reference<
        ContentDomain,
    >)
        ensures
            r@.shard == shard@,
            r@.hash == spec_reference_hash(
                ContentDomain::magic(),
                shard@,
                spec_content_raw_hash(shard@, data@),
            ),
            r@.wf(),
    {
        let raw = Self::compute_raw_hash(shard, data);
        let hash = domain_separated_hash(Self::magic_byte(), shard, &raw);
        crate::reference::Reference::new(shard.clone(), hash)
    }

    /// Creates a fragment record for a fragment: encrypts it under a
    /// fresh secret and plans the chunked write.  For any payload the
    /// record can carry, creation succeeds.
    pub fn create(identity: &crate::keys::Identity, fragment: &crate::fragment::Fragment) -> (r:
        Result<
            (
                crate::fragment_record::FragmentRecord,
                crate::encrypted::Encrypted,
                Vec<(u32, Vec<u8>)>,
            ),
            crate::intersect::IntersectError,
        >)
        requires
            fragment@.len() + 48 <= crate::record::MAX_CHUNKED_BYTES,
        ensures
            r is Ok,
            match r {
                Ok(p) => {
                    &&& crate::crypto::aead_pt(p.1@.ciphertext, p.1@.nonce, p.0@.secret) == Some(
                        fragment@,
                    )
                    &&& p.1@.wf()
                    &&& crate::encrypted::spec_encrypted_bytes(p.1@).len() == fragment@.len() + 48
                    &&& p.0@.record.shard == identity@.0
                    &&& p.0@.wf()
                    &&& crate::record::spec_is_chunk_writes(
                        crate::encrypted::spec_encrypted_bytes(p.1@),
                        p.2@,
                    )
                },
                Err(_) => true,
            },
    {
        crate::fragment_record::FragmentRecord::create(identity, fragment)
    }
}

impl IndexDomain {
    /// A fresh reference for a new index: each call draws a random
    /// 32-byte identifier, so two calls name two distinct records.
    pub fn new_reference(shard: &Shard) -> (r: crate::reference::Reference<IndexDomain>)
        ensures
            r@.shard == shard@,
            exists|id: Seq<u8>|
                id.len() == 32 && r@.hash == spec_reference_hash(
                    IndexDomain::magic(),
                    shard@,
                    crate::crypto::hash_of(shard@ + id),
                ),
            r@.wf(),
    {
        let identifier = crate::crypto::random_bytes_raw(32);
        let raw = ContentDomain::compute_raw_hash(shard, &identifier);
        let hash = domain_separated_hash(Self::magic_byte(), shard, &raw);
        proof {
            assert(raw@ == crate::crypto::hash_of(shard@ + identifier@));
        }
        crate::reference::Reference::new(shard.clone(), hash)
    }
}

impl LinksDomain {
    /// A fresh reference for a new links record: each call draws a
    /// random 32-byte identifier, so two calls name two distinct
    /// records.
    pub fn new_reference(shard: &Shard) -> (r: crate::reference::Reference<LinksDomain>)
        ensures
            r@.shard == shard@,
            exists|id: Seq<u8>|
                id.len() == 32 && r@.hash == spec_reference_hash(
                    LinksDomain::magic(),
                    shard@,
                    crate::crypto::hash_of(shard@ + id),
                ),
            r@.wf(),
    {
        let identifier = crate::crypto::random_bytes_raw(32);
        let raw = ContentDomain::compute_raw_hash(shard, &identifier);
        let hash = domain_separated_hash(Self::magic_byte(), shard, &raw);
        proof {
            assert(raw@ == crate::crypto::hash_of(shard@ + identifier@));
        }
        crate::reference::Reference::new(shard.clone(), hash)
    }
}

impl RootDomain {
    /// The reference of a well-known root: deterministic per
    /// `(shard, name)`, so such roots are discoverable from the shard
    /// alone.
    pub fn new_reference(shard: &Shard, root_name: &Segment) -> (r: crate::reference::Reference<
        RootDomain,
    >)
        ensures
            r@.shard == shard@,
            r@.hash == spec_reference_hash(
                RootDomain::magic(),
                shard@,
                spec_root_raw_hash(shard@, root_name@),
            ),
            r@.wf(),
    {
        let raw = Self::compute_raw_hash(shard, root_name);
        let hash = domain_separated_hash(Self::magic_byte(), shard, &raw);
        crate::reference::Reference::new(shard.clone(), hash)
    }
}


impl IndexDomain {
    /// Creates a new index: a fresh random secret, a fresh random
    /// reference, and the record and subkey-0 envelope for it.  Only the
    /// owner of the shard the metadata claims may create it, and exactly
    /// that check can refuse it, short of metadata whose byte form
    /// overflows the envelope's length prefix.
    pub fn create(identity: &crate::keys::Identity, meta: &crate::index::IndexMetadata) -> (r:
        Result<
            (crate::index_record::IndexRecord, crate::encrypted::Encrypted),
            crate::intersect::IntersectError,
        >)
        ensures
            (r matches Err(e) && e is Unauthorized) <==> identity@.0 != meta@.shard,
            identity@.0 == meta@.shard && crate::index::spec_index_metadata_bytes(meta@).len()
                + 16 <= u32::MAX ==> r is Ok,
            match r {
                Ok(p) => {
                    &&& identity@.0 == meta@.shard
                    &&& p.0@.record.shard == identity@.0
                    &&& p.0@.wf()
                    &&& crate::crypto::aead_pt(p.1@.ciphertext, p.1@.nonce, p.0@.secret) == Some(
                        crate::index::spec_index_metadata_bytes(meta@),
                    )
                },
                Err(e) => e is Unauthorized || e matches
                crate::intersect::IntersectError::EncryptionError(
                    crate::encrypted::EncryptionError::EncryptionFailed,
                ),
            },
    {
        let secret = Secret::random();
        let reference = IndexDomain::new_reference(identity.shard());
        crate::index_record::IndexRecord::create(identity, &reference, &secret, meta)
    }
}

impl RootDomain {
    /// The reference and secret of a public root: derivable by anyone
    /// who knows the shard.  Resolving the reference to a record and
    /// wrapping it with the secret completes the open.
    pub fn open_public(shard: &Shard, root_name: &Segment) -> (r: (
        crate::reference::Reference<RootDomain>,
        Secret,
    ))
        ensures
            r.0@.shard == shard@,
            r.0@.hash == spec_reference_hash(
                RootDomain::magic(),
                shard@,
                spec_root_raw_hash(shard@, root_name@),
            ),
            r.0@.wf(),
            r.1@ == spec_public_secret(shard@, root_name@),
    {
        (Self::new_reference(shard, root_name), Self::public_secret(shard, root_name))
    }

    /// The reference and secret of a private root: only the identity
    /// owner can derive the secret.
    pub fn open_private(identity: &crate::keys::Identity, root_name: &Segment) -> (r: (
        crate::reference::Reference<RootDomain>,
        Secret,
    ))
        ensures
            r.0@.shard == identity@.0,
            r.0@.hash == spec_reference_hash(
                RootDomain::magic(),
                identity@.0,
                spec_root_raw_hash(identity@.0, root_name@),
            ),
            r.0@.wf(),
            r.1@ == spec_private_secret(identity@.0, identity@.1, root_name@),
    {
        (
            Self::new_reference(identity.shard(), root_name),
            Self::private_secret(identity, root_name),
        )
    }

    /// Creates a public root index under the deterministic reference and
    /// publicly derivable secret of `(shard, name)`.  Only the owner of
    /// the shard the metadata claims may create it, and exactly that
    /// check can refuse it, short of metadata whose byte form overflows
    /// the envelope's length prefix.
    pub fn create_public(
        identity: &crate::keys::Identity,
        root_name: &Segment,
        meta: &crate::index::IndexMetadata,
    ) -> (r: Result<
        (crate::index_record::IndexRecord, crate::encrypted::Encrypted),
        crate::intersect::IntersectError,
    >)
        ensures
            (r matches Err(e) && e is Unauthorized) <==> identity@.0 != meta@.shard,
            identity@.0 == meta@.shard && crate::index::spec_index_metadata_bytes(meta@).len()
                + 16 <= u32::MAX ==> r is Ok,
            match r {
                Ok(p) => {
                    &&& identity@.0 == meta@.shard
                    &&& p.0@.record.shard == identity@.0
                    &&& p.0@.record.hash == spec_reference_hash(
                        RootDomain::magic(),
                        identity@.0,
                        spec_root_raw_hash(identity@.0, root_name@),
                    )
                    &&& p.0@.secret == spec_public_secret(identity@.0, root_name@)
                    &&& p.0@.wf()
                    &&& crate::crypto::aead_pt(p.1@.ciphertext, p.1@.nonce, p.0@.secret) == Some(
                        crate::index::spec_index_metadata_bytes(meta@),
                    )
                },
                Err(e) => e is Unauthorized || e matches
                crate::intersect::IntersectError::EncryptionError(
                    crate::encrypted::EncryptionError::EncryptionFailed,
                ),
            },
    {
        let reference = Self::new_reference(identity.shard(), root_name);
        let secret = Self::public_secret(identity.shard(), root_name);
        crate::index_record::IndexRecord::create(identity, &reference, &secret, meta)
    }

    /// Creates a private root index under the deterministic reference of
    /// `(shard, name)` and the secret only the identity owner derives.
    /// Only the owner of the shard the metadata claims may create it,
    /// and exactly that check can refuse it, short of metadata whose
    /// byte form overflows the envelope's length prefix.
    pub fn create_private(
        identity: &crate::keys::Identity,
        root_name: &Segment,
        meta: &crate::index::IndexMetadata,
    ) -> (r: Result<
        (crate::index_record::IndexRecord, crate::encrypted::Encrypted),
        crate::intersect::IntersectError,
    >)
        ensures
            (r matches Err(e) && e is Unauthorized) <==> identity@.0 != meta@.shard,
            identity@.0 == meta@.shard && crate::index::spec_index_metadata_bytes(meta@).len()
                + 16 <= u32::MAX ==> r is Ok,
            match r {
                Ok(p) => {
                    &&& identity@.0 == meta@.shard
                    &&& p.0@.record.shard == identity@.0
                    &&& p.0@.record.hash == spec_reference_hash(
                        RootDomain::magic(),
                        identity@.0,
                        spec_root_raw_hash(identity@.0, root_name@),
                    )
                    &&& p.0@.secret == spec_private_secret(identity@.0, identity@.1, root_name@)
                    &&& p.0@.wf()
                    &&& crate::crypto::aead_pt(p.1@.ciphertext, p.1@.nonce, p.0@.secret) == Some(
                        crate::index::spec_index_metadata_bytes(meta@),
                    )
                },
                Err(e) => e is Unauthorized || e matches
                crate::intersect::IntersectError::EncryptionError(
                    crate::encrypted::EncryptionError::EncryptionFailed,
                ),
            },
    {
        let reference = Self::new_reference(identity.shard(), root_name);
        let secret = Self::private_secret(identity, root_name);
        crate::index_record::IndexRecord::create(identity, &reference, &secret, meta)
    }
}

impl LinksDomain {
    /// Creates a new links record: a fresh random secret and reference,
    /// and one sealed write per given entry, entry `i` on subkey `i`.
    /// It succeeds whenever every entry's byte form fits the envelope's
    /// length prefix.
    pub fn create(identity: &crate::keys::Identity, links: &Vec<crate::index::LinkEntry>) -> (r:
        Result<
            (crate::links_record::LinksRecord, Vec<(u32, crate::encrypted::Encrypted)>),
            crate::intersect::IntersectError,
        >)
        requires
            links@.len() <= 256,
        ensures
            (forall|i: int|
                0 <= i < links@.len() ==> crate::index::spec_link_entry_bytes(links@[i]@).len()
                    + 16 <= u32::MAX) ==> r is Ok,
            match r {
                Ok(p) => {
                    &&& p.0@.record.shard == identity@.0
                    &&& p.0@.wf()
                    &&& p.1@.len() == links@.len()
                    &&& forall|i: int|
                        0 <= i < p.1@.len() ==> p.1@[i].0 == i as u32 && crate::crypto::aead_pt(
                            p.1@[i].1@.ciphertext,
                            p.1@[i].1@.nonce,
                            p.0@.secret,
                        ) == Some(crate::index::spec_link_entry_bytes(links@[i]@))
                },
                Err(e) => e matches crate::intersect::IntersectError::EncryptionError(
                    crate::encrypted::EncryptionError::EncryptionFailed,
                ),
            },
    {
        let secret = Secret::random();
        let reference = LinksDomain::new_reference(identity.shard());
        crate::links_record::LinksRecord::create(identity, &reference, &secret, links)
    }
}

} // verus!
