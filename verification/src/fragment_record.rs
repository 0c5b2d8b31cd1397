//! The fragment record: an immutable, content-addressed blob stored
//! chunked over the subkeys of one record.
//!
//! Creation encrypts the fragment under a fresh random secret, derives
//! the content reference from the envelope's bytes, and plans the
//! chunked write: the chunk count on subkey 0, chunk `i` on subkey
//! `i + 1`.  Loading inverts the plan and decrypts.

use vstd::prelude::*;

use crate::crypto::aead_pt;
use crate::domains::spec_content_raw_hash;
use crate::domains::spec_reference_hash;
use crate::domains::ContentDomain;
use crate::domains::Domain;
use crate::domains::DomainRecord;
use crate::domains::RecordType;
use crate::encrypted::spec_encrypted_bytes;
use crate::encrypted::EncryptedView;
use crate::encrypted::spec_parse_encrypted;
use crate::encrypted::Encrypted;
use crate::encrypted::EncryptionError;
use crate::fragment::Fragment;
use crate::intersect::IntersectError;
use crate::keys::Identity;
use crate::keys::Secret;
use crate::record::spec_concat_chunks;
use crate::record::spec_is_chunk_writes;
use crate::record::NetworkError;
use crate::record::Record;
use crate::record::MAX_CHUNKED_BYTES;
use crate::trace::Trace;
use crate::trace::TraceView;
use crate::trace::UnlockedTrace;
use crate::trace::UnlockedTraceView;
use crate::access::Access;
use crate::access::AccessView;

verus! {


/// Law (fragment round trip, byte level): the chunks a fragment
/// creation plans reassemble, in ascending subkey order, to bytes that
/// parse back to the very envelope that was sealed.  With the exact
/// decryption contract, loading those chunks under the record's secret
/// must give back the fragment that was stored.
pub proof fn lemma_fragment_store_roundtrip(env: EncryptedView, writes: Seq<(u32, Vec<u8>)>)
    requires
        env.wf(),
        spec_encrypted_bytes(env).len() <= MAX_CHUNKED_BYTES,
        spec_is_chunk_writes(spec_encrypted_bytes(env), writes),
    ensures
        spec_concat_chunks(Seq::new((writes.len() - 1) as nat, |i: int| Some(writes[i + 1].1)))
            == Some(spec_encrypted_bytes(env)),
        spec_parse_encrypted(spec_encrypted_bytes(env), 0) is Some,
        spec_parse_encrypted(spec_encrypted_bytes(env), 0)->Some_0.0 == env,
{
    crate::record::lemma_chunk_writes_roundtrip(spec_encrypted_bytes(env), writes);
    crate::encrypted::lemma_encrypted_codec_roundtrip(env);
}

/// The mathematical shape of a typed record handle: the record it wraps
/// and the symmetric secret of its payloads.
#[verifier::ext_equal]
pub struct RecordHandleView {
    pub record: crate::record::RecordView,
    pub secret: Seq<u8>,
}

impl RecordHandleView {
    /// The record is well formed and the secret is 32 bytes.
    pub open spec fn wf(self) -> bool {
        &&& self.record.wf()
        &&& self.secret.len() == 32
    }
}

/// A handle on one content-addressed fragment record and its secret.
#[derive(Debug)]
pub struct FragmentRecord {
    record: Record,
    secret: Secret,
}

impl RecordType for FragmentRecord {
    open spec fn magic() -> u8 {
        1
    }

    fn magic_byte() -> u8 {
        1
    }
}

impl DomainRecord<ContentDomain> for FragmentRecord {

}

impl View for FragmentRecord {
    type V = RecordHandleView;

    closed spec fn view(&self) -> RecordHandleView {
        RecordHandleView { record: self.record@, secret: self.secret@ }
    }
}

impl FragmentRecord {
    #[verifier::type_invariant]
    /// Every handle is well formed.
    pub open spec fn inv(&self) -> bool {
        self@.wf()
    }

    /// Wraps an opened record with the secret of its payloads.
    pub fn from_record(record: Record, secret: &Secret) -> (r: Self)
        ensures
            r@.record == record@,
            r@.secret == secret@,
    {
        proof {
            use_type_invariant(&record);
            use_type_invariant(secret);
        }
        FragmentRecord { record, secret: secret.clone() }
    }

    /// The secret of this record's payloads.
    pub fn secret(&self) -> (r: &Secret)
        ensures
            r@ == self@.secret,
            self@.wf(),
    {
        proof {
            use_type_invariant(self);
        }
        &self.secret
    }

    /// The underlying record.
    pub fn record(&self) -> (r: &Record)
        ensures
            r@ == self@.record,
            self@.wf(),
    {
        proof {
            use_type_invariant(self);
        }
        &self.record
    }

    /// The domain reference this record answers to: its shard and hash.
    pub fn reference<D: crate::domains::Domain>(&self) -> (r: crate::reference::Reference<D>) where
        Self: crate::domains::DomainRecord<D>,

        ensures
            r@.shard == self@.record.shard,
            r@.hash == self@.record.hash,
            r@.wf(),
    {
        proof {
            use_type_invariant(self);
        }
        crate::reference::Reference::new(
            self.record.shard().clone(),
            self.record.hash().clone(),
        )
    }

    /// The shareable trace of this record: unlocked with the secret, or
    /// locked.
    pub fn to_trace(&self, include_secret: bool) -> (r: Trace<FragmentRecord>)
        ensures
            r@ == (TraceView {
                key: self@.record.key,
                access: if include_secret {
                    AccessView::Unlocked(self@.secret)
                } else {
                    AccessView::Locked
                },
            }),
    {
        proof {
            use_type_invariant(self);
        }
        let access = if include_secret {
            Access::Unlocked(self.secret.clone())
        } else {
            Access::Locked
        };
        Trace::new(self.record.record_key().clone(), access)
    }

    /// The in-process unlocked trace of this record.
    pub fn to_unlocked_trace(&self) -> (r: UnlockedTrace<FragmentRecord>)
        ensures
            r@ == (UnlockedTraceView { key: self@.record.key, secret: self@.secret }),
    {
        proof {
            use_type_invariant(self);
        }
        UnlockedTrace::new(self.record.record_key().clone(), self.secret.clone())
    }

    /// Encrypts a fragment under a fresh random secret, derives its
    /// content reference, and plans the chunked write.  For any payload
    /// the record can carry, creation succeeds.
    pub fn create(identity: &Identity, fragment: &Fragment) -> (r: Result<
        (FragmentRecord, Encrypted, Vec<(u32, Vec<u8>)>),
        IntersectError,
    >)
        requires
            fragment@.len() + 48 <= MAX_CHUNKED_BYTES,
        ensures
            r is Ok,
            match r {
                Ok(p) => {
                    &&& aead_pt(p.1@.ciphertext, p.1@.nonce, p.0@.secret) == Some(fragment@)
                    &&& p.1@.wf()
                    &&& spec_encrypted_bytes(p.1@).len() == fragment@.len() + 48
                    &&& p.0@.record.shard == identity@.0
                    &&& p.0@.record.hash == spec_reference_hash(
                        ContentDomain::magic(),
                        identity@.0,
                        spec_content_raw_hash(identity@.0, spec_encrypted_bytes(p.1@)),
                    )
                    &&& p.0@.wf()
                    &&& spec_is_chunk_writes(spec_encrypted_bytes(p.1@), p.2@)
                },
                Err(_) => true,
            },
    {
        let (encrypted, secret) = match Encrypted::encrypt_with_random(&fragment.data) {
            Ok(p) => p,
            Err(e) => {
                return Err(IntersectError::EncryptionError(e));
            },
        };
        let bytes = encrypted.to_bytes();
        proof {
            assert(bytes@.len() == fragment@.len() + 48);
        }
        let reference = ContentDomain::new_reference(identity.shard(), &bytes);
        let record = Record::create(identity, reference.hash());
        let writes = crate::record::chunk_writes(&bytes);
        proof {
            use_type_invariant(&secret);
        }
        Ok((FragmentRecord { record, secret }, encrypted, writes))
    }

    /// Reads the chunk count from the subkey-0 header: a missing header
    /// means missing data; a header of the wrong width is invalid.
    pub fn chunk_count_from_header(header: &Option<Vec<u8>>) -> (r: Result<u32, IntersectError>)
        ensures
            match r {
                Ok(n) => {
                    &&& header matches Some(h) && h@.len() == 4
                    &&& crate::codec::be32_bytes(n) == header->Some_0@
                },
                Err(e) => match header {
                    Some(h) => h@.len() != 4 && e matches IntersectError::NetworkError(
                        NetworkError::InvalidData,
                    ),
                    None => e matches IntersectError::NetworkError(NetworkError::MissingData),
                },
            },
    {
        match header {
            Some(h) => {
                if h.len() == 4 {
                    let (n, _) = crate::codec::read_be_u32(h, 0).unwrap();
                    proof {
                        assert(h@.subrange(0, 4) =~= h@);
                    }
                    Ok(n)
                } else {
                    Err(IntersectError::NetworkError(NetworkError::InvalidData))
                }
            },
            None => Err(IntersectError::NetworkError(NetworkError::MissingData)),
        }
    }

    /// Rebuilds the fragment from the chunk values of subkeys
    /// `1..=count`, in ascending order: concatenates them, decodes the
    /// envelope and decrypts it with the record's secret.  A missing
    /// chunk is fatal.
    pub fn load(&self, chunks: &Vec<Option<Vec<u8>>>) -> (r: Result<Fragment, IntersectError>)
        ensures
            match r {
                Ok(f) => {
                    &&& spec_concat_chunks(chunks@) is Some
                    &&& spec_parse_encrypted(spec_concat_chunks(chunks@)->Some_0, 0) is Some
                    &&& aead_pt(
                        spec_parse_encrypted(
                            spec_concat_chunks(chunks@)->Some_0,
                            0,
                        )->Some_0.0.ciphertext,
                        spec_parse_encrypted(spec_concat_chunks(chunks@)->Some_0, 0)->Some_0.0.nonce,
                        self@.secret,
                    ) == Some(f@)
                },
                Err(e) => {
                    ||| (spec_concat_chunks(chunks@) is None && e matches
                    IntersectError::NetworkError(NetworkError::MissingData))
                    ||| (spec_concat_chunks(chunks@) is Some && spec_parse_encrypted(
                        spec_concat_chunks(chunks@)->Some_0,
                        0,
                    ) is None && e matches IntersectError::EncryptionError(
                        EncryptionError::DeserialisationFailed(_),
                    ))
                    ||| (spec_concat_chunks(chunks@) is Some && spec_parse_encrypted(
                        spec_concat_chunks(chunks@)->Some_0,
                        0,
                    ) is Some && aead_pt(
                        spec_parse_encrypted(
                            spec_concat_chunks(chunks@)->Some_0,
                            0,
                        )->Some_0.0.ciphertext,
                        spec_parse_encrypted(spec_concat_chunks(chunks@)->Some_0, 0)->Some_0.0.nonce,
                        self@.secret,
                    ) is None && e matches IntersectError::EncryptionError(
                        EncryptionError::DecryptionFailed,
                    ))
                },
            },
    {
        proof {
            use_type_invariant(self);
        }
        let data = match crate::record::concat_chunks(chunks) {
            Ok(d) => d,
            Err(e) => {
                return Err(IntersectError::NetworkError(e));
            },
        };
        let encrypted = match Encrypted::from_bytes(&data) {
            Ok(env) => env,
            Err(e) => {
                return Err(IntersectError::EncryptionError(e));
            },
        };
        match encrypted.decrypt(&self.secret) {
            Ok(plaintext) => Ok(Fragment::new(plaintext)),
            Err(e) => Err(IntersectError::EncryptionError(e)),
        }
    }
}

} // verus!
