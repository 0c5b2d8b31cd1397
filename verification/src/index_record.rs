//! The index record: one mutable pointer record per document.  Subkey 0
//! holds the encrypted metadata; no other subkey is used, and every
//! mutation rewrites subkey 0.

use vstd::prelude::*;

use crate::access::Access;
use crate::access::AccessView;
use crate::crypto::aead_pt;
use crate::domains::Domain;
use crate::domains::DomainRecord;
use crate::domains::IndexDomain;
use crate::domains::RecordType;
use crate::domains::RootDomain;
use crate::encrypted::Encrypted;
use crate::encrypted::EncryptionError;
use crate::fragment_record::RecordHandleView;
use crate::index::spec_index_metadata_bytes;
use crate::index::spec_parse_index_metadata;
use crate::index::IndexMetadata;
use crate::intersect::IntersectError;
use crate::keys::Identity;
use crate::keys::Secret;
use crate::links_record::LinksRecord;
use crate::record::NetworkError;
use crate::record::Record;
use crate::reference::Reference;
use crate::trace::Trace;
use crate::trace::TraceView;
use crate::trace::UnlockedTrace;
use crate::trace::UnlockedTraceView;

verus! {

/// A handle on one index record and the secret of its metadata.
#[derive(Debug)]
pub struct IndexRecord {
    record: Record,
    secret: Secret,
}

impl RecordType for IndexRecord {
    open spec fn magic() -> u8 {
        2
    }

    fn magic_byte() -> u8 {
        2
    }
}

impl DomainRecord<IndexDomain> for IndexRecord {

}

impl DomainRecord<RootDomain> for IndexRecord {

}

impl View for IndexRecord {
    type V = RecordHandleView;

    closed spec fn view(&self) -> RecordHandleView {
        RecordHandleView { record: self.record@, secret: self.secret@ }
    }
}

impl IndexRecord {
    #[verifier::type_invariant]
    /// Every handle is well formed.
    pub open spec fn inv(&self) -> bool {
        self@.wf()
    }

    /// Wraps an opened record with the secret of its metadata.
    pub fn from_record(record: Record, secret: &Secret) -> (r: Self)
        ensures
            r@.record == record@,
            r@.secret == secret@,
    {
        proof {
            use_type_invariant(&record);
            use_type_invariant(secret);
        }
        IndexRecord { record, secret: secret.clone() }
    }

    /// The secret of this record's metadata.
    pub fn secret(&self) -> (r: &Secret)
        ensures
            r@ == self@.secret,
            self@.wf(),
    {
        proof {
            use_type_invariant(self);
        }
        &self.secret
    }

    /// The underlying record.
    pub fn record(&self) -> (r: &Record)
        ensures
            r@ == self@.record,
            self@.wf(),
    {
        proof {
            use_type_invariant(self);
        }
        &self.record
    }

    /// The domain reference this record answers to: its shard and hash.
    pub fn reference<D: crate::domains::Domain>(&self) -> (r: crate::reference::Reference<D>) where
        Self: crate::domains::DomainRecord<D>,

        ensures
            r@.shard == self@.record.shard,
            r@.hash == self@.record.hash,
            r@.wf(),
    {
        proof {
            use_type_invariant(self);
        }
        crate::reference::Reference::new(
            self.record.shard().clone(),
            self.record.hash().clone(),
        )
    }

    /// The shareable trace of this record: unlocked with the secret, or
    /// locked.
    pub fn to_trace(&self, include_secret: bool) -> (r: Trace<IndexRecord>)
        ensures
            r@ == (TraceView {
                key: self@.record.key,
                access: if include_secret {
                    AccessView::Unlocked(self@.secret)
                } else {
                    AccessView::Locked
                },
            }),
    {
        proof {
            use_type_invariant(self);
        }
        let access = if include_secret {
            Access::Unlocked(self.secret.clone())
        } else {
            Access::Locked
        };
        Trace::new(self.record.record_key().clone(), access)
    }

    /// The in-process unlocked trace of this record.
    pub fn to_unlocked_trace(&self) -> (r: UnlockedTrace<IndexRecord>)
        ensures
            r@ == (UnlockedTraceView { key: self@.record.key, secret: self@.secret }),
    {
        proof {
            use_type_invariant(self);
        }
        UnlockedTrace::new(self.record.record_key().clone(), self.secret.clone())
    }

    /// Creates an index record under a reference: only the owner of the
    /// shard the metadata claims may create it, and exactly that check
    /// can refuse it, short of metadata whose byte form overflows the
    /// envelope's length prefix.  Gives the handle and the envelope to
    /// store on subkey 0.
    pub fn create<D: Domain>(
        identity: &Identity,
        reference: &Reference<D>,
        secret: &Secret,
        meta: &IndexMetadata,
    ) -> (r: Result<(IndexRecord, Encrypted), IntersectError>) where IndexRecord: DomainRecord<D>
        ensures
            (r matches Err(e) && e is Unauthorized) <==> identity@.0 != meta@.shard,
            (r matches Err(e) && e matches IntersectError::EncryptionError(_)) <==> (identity@.0
                == meta@.shard && spec_index_metadata_bytes(meta@).len() + 16 > u32::MAX),
            identity@.0 == meta@.shard && spec_index_metadata_bytes(meta@).len() + 16 <= u32::MAX
                ==> r is Ok,
            match r {
                Ok(p) => {
                    &&& identity@.0 == meta@.shard
                    &&& p.0@.record.shard == identity@.0
                    &&& p.0@.record.hash == reference@.hash
                    &&& p.0@.secret == secret@
                    &&& p.0@.wf()
                    &&& aead_pt(p.1@.ciphertext, p.1@.nonce, secret@) == Some(
                        spec_index_metadata_bytes(meta@),
                    )
                },
                Err(e) => e is Unauthorized || e matches IntersectError::EncryptionError(
                    EncryptionError::EncryptionFailed,
                ),
            },
    {
        if !(identity.shard() == meta.shard()) {
            return Err(IntersectError::Unauthorized);
        }
        let meta_bytes = meta.to_bytes();
        if meta_bytes.len() > 0xFFFF_FFEF {
            return Err(IntersectError::EncryptionError(EncryptionError::EncryptionFailed));
        }
        let encrypted = match Encrypted::encrypt(&meta_bytes, secret) {
            Ok(env) => env,
            Err(e) => {
                return Err(IntersectError::EncryptionError(e));
            },
        };
        let record = Record::create(identity, reference.hash());
        proof {
            use_type_invariant(secret);
        }
        Ok((IndexRecord { record, secret: secret.clone() }, encrypted))
    }

    /// Decrypts and decodes the metadata read from subkey 0.  A
    /// well-formed index always has metadata, so an absent value is
    /// missing data.
    pub fn meta(&self, value: Option<Encrypted>) -> (r: Result<IndexMetadata, IntersectError>)
        ensures
            match r {
                Ok(meta) => {
                    &&& value matches Some(env)
                    &&& aead_pt(env@.ciphertext, env@.nonce, self@.secret) matches Some(pt)
                        && spec_parse_index_metadata(pt, 0) matches Some(p) && p.0 == meta@
                    &&& meta@.wf()
                },
                Err(e) => match value {
                    None => e matches IntersectError::NetworkError(NetworkError::MissingData),
                    Some(env) => {
                        ||| (aead_pt(env@.ciphertext, env@.nonce, self@.secret) is None
                            && e matches IntersectError::EncryptionError(
                            EncryptionError::DecryptionFailed,
                        ))
                        ||| (aead_pt(env@.ciphertext, env@.nonce, self@.secret) matches Some(pt)
                            && spec_parse_index_metadata(pt, 0) is None && e matches
                        IntersectError::EncryptionError(EncryptionError::DeserialisationFailed(_)))
                    },
                },
            },
    {
        proof {
            use_type_invariant(self);
        }
        let env = match value {
            Some(env) => env,
            None => {
                return Err(IntersectError::NetworkError(NetworkError::MissingData));
            },
        };
        let plaintext = match env.decrypt(&self.secret) {
            Ok(pt) => pt,
            Err(e) => {
                return Err(IntersectError::EncryptionError(e));
            },
        };
        match IndexMetadata::from_bytes(&plaintext) {
            Some(meta) => Ok(meta),
            None => Err(
                IntersectError::EncryptionError(
                    EncryptionError::DeserialisationFailed("invalid metadata".to_owned()),
                ),
            ),
        }
    }

    /// Re-encrypts new metadata for subkey 0: succeeds exactly when the
    /// metadata's byte form fits the envelope's length prefix.  The
    /// writer key decides at the table whether the write lands; this
    /// handle only seals the payload.
    pub fn update_meta(&self, new_metadata: &IndexMetadata) -> (r: Result<
        Encrypted,
        IntersectError,
    >)
        ensures
            r is Ok <==> spec_index_metadata_bytes(new_metadata@).len() + 16 <= u32::MAX,
            match r {
                Ok(env) => aead_pt(env@.ciphertext, env@.nonce, self@.secret) == Some(
                    spec_index_metadata_bytes(new_metadata@),
                ),
                Err(e) => e matches IntersectError::EncryptionError(
                    EncryptionError::EncryptionFailed,
                ),
            },
    {
        proof {
            use_type_invariant(self);
        }
        let meta_bytes = new_metadata.to_bytes();
        if meta_bytes.len() > 0xFFFF_FFEF {
            return Err(IntersectError::EncryptionError(EncryptionError::EncryptionFailed));
        }
        match Encrypted::encrypt(&meta_bytes, &self.secret) {
            Ok(env) => Ok(env),
            Err(e) => Err(IntersectError::EncryptionError(e)),
        }
    }

    /// The links trace of the metadata, ready to open: absent links give
    /// nothing, an unlocked trace gives its key and secret, and a locked
    /// or protected trace cannot be opened.
    pub fn try_fetch_links(&self, meta: &IndexMetadata) -> (r: Result<
        Option<UnlockedTrace<LinksRecord>>,
        IntersectError,
    >)
        ensures
            match r {
                Ok(Some(u)) => meta@.links matches Some(t) && t.access == AccessView::Unlocked(
                    u@.secret,
                ) && t.key == u@.key,
                Ok(None) => meta@.links is None,
                Err(e) => {
                    &&& e is LockedTrace
                    &&& meta@.links matches Some(t) && !(t.access is Unlocked)
                },
            },
    {
        match meta.links() {
            Some(trace) => {
                match trace.try_open_secret() {
                    Ok(secret) => Ok(Some(UnlockedTrace::new(trace.key().clone(), secret))),
                    Err(_) => Err(IntersectError::LockedTrace),
                }
            },
            None => Ok(None),
        }
    }
}

} // verus!
