//! The links record: one named link per subkey.  A new link goes to the
//! lowest subkey that was never written; removing a link stores an empty
//! tombstone, and such a subkey is not reused.

use vstd::prelude::*;

use crate::access::Access;
use crate::access::AccessView;
use crate::crypto::aead_pt;
use crate::domains::DomainRecord;
use crate::domains::LinksDomain;
use crate::domains::RecordType;
use crate::encrypted::Encrypted;
use crate::encrypted::EncryptionError;
use crate::fragment_record::RecordHandleView;
use crate::index::spec_link_entry_bytes;
use crate::index::spec_parse_link_entry;
use crate::index::LinkEntry;
use crate::index::LinkEntryView;
use crate::intersect::IntersectError;
use crate::keys::Identity;
use crate::keys::Secret;
use crate::record::Record;
use crate::reference::Reference;
use crate::trace::Trace;
use crate::trace::TraceView;
use crate::trace::UnlockedTrace;
use crate::trace::UnlockedTraceView;

verus! {

/// A handle on one links record and the secret of its entries.
#[derive(Debug)]
pub struct LinksRecord {
    record: Record,
    secret: Secret,
}

impl RecordType for LinksRecord {
    open spec fn magic() -> u8 {
        3
    }

    fn magic_byte() -> u8 {
        3
    }
}

impl DomainRecord<LinksDomain> for LinksRecord {

}

impl View for LinksRecord {
    type V = RecordHandleView;

    closed spec fn view(&self) -> RecordHandleView {
        RecordHandleView { record: self.record@, secret: self.secret@ }
    }
}

/// What decrypting and decoding all present link entries yields: entries
/// in the given subkey order, an absent subkey omitted; an entry that
/// fails to authenticate or to decode fails the batch.
pub open spec fn spec_fetch_links(
    secret: Seq<u8>,
    values: Seq<(u32, Option<Encrypted>)>,
) -> Option<Seq<(u32, LinkEntryView)>>
    decreases values.len(),
{
    if values.len() == 0 {
        Some(Seq::empty())
    } else {
        match spec_fetch_links(secret, values.drop_last()) {
            None => None,
            Some(prefix) => match values.last().1 {
                None => Some(prefix),
                Some(env) => match aead_pt(env@.ciphertext, env@.nonce, secret) {
                    None => None,
                    Some(pt) => match spec_parse_link_entry(pt, 0) {
                        Some(p) => Some(prefix.push((values.last().0, p.0))),
                        None => None,
                    },
                },
            },
        }
    }
}

impl LinksRecord {
    #[verifier::type_invariant]
    /// Every handle is well formed.
    pub open spec fn inv(&self) -> bool {
        self@.wf()
    }

    /// Wraps an opened record with the secret of its entries.
    pub fn from_record(record: Record, secret: &Secret) -> (r: Self)
        ensures
            r@.record == record@,
            r@.secret == secret@,
    {
        proof {
            use_type_invariant(&record);
            use_type_invariant(secret);
        }
        LinksRecord { record, secret: secret.clone() }
    }

    /// The secret of this record's entries.
    pub fn secret(&self) -> (r: &Secret)
        ensures
            r@ == self@.secret,
            self@.wf(),
    {
        proof {
            use_type_invariant(self);
        }
        &self.secret
    }

    /// The underlying record.
    pub fn record(&self) -> (r: &Record)
        ensures
            r@ == self@.record,
            self@.wf(),
    {
        proof {
            use_type_invariant(self);
        }
        &self.record
    }

    /// The domain reference this record answers to: its shard and hash.
    pub fn reference<D: crate::domains::Domain>(&self) -> (r: crate::reference::Reference<D>) where
        Self: crate::domains::DomainRecord<D>,

        ensures
            r@.shard == self@.record.shard,
            r@.hash == self@.record.hash,
            r@.wf(),
    {
        proof {
            use_type_invariant(self);
        }
        crate::reference::Reference::new(
            self.record.shard().clone(),
            self.record.hash().clone(),
        )
    }

    /// The shareable trace of this record: unlocked with the secret, or
    /// locked.
    pub fn to_trace(&self, include_secret: bool) -> (r: Trace<LinksRecord>)
        ensures
            r@ == (TraceView {
                key: self@.record.key,
                access: if include_secret {
                    AccessView::Unlocked(self@.secret)
                } else {
                    AccessView::Locked
                },
            }),
    {
        proof {
            use_type_invariant(self);
        }
        let access = if include_secret {
            Access::Unlocked(self.secret.clone())
        } else {
            Access::Locked
        };
        Trace::new(self.record.record_key().clone(), access)
    }

    /// The in-process unlocked trace of this record.
    pub fn to_unlocked_trace(&self) -> (r: UnlockedTrace<LinksRecord>)
        ensures
            r@ == (UnlockedTraceView { key: self@.record.key, secret: self@.secret }),
    {
        proof {
            use_type_invariant(self);
        }
        UnlockedTrace::new(self.record.record_key().clone(), self.secret.clone())
    }

    /// Creates a links record under a reference, sealing each given
    /// entry for its own subkey, entry `i` on subkey `i`.  It succeeds
    /// whenever every entry's byte form fits the envelope's length
    /// prefix, and fails only on an entry that does not.
    pub fn create(
        identity: &Identity,
        reference: &Reference<LinksDomain>,
        secret: &Secret,
        links: &Vec<LinkEntry>,
    ) -> (r: Result<(LinksRecord, Vec<(u32, Encrypted)>), IntersectError>)
        requires
            links@.len() <= 256,
        ensures
            (forall|i: int|
                0 <= i < links@.len() ==> spec_link_entry_bytes(links@[i]@).len() + 16
                    <= u32::MAX) ==> r is Ok,
            r matches Err(_) ==> exists|i: int|
                0 <= i < links@.len() && spec_link_entry_bytes(#[trigger] links@[i]@).len() + 16
                    > u32::MAX,
            match r {
                Ok(p) => {
                    &&& p.0@.record.shard == identity@.0
                    &&& p.0@.record.hash == reference@.hash
                    &&& p.0@.secret == secret@
                    &&& p.0@.wf()
                    &&& p.1@.len() == links@.len()
                    &&& forall|i: int|
                        0 <= i < p.1@.len() ==> p.1@[i].0 == i as u32 && aead_pt(
                            p.1@[i].1@.ciphertext,
                            p.1@[i].1@.nonce,
                            secret@,
                        ) == Some(spec_link_entry_bytes(links@[i]@))
                },
                Err(e) => e matches IntersectError::EncryptionError(
                    EncryptionError::EncryptionFailed,
                ),
            },
    {
        let record = Record::create(identity, reference.hash());
        let mut writes: Vec<(u32, Encrypted)> = Vec::new();
        let n = links.len();
        for i in 0..n
            invariant
                n == links@.len(),
                n <= 256,
                writes@.len() == i,
                forall|j: int|
                    0 <= j < i ==> writes@[j].0 == j as u32 && aead_pt(
                        writes@[j].1@.ciphertext,
                        writes@[j].1@.nonce,
                        secret@,
                    ) == Some(spec_link_entry_bytes(links@[j]@)),
        {
            let entry_bytes = links[i].to_bytes();
            if entry_bytes.len() > 0xFFFF_FFEF {
                return Err(IntersectError::EncryptionError(EncryptionError::EncryptionFailed));
            }
            let env = match Encrypted::encrypt(&entry_bytes, secret) {
                Ok(env) => env,
                Err(_) => {
                    return Err(
                        IntersectError::EncryptionError(EncryptionError::EncryptionFailed),
                    );
                },
            };
            writes.push((i as u32, env));
        }
        proof {
            use_type_invariant(secret);
        }
        Ok((LinksRecord { record, secret: secret.clone() }, writes))
    }

    /// Decrypts and decodes every present entry of a full record read,
    /// keeping the given subkey order and omitting absent subkeys.
    #[verifier::loop_isolation(false)]
    pub fn fetch_links(&self, values: Vec<(u32, Option<Encrypted>)>) -> (r: Result<
        Vec<(u32, LinkEntry)>,
        IntersectError,
    >)
        ensures
            match r {
                Ok(v) => {
                    &&& spec_fetch_links(self@.secret, values@) is Some
                    &&& v@.len() == spec_fetch_links(self@.secret, values@)->Some_0.len()
                    &&& forall|i: int|
                        0 <= i < v@.len() ==> v@[i].0 == spec_fetch_links(
                            self@.secret,
                            values@,
                        )->Some_0[i].0 && v@[i].1@ == spec_fetch_links(
                            self@.secret,
                            values@,
                        )->Some_0[i].1
                },
                Err(e) => {
                    &&& spec_fetch_links(self@.secret, values@) is None
                    &&& e matches IntersectError::EncryptionError(err) && (err is DecryptionFailed
                        || err is DeserialisationFailed)
                },
            },
    {
        proof {
            use_type_invariant(self);
        }
        let ghost all = values@;
        let mut remaining = values;
        let mut out: Vec<(u32, LinkEntry)> = Vec::new();
        let ghost mut i: int = 0;
        while remaining.len() > 0
            invariant
                self@.secret.len() == 32,
                0 <= i <= all.len(),
                remaining@ == all.subrange(i, all.len() as int),
                spec_fetch_links(self@.secret, all.take(i)) is Some,
                out@.len() == spec_fetch_links(self@.secret, all.take(i))->Some_0.len(),
                forall|j: int|
                    0 <= j < out@.len() ==> out@[j].0 == spec_fetch_links(
                        self@.secret,
                        all.take(i),
                    )->Some_0[j].0 && out@[j].1@ == spec_fetch_links(
                        self@.secret,
                        all.take(i),
                    )->Some_0[j].1,
            decreases remaining.len(),
        {
            let (subkey, value) = remaining.remove(0);
            proof {
                assert(all.take(i + 1).drop_last() =~= all.take(i));
                assert(all.take(i + 1).last() == all[i]);
                assert(all[i].0 == subkey && all[i].1 == value);
                assert(remaining@ =~= all.subrange(i + 1, all.len() as int));
            }
            match value {
                Some(env) => {
                    let plaintext = match env.decrypt(&self.secret) {
                        Ok(pt) => pt,
                        Err(_) => {
                            proof {
                                lemma_fetch_links_error(self@.secret, all, i);
                            }
                            return Err(
                                IntersectError::EncryptionError(EncryptionError::DecryptionFailed),
                            );
                        },
                    };
                    match LinkEntry::from_bytes(&plaintext) {
                        Some(entry) => {
                            out.push((subkey, entry));
                        },
                        None => {
                            proof {
                                lemma_fetch_links_error(self@.secret, all, i);
                            }
                            return Err(
                                IntersectError::EncryptionError(
                                    EncryptionError::DeserialisationFailed(
                                        "invalid link entry".to_owned(),
                                    ),
                                ),
                            );
                        },
                    }
                },
                None => {},
            }
            proof {
                i = i + 1;
            }
        }
        proof {
            assert(all.take(all.len() as int) =~= all);
        }
        Ok(out)
    }

    /// Seals a new entry for whichever unused subkey the caller picks:
    /// succeeds exactly when the entry's byte form fits the envelope's
    /// length prefix.
    pub fn add_link(&self, index_link: &LinkEntry) -> (r: Result<Encrypted, IntersectError>)
        ensures
            r is Ok <==> spec_link_entry_bytes(index_link@).len() + 16 <= u32::MAX,
            match r {
                Ok(env) => aead_pt(env@.ciphertext, env@.nonce, self@.secret) == Some(
                    spec_link_entry_bytes(index_link@),
                ),
                Err(e) => e matches IntersectError::EncryptionError(
                    EncryptionError::EncryptionFailed,
                ),
            },
    {
        proof {
            use_type_invariant(self);
        }
        let entry_bytes = index_link.to_bytes();
        if entry_bytes.len() > 0xFFFF_FFEF {
            return Err(IntersectError::EncryptionError(EncryptionError::EncryptionFailed));
        }
        match Encrypted::encrypt(&entry_bytes, &self.secret) {
            Ok(env) => Ok(env),
            Err(e) => Err(IntersectError::EncryptionError(e)),
        }
    }

    /// The tombstone write that removes the link at a subkey: the empty
    /// value.  The subkey stays used and is not handed out again.
    pub fn remove_link(&self, subkey: u32) -> (r: (u32, Vec<u8>))
        ensures
            r.0 == subkey,
            r.1@ == Seq::<u8>::empty(),
    {
        let empty: Vec<u8> = Vec::new();
        (subkey, empty)
    }
}

/// Once an entry at a position fails, with no earlier failure, the whole
/// fetch fails.
proof fn lemma_fetch_links_error(secret: Seq<u8>, values: Seq<(u32, Option<Encrypted>)>, i: int)
    requires
        0 <= i < values.len(),
        values[i].1 is Some,
        ({
            let env = values[i].1->Some_0;
            aead_pt(env@.ciphertext, env@.nonce, secret) is None || spec_parse_link_entry(
                aead_pt(env@.ciphertext, env@.nonce, secret)->Some_0,
                0,
            ) is None
        }),
    ensures
        spec_fetch_links(secret, values) is None,
    decreases values.len(),
{
    if values.len() > 0 {
        if i < values.len() - 1 {
            assert(values.drop_last()[i] == values[i]);
            lemma_fetch_links_error(secret, values.drop_last(), i);
        }
    }
}

} // verus!
