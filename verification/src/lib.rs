//! Storage and addressing core for a decentralized document store.
//!
//! Documents live in a distributed hash table as writer-signed records of
//! fixed-width subkeys.  This crate holds the platform-independent logic:
//! the key types and identities, the authenticated-encryption envelope and
//! its byte format, the binary framing of every persisted entity, the
//! domain-separated content-addressing scheme, the record-layer planning
//! (chunked I/O, subkey discovery, refresh selection) and the trace /
//! access state machine.  Network transport is left to the caller, which
//! feeds subkey values in and carries write plans out.

pub mod access;
pub mod codec;
pub mod crypto;
pub mod domains;
pub mod encrypted;
pub mod fragment;
pub mod fragment_record;
pub mod index;
pub mod index_record;
pub mod intersect;
pub mod keys;
pub mod links_record;
pub mod path;
pub mod record;
pub mod reference;
pub mod trace;

pub use access::Access;
pub use access::AccessError;
pub use access::ProtectedSecret;
pub use crypto::derive_shared_secret;
pub use crypto::hash;
pub use domains::ContentDomain;
pub use domains::Domain;
pub use domains::DomainRecord;
pub use domains::IndexDomain;
pub use domains::LinksDomain;
pub use domains::RecordType;
pub use domains::RootDomain;
pub use encrypted::Encrypted;
pub use encrypted::EncryptionError;
pub use fragment::Fragment;
pub use fragment_record::FragmentRecord;
pub use index::IndexMetadata;
pub use index::LinkEntry;
pub use index_record::IndexRecord;
pub use intersect::IntersectError;
pub use keys::Identity;
pub use keys::InvalidKeypair;
pub use keys::KeyError;
pub use keys::PrivateKey;
pub use keys::Secret;
pub use keys::Shard;
pub use keys::VeilidRecordKey;
pub use links_record::LinksRecord;
pub use path::PathError;
pub use path::Segment;
pub use record::NetworkError;
pub use record::Record;
pub use record::ValueSubkey;
pub use reference::Reference;
pub use trace::Trace;
pub use trace::TraceError;
pub use trace::UnlockedTrace;
