//! Binary framing on concrete values: every entity decodes back to
//! itself, encoding is deterministic, and a mismatched magic fails.

use intersect_core::Access;
use intersect_core::Encrypted;
use intersect_core::Fragment;
use intersect_core::FragmentRecord;
use intersect_core::Identity;
use intersect_core::IndexMetadata;
use intersect_core::IndexRecord;
use intersect_core::LinkEntry;
use intersect_core::LinksRecord;
use intersect_core::ProtectedSecret;
use intersect_core::Reference;
use intersect_core::RootDomain;
use intersect_core::Secret;
use intersect_core::Segment;
use intersect_core::Shard;
use intersect_core::Trace;
use intersect_core::TraceError;
use intersect_core::UnlockedTrace;
use intersect_core::VeilidRecordKey;

fn sample_key_bytes(fill: u8) -> Vec<u8> {
    vec![fill; 32]
}

fn sample_trace(fill: u8) -> Trace<FragmentRecord> {
    let key = VeilidRecordKey::from_bytes(sample_key_bytes(fill));
    let secret = Secret::from_bytes(sample_key_bytes(fill.wrapping_add(1)));
    Trace::new(key, Access::Unlocked(secret))
}

#[test]
fn key_base58_round_trip() {
    let shard = Shard::from_bytes(sample_key_bytes(7));
    let text = shard.to_base58();
    let again = Shard::from_str(&text).unwrap();
    assert_eq!(shard, again);
    assert_eq!(text, shard.to_base58());
    assert!(Shard::from_str("not base58 !!!").is_err());
    assert!(Shard::from_str("abc").is_err());
}

#[test]
fn secret_base58_round_trip() {
    let secret = Secret::random();
    let again = Secret::from_str(&secret.to_base58()).unwrap();
    assert_eq!(secret, again);
}

#[test]
fn reference_round_trip() {
    let identity = Identity::random();
    let name = Segment::new("account").unwrap();
    let (reference, _secret) = RootDomain::open_public(identity.shard(), &name);
    let bytes = reference.to_bytes();
    assert_eq!(bytes.len(), 65);
    assert_eq!(bytes[0], 3);
    let again: Reference<RootDomain> = Reference::from_bytes(&bytes).unwrap();
    assert_eq!(again, reference);
    assert_eq!(reference.to_bytes(), bytes);
}

#[test]
fn reference_wrong_domain_fails() {
    let identity = Identity::random();
    let name = Segment::new("account").unwrap();
    let (reference, _secret) = RootDomain::open_public(identity.shard(), &name);
    let bytes = reference.to_bytes();
    let wrong: Option<Reference<intersect_core::IndexDomain>> = Reference::from_bytes(&bytes);
    assert!(wrong.is_none());
}

#[test]
fn trace_round_trip_unlocked() {
    let trace = sample_trace(9);
    let bytes = trace.to_bytes();
    let again: Trace<FragmentRecord> = Trace::from_bytes(&bytes).unwrap();
    assert_eq!(again, trace);
    assert_eq!(again.to_bytes(), bytes);
}

#[test]
fn trace_round_trip_locked() {
    let key = VeilidRecordKey::from_bytes(sample_key_bytes(3));
    let trace: Trace<IndexRecord> = Trace::new(key, Access::Locked);
    let bytes = trace.to_bytes();
    assert_eq!(bytes.len(), 1 + 32 + 1);
    let again: Trace<IndexRecord> = Trace::from_bytes(&bytes).unwrap();
    assert_eq!(again, trace);
}

#[test]
fn trace_round_trip_protected() {
    let identity = Identity::random();
    let secret = Secret::random();
    let protected = ProtectedSecret::new(
        identity.shard(),
        "correct horse battery staple",
        &secret,
    )
    .unwrap();
    let key = VeilidRecordKey::from_bytes(sample_key_bytes(5));
    let trace: Trace<IndexRecord> = Trace::new(key, Access::Protected(protected));
    let text = trace.to_text();
    let again: Trace<IndexRecord> = Trace::from_str(&text).unwrap();
    assert_eq!(again, trace);
}

#[test]
fn trace_text_round_trip() {
    let trace = sample_trace(11);
    let text = trace.to_text();
    let again: Trace<FragmentRecord> = Trace::from_str(&text).unwrap();
    assert_eq!(again, trace);
    // the text form is deterministic
    assert_eq!(text, trace.to_text());
    let bad: Result<Trace<FragmentRecord>, TraceError> = Trace::from_str("!!! not base58");
    assert!(bad.is_err());
}

#[test]
fn trace_wrong_record_kind_fails() {
    // a fragment trace must not decode as an index or links trace
    let trace = sample_trace(13);
    let bytes = trace.to_bytes();
    let as_index: Result<Trace<IndexRecord>, TraceError> = Trace::from_bytes(&bytes);
    assert!(as_index.is_err());
    let as_links: Result<Trace<LinksRecord>, TraceError> = Trace::from_bytes(&bytes);
    assert!(as_links.is_err());
}

#[test]
fn access_round_trip_all_variants() {
    let locked = Access::Locked;
    let unlocked = Access::Unlocked(Secret::from_bytes(sample_key_bytes(21)));
    let identity = Identity::random();
    let protected = Access::Protected(
        ProtectedSecret::new(identity.shard(), "correct horse battery staple", &Secret::random())
            .unwrap(),
    );
    for access in [locked, unlocked, protected] {
        let bytes = access.to_bytes();
        let again = Access::from_bytes(&bytes).unwrap();
        assert_eq!(again, access);
        assert_eq!(again.to_bytes(), bytes);
    }
    let mut bad = vec![9u8];
    assert!(Access::from_bytes(&bad).is_err());
    bad.clear();
    assert!(Access::from_bytes(&bad).is_err());
}

#[test]
fn segment_wire_round_trip() {
    let segment = Segment::new("a name with spaces and 123").unwrap();
    let mut bytes: Vec<u8> = Vec::new();
    // the wire form is the UTF-8 text closed by a NUL
    bytes.extend_from_slice(segment.as_str().as_bytes());
    bytes.push(0);
    let (again, used) = Segment::parse_at(&bytes, 0).unwrap();
    assert_eq!(again, segment);
    assert_eq!(used, bytes.len());
}

#[test]
fn fragment_round_trip() {
    let fragment = Fragment::new(b"some document body".to_vec());
    let bytes = fragment.to_bytes();
    let again = Fragment::from_bytes(bytes.clone());
    assert_eq!(again, fragment);
    assert_eq!(bytes, b"some document body".to_vec());
}

#[test]
fn index_metadata_round_trip_every_occupancy() {
    let identity = Identity::random();
    let name = Segment::new("note").unwrap();
    let base = IndexMetadata::new(identity.shard(), &name);

    let fragment_trace = sample_trace(31);
    let links_key = VeilidRecordKey::from_bytes(sample_key_bytes(33));
    let links_secret = Secret::from_bytes(sample_key_bytes(34));
    let links_trace: Trace<LinksRecord> =
        UnlockedTrace::new(links_key, links_secret).to_trace();

    let with_fragment = base.with_fragment(&fragment_trace);
    let with_links = base.with_links(&links_trace);
    let with_both = with_fragment.with_links(&links_trace);

    for meta in [base, with_fragment, with_links, with_both] {
        let bytes = meta.to_bytes();
        let again = IndexMetadata::from_bytes(&bytes).unwrap();
        assert_eq!(again, meta);
        assert_eq!(again.to_bytes(), bytes);
    }
}

#[test]
fn index_metadata_builders() {
    let identity = Identity::random();
    let other = Identity::random();
    let name = Segment::new("note").unwrap();
    let renamed = Segment::new("renamed").unwrap();
    let meta = IndexMetadata::new(identity.shard(), &name);
    assert_eq!(meta.shard(), identity.shard());
    assert_eq!(meta.name(), &name);
    assert!(meta.fragment().is_none());
    assert!(meta.links().is_none());
    let moved = meta.with_shard(other.shard());
    assert_eq!(moved.shard(), other.shard());
    let renamed_meta = meta.with_name(&renamed);
    assert_eq!(renamed_meta.name(), &renamed);
    let with_fragment = meta.with_fragment(&sample_trace(41));
    assert!(with_fragment.fragment().is_some());
    assert!(with_fragment.without_fragment().fragment().is_none());
}

#[test]
fn link_entry_round_trip() {
    let name = Segment::new("next page").unwrap();
    let key = VeilidRecordKey::from_bytes(sample_key_bytes(51));
    let secret = Secret::from_bytes(sample_key_bytes(52));
    let trace: Trace<IndexRecord> = UnlockedTrace::new(key, secret).to_trace();
    let entry = LinkEntry::new(&name, &trace);
    let bytes = entry.to_bytes();
    let again = LinkEntry::from_bytes(&bytes).unwrap();
    assert_eq!(again, entry);
    assert_eq!(again.to_bytes(), bytes);
    assert_eq!(entry.name(), &name);
    assert_eq!(entry.trace(), &trace);
}

#[test]
fn encoding_is_deterministic_across_values() {
    let hash_a = intersect_core::keys::Hash::from_bytes(sample_key_bytes(61));
    let hash_b = intersect_core::keys::Hash::from_bytes(sample_key_bytes(61));
    assert_eq!(hash_a.to_base58(), hash_b.to_base58());
    let trace_a = sample_trace(62);
    let trace_b = sample_trace(62);
    assert_eq!(trace_a.to_bytes(), trace_b.to_bytes());
}

#[test]
fn oversize_base58_text_is_rejected() {
    // text whose decoded form would overflow the reference decoder's
    // fixed buffer is rejected up front, never handed to the decoder
    let ones: String = "1".repeat(133);
    assert!(Shard::from_str(&ones).is_err());
    assert!(intersect_core::Access::from_str(&ones).is_err());
    let as_trace: Result<Trace<FragmentRecord>, TraceError> = Trace::from_str(&ones);
    assert!(as_trace.is_err());
    let long: String = "z".repeat(500);
    let bad: Result<Trace<FragmentRecord>, TraceError> = Trace::from_str(&long);
    assert!(bad.is_err());
}
