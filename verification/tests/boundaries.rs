//! Boundary behaviors: segment and password lengths, domain reference
//! determinism and separation, root secrets, unused-subkey selection and
//! access checks.

use intersect_core::AccessError;
use intersect_core::ContentDomain;
use intersect_core::Identity;
use intersect_core::IndexDomain;
use intersect_core::IndexMetadata;
use intersect_core::IntersectError;
use intersect_core::LinksDomain;
use intersect_core::NetworkError;
use intersect_core::ProtectedSecret;
use intersect_core::RootDomain;
use intersect_core::Secret;
use intersect_core::Segment;
use intersect_core::Trace;
use intersect_core::VeilidRecordKey;

#[test]
fn empty_segment_fails() {
    assert!(Segment::new("").is_err());
}

#[test]
fn segment_length_boundaries() {
    // 255 bytes of valid characters succeed; 256 fail
    let ok: String = "a".repeat(255);
    assert!(Segment::new(&ok).is_ok());
    let too_long: String = "a".repeat(256);
    assert!(Segment::new(&too_long).is_err());
}

#[test]
fn segment_character_classes() {
    assert!(Segment::new("letters digits 042").is_ok());
    assert!(Segment::new("punctuation!?.").is_ok());
    assert!(Segment::new("snowman \u{2603}").is_ok());
    // a control character is in none of the accepted classes
    assert!(Segment::new("tab\tseparated").is_err());
    assert!(Segment::new("nul\0inside").is_err());
}

#[test]
fn password_length_boundaries() {
    let identity = Identity::random();
    let shard = identity.shard();
    let secret = Secret::random();
    // grapheme counts: 14 fails, 15 succeeds, 64 succeeds, 65 fails
    let p14: String = "x".repeat(14);
    let p15: String = "x".repeat(15);
    let p64: String = "x".repeat(64);
    let p65: String = "x".repeat(65);
    assert!(matches!(
        ProtectedSecret::new(shard, &p14, &secret),
        Err(AccessError::InvalidPassword)
    ));
    assert!(ProtectedSecret::new(shard, &p15, &secret).is_ok());
    assert!(ProtectedSecret::new(shard, &p64, &secret).is_ok());
    assert!(matches!(
        ProtectedSecret::new(shard, &p65, &secret),
        Err(AccessError::InvalidPassword)
    ));
}

#[test]
fn protect_and_unlock_round_trip() {
    let identity = Identity::random();
    let shard = identity.shard();
    let secret = Secret::random();
    let password = "correct horse battery staple";
    let protected = ProtectedSecret::new(shard, password, &secret).unwrap();
    let wrong = protected.clone().unlock(shard, "wrong password xx");
    assert!(matches!(wrong, Err(AccessError::InvalidPassword)));
    let unlocked = protected.unlock(shard, password).unwrap();
    assert_eq!(unlocked, secret);
}

#[test]
fn content_reference_is_deterministic_per_input() {
    let identity = Identity::random();
    let shard = identity.shard();
    let bytes_a = b"first body".to_vec();
    let bytes_b = b"second body".to_vec();
    let ref_a1 = ContentDomain::new_reference(shard, &bytes_a);
    let ref_a2 = ContentDomain::new_reference(shard, &bytes_a);
    let ref_b = ContentDomain::new_reference(shard, &bytes_b);
    assert_eq!(ref_a1, ref_a2);
    assert_ne!(ref_a1, ref_b);
}

#[test]
fn random_domains_give_fresh_references() {
    let identity = Identity::random();
    let shard = identity.shard();
    let a = IndexDomain::new_reference(shard);
    let b = IndexDomain::new_reference(shard);
    assert_ne!(a, b);
    let c = LinksDomain::new_reference(shard);
    let d = LinksDomain::new_reference(shard);
    assert_ne!(c, d);
}

#[test]
fn root_reference_is_deterministic_per_name() {
    let identity = Identity::random();
    let shard = identity.shard();
    let account = Segment::new("account").unwrap();
    let home = Segment::new("home").unwrap();
    let a1 = RootDomain::new_reference(shard, &account);
    let a2 = RootDomain::new_reference(shard, &account);
    let h = RootDomain::new_reference(shard, &home);
    assert_eq!(a1, a2);
    assert_ne!(a1, h);
}

#[test]
fn domains_separate_equal_inputs() {
    // the same (shard, no input) under the index and links domains, and
    // the same (shard, bytes-of-name) under content and root, differ
    let identity = Identity::random();
    let shard = identity.shard();
    let name = Segment::new("account").unwrap();
    let content = ContentDomain::new_reference(shard, &name.as_str().as_bytes().to_vec());
    let root = RootDomain::new_reference(shard, &name);
    assert_ne!(content.hash().bytes(), root.hash().bytes());
}

#[test]
fn public_secret_depends_on_shard_and_name_alone() {
    let a = Identity::random();
    let b = Identity::random();
    let name = Segment::new("account").unwrap();
    let other = Segment::new("home").unwrap();
    let s1 = RootDomain::public_secret(a.shard(), &name);
    let s2 = RootDomain::public_secret(a.shard(), &name);
    assert_eq!(s1, s2);
    assert_ne!(s1, RootDomain::public_secret(b.shard(), &name));
    assert_ne!(s1, RootDomain::public_secret(a.shard(), &other));
}

#[test]
fn private_secret_differs_per_identity() {
    let a = Identity::random();
    let b = Identity::random();
    let name = Segment::new("account").unwrap();
    let sa = RootDomain::private_secret(&a, &name);
    let sb = RootDomain::private_secret(&b, &name);
    assert_ne!(sa, sb);
    // and it differs from the public secret of the same root
    assert_ne!(sa, RootDomain::public_secret(a.shard(), &name));
}

#[test]
fn pick_unused_subkey_prefers_confirmed_candidate() {
    let refreshed: Vec<u32> = vec![4, 9];
    assert_eq!(
        intersect_core::record::pick_unused_subkey(Some(2), &refreshed).unwrap(),
        2
    );
    assert_eq!(
        intersect_core::record::pick_unused_subkey(None, &refreshed).unwrap(),
        4
    );
    let empty: Vec<u32> = Vec::new();
    assert!(matches!(
        intersect_core::record::pick_unused_subkey(None, &empty),
        Err(NetworkError::NoUnusedSubkey)
    ));
}

#[test]
fn create_index_with_foreign_shard_is_unauthorized() {
    let a = Identity::random();
    let b = Identity::random();
    let name = Segment::new("note").unwrap();
    // metadata claiming another identity's shard is rejected before
    // anything is touched
    let meta = IndexMetadata::new(b.shard(), &name);
    let result = IndexDomain::create(&a, &meta);
    assert!(matches!(result, Err(IntersectError::Unauthorized)));
}

#[test]
fn locked_and_protected_traces_do_not_open() {
    let identity = Identity::random();
    let key = VeilidRecordKey::from_bytes(vec![1u8; 32]);
    let locked: Trace<intersect_core::IndexRecord> =
        Trace::new(key.clone(), intersect_core::Access::Locked);
    assert!(matches!(
        locked.try_open_secret(),
        Err(IntersectError::LockedTrace)
    ));
    assert!(matches!(
        locked.try_unlocked(),
        Err(IntersectError::Unauthorized)
    ));
    let protected = ProtectedSecret::new(
        identity.shard(),
        "correct horse battery staple",
        &Secret::random(),
    )
    .unwrap();
    let protected_trace: Trace<intersect_core::IndexRecord> =
        Trace::new(key, intersect_core::Access::Protected(protected));
    assert!(matches!(
        protected_trace.try_open_secret(),
        Err(IntersectError::LockedTrace)
    ));
    assert!(matches!(
        protected_trace.try_unlocked(),
        Err(IntersectError::Unauthorized)
    ));
    // an unlocked trace opens
    let secret = Secret::random();
    let unlocked: Trace<intersect_core::IndexRecord> = Trace::new(
        VeilidRecordKey::from_bytes(vec![2u8; 32]),
        intersect_core::Access::Unlocked(secret.clone()),
    );
    assert_eq!(unlocked.try_open_secret().unwrap(), secret);
}

#[test]
fn identity_validation() {
    let identity = Identity::random();
    let shard = identity.shard().clone();
    let private = identity.private_key().clone();
    assert!(Identity::new(shard, private).is_ok());
    let other = Identity::random();
    let mismatched = Identity::new(other.shard().clone(), identity.private_key().clone());
    assert!(mismatched.is_err());
}

#[test]
fn refresh_selects_stale_subkeys() {
    // fetch where the network holds a newer value, or one the local
    // cache lacks; skip equal pairs and subkeys with no remote value
    let network: Vec<Option<u32>> = vec![Some(3), None, Some(0), Some(5)];
    let local: Vec<Option<u32>> = vec![Some(3), None, None, Some(4)];
    let stale = intersect_core::record::stale_subkeys(&network, &local);
    assert_eq!(stale, vec![2, 3]);
}

#[test]
fn unused_and_used_subkeys_partition_the_report() {
    let seqs: Vec<Option<u32>> = vec![Some(0), None, Some(7), None, None];
    let unused = intersect_core::record::find_unused_subkeys(&seqs);
    let used = intersect_core::record::find_used_subkeys(&seqs);
    assert_eq!(unused, vec![1, 3, 4]);
    assert_eq!(used, vec![0, 2]);
}
