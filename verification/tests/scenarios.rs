//! End-to-end scenarios against an in-memory table double providing the
//! record surface: create, per-subkey get/set with writer checks and
//! sequence numbers, and inspection.

use std::collections::HashMap;

use intersect_core::record::chunk_writes;
use intersect_core::record::collect_read_results;
use intersect_core::record::concat_chunks;
use intersect_core::record::find_unused_subkeys;
use intersect_core::record::find_used_subkeys;
use intersect_core::record::pick_unused_subkey;
use intersect_core::record::MAX_SUBKEYS;
use intersect_core::record::SUBKEY_SIZE_BYTES;
use intersect_core::ContentDomain;
use intersect_core::Encrypted;
use intersect_core::Fragment;
use intersect_core::FragmentRecord;
use intersect_core::Identity;
use intersect_core::IndexDomain;
use intersect_core::IndexMetadata;
use intersect_core::IndexRecord;
use intersect_core::IntersectError;
use intersect_core::LinkEntry;
use intersect_core::LinksDomain;
use intersect_core::LinksRecord;
use intersect_core::NetworkError;
use intersect_core::Record;
use intersect_core::RootDomain;
use intersect_core::Segment;
use intersect_core::Trace;

/// One record of the double: its owner, its schema tag and its subkeys.
struct StoredRecord {
    owner: Vec<u8>,
    hash: Vec<u8>,
    subkeys: HashMap<u32, (Vec<u8>, u32)>,
}

/// An in-memory stand-in for the distributed hash table.
struct Store {
    records: HashMap<Vec<u8>, StoredRecord>,
}

impl Store {
    fn new() -> Store {
        Store { records: HashMap::new() }
    }

    fn create_record(&mut self, record: &Record) {
        self.records.insert(
            record.record_key().bytes_cloned(),
            StoredRecord {
                owner: record.shard().bytes_cloned(),
                hash: record.hash().bytes_cloned(),
                subkeys: HashMap::new(),
            },
        );
    }

    /// Opens a record by key, recovering the owner shard and the hash
    /// tag member from the descriptor.
    fn open_record(&self, key: &[u8]) -> Result<Record, IntersectError> {
        match self.records.get(key) {
            Some(entry) => {
                let shard = intersect_core::Shard::from_bytes(entry.owner.clone());
                let hash = intersect_core::keys::Hash::from_bytes(entry.hash.clone());
                Ok(Record::open(&shard, &hash))
            }
            None => Err(IntersectError::NetworkError(NetworkError::RecordNotFound)),
        }
    }

    /// Writes a value; the table enforces that only the owner's writer
    /// key may write.
    fn set(
        &mut self,
        key: &[u8],
        subkey: u32,
        data: Vec<u8>,
        writer: &Identity,
    ) -> Result<(), NetworkError> {
        let entry = match self.records.get_mut(key) {
            Some(entry) => entry,
            None => return Err(NetworkError::RecordWriteFailed),
        };
        if entry.owner != writer.shard().bytes_cloned() {
            return Err(NetworkError::RecordWriteFailed);
        }
        let seq = match entry.subkeys.get(&subkey) {
            Some((_, seq)) => seq + 1,
            None => 0,
        };
        entry.subkeys.insert(subkey, (data, seq));
        Ok(())
    }

    /// Reads a value: absent or tombstoned (empty) subkeys give nothing.
    fn get(&self, key: &[u8], subkey: u32) -> Option<Vec<u8>> {
        let entry = self.records.get(key)?;
        let (data, _) = entry.subkeys.get(&subkey)?;
        intersect_core::record::live_value(Some(data.clone()))
    }

    /// The per-subkey local sequence numbers, unset ones as `None`.
    fn local_seqs(&self, key: &[u8]) -> Vec<Option<u32>> {
        let entry = self.records.get(key).unwrap();
        (0..MAX_SUBKEYS)
            .map(|i| entry.subkeys.get(&i).map(|(_, seq)| *seq))
            .collect()
    }
}

/// Creates a fragment record in the store and returns the handle.
fn post_fragment(
    store: &mut Store,
    identity: &Identity,
    fragment: &Fragment,
) -> FragmentRecord {
    let (record, _envelope, writes) = ContentDomain::create(identity, fragment).unwrap();
    store.create_record(record.record());
    let key = record.record().record_key().bytes_cloned();
    for (subkey, data) in writes {
        store.set(&key, subkey, data, identity).unwrap();
    }
    record
}

/// Loads a fragment back out of the store through a handle.
fn load_fragment(store: &Store, record: &FragmentRecord) -> Result<Fragment, IntersectError> {
    let key = record.record().record_key().bytes_cloned();
    let header = store.get(&key, 0);
    let count = FragmentRecord::chunk_count_from_header(&header)?;
    let chunks: Vec<Option<Vec<u8>>> = (1..=count).map(|i| store.get(&key, i)).collect();
    record.load(&chunks)
}

/// Creates an index record in the store and returns the handle.
fn post_index(
    store: &mut Store,
    identity: &Identity,
    meta: &IndexMetadata,
) -> Result<IndexRecord, IntersectError> {
    let (record, envelope) = IndexDomain::create(identity, meta)?;
    store.create_record(record.record());
    let key = record.record().record_key().bytes_cloned();
    store
        .set(&key, 0, envelope.to_bytes(), identity)
        .map_err(IntersectError::NetworkError)?;
    Ok(record)
}

/// Reads the metadata of an index record out of the store.
fn read_meta(store: &Store, record: &IndexRecord) -> Result<IndexMetadata, IntersectError> {
    let key = record.record().record_key().bytes_cloned();
    let value = match store.get(&key, 0) {
        Some(bytes) => Some(Encrypted::from_bytes(&bytes).map_err(IntersectError::EncryptionError)?),
        None => None,
    };
    record.meta(value)
}

/// Reads every present link entry of a links record out of the store.
fn read_links(
    store: &Store,
    record: &LinksRecord,
) -> Result<Vec<(u32, LinkEntry)>, IntersectError> {
    let key = record.record().record_key().bytes_cloned();
    let seqs = store.local_seqs(&key);
    let used = find_used_subkeys(&seqs);
    let reads: Vec<(u32, Result<Option<Encrypted>, NetworkError>)> = used
        .into_iter()
        .map(|subkey| {
            let value = match store.get(&key, subkey) {
                Some(bytes) => match Encrypted::from_bytes(&bytes) {
                    Ok(env) => Ok(Some(env)),
                    Err(e) => Err(NetworkError::EncryptionError(e)),
                },
                None => Ok(None),
            };
            (subkey, value)
        })
        .collect();
    let values = collect_read_results(reads).map_err(IntersectError::NetworkError)?;
    record.fetch_links(values)
}

/// Adds a link entry to a links record: lazily picks an unused subkey,
/// confirms it, and writes the sealed entry there.
fn add_link(
    store: &mut Store,
    identity: &Identity,
    record: &LinksRecord,
    entry: &LinkEntry,
) -> Result<u32, IntersectError> {
    let key = record.record().record_key().bytes_cloned();
    let envelope = record.add_link(entry)?;
    let lazy = find_unused_subkeys(&store.local_seqs(&key));
    let mut confirmed = None;
    if let Some(&candidate) = lazy.first() {
        // the authoritative check: a forced read that comes back empty
        if store.get(&key, candidate).is_none() {
            confirmed = Some(candidate);
        }
    }
    let refreshed = find_unused_subkeys(&store.local_seqs(&key));
    let subkey = pick_unused_subkey(confirmed, &refreshed)
        .map_err(IntersectError::NetworkError)?;
    store
        .set(&key, subkey, envelope.to_bytes(), identity)
        .map_err(IntersectError::NetworkError)?;
    Ok(subkey)
}

#[test]
fn chunk_round_trip_at_boundary_sizes() {
    let sizes: [usize; 6] = [
        0,
        1,
        SUBKEY_SIZE_BYTES - 1,
        SUBKEY_SIZE_BYTES,
        SUBKEY_SIZE_BYTES + 1,
        (MAX_SUBKEYS as usize - 1) * SUBKEY_SIZE_BYTES,
    ];
    for size in sizes {
        let data: Vec<u8> = (0..size).map(|i| (i % 251) as u8).collect();
        let writes = chunk_writes(&data);
        let count = u32::from_be_bytes([
            writes[0].1[0],
            writes[0].1[1],
            writes[0].1[2],
            writes[0].1[3],
        ]);
        assert_eq!(count as usize, writes.len() - 1);
        let chunks: Vec<Option<Vec<u8>>> =
            writes[1..].iter().map(|(_, c)| Some(c.clone())).collect();
        let rebuilt = concat_chunks(&chunks).unwrap();
        assert_eq!(rebuilt, data);
    }
}

#[test]
fn missing_chunk_is_fatal() {
    let data: Vec<u8> = vec![7; SUBKEY_SIZE_BYTES + 5];
    let writes = chunk_writes(&data);
    let mut chunks: Vec<Option<Vec<u8>>> =
        writes[1..].iter().map(|(_, c)| Some(c.clone())).collect();
    chunks[0] = None;
    assert!(matches!(concat_chunks(&chunks), Err(NetworkError::MissingData)));
}

#[test]
fn post_and_lookup() {
    let mut store = Store::new();
    let identity = Identity::random();
    let fragment = Fragment::new(b"hello world".to_vec());

    let fragment_record = post_fragment(&mut store, &identity, &fragment);
    let name = Segment::new("note").unwrap();
    let meta = IndexMetadata::new(identity.shard(), &name)
        .with_fragment(&fragment_record.to_trace(true));
    let index = post_index(&mut store, &identity, &meta).unwrap();

    let trace_text = index.to_trace(true).to_text();

    // a fresh holder of nothing but the trace text
    let trace: Trace<IndexRecord> = Trace::from_str(&trace_text).unwrap();
    let secret = trace.try_open_secret().unwrap();
    let record = store.open_record(trace.key().bytes()).unwrap();
    let opened = IndexRecord::from_record(record, &secret);
    let meta_read = read_meta(&store, &opened).unwrap();
    assert_eq!(meta_read.name().as_str(), "note");

    let fragment_trace = meta_read.fragment().as_ref().unwrap();
    let fragment_secret = fragment_trace.try_open_secret().unwrap();
    let fragment_opened = FragmentRecord::from_record(
        store.open_record(fragment_trace.key().bytes()).unwrap(),
        &fragment_secret,
    );
    let loaded = load_fragment(&store, &fragment_opened).unwrap();
    assert_eq!(loaded.data, b"hello world".to_vec());
}

#[test]
fn chunked_fragment() {
    let mut store = Store::new();
    let identity = Identity::random();
    let size = 7 * SUBKEY_SIZE_BYTES + 123;
    let data: Vec<u8> = (0..size).map(|i| (i * 31 % 256) as u8).collect();
    let fragment = Fragment::new(data.clone());

    let record = post_fragment(&mut store, &identity, &fragment);
    let key = record.record().record_key().bytes_cloned();

    // subkey 0 decodes as the chunk count 8, and subkeys 1..=8 hold data
    let header = store.get(&key, 0).unwrap();
    let count = u32::from_be_bytes([header[0], header[1], header[2], header[3]]);
    assert_eq!(count, 8);
    for subkey in 1..=8u32 {
        assert!(store.get(&key, subkey).is_some());
    }
    assert!(store.get(&key, 9).is_none());

    let loaded = load_fragment(&store, &record).unwrap();
    assert_eq!(loaded.data, data);
}

#[test]
fn password_protected_trace() {
    let mut store = Store::new();
    let identity = Identity::random();
    let name = Segment::new("diary").unwrap();
    let meta = IndexMetadata::new(identity.shard(), &name);
    let index = post_index(&mut store, &identity, &meta).unwrap();

    let password = "correct horse battery staple";
    let protected = intersect_core::ProtectedSecret::new(
        identity.shard(),
        password,
        index.secret(),
    )
    .unwrap();
    let trace: Trace<IndexRecord> = Trace::new(
        index.record().record_key().clone(),
        intersect_core::Access::Protected(protected),
    );

    let text = trace.to_text();
    let again: Trace<IndexRecord> = Trace::from_str(&text).unwrap();
    assert_eq!(again, trace);

    let protected_again = match again.access() {
        intersect_core::Access::Protected(p) => p.clone(),
        _ => unreachable!(),
    };
    let wrong = protected_again.clone().unlock(identity.shard(), "wrong password xx");
    assert!(matches!(wrong, Err(intersect_core::AccessError::InvalidPassword)));
    let secret = protected_again.unlock(identity.shard(), password).unwrap();
    assert_eq!(&secret, index.secret());

    let opened = IndexRecord::from_record(
        store.open_record(again.key().bytes()).unwrap(),
        &secret,
    );
    let meta_read = read_meta(&store, &opened).unwrap();
    assert_eq!(meta_read.name().as_str(), "diary");
}

#[test]
fn public_root_discovery() {
    let mut store = Store::new();
    let a = Identity::random();
    let b = Identity::random();

    let account = Segment::new("account").unwrap();
    let alice = Segment::new("alice").unwrap();
    let meta = IndexMetadata::new(a.shard(), &account).with_name(&alice);
    let (record, envelope) = RootDomain::create_public(&a, &account, &meta).unwrap();
    store.create_record(record.record());
    let key = record.record().record_key().bytes_cloned();
    store.set(&key, 0, envelope.to_bytes(), &a).unwrap();

    // another identity, knowing only the shard, derives the reference
    // and secret and reads the metadata
    assert_ne!(a.shard(), b.shard());
    let (reference, secret) = RootDomain::open_public(a.shard(), &account);
    let opened_record = store
        .open_record(Record::build_key(reference.shard(), reference.hash()).bytes())
        .unwrap();
    let opened = IndexRecord::from_record(opened_record, &secret);
    let meta_read = read_meta(&store, &opened).unwrap();
    assert_eq!(meta_read.name().as_str(), "alice");
}

#[test]
fn links_add_and_remove() {
    let mut store = Store::new();
    let identity = Identity::random();

    let no_links: Vec<LinkEntry> = Vec::new();
    let (links, writes) = LinksDomain::create(&identity, &no_links).unwrap();
    assert!(writes.is_empty());
    store.create_record(links.record());
    let key = links.record().record_key().bytes_cloned();

    let first_name = Segment::new("first").unwrap();
    let second_name = Segment::new("second").unwrap();
    let third_name = Segment::new("third").unwrap();
    let target = |fill: u8| -> Trace<IndexRecord> {
        intersect_core::UnlockedTrace::new(
            intersect_core::VeilidRecordKey::from_bytes(vec![fill; 32]),
            intersect_core::Secret::from_bytes(vec![fill + 1; 32]),
        )
        .to_trace()
    };

    let at0 = add_link(&mut store, &identity, &links, &LinkEntry::new(&first_name, &target(1)))
        .unwrap();
    let at1 = add_link(&mut store, &identity, &links, &LinkEntry::new(&second_name, &target(3)))
        .unwrap();
    assert_eq!(at0, 0);
    assert_eq!(at1, 1);

    let fetched = read_links(&store, &links).unwrap();
    assert_eq!(fetched.len(), 2);
    assert_eq!(fetched[0].0, 0);
    assert_eq!(fetched[0].1.name().as_str(), "first");
    assert_eq!(fetched[1].0, 1);
    assert_eq!(fetched[1].1.name().as_str(), "second");

    // removing stores a tombstone; the subkey stays used
    let (subkey, tombstone) = links.remove_link(0);
    store.set(&key, subkey, tombstone, &identity).unwrap();
    let after_remove = read_links(&store, &links).unwrap();
    assert_eq!(after_remove.len(), 1);
    assert_eq!(after_remove[0].0, 1);
    assert_eq!(after_remove[0].1.name().as_str(), "second");

    // a further link goes to subkey 2: the tombstoned slot is not reused
    let at2 = add_link(&mut store, &identity, &links, &LinkEntry::new(&third_name, &target(5)))
        .unwrap();
    assert_eq!(at2, 2);
}

#[test]
fn links_exhaustion_gives_no_unused_subkey() {
    // with every subkey written, adding one more link must fail
    let seqs: Vec<Option<u32>> = vec![Some(0); MAX_SUBKEYS as usize];
    let unused = find_unused_subkeys(&seqs);
    assert!(unused.is_empty());
    assert!(matches!(
        pick_unused_subkey(None, &unused),
        Err(NetworkError::NoUnusedSubkey)
    ));
}

#[test]
fn authorization() {
    let mut store = Store::new();
    let a = Identity::random();
    let b = Identity::random();

    let name = Segment::new("mine").unwrap();
    let meta = IndexMetadata::new(a.shard(), &name);
    let index = post_index(&mut store, &a, &meta).unwrap();
    let key = index.record().record_key().bytes_cloned();

    // identity B cannot write to A's record: the table rejects the write
    let renamed = Segment::new("stolen").unwrap();
    let new_meta = read_meta(&store, &index).unwrap().with_name(&renamed);
    let envelope = index.update_meta(&new_meta).unwrap();
    let write = store.set(&key, 0, envelope.to_bytes(), &b);
    assert!(matches!(write, Err(NetworkError::RecordWriteFailed)));

    // A claiming B's shard in fresh metadata is rejected before any
    // record is touched
    let forged = IndexMetadata::new(b.shard(), &name);
    assert!(matches!(
        IndexDomain::create(&a, &forged),
        Err(IntersectError::Unauthorized)
    ));

    // the legitimate owner's update lands
    store.set(&key, 0, envelope.to_bytes(), &a).unwrap();
    let meta_read = read_meta(&store, &index).unwrap();
    assert_eq!(meta_read.name().as_str(), "stolen");
}

/// Opens a record through a transport whose next `transient_failures`
/// attempts fail, retrying as the library's policy allows.
fn open_with_retry(
    store: &Store,
    key: &[u8],
    mut transient_failures: u32,
) -> Result<Record, IntersectError> {
    let mut failed: u32 = 0;
    loop {
        let attempt = if transient_failures > 0 {
            transient_failures -= 1;
            Err(IntersectError::NetworkError(NetworkError::RecordNotFound))
        } else {
            store.open_record(key)
        };
        match attempt {
            Ok(record) => return Ok(record),
            Err(e) => {
                failed += 1;
                if !intersect_core::record::open_should_retry(failed) {
                    return Err(e);
                }
            }
        }
    }
}

#[test]
fn open_retries_exactly_once() {
    let mut store = Store::new();
    let identity = Identity::random();
    let name = Segment::new("flaky").unwrap();
    let meta = IndexMetadata::new(identity.shard(), &name);
    let index = post_index(&mut store, &identity, &meta).unwrap();
    let key = index.record().record_key().bytes_cloned();

    // a clean open and one surviving a single transient failure succeed
    assert!(open_with_retry(&store, &key, 0).is_ok());
    assert!(open_with_retry(&store, &key, 1).is_ok());
    // two failures exhaust the policy: the first is retried, the retry's
    // failure is final
    assert!(open_with_retry(&store, &key, 2).is_err());
}

#[test]
fn empty_fragment_round_trips() {
    let mut store = Store::new();
    let identity = Identity::random();
    let fragment = Fragment::new(Vec::new());
    let record = post_fragment(&mut store, &identity, &fragment);
    let loaded = load_fragment(&store, &record).unwrap();
    assert!(loaded.data.is_empty());
}

#[test]
fn batch_read_propagates_real_errors_and_omits_missing() {
    let reads: Vec<(u32, Result<Option<Encrypted>, NetworkError>)> = vec![
        (0, Ok(None)),
        (1, Err(NetworkError::MissingData)),
        (2, Err(NetworkError::RecordReadFailed)),
    ];
    assert!(matches!(
        collect_read_results(reads),
        Err(NetworkError::RecordReadFailed)
    ));
    let only_missing: Vec<(u32, Result<Option<Encrypted>, NetworkError>)> =
        vec![(0, Ok(None)), (1, Err(NetworkError::MissingData))];
    let merged = collect_read_results(only_missing).unwrap();
    assert_eq!(merged.len(), 1);
    assert_eq!(merged[0].0, 0);
}
