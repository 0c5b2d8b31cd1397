//! The typed handle over one record of the distributed hash table, and
//! the record-layer logic: key derivation, chunked I/O planning, unused
//! subkey discovery, refresh selection and read aggregation.
//!
//! The network itself stays outside: callers carry write plans to their
//! transport and feed the values and per-subkey sequence numbers they
//! fetched back in.  An unset sequence number is `None` on both the local
//! and the network side of every comparison.

use vstd::prelude::*;

use crate::codec::be32_bytes;
use crate::codec::write_be_u32;
use crate::crypto;
use crate::crypto::hash_of;
use crate::encrypted::Encrypted;
use crate::encrypted::EncryptionError;
use crate::keys::Identity;
use crate::keys::Shard;
use crate::keys::VeilidRecordKey;

verus! {

/// One subkey index of a record.
pub type ValueSubkey = u32;

/// The number of writable subkeys of every record.
pub const MAX_SUBKEYS: u32 = 256;

/// The size of one subkey value: 1 MiB spread over the subkeys.
pub const SUBKEY_SIZE_BYTES: usize = 1024 * 1024 / 256;

/// The largest payload a chunked write can carry: one chunk on each
/// subkey after the count header.
pub const MAX_CHUNKED_BYTES: usize = 255 * 4096;

/// Why a record operation failed.
#[derive(Debug, Clone)]
pub enum NetworkError {
    EncryptionError(EncryptionError),
    RecordNotFound,
    RecordReadFailed,
    RecordWriteFailed,
    RecordInspectFailed,
    MissingData,
    InvalidData,
    NoUnusedSubkey,
}

/// The record key a shard and hash derive: the record schema binds the
/// writer key and the hash tag member, so the key digests both.
pub open spec fn spec_record_key(shard: Seq<u8>, hash: Seq<u8>) -> Seq<u8> {
    hash_of(shard + hash)
}

/// The mathematical shape of a record descriptor.
#[verifier::ext_equal]
pub struct RecordView {
    pub shard: Seq<u8>,
    pub hash: Seq<u8>,
    pub key: Seq<u8>,
}

impl RecordView {
    /// The halves are 32 bytes and the key is the one they derive.
    pub open spec fn wf(self) -> bool {
        &&& self.shard.len() == 32
        &&& self.hash.len() == 32
        &&& self.key == spec_record_key(self.shard, self.hash)
    }
}

/// A local descriptor of one record: its owner shard, its hash tag and
/// the record key they derive.
#[derive(Debug)]
pub struct Record {
    shard: Shard,
    hash: crate::keys::Hash,
    record_key: VeilidRecordKey,
}

impl View for Record {
    type V = RecordView;

    closed spec fn view(&self) -> RecordView {
        RecordView { shard: self.shard@, hash: self.hash@, key: self.record_key@ }
    }
}

impl Record {
    #[verifier::type_invariant]
    /// Every record descriptor is well formed.
    pub open spec fn inv(&self) -> bool {
        self@.wf()
    }

    /// Derives the record key of a `(shard, hash)` pair; pure, so anyone
    /// can derive it without opening the record.
    pub fn build_key(shard: &Shard, hash: &crate::keys::Hash) -> (r: VeilidRecordKey)
        ensures
            r@ == spec_record_key(shard@, hash@),
    {
        let mut preimage: Vec<u8> = Vec::new();
        crate::codec::write_bytes(&mut preimage, shard.bytes());
        crate::codec::write_bytes(&mut preimage, hash.bytes());
        VeilidRecordKey::from_bytes(crypto::hash(&preimage))
    }

    /// The descriptor of a record the identity creates for a hash.
    pub fn create(identity: &Identity, hash: &crate::keys::Hash) -> (r: Record)
        ensures
            r@.shard == identity@.0,
            r@.hash == hash@,
            r@.wf(),
    {
        proof {
            use_type_invariant(identity);
            use_type_invariant(hash);
        }
        let shard = identity.shard().clone();
        let record_key = Self::build_key(&shard, hash);
        Record { shard, hash: hash.clone(), record_key }
    }

    /// The descriptor of an already existing record, as recovered from
    /// the table: the owner shard and the schema's hash tag member.
    pub fn open(shard: &Shard, hash: &crate::keys::Hash) -> (r: Record)
        ensures
            r@.shard == shard@,
            r@.hash == hash@,
            r@.wf(),
    {
        proof {
            use_type_invariant(shard);
            use_type_invariant(hash);
        }
        let shard = shard.clone();
        let hash = hash.clone();
        let record_key = Self::build_key(&shard, &hash);
        Record { shard, hash, record_key }
    }

    /// The record key.
    pub fn record_key(&self) -> (r: &VeilidRecordKey)
        ensures
            r@ == self@.key,
            self@.wf(),
    {
        proof {
            use_type_invariant(self);
        }
        &self.record_key
    }

    /// The owner shard.
    pub fn shard(&self) -> (r: &Shard)
        ensures
            r@ == self@.shard,
            self@.wf(),
    {
        proof {
            use_type_invariant(self);
        }
        &self.shard
    }

    /// The hash tag.
    pub fn hash(&self) -> (r: &crate::keys::Hash)
        ensures
            r@ == self@.hash,
            self@.wf(),
    {
        proof {
            use_type_invariant(self);
        }
        &self.hash
    }
}

impl Clone for Record {
    fn clone(&self) -> (r: Self)
        ensures
            r@ == self@,
    {
        proof {
            use_type_invariant(self);
        }
        Record {
            shard: self.shard.clone(),
            hash: self.hash.clone(),
            record_key: self.record_key.clone(),
        }
    }
}

/// The subkey indexes whose sequence number is unset — never written —
/// in ascending order.
pub open spec fn spec_unused_subkeys(seqs: Seq<Option<u32>>) -> Seq<u32>
    decreases seqs.len(),
{
    if seqs.len() == 0 {
        Seq::empty()
    } else {
        let prefix = spec_unused_subkeys(seqs.drop_last());
        if seqs.last() is None {
            prefix.push((seqs.len() - 1) as u32)
        } else {
            prefix
        }
    }
}

/// Law: a record whose every subkey has been written has no unused
/// subkey left, so a further link can only be refused.
pub proof fn lemma_full_record_has_no_unused_subkey(seqs: Seq<Option<u32>>)
    requires
        forall|i: int| 0 <= i < seqs.len() ==> seqs[i] is Some,
    ensures
        spec_unused_subkeys(seqs).len() == 0,
    decreases seqs.len(),
{
    if seqs.len() > 0 {
        lemma_full_record_has_no_unused_subkey(seqs.drop_last());
    }
}

/// Whether a failed attempt to open a record is followed by another:
/// only the first failure is retried, so an open makes at most two
/// attempts.  No other operation retries.
pub fn open_should_retry(failed_attempts: u32) -> (r: bool)
    ensures
        r == (failed_attempts == 1),
{
    failed_attempts == 1
}

/// Keeps a read value only when it holds data: absent subkeys and
/// zero-length deletion tombstones read the same, as nothing.
pub fn live_value(value: Option<Vec<u8>>) -> (r: Option<Vec<u8>>)
    ensures
        match value {
            Some(v) => r == if v@.len() > 0 {
                Some(v)
            } else {
                None::<Vec<u8>>
            },
            None => r is None,
        },
{
    match value {
        Some(v) => {
            if v.len() > 0 {
                Some(v)
            } else {
                None
            }
        },
        None => None,
    }
}

/// The subkey indexes whose sequence number is set — written at least
/// once — in ascending order.
pub open spec fn spec_used_subkeys(seqs: Seq<Option<u32>>) -> Seq<u32>
    decreases seqs.len(),
{
    if seqs.len() == 0 {
        Seq::empty()
    } else {
        let prefix = spec_used_subkeys(seqs.drop_last());
        if seqs.last() is Some {
            prefix.push((seqs.len() - 1) as u32)
        } else {
            prefix
        }
    }
}

/// Whether a subkey must be fetched on refresh: the network holds a
/// value and it is newer than the local copy, or no local copy exists.
pub open spec fn spec_needs_fetch(remote: Option<u32>, local: Option<u32>) -> bool {
    &&& remote is Some
    &&& (local is None || remote->Some_0 > local->Some_0)
}

/// The subkey indexes to fetch on refresh, in ascending order.
pub open spec fn spec_stale_subkeys(network: Seq<Option<u32>>, local: Seq<Option<u32>>) -> Seq<u32>
    decreases network.len(),
{
    if network.len() == 0 || network.len() != local.len() {
        Seq::empty()
    } else {
        let prefix = spec_stale_subkeys(network.drop_last(), local.drop_last());
        if spec_needs_fetch(network.last(), local.last()) {
            prefix.push((network.len() - 1) as u32)
        } else {
            prefix
        }
    }
}

/// Finds the never-written subkeys in a local inspection report, in
/// ascending order.  Tombstoned subkeys were written and do not appear.
pub fn find_unused_subkeys(local_seqs: &Vec<Option<u32>>) -> (r: Vec<u32>)
    requires
        local_seqs@.len() <= u32::MAX,
    ensures
        r@ == spec_unused_subkeys(local_seqs@),
{
    let mut out: Vec<u32> = Vec::new();
    let n = local_seqs.len();
    for i in 0..n
        invariant
            n == local_seqs@.len(),
            n <= u32::MAX,
            out@ == spec_unused_subkeys(local_seqs@.take(i as int)),
    {
        proof {
            assert(local_seqs@.take(i + 1).drop_last() =~= local_seqs@.take(i as int));
            assert(local_seqs@.take(i + 1).last() == local_seqs@[i as int]);
        }
        match local_seqs[i] {
            Option::None => {
                out.push(i as u32);
            },
            Option::Some(_) => {},
        }
    }
    proof {
        assert(local_seqs@.take(n as int) =~= local_seqs@);
    }
    out
}

/// Finds the written subkeys in a local inspection report, in ascending
/// order.
pub fn find_used_subkeys(local_seqs: &Vec<Option<u32>>) -> (r: Vec<u32>)
    requires
        local_seqs@.len() <= u32::MAX,
    ensures
        r@ == spec_used_subkeys(local_seqs@),
{
    let mut out: Vec<u32> = Vec::new();
    let n = local_seqs.len();
    for i in 0..n
        invariant
            n == local_seqs@.len(),
            n <= u32::MAX,
            out@ == spec_used_subkeys(local_seqs@.take(i as int)),
    {
        proof {
            assert(local_seqs@.take(i + 1).drop_last() =~= local_seqs@.take(i as int));
            assert(local_seqs@.take(i + 1).last() == local_seqs@[i as int]);
        }
        match local_seqs[i] {
            Option::Some(_) => {
                out.push(i as u32);
            },
            Option::None => {},
        }
    }
    proof {
        assert(local_seqs@.take(n as int) =~= local_seqs@);
    }
    out
}

/// Selects the subkeys a refresh must fetch: those where the network
/// holds a newer value than the local cache, or a value the cache lacks.
pub fn stale_subkeys(network_seqs: &Vec<Option<u32>>, local_seqs: &Vec<Option<u32>>) -> (r: Vec<
    u32,
>)
    requires
        network_seqs@.len() == local_seqs@.len(),
        network_seqs@.len() <= u32::MAX,
    ensures
        r@ == spec_stale_subkeys(network_seqs@, local_seqs@),
{
    let mut out: Vec<u32> = Vec::new();
    let n = network_seqs.len();
    for i in 0..n
        invariant
            n == network_seqs@.len(),
            n == local_seqs@.len(),
            n <= u32::MAX,
            out@ == spec_stale_subkeys(network_seqs@.take(i as int), local_seqs@.take(i as int)),
    {
        proof {
            assert(network_seqs@.take(i + 1).drop_last() =~= network_seqs@.take(i as int));
            assert(local_seqs@.take(i + 1).drop_last() =~= local_seqs@.take(i as int));
            assert(network_seqs@.take(i + 1).last() == network_seqs@[i as int]);
            assert(local_seqs@.take(i + 1).last() == local_seqs@[i as int]);
        }
        let fetch = match (&network_seqs[i], &local_seqs[i]) {
            (Option::Some(_), Option::None) => true,
            (Option::Some(remote), Option::Some(local)) => *remote > *local,
            (Option::None, _) => false,
        };
        if fetch {
            out.push(i as u32);
        }
    }
    proof {
        assert(network_seqs@.take(n as int) =~= network_seqs@);
        assert(local_seqs@.take(n as int) =~= local_seqs@);
    }
    out
}

/// Picks the subkey a new link goes to: the lazily found candidate when
/// the authoritative check confirmed it, else the first subkey of the
/// forced refresh; with neither, no unused subkey remains.
pub fn pick_unused_subkey(confirmed: Option<u32>, refreshed: &Vec<u32>) -> (r: Result<
    u32,
    NetworkError,
>)
    ensures
        match r {
            Ok(k) => confirmed == Some(k) || (confirmed is None && refreshed@.len() > 0 && k
                == refreshed@[0]),
            Err(e) => {
                &&& e is NoUnusedSubkey
                &&& confirmed is None
                &&& refreshed@.len() == 0
            },
        },
{
    match confirmed {
        Option::Some(k) => Ok(k),
        Option::None => {
            if refreshed.len() > 0 {
                Ok(refreshed[0])
            } else {
                Err(NetworkError::NoUnusedSubkey)
            }
        },
    }
}

/// How many chunks of one subkey's size a payload needs.
pub open spec fn spec_chunk_count(len: int) -> int {
    (len + 4095) / 4096
}

/// The bytes of one chunk of a payload.
pub open spec fn spec_chunk(data: Seq<u8>, i: int) -> Seq<u8> {
    data.subrange(
        i * 4096,
        if (i + 1) * 4096 <= data.len() {
            (i + 1) * 4096
        } else {
            data.len() as int
        },
    )
}

/// What the chunked write of a payload looks like: the big-endian chunk
/// count on subkey 0, and chunk `i` on subkey `i + 1`.
pub open spec fn spec_is_chunk_writes(data: Seq<u8>, writes: Seq<(u32, Vec<u8>)>) -> bool {
    &&& writes.len() == 1 + spec_chunk_count(data.len() as int)
    &&& writes[0].0 == 0
    &&& writes[0].1@ == be32_bytes(spec_chunk_count(data.len() as int) as u32)
    &&& forall|i: int|
        1 <= i < writes.len() ==> writes[i].0 == i as u32 && writes[i].1@ == spec_chunk(
            data,
            i - 1,
        )
}

/// Plans the chunked write of a payload: the big-endian chunk count goes
/// to subkey 0, and chunk `i` to subkey `i + 1`.
pub fn chunk_writes(data: &Vec<u8>) -> (r: Vec<(u32, Vec<u8>)>)
    requires
        data@.len() <= MAX_CHUNKED_BYTES,
    ensures
        spec_is_chunk_writes(data@, r@),
{
    let len = data.len();
    let count: u32 = ((len + 4095) / 4096) as u32;
    proof {
        vstd::arithmetic::div_mod::lemma_div_is_ordered(len + 4095, 1048575, 4096);
        assert(1048575int / 4096int == 255int) by (nonlinear_arith);
    }
    let mut out: Vec<(u32, Vec<u8>)> = Vec::new();
    let mut header: Vec<u8> = Vec::new();
    write_be_u32(&mut header, count);
    out.push((0, header));
    let mut i: usize = 0;
    while i < count as usize
        invariant
            len == data@.len(),
            len <= MAX_CHUNKED_BYTES,
            count == spec_chunk_count(len as int),
            count <= 255,
            i <= count as usize,
            out@.len() == 1 + i,
            out@[0].0 == 0 && out@[0].1@ == be32_bytes(count),
            forall|j: int|
                1 <= j < out@.len() ==> out@[j].0 == j as u32 && out@[j].1@ == spec_chunk(
                    data@,
                    j - 1,
                ),
        decreases count as usize - i,
    {
        proof {
            vstd::arithmetic::div_mod::lemma_fundamental_div_mod(len as int + 4095, 4096);
            vstd::arithmetic::div_mod::lemma_mod_bound(len as int + 4095, 4096);
            assert(4096 * (count as int) <= len + 4095);
            assert(i as int * 4096 <= (count as int - 1) * 4096);
            assert(i * 4096 < len);
        }
        let start = i * 4096;
        let end = if start + 4096 <= len {
            start + 4096
        } else {
            len
        };
        let (chunk, _) = crate::codec::read_exact(data, start, end - start).unwrap();
        proof {
            assert(chunk@ =~= spec_chunk(data@, i as int));
        }
        out.push(((i + 1) as u32, chunk));
        i = i + 1;
    }
    out
}

/// Joins the chunks read back from subkeys `1..=count`, in ascending
/// subkey order; a missing chunk is fatal.
pub open spec fn spec_concat_chunks(chunks: Seq<Option<Vec<u8>>>) -> Option<Seq<u8>>
    decreases chunks.len(),
{
    if chunks.len() == 0 {
        Some(Seq::empty())
    } else {
        match (spec_concat_chunks(chunks.drop_last()), chunks.last()) {
            (Some(prefix), Some(c)) => Some(prefix + c@),
            _ => None,
        }
    }
}

/// Concatenates the chunk values of a chunked read; any absent chunk is
/// a fatal missing-data error.
pub fn concat_chunks(chunks: &Vec<Option<Vec<u8>>>) -> (r: Result<Vec<u8>, NetworkError>)
    ensures
        match r {
            Ok(v) => spec_concat_chunks(chunks@) == Some(v@),
            Err(e) => e is MissingData && spec_concat_chunks(chunks@) is None,
        },
{
    let mut out: Vec<u8> = Vec::new();
    let n = chunks.len();
    for i in 0..n
        invariant
            n == chunks@.len(),
            spec_concat_chunks(chunks@.take(i as int)) == Some(out@),
    {
        proof {
            assert(chunks@.take(i + 1).drop_last() =~= chunks@.take(i as int));
            assert(chunks@.take(i + 1).last() == chunks@[i as int]);
        }
        match &chunks[i] {
            Option::Some(chunk) => {
                crate::codec::write_bytes(&mut out, chunk);
            },
            Option::None => {
                proof {
                    lemma_concat_chunks_missing(chunks@, i as int);
                }
                return Err(NetworkError::MissingData);
            },
        }
    }
    proof {
        assert(chunks@.take(n as int) =~= chunks@);
    }
    Ok(out)
}

/// A missing chunk anywhere makes the whole concatenation fail.
proof fn lemma_concat_chunks_missing(chunks: Seq<Option<Vec<u8>>>, i: int)
    requires
        0 <= i < chunks.len(),
        chunks[i] is None,
    ensures
        spec_concat_chunks(chunks) is None,
    decreases chunks.len(),
{
    if chunks.len() > 0 {
        if i < chunks.len() - 1 {
            lemma_concat_chunks_missing(chunks.drop_last(), i);
        }
    }
}


/// One prefix of the chunk plan concatenates to the matching prefix of
/// the payload.
proof fn lemma_chunk_prefix_concat(data: Seq<u8>, writes: Seq<(u32, Vec<u8>)>, k: int)
    requires
        data.len() <= MAX_CHUNKED_BYTES,
        spec_is_chunk_writes(data, writes),
        0 <= k <= spec_chunk_count(data.len() as int),
    ensures
        spec_concat_chunks(Seq::new(k as nat, |i: int| Some(writes[i + 1].1))) == Some(
            data.take(
                if k * 4096 <= data.len() {
                    k * 4096
                } else {
                    data.len() as int
                },
            ),
        ),
    decreases k,
{
    let s = Seq::new(k as nat, |i: int| Some(writes[i + 1].1));
    if k == 0 {
        assert(data.take(0) =~= Seq::<u8>::empty());
    } else {
        let count = spec_chunk_count(data.len() as int);
        lemma_chunk_prefix_concat(data, writes, k - 1);
        assert(s.drop_last() =~= Seq::new((k - 1) as nat, |i: int| Some(writes[i + 1].1)));
        vstd::arithmetic::div_mod::lemma_fundamental_div_mod(data.len() as int + 4095, 4096);
        vstd::arithmetic::div_mod::lemma_mod_bound(data.len() as int + 4095, 4096);
        assert((k - 1) * 4096 <= data.len());
        let prev_end = (k - 1) * 4096;
        let end = if k * 4096 <= data.len() {
            k * 4096
        } else {
            data.len() as int
        };
        assert(s.last() == Some(writes[k].1));
        assert(writes[k].1@ == spec_chunk(data, k - 1));
        assert(data.take(prev_end) + data.subrange(prev_end, end) =~= data.take(end));
    }
}

/// Law (chunked round trip): reading back every chunk a chunked write
/// plans, in ascending subkey order, rebuilds exactly the payload that
/// was split.
pub proof fn lemma_chunk_writes_roundtrip(data: Seq<u8>, writes: Seq<(u32, Vec<u8>)>)
    requires
        data.len() <= MAX_CHUNKED_BYTES,
        spec_is_chunk_writes(data, writes),
    ensures
        spec_concat_chunks(Seq::new((writes.len() - 1) as nat, |i: int| Some(writes[i + 1].1)))
            == Some(data),
{
    let count = spec_chunk_count(data.len() as int);
    vstd::arithmetic::div_mod::lemma_fundamental_div_mod(data.len() as int + 4095, 4096);
    vstd::arithmetic::div_mod::lemma_mod_bound(data.len() as int + 4095, 4096);
    lemma_chunk_prefix_concat(data, writes, count);
    assert(Seq::new(count as nat, |i: int| Some(writes[i + 1].1)) =~= Seq::new(
        (writes.len() - 1) as nat,
        |i: int| Some(writes[i + 1].1),
    ));
    assert(data.take(
        if count * 4096 <= data.len() {
            count * 4096
        } else {
            data.len() as int
        },
    ) =~= data);
}

/// Aggregates per-subkey read results, as a full record read hands them
/// back: a missing-data error on one subkey only omits that subkey (it
/// covers the tombstone race), while any other error fails the batch.
pub open spec fn spec_read_all_merge(
    results: Seq<(u32, Result<Option<Encrypted>, NetworkError>)>,
) -> Result<Seq<(u32, Option<Encrypted>)>, NetworkError>
    decreases results.len(),
{
    if results.len() == 0 {
        Ok(Seq::empty())
    } else {
        match spec_read_all_merge(results.drop_last()) {
            Err(e) => Err(e),
            Ok(prefix) => match results.last().1 {
                Ok(v) => Ok(prefix.push((results.last().0, v))),
                Err(e) => if e is MissingData {
                    Ok(prefix)
                } else {
                    Err(e)
                },
            },
        }
    }
}

/// Merges the outcomes of reading every used subkey, keeping ascending
/// subkey order, omitting subkeys whose read reported missing data, and
/// failing on the first other error.
#[verifier::loop_isolation(false)]
pub fn collect_read_results(results: Vec<(u32, Result<Option<Encrypted>, NetworkError>)>) -> (r:
    Result<Vec<(u32, Option<Encrypted>)>, NetworkError>)
    ensures
        match r {
            Ok(v) => spec_read_all_merge(results@) == Ok::<
                Seq<(u32, Option<Encrypted>)>,
                NetworkError,
            >(v@),
            Err(e) => spec_read_all_merge(results@) == Err::<
                Seq<(u32, Option<Encrypted>)>,
                NetworkError,
            >(e),
        },
{
    let ghost all = results@;
    let mut remaining = results;
    let mut out: Vec<(u32, Option<Encrypted>)> = Vec::new();
    let ghost mut i: int = 0;
    while remaining.len() > 0
        invariant
            0 <= i <= all.len(),
            remaining@ == all.subrange(i, all.len() as int),
            spec_read_all_merge(all.take(i)) == Ok::<
                Seq<(u32, Option<Encrypted>)>,
                NetworkError,
            >(out@),
        decreases remaining.len(),
    {
        let (subkey, outcome) = remaining.remove(0);
        proof {
            assert(all.take(i + 1).drop_last() =~= all.take(i));
            assert(all.take(i + 1).last() == all[i]);
            assert(all[i].0 == subkey && all[i].1 == outcome);
            assert(remaining@ =~= all.subrange(i + 1, all.len() as int));
        }
        match outcome {
            Result::Ok(value) => {
                out.push((subkey, value));
            },
            Result::Err(e) => {
                match e {
                    NetworkError::MissingData => {},
                    other => {
                        proof {
                            assert(all[i].1 is Err);
                            assert(all[i].1->Err_0 == other);
                            assert(!(other is MissingData));
                            lemma_read_all_merge_error(all, i);
                        }
                        return Err(other);
                    },
                }
            },
        }
        proof {
            i = i + 1;
        }
    }
    proof {
        assert(all.take(all.len() as int) =~= all);
    }
    Ok(out)
}

/// Once a real error stands at a position with no earlier error, the
/// whole merge fails with it.
proof fn lemma_read_all_merge_error(results: Seq<(u32, Result<Option<Encrypted>, NetworkError>)>, i: int)
    requires
        0 <= i < results.len(),
        spec_read_all_merge(results.take(i)) is Ok,
        results[i].1 is Err,
        !(results[i].1->Err_0 is MissingData),
    ensures
        spec_read_all_merge(results) == Err::<
            Seq<(u32, Option<Encrypted>)>,
            NetworkError,
        >(results[i].1->Err_0),
    decreases results.len(),
{
    if results.len() > 0 {
        if i < results.len() - 1 {
            assert(results.drop_last().take(i) =~= results.take(i));
            assert(results.drop_last()[i] == results[i]);
            lemma_read_all_merge_error(results.drop_last(), i);
        } else {
            assert(results.take(i) =~= results.drop_last());
        }
    }
}

} // verus!
