//! Traces: shareable references to a record, carrying its key and an
//! access descriptor, rendered as Base58 text.
//!
//! On the wire a trace is the record kind's magic byte, the 32-byte
//! record key and the access descriptor; decoding under any other record
//! kind fails.  An unlocked trace is the in-process analogue holding the
//! secret directly, and never serializes.

use vstd::prelude::*;

use core::marker::PhantomData;

use crate::access::spec_access_bytes;
use crate::access::spec_parse_access;
use crate::access::Access;
use crate::access::AccessView;
use crate::codec::read_exact;
use crate::codec::read_u8;
use crate::codec::write_bytes;
use crate::codec::write_u8;
use crate::crypto;
use crate::crypto::base58_decode_of;
use crate::crypto::base58_of;
use crate::domains::RecordType;
use crate::intersect::IntersectError;
use crate::keys::Secret;
use crate::keys::VeilidRecordKey;

verus! {

/// Why a trace failed to parse or to open.
#[derive(Debug, Clone)]
pub enum TraceError {
    MissingKey,
    InvalidKey,
    MissingSecret,
    InvalidSecret,
    DeserialisationFailed(String),
}

/// The mathematical shape of a trace; the record kind lives in the type.
#[verifier::ext_equal]
pub struct TraceView {
    pub key: Seq<u8>,
    pub access: AccessView,
}

impl TraceView {
    /// The key is 32 bytes and the access descriptor is well formed.
    pub open spec fn wf(self) -> bool {
        &&& self.key.len() == 32
        &&& self.access.wf()
    }
}

/// The canonical byte layout of a trace under a record-kind tag:
/// `magic(1) || record_key(32) || access`.
pub open spec fn spec_trace_bytes<T: RecordType>(v: TraceView) -> Seq<u8> {
    seq![T::magic()] + v.key + spec_access_bytes(v.access)
}

/// Parses a trace under a record-kind tag at position `i`; any other
/// leading byte fails.
pub open spec fn spec_parse_trace<T: RecordType>(s: Seq<u8>, i: int) -> Option<(TraceView, int)> {
    if 0 <= i && i < s.len() && s[i] == T::magic() && i + 33 <= s.len() {
        match spec_parse_access(s, i + 33) {
            Some(p) => Some((TraceView { key: s.subrange(i + 1, i + 33), access: p.0 }, p.1)),
            None => None,
        }
    } else {
        None
    }
}

/// Parsing reads back exactly what encoding wrote, wherever the encoding
/// stands in a longer byte string.
pub proof fn lemma_parse_trace_of_bytes<T: RecordType>(v: TraceView, s: Seq<u8>, i: int)
    requires
        v.wf(),
        0 <= i,
        i + spec_trace_bytes::<T>(v).len() <= s.len(),
        s.subrange(i, i + spec_trace_bytes::<T>(v).len()) == spec_trace_bytes::<T>(v),
    ensures
        spec_parse_trace::<T>(s, i) == Some((v, i + spec_trace_bytes::<T>(v).len())),
{
    let enc = spec_trace_bytes::<T>(v);
    let acc = spec_access_bytes(v.access);
    let n = acc.len() as int;
    assert(enc.len() == 33 + n);
    assert forall|j: int| 0 <= j < enc.len() implies s[i + j] == enc[j] by {
        assert(s.subrange(i, i + enc.len())[j] == s[i + j]);
    }
    assert((seq![T::magic()] + v.key)[0] == seq![T::magic()][0]);
    assert(enc[0] == (seq![T::magic()] + v.key)[0]);
    assert(s[i + 0] == enc[0]);
    assert forall|k: int| 0 <= k < 32 implies s.subrange(i + 1, i + 33)[k] == v.key[k] by {
        assert((seq![T::magic()] + v.key)[1 + k] == v.key[k]);
        assert(enc[1 + k] == (seq![T::magic()] + v.key)[1 + k]);
        assert(s[i + (1 + k)] == enc[1 + k]);
        assert(s.subrange(i + 1, i + 33)[k] == s[i + 1 + k]);
    }
    assert(s.subrange(i + 1, i + 33) =~= v.key);
    assert forall|k: int| 0 <= k < n implies s.subrange(i + 33, i + 33 + n)[k] == acc[k] by {
        assert((seq![T::magic()] + v.key).len() == 33);
        assert(enc[33 + k] == acc[k]);
        assert(s[i + (33 + k)] == enc[33 + k]);
        assert(s.subrange(i + 33, i + 33 + n)[k] == s[i + 33 + k]);
    }
    assert(s.subrange(i + 33, i + 33 + n) =~= acc);
    crate::access::lemma_parse_access_of_bytes(v.access, s, i + 33);
    assert(spec_parse_trace::<T>(s, i)->Some_0.0 =~= v);
}

/// Law: the trace byte format is bijective under its own record-kind
/// tag — parsing the encoding of any well-formed trace gives that trace
/// back, consuming all of it.
pub proof fn lemma_trace_codec_roundtrip<T: RecordType>(v: TraceView)
    requires
        v.wf(),
    ensures
        spec_parse_trace::<T>(spec_trace_bytes::<T>(v), 0) == Some(
            (v, spec_trace_bytes::<T>(v).len() as int),
        ),
{
    let enc = spec_trace_bytes::<T>(v);
    assert(enc.subrange(0, enc.len() as int) =~= enc);
    lemma_parse_trace_of_bytes::<T>(v, enc, 0);
}

/// Law: a trace encoded for one record kind fails to decode as any other
/// record kind.
pub proof fn lemma_trace_magic_mismatch<T: RecordType, U: RecordType>(v: TraceView)
    requires
        T::magic() != U::magic(),
    ensures
        spec_parse_trace::<U>(spec_trace_bytes::<T>(v), 0) is None,
{
    let enc = spec_trace_bytes::<T>(v);
    if 0 < enc.len() {
        assert((seq![T::magic()] + v.key)[0] == seq![T::magic()][0]);
        assert(enc[0] == (seq![T::magic()] + v.key)[0]);
    }
}

/// A shareable reference to a record of kind `T`: its key and an access
/// descriptor.
#[derive(Debug)]
pub struct Trace<T: RecordType> {
    key: VeilidRecordKey,
    access: Access,
    _domain: PhantomData<T>,
}

impl<T: RecordType> View for Trace<T> {
    type V = TraceView;

    closed spec fn view(&self) -> TraceView {
        TraceView { key: self.key@, access: self.access@ }
    }
}

impl<T: RecordType> Trace<T> {
    #[verifier::type_invariant]
    /// Every trace is well formed.
    pub open spec fn inv(&self) -> bool {
        self@.wf()
    }

    /// Binds a record key and an access descriptor into a trace.
    pub fn new(key: VeilidRecordKey, access: Access) -> (r: Self)
        ensures
            r@ == (TraceView { key: key@, access: access@ }),
    {
        proof {
            use_type_invariant(&key);
        }
        access.check_wf();
        Trace { key, access, _domain: PhantomData }
    }

    /// The record key the trace points at.
    pub fn key(&self) -> (r: &VeilidRecordKey)
        ensures
            r@ == self@.key,
            self@.wf(),
    {
        proof {
            use_type_invariant(self);
        }
        &self.key
    }

    /// The access descriptor.
    pub fn access(&self) -> (r: &Access)
        ensures
            r@ == self@.access,
            self@.wf(),
    {
        proof {
            use_type_invariant(self);
        }
        &self.access
    }

    /// The key and secret needed to open the record, when the trace is
    /// unlocked; a locked or protected trace cannot be opened.
    pub fn try_open_secret(&self) -> (r: Result<Secret, IntersectError>)
        ensures
            match r {
                Ok(secret) => self@.access == AccessView::Unlocked(secret@),
                Err(e) => e is LockedTrace && !(self@.access is Unlocked),
            },
    {
        proof {
            use_type_invariant(self);
        }
        match &self.access {
            Access::Unlocked(secret) => Ok(secret.clone()),
            Access::Locked => Err(IntersectError::LockedTrace),
            Access::Protected(_) => Err(IntersectError::LockedTrace),
        }
    }

    /// Converts to the in-process unlocked form; fails on a locked or
    /// protected trace, whose secret the holder is not authorized to
    /// see.
    pub fn try_unlocked(&self) -> (r: Result<UnlockedTrace<T>, IntersectError>)
        ensures
            match r {
                Ok(u) => self@.access == AccessView::Unlocked(u@.secret) && u@.key == self@.key
                    && u@.wf(),
                Err(e) => e is Unauthorized && !(self@.access is Unlocked),
            },
    {
        proof {
            use_type_invariant(self);
        }
        match &self.access {
            Access::Unlocked(secret) => Ok(UnlockedTrace::new(self.key.clone(), secret.clone())),
            Access::Locked => Err(IntersectError::Unauthorized),
            Access::Protected(_) => Err(IntersectError::Unauthorized),
        }
    }

    /// Encodes the trace into its canonical byte layout.
    pub fn to_bytes(&self) -> (r: Vec<u8>)
        ensures
            r@ == spec_trace_bytes::<T>(self@),
            self@.wf(),
    {
        proof {
            use_type_invariant(self);
        }
        let mut out: Vec<u8> = Vec::new();
        write_u8(&mut out, T::magic_byte());
        write_bytes(&mut out, self.key.bytes());
        self.access.write(&mut out);
        proof {
            assert(out@ =~= spec_trace_bytes::<T>(self@));
        }
        out
    }

    /// Parses a trace of this record kind at a position inside a byte
    /// string.
    pub fn parse_at(bytes: &Vec<u8>, pos: usize) -> (r: Option<(Self, usize)>)
        ensures
            match r {
                Some(p) => {
                    &&& spec_parse_trace::<T>(bytes@, pos as int) == Some((p.0@, p.1 as int))
                    &&& p.0@.wf()
                    &&& pos < p.1 <= bytes@.len()
                },
                None => spec_parse_trace::<T>(bytes@, pos as int) is None,
            },
    {
        let (tag, p1) = match read_u8(bytes, pos) {
            Some(p) => p,
            None => {
                return None;
            },
        };
        if tag != T::magic_byte() {
            return None;
        }
        let (key_bytes, p2) = match read_exact(bytes, p1, 32) {
            Some(p) => p,
            None => {
                return None;
            },
        };
        let (access, p3) = match Access::parse_at(bytes, p2) {
            Some(p) => p,
            None => {
                return None;
            },
        };
        let key = VeilidRecordKey::from_bytes(key_bytes);
        Some((Trace { key, access, _domain: PhantomData }, p3))
    }

    /// Decodes a trace of this record kind from the start of a byte
    /// string.
    pub fn from_bytes(bytes: &Vec<u8>) -> (r: Result<Self, TraceError>)
        ensures
            match r {
                Ok(t) => {
                    &&& spec_parse_trace::<T>(bytes@, 0) is Some
                    &&& spec_parse_trace::<T>(bytes@, 0)->Some_0.0 == t@
                    &&& t@.wf()
                },
                Err(e) => {
                    &&& spec_parse_trace::<T>(bytes@, 0) is None
                    &&& e is DeserialisationFailed
                },
            },
    {
        match Self::parse_at(bytes, 0) {
            Some((t, _)) => Ok(t),
            None => Err(TraceError::DeserialisationFailed("invalid trace".to_owned())),
        }
    }

    /// The Base58 text form of the trace, the form meant for sharing.
    /// It decodes back to the byte form only within the Base58 decoder's
    /// capacity of 132 payload bytes — ample for every trace the library
    /// builds.
    pub fn to_text(&self) -> (r: String)
        ensures
            r@ == base58_of(spec_trace_bytes::<T>(self@)),
            spec_trace_bytes::<T>(self@).len() <= 132 ==> base58_decode_of(r@) == Some(
                spec_trace_bytes::<T>(self@),
            ),
            self@.wf(),
    {
        let bytes = self.to_bytes();
        crypto::base58_encode(&bytes)
    }

    /// Parses the Base58 text form of a trace; text beyond the decoder's
    /// capacity is rejected as undecodable.
    pub fn from_str(trace: &str) -> (r: Result<Self, TraceError>)
        ensures
            match r {
                Ok(t) => {
                    &&& base58_decode_of(trace@) is Some
                    &&& spec_parse_trace::<T>(base58_decode_of(trace@)->Some_0, 0) is Some
                    &&& spec_parse_trace::<T>(base58_decode_of(trace@)->Some_0, 0)->Some_0.0
                        == t@
                    &&& t@.wf()
                },
                Err(_) => !crate::crypto::spec_base58_within_capacity(
                    vstd::utf8::encode_utf8(trace@),
                ) || base58_decode_of(trace@) is None || spec_parse_trace::<T>(
                    base58_decode_of(trace@)->Some_0,
                    0,
                ) is None,
            },
    {
        if !crypto::base58_text_within_capacity(trace) {
            return Err(TraceError::DeserialisationFailed("invalid base58".to_owned()));
        }
        match crypto::base58_decode(trace) {
            Some(bytes) => Self::from_bytes(&bytes),
            None => Err(TraceError::DeserialisationFailed("invalid base58".to_owned())),
        }
    }
}

impl<T: RecordType> Clone for Trace<T> {
    fn clone(&self) -> (r: Self)
        ensures
            r@ == self@,
    {
        proof {
            use_type_invariant(self);
        }
        Trace { key: self.key.clone(), access: self.access.clone(), _domain: PhantomData }
    }
}

impl<T: RecordType> PartialEq for Trace<T> {
    fn eq(&self, other: &Self) -> (r: bool) {
        let r = self.key == other.key && self.access == other.access;
        proof {
            if r {
                assert(self@ =~= other@);
            }
        }
        r
    }
}

impl<T: RecordType> vstd::std_specs::cmp::PartialEqSpecImpl for Trace<T> {
    open spec fn obeys_eq_spec() -> bool {
        true
    }

    open spec fn eq_spec(&self, other: &Self) -> bool {
        self@ == other@
    }
}

/// The mathematical shape of an unlocked trace.
#[verifier::ext_equal]
pub struct UnlockedTraceView {
    pub key: Seq<u8>,
    pub secret: Seq<u8>,
}

impl UnlockedTraceView {
    /// Both halves are 32 bytes.
    pub open spec fn wf(self) -> bool {
        &&& self.key.len() == 32
        &&& self.secret.len() == 32
    }
}

/// The in-process analogue of an unlocked trace: the record key and the
/// secret, held directly.  It is deliberately not serializable.
#[derive(Debug)]
pub struct UnlockedTrace<T: RecordType> {
    key: VeilidRecordKey,
    secret: Secret,
    _domain: PhantomData<T>,
}

impl<T: RecordType> View for UnlockedTrace<T> {
    type V = UnlockedTraceView;

    closed spec fn view(&self) -> UnlockedTraceView {
        UnlockedTraceView { key: self.key@, secret: self.secret@ }
    }
}

impl<T: RecordType> UnlockedTrace<T> {
    #[verifier::type_invariant]
    /// Every unlocked trace is well formed.
    pub open spec fn inv(&self) -> bool {
        self@.wf()
    }

    /// Binds a record key and a secret.
    pub fn new(key: VeilidRecordKey, secret: Secret) -> (r: Self)
        ensures
            r@ == (UnlockedTraceView { key: key@, secret: secret@ }),
    {
        proof {
            use_type_invariant(&key);
            use_type_invariant(&secret);
        }
        UnlockedTrace { key, secret, _domain: PhantomData }
    }

    /// The record key.
    pub fn key(&self) -> (r: &VeilidRecordKey)
        ensures
            r@ == self@.key,
            self@.wf(),
    {
        proof {
            use_type_invariant(self);
        }
        &self.key
    }

    /// The secret.
    pub fn secret(&self) -> (r: &Secret)
        ensures
            r@ == self@.secret,
            self@.wf(),
    {
        proof {
            use_type_invariant(self);
        }
        &self.secret
    }

    /// The serializable trace carrying the same key and secret.
    pub fn to_trace(&self) -> (r: Trace<T>)
        ensures
            r@ == (TraceView { key: self@.key, access: AccessView::Unlocked(self@.secret) }),
    {
        proof {
            use_type_invariant(self);
        }
        Trace::new(self.key.clone(), Access::Unlocked(self.secret.clone()))
    }
}

impl<T: RecordType> Clone for UnlockedTrace<T> {
    fn clone(&self) -> (r: Self)
        ensures
            r@ == self@,
    {
        proof {
            use_type_invariant(self);
        }
        UnlockedTrace { key: self.key.clone(), secret: self.secret.clone(), _domain: PhantomData }
    }
}

impl<T: RecordType> PartialEq for UnlockedTrace<T> {
    fn eq(&self, other: &Self) -> (r: bool) {
        let r = self.key == other.key && self.secret == other.secret;
        proof {
            if r {
                assert(self@ =~= other@);
            }
        }
        r
    }
}

impl<T: RecordType> vstd::std_specs::cmp::PartialEqSpecImpl for UnlockedTrace<T> {
    open spec fn obeys_eq_spec() -> bool {
        true
    }

    open spec fn eq_spec(&self, other: &Self) -> bool {
        self@ == other@
    }
}

} // verus!
