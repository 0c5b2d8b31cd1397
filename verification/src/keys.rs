//! Fixed-width 256-bit opaque values distinguished by role, and the
//! validated identity keypair.
//!
//! Every key type holds exactly 32 bytes, serializes to those raw bytes
//! and renders as Base58 text.  The types share a representation but stay
//! separate, so a writer key can never stand where a digest or a record
//! identifier is wanted.

use vstd::prelude::*;

use crate::crypto;
use crate::crypto::base58_decode_of;
use crate::crypto::base58_of;
use crate::crypto::pubkey_of;

verus! {

/// Why a key failed to parse.
#[derive(Debug, Clone, Copy)]
pub enum KeyError {
    DeserialisationFailed,
}

/// A keypair whose halves do not belong together.
#[derive(Debug, Clone, Copy)]
pub struct InvalidKeypair;

/// Whether a Base58 text names a key: it stays within the decoder's
/// capacity and decodes to exactly 32 bytes.
pub open spec fn key_text_ok(text: Seq<char>) -> bool {
    &&& crate::crypto::spec_base58_within_capacity(vstd::utf8::encode_utf8(text))
    &&& base58_decode_of(text) is Some
    &&& base58_decode_of(text)->Some_0.len() == 32
}

/// Shared representation of every 32-byte key-like value.
#[derive(Debug)]
struct Key32 {
    bytes: Vec<u8>,
}

impl View for Key32 {
    type V = Seq<u8>;

    closed spec fn view(&self) -> Seq<u8> {
        self.bytes@
    }
}

impl Key32 {
    #[verifier::type_invariant]
    spec fn inv(&self) -> bool {
        self.bytes@.len() == 32
    }

    fn from_bytes(bytes: Vec<u8>) -> (r: Self)
        requires
            bytes@.len() == 32,
        ensures
            r@ == bytes@,
    {
        Key32 { bytes }
    }

    fn bytes(&self) -> (r: &Vec<u8>)
        ensures
            r@ == self@,
            self@.len() == 32,
    {
        proof {
            use_type_invariant(self);
        }
        &self.bytes
    }

    fn bytes_cloned(&self) -> (r: Vec<u8>)
        ensures
            r@ == self@,
            self@.len() == 32,
    {
        proof {
            use_type_invariant(self);
        }
        self.bytes.clone()
    }

    fn to_base58(&self) -> (r: String)
        ensures
            r@ == base58_of(self@),
            base58_decode_of(r@) == Some(self@),
    {
        proof {
            use_type_invariant(self);
        }
        crypto::base58_encode(&self.bytes)
    }

    fn from_str(text: &str) -> (r: Result<Self, KeyError>)
        ensures
            match r {
                Ok(k) => key_text_ok(text@) && base58_decode_of(text@) == Some(k@),
                Err(_) => !key_text_ok(text@),
            },
    {
        if !crypto::base58_text_within_capacity(text) {
            return Err(KeyError::DeserialisationFailed);
        }
        match crypto::base58_decode(text) {
            Some(bytes) => {
                if bytes.len() == 32 {
                    Ok(Key32 { bytes })
                } else {
                    Err(KeyError::DeserialisationFailed)
                }
            },
            None => Err(KeyError::DeserialisationFailed),
        }
    }

    fn eq_key(&self, other: &Self) -> (r: bool)
        ensures
            r == (self@ == other@),
    {
        proof {
            use_type_invariant(self);
            use_type_invariant(other);
        }
        let n = self.bytes.len();
        for i in 0..n
            invariant
                n == 32,
                self@.len() == 32,
                other@.len() == 32,
                forall|j: int| 0 <= j < i ==> self@[j] == other@[j],
        {
            if self.bytes[i] != other.bytes[i] {
                return false;
            }
        }
        proof {
            assert(self@ =~= other@);
        }
        true
    }
}

impl Clone for Key32 {
    fn clone(&self) -> (r: Self)
        ensures
            r@ == self@,
    {
        proof {
            use_type_invariant(self);
        }
        Key32 { bytes: self.bytes.clone() }
    }
}

/// The public half of a writer keypair; doubles as the record owner.
#[derive(Debug)]
pub struct Shard {
    key: Key32,
}

impl View for Shard {
    type V = Seq<u8>;

    closed spec fn view(&self) -> Seq<u8> {
        self.key@
    }
}

impl Shard {
    #[verifier::type_invariant]
    /// Every value holds exactly 32 bytes.
    pub open spec fn inv(&self) -> bool {
        self@.len() == 32
    }

    /// Wraps 32 raw bytes.
    pub fn from_bytes(bytes: Vec<u8>) -> (r: Self)
        requires
            bytes@.len() == 32,
        ensures
            r@ == bytes@,
    {
        Shard { key: Key32::from_bytes(bytes) }
    }

    /// The raw bytes.
    pub fn bytes(&self) -> (r: &Vec<u8>)
        ensures
            r@ == self@,
            self@.len() == 32,
    {
        self.key.bytes()
    }

    /// The raw bytes, as an owned vector.
    pub fn bytes_cloned(&self) -> (r: Vec<u8>)
        ensures
            r@ == self@,
            self@.len() == 32,
    {
        self.key.bytes_cloned()
    }

    /// The Base58 text form.
    pub fn to_base58(&self) -> (r: String)
        ensures
            r@ == base58_of(self@),
            base58_decode_of(r@) == Some(self@),
    {
        self.key.to_base58()
    }

    /// Parses the Base58 text form.
    pub fn from_str(text: &str) -> (r: Result<Self, KeyError>)
        ensures
            match r {
                Ok(k) => key_text_ok(text@) && base58_decode_of(text@) == Some(k@),
                Err(_) => !key_text_ok(text@),
            },
    {
        match Key32::from_str(text) {
            Ok(k) => Ok(Shard { key: k }),
            Err(e) => Err(e),
        }
    }
}

impl Clone for Shard {
    fn clone(&self) -> (r: Self)
        ensures
            r@ == self@,
    {
        proof {
            use_type_invariant(self);
        }
        Shard { key: self.key.clone() }
    }
}

impl PartialEq for Shard {
    fn eq(&self, other: &Self) -> (r: bool) {
        self.key.eq_key(&other.key)
    }
}

impl vstd::std_specs::cmp::PartialEqSpecImpl for Shard {
    open spec fn obeys_eq_spec() -> bool {
        true
    }

    open spec fn eq_spec(&self, other: &Self) -> bool {
        self@ == other@
    }
}

/// The private half of a writer keypair; never persisted in traces.
#[derive(Debug)]
pub struct PrivateKey {
    key: Key32,
}

impl View for PrivateKey {
    type V = Seq<u8>;

    closed spec fn view(&self) -> Seq<u8> {
        self.key@
    }
}

impl PrivateKey {
    #[verifier::type_invariant]
    /// Every value holds exactly 32 bytes.
    pub open spec fn inv(&self) -> bool {
        self@.len() == 32
    }

    /// Wraps 32 raw bytes.
    pub fn from_bytes(bytes: Vec<u8>) -> (r: Self)
        requires
            bytes@.len() == 32,
        ensures
            r@ == bytes@,
    {
        PrivateKey { key: Key32::from_bytes(bytes) }
    }

    /// The raw bytes.
    pub fn bytes(&self) -> (r: &Vec<u8>)
        ensures
            r@ == self@,
            self@.len() == 32,
    {
        self.key.bytes()
    }

    /// The raw bytes, as an owned vector.
    pub fn bytes_cloned(&self) -> (r: Vec<u8>)
        ensures
            r@ == self@,
            self@.len() == 32,
    {
        self.key.bytes_cloned()
    }

    /// The Base58 text form.
    pub fn to_base58(&self) -> (r: String)
        ensures
            r@ == base58_of(self@),
            base58_decode_of(r@) == Some(self@),
    {
        self.key.to_base58()
    }

    /// Parses the Base58 text form.
    pub fn from_str(text: &str) -> (r: Result<Self, KeyError>)
        ensures
            match r {
                Ok(k) => key_text_ok(text@) && base58_decode_of(text@) == Some(k@),
                Err(_) => !key_text_ok(text@),
            },
    {
        match Key32::from_str(text) {
            Ok(k) => Ok(PrivateKey { key: k }),
            Err(e) => Err(e),
        }
    }
}

impl Clone for PrivateKey {
    fn clone(&self) -> (r: Self)
        ensures
            r@ == self@,
    {
        proof {
            use_type_invariant(self);
        }
        PrivateKey { key: self.key.clone() }
    }
}

impl PartialEq for PrivateKey {
    fn eq(&self, other: &Self) -> (r: bool) {
        self.key.eq_key(&other.key)
    }
}

impl vstd::std_specs::cmp::PartialEqSpecImpl for PrivateKey {
    open spec fn obeys_eq_spec() -> bool {
        true
    }

    open spec fn eq_spec(&self, other: &Self) -> bool {
        self@ == other@
    }
}

/// A 32-byte symmetric key for the AEAD envelope.
#[derive(Debug)]
pub struct Secret {
    key: Key32,
}

impl View for Secret {
    type V = Seq<u8>;

    closed spec fn view(&self) -> Seq<u8> {
        self.key@
    }
}

impl Secret {
    #[verifier::type_invariant]
    /// Every value holds exactly 32 bytes.
    pub open spec fn inv(&self) -> bool {
        self@.len() == 32
    }

    /// Wraps 32 raw bytes.
    pub fn from_bytes(bytes: Vec<u8>) -> (r: Self)
        requires
            bytes@.len() == 32,
        ensures
            r@ == bytes@,
    {
        Secret { key: Key32::from_bytes(bytes) }
    }

    /// A fresh random symmetric key.
    pub fn random() -> Secret {
        Secret { key: Key32::from_bytes(crypto::random_bytes_raw(32)) }
    }

    /// The raw bytes.
    pub fn bytes(&self) -> (r: &Vec<u8>)
        ensures
            r@ == self@,
            self@.len() == 32,
    {
        self.key.bytes()
    }

    /// The raw bytes, as an owned vector.
    pub fn bytes_cloned(&self) -> (r: Vec<u8>)
        ensures
            r@ == self@,
            self@.len() == 32,
    {
        self.key.bytes_cloned()
    }

    /// The Base58 text form.
    pub fn to_base58(&self) -> (r: String)
        ensures
            r@ == base58_of(self@),
            base58_decode_of(r@) == Some(self@),
    {
        self.key.to_base58()
    }

    /// Parses the Base58 text form.
    pub fn from_str(text: &str) -> (r: Result<Self, KeyError>)
        ensures
            match r {
                Ok(k) => key_text_ok(text@) && base58_decode_of(text@) == Some(k@),
                Err(_) => !key_text_ok(text@),
            },
    {
        match Key32::from_str(text) {
            Ok(k) => Ok(Secret { key: k }),
            Err(e) => Err(e),
        }
    }
}

impl Clone for Secret {
    fn clone(&self) -> (r: Self)
        ensures
            r@ == self@,
    {
        proof {
            use_type_invariant(self);
        }
        Secret { key: self.key.clone() }
    }
}

impl PartialEq for Secret {
    fn eq(&self, other: &Self) -> (r: bool) {
        self.key.eq_key(&other.key)
    }
}

impl vstd::std_specs::cmp::PartialEqSpecImpl for Secret {
    open spec fn obeys_eq_spec() -> bool {
        true
    }

    open spec fn eq_spec(&self, other: &Self) -> bool {
        self@ == other@
    }
}

/// A 256-bit cryptographic digest.
#[derive(Debug)]
pub struct Hash {
    key: Key32,
}

impl View for Hash {
    type V = Seq<u8>;

    closed spec fn view(&self) -> Seq<u8> {
        self.key@
    }
}

impl Hash {
    #[verifier::type_invariant]
    /// Every value holds exactly 32 bytes.
    pub open spec fn inv(&self) -> bool {
        self@.len() == 32
    }

    /// Wraps 32 raw bytes.
    pub fn from_bytes(bytes: Vec<u8>) -> (r: Self)
        requires
            bytes@.len() == 32,
        ensures
            r@ == bytes@,
    {
        Hash { key: Key32::from_bytes(bytes) }
    }

    /// The raw bytes.
    pub fn bytes(&self) -> (r: &Vec<u8>)
        ensures
            r@ == self@,
            self@.len() == 32,
    {
        self.key.bytes()
    }

    /// The raw bytes, as an owned vector.
    pub fn bytes_cloned(&self) -> (r: Vec<u8>)
        ensures
            r@ == self@,
            self@.len() == 32,
    {
        self.key.bytes_cloned()
    }

    /// The Base58 text form.
    pub fn to_base58(&self) -> (r: String)
        ensures
            r@ == base58_of(self@),
            base58_decode_of(r@) == Some(self@),
    {
        self.key.to_base58()
    }

    /// Parses the Base58 text form.
    pub fn from_str(text: &str) -> (r: Result<Self, KeyError>)
        ensures
            match r {
                Ok(k) => key_text_ok(text@) && base58_decode_of(text@) == Some(k@),
                Err(_) => !key_text_ok(text@),
            },
    {
        match Key32::from_str(text) {
            Ok(k) => Ok(Hash { key: k }),
            Err(e) => Err(e),
        }
    }
}

impl Clone for Hash {
    fn clone(&self) -> (r: Self)
        ensures
            r@ == self@,
    {
        proof {
            use_type_invariant(self);
        }
        Hash { key: self.key.clone() }
    }
}

impl PartialEq for Hash {
    fn eq(&self, other: &Self) -> (r: bool) {
        self.key.eq_key(&other.key)
    }
}

impl vstd::std_specs::cmp::PartialEqSpecImpl for Hash {
    open spec fn obeys_eq_spec() -> bool {
        true
    }

    open spec fn eq_spec(&self, other: &Self) -> bool {
        self@ == other@
    }
}

/// The 32-byte identifier of a record in the distributed hash table.
#[derive(Debug)]
pub struct VeilidRecordKey {
    key: Key32,
}

impl View for VeilidRecordKey {
    type V = Seq<u8>;

    closed spec fn view(&self) -> Seq<u8> {
        self.key@
    }
}

impl VeilidRecordKey {
    #[verifier::type_invariant]
    /// Every value holds exactly 32 bytes.
    pub open spec fn inv(&self) -> bool {
        self@.len() == 32
    }

    /// Wraps 32 raw bytes.
    pub fn from_bytes(bytes: Vec<u8>) -> (r: Self)
        requires
            bytes@.len() == 32,
        ensures
            r@ == bytes@,
    {
        VeilidRecordKey { key: Key32::from_bytes(bytes) }
    }

    /// The raw bytes.
    pub fn bytes(&self) -> (r: &Vec<u8>)
        ensures
            r@ == self@,
            self@.len() == 32,
    {
        self.key.bytes()
    }

    /// The raw bytes, as an owned vector.
    pub fn bytes_cloned(&self) -> (r: Vec<u8>)
        ensures
            r@ == self@,
            self@.len() == 32,
    {
        self.key.bytes_cloned()
    }

    /// The Base58 text form.
    pub fn to_base58(&self) -> (r: String)
        ensures
            r@ == base58_of(self@),
            base58_decode_of(r@) == Some(self@),
    {
        self.key.to_base58()
    }

    /// Parses the Base58 text form.
    pub fn from_str(text: &str) -> (r: Result<Self, KeyError>)
        ensures
            match r {
                Ok(k) => key_text_ok(text@) && base58_decode_of(text@) == Some(k@),
                Err(_) => !key_text_ok(text@),
            },
    {
        match Key32::from_str(text) {
            Ok(k) => Ok(VeilidRecordKey { key: k }),
            Err(e) => Err(e),
        }
    }
}

impl Clone for VeilidRecordKey {
    fn clone(&self) -> (r: Self)
        ensures
            r@ == self@,
    {
        proof {
            use_type_invariant(self);
        }
        VeilidRecordKey { key: self.key.clone() }
    }
}

impl PartialEq for VeilidRecordKey {
    fn eq(&self, other: &Self) -> (r: bool) {
        self.key.eq_key(&other.key)
    }
}

impl vstd::std_specs::cmp::PartialEqSpecImpl for VeilidRecordKey {
    open spec fn obeys_eq_spec() -> bool {
        true
    }

    open spec fn eq_spec(&self, other: &Self) -> bool {
        self@ == other@
    }
}

/// A validated `(Shard, PrivateKey)` pair: the shard is the public half
/// belonging to the private key.
#[derive(Debug)]
pub struct Identity {
    shard: Shard,
    private_key: PrivateKey,
}

impl View for Identity {
    type V = (Seq<u8>, Seq<u8>);

    closed spec fn view(&self) -> (Seq<u8>, Seq<u8>) {
        (self.shard@, self.private_key@)
    }
}

impl Identity {
    #[verifier::type_invariant]
    /// The shard is the public half of the private key.
    pub open spec fn inv(&self) -> bool {
        &&& self@.0 == pubkey_of(self@.1)
        &&& self@.0.len() == 32
        &&& self@.1.len() == 32
    }

    /// Accepts exactly the pairs whose shard is the public half of the
    /// private key.
    pub fn new(shard: Shard, private_key: PrivateKey) -> (r: Result<Identity, InvalidKeypair>)
        ensures
            match r {
                Ok(id) => id@ == (shard@, private_key@) && shard@ == pubkey_of(private_key@),
                Err(_) => shard@ != pubkey_of(private_key@),
            },
    {
        let expected = Shard::from_bytes(crypto::public_key_of_private(private_key.bytes()));
        if shard == expected {
            Ok(Identity { shard, private_key })
        } else {
            Err(InvalidKeypair)
        }
    }

    /// A fresh random identity.
    pub fn random() -> (r: Identity)
        ensures
            r@.0 == pubkey_of(r@.1),
    {
        let (public, private) = crypto::generate_keypair_raw();
        Identity { shard: Shard::from_bytes(public), private_key: PrivateKey::from_bytes(private) }
    }

    /// The public half.
    pub fn shard(&self) -> (r: &Shard)
        ensures
            r@ == self@.0,
            self@.0.len() == 32,
    {
        proof {
            use_type_invariant(self);
            use_type_invariant(&self.shard.key);
        }
        &self.shard
    }

    /// The private half.
    pub fn private_key(&self) -> (r: &PrivateKey)
        ensures
            r@ == self@.1,
            self@.1.len() == 32,
    {
        proof {
            use_type_invariant(self);
            use_type_invariant(&self.private_key.key);
        }
        &self.private_key
    }
}

impl Clone for Identity {
    fn clone(&self) -> (r: Self)
        ensures
            r@ == self@,
    {
        proof {
            use_type_invariant(self);
        }
        Identity { shard: self.shard.clone(), private_key: self.private_key.clone() }
    }
}

impl PartialEq for Identity {
    fn eq(&self, other: &Self) -> (r: bool) {
        self.shard.key.eq_key(&other.shard.key) && self.private_key.key.eq_key(
            &other.private_key.key,
        )
    }
}

impl vstd::std_specs::cmp::PartialEqSpecImpl for Identity {
    open spec fn obeys_eq_spec() -> bool {
        true
    }

    open spec fn eq_spec(&self, other: &Self) -> bool {
        self@ == other@
    }
}

} // verus!
