//! The access descriptor carried by every trace: locked, unlocked with
//! the record's secret, or protected by a password.
//!
//! A protected secret is the record secret sealed in an envelope under a
//! key derived from the password and the shard.  Passwords must hold
//! between 15 and 64 grapheme clusters.

use vstd::prelude::*;

use crate::codec::bytes_eq;
use crate::codec::read_exact;
use crate::codec::read_u8;
use crate::codec::write_bytes;
use crate::codec::write_u8;
use crate::crypto;
use crate::crypto::aead_pt;
use crate::crypto::base58_decode_of;
use crate::crypto::base58_of;
use crate::crypto::grapheme_count_of;
use crate::crypto::kdf_of;
use crate::encrypted::spec_encrypted_bytes;
use crate::encrypted::spec_parse_encrypted;
use crate::encrypted::Encrypted;
use crate::encrypted::EncryptedView;
use crate::encrypted::EncryptionError;
use crate::keys::Secret;
use crate::keys::Shard;
use vstd::utf8::encode_utf8;

verus! {

/// Why unlocking or decoding an access descriptor failed.
#[derive(Debug, Clone)]
pub enum AccessError {
    WrongPassword,
    InvalidPassword,
    EncryptionError(EncryptionError),
    DeserialisationFailed(String),
}

/// A password is accepted when it holds 15 to 64 grapheme clusters (and
/// its bytes fit the key-derivation input, which any such password does).
pub open spec fn spec_password_ok(password: Seq<char>) -> bool {
    &&& 15 <= grapheme_count_of(password) <= 64
    &&& encode_utf8(password).len() <= u32::MAX
}

/// The symmetric key a password yields for a given shard.
pub open spec fn spec_password_key(shard: Seq<u8>, password: Seq<char>) -> Seq<u8> {
    kdf_of(encode_utf8(password), shard)
}

/// The record secret sealed under a password-derived key.
#[derive(Debug)]
pub struct ProtectedSecret(Encrypted);

impl View for ProtectedSecret {
    type V = EncryptedView;

    closed spec fn view(&self) -> EncryptedView {
        self.0@
    }
}

impl ProtectedSecret {
    #[verifier::type_invariant]
    /// The envelope inside is well formed.
    pub open spec fn inv(&self) -> bool {
        self@.wf()
    }

    /// Seals a record secret under a password for a shard: succeeds
    /// exactly on passwords within the length rule.
    pub fn new(shard: &Shard, password: &str, secret: &Secret) -> (r: Result<
        ProtectedSecret,
        AccessError,
    >)
        ensures
            r is Ok <==> spec_password_ok(password@),
            match r {
                Ok(p) => {
                    &&& spec_password_ok(password@)
                    &&& aead_pt(p@.ciphertext, p@.nonce, spec_password_key(shard@, password@))
                        == Some(secret@)
                },
                Err(e) => e is InvalidPassword && !spec_password_ok(password@),
            },
    {
        let password_hash = match Self::password_hash(shard, password) {
            Ok(k) => k,
            Err(e) => {
                return Err(e);
            },
        };
        match Encrypted::encrypt(secret.bytes(), &password_hash) {
            Ok(encrypted) => Ok(ProtectedSecret(encrypted)),
            Err(e) => Err(AccessError::EncryptionError(e)),
        }
    }

    /// Opens the sealed secret with a password: rejects passwords outside
    /// the length rule as invalid, and wrong passwords through failed
    /// authentication.
    pub fn unlock(self, shard: &Shard, password: &str) -> (r: Result<Secret, AccessError>)
        ensures
            match r {
                Ok(sec) => {
                    &&& spec_password_ok(password@)
                    &&& aead_pt(self@.ciphertext, self@.nonce, spec_password_key(shard@, password@))
                        == Some(sec@)
                },
                Err(e) => {
                    &&& e is InvalidPassword
                    &&& spec_password_ok(password@) ==> !(aead_pt(
                        self@.ciphertext,
                        self@.nonce,
                        spec_password_key(shard@, password@),
                    ) matches Some(pt) && pt.len() == 32)
                },
            },
    {
        proof {
            use_type_invariant(&self);
        }
        let password_hash = match Self::password_hash(shard, password) {
            Ok(k) => k,
            Err(e) => {
                return Err(e);
            },
        };
        match self.0.decrypt(&password_hash) {
            Ok(secret_bytes) => {
                if secret_bytes.len() == 32 {
                    Ok(Secret::from_bytes(secret_bytes))
                } else {
                    Err(AccessError::InvalidPassword)
                }
            },
            Err(_) => Err(AccessError::InvalidPassword),
        }
    }

    /// Derives the password key for a shard, enforcing the length rule.
    fn password_hash(shard: &Shard, password: &str) -> (r: Result<Secret, AccessError>)
        ensures
            match r {
                Ok(k) => spec_password_ok(password@) && k@ == spec_password_key(shard@, password@),
                Err(e) => !spec_password_ok(password@) && e is InvalidPassword,
            },
    {
        let len = crypto::grapheme_count(password);
        if len < 15 || len > 64 {
            return Err(AccessError::InvalidPassword);
        }
        let password_bytes = vstd::slice::slice_to_vec(password.as_bytes());
        if password_bytes.len() > 0xFFFF_FFFF {
            return Err(AccessError::InvalidPassword);
        }
        let key = crypto::derive_shared_secret(&password_bytes, shard.bytes());
        Ok(Secret::from_bytes(key))
    }
}

impl Clone for ProtectedSecret {
    fn clone(&self) -> (r: Self)
        ensures
            r@ == self@,
    {
        proof {
            use_type_invariant(self);
        }
        ProtectedSecret(self.0.clone())
    }
}

impl PartialEq for ProtectedSecret {
    fn eq(&self, other: &Self) -> (r: bool) {
        self.0 == other.0
    }
}

impl vstd::std_specs::cmp::PartialEqSpecImpl for ProtectedSecret {
    open spec fn obeys_eq_spec() -> bool {
        true
    }

    open spec fn eq_spec(&self, other: &Self) -> bool {
        self@ == other@
    }
}

/// The access state carried by a trace.
#[derive(Debug)]
pub enum Access {
    Locked,
    Unlocked(Secret),
    Protected(ProtectedSecret),
}

/// The mathematical shape of an access descriptor.
#[verifier::ext_equal]
pub enum AccessView {
    Locked,
    Unlocked(Seq<u8>),
    Protected(EncryptedView),
}

impl AccessView {
    /// An unlocked secret is 32 bytes; a protected envelope is well
    /// formed.
    pub open spec fn wf(self) -> bool {
        match self {
            AccessView::Locked => true,
            AccessView::Unlocked(secret) => secret.len() == 32,
            AccessView::Protected(env) => env.wf(),
        }
    }
}

impl View for Access {
    type V = AccessView;

    open spec fn view(&self) -> AccessView {
        match self {
            Access::Locked => AccessView::Locked,
            Access::Unlocked(secret) => AccessView::Unlocked(secret@),
            Access::Protected(protected) => AccessView::Protected(protected@),
        }
    }
}

/// The canonical byte layout of an access descriptor: a 1-byte tag, then
/// the payload the tag announces.
pub open spec fn spec_access_bytes(v: AccessView) -> Seq<u8> {
    match v {
        AccessView::Locked => seq![1u8],
        AccessView::Unlocked(secret) => seq![2u8] + secret,
        AccessView::Protected(env) => seq![3u8] + spec_encrypted_bytes(env),
    }
}

/// Parses an access descriptor at position `i`.
pub open spec fn spec_parse_access(s: Seq<u8>, i: int) -> Option<(AccessView, int)> {
    if 0 <= i && i < s.len() {
        if s[i] == 1 {
            Some((AccessView::Locked, i + 1))
        } else if s[i] == 2 {
            if i + 33 <= s.len() {
                Some((AccessView::Unlocked(s.subrange(i + 1, i + 33)), i + 33))
            } else {
                None
            }
        } else if s[i] == 3 {
            match spec_parse_encrypted(s, i + 1) {
                Some(p) => Some((AccessView::Protected(p.0), p.1)),
                None => None,
            }
        } else {
            None
        }
    } else {
        None
    }
}

/// Parsing reads back exactly what encoding wrote, wherever the encoding
/// stands in a longer byte string.
pub proof fn lemma_parse_access_of_bytes(v: AccessView, s: Seq<u8>, i: int)
    requires
        v.wf(),
        0 <= i,
        i + spec_access_bytes(v).len() <= s.len(),
        s.subrange(i, i + spec_access_bytes(v).len()) == spec_access_bytes(v),
    ensures
        spec_parse_access(s, i) == Some((v, i + spec_access_bytes(v).len())),
{
    let enc = spec_access_bytes(v);
    assert forall|j: int| 0 <= j < enc.len() implies s[i + j] == enc[j] by {
        assert(s.subrange(i, i + enc.len())[j] == s[i + j]);
    }
    match v {
        AccessView::Locked => {
            assert(enc[0] == 1);
            assert(s[i + 0] == enc[0]);
        },
        AccessView::Unlocked(secret) => {
            assert((seq![2u8] + secret)[0] == seq![2u8][0]);
            assert(s[i + 0] == enc[0]);
            assert(s[i] == 2);
            assert forall|k: int| 0 <= k < 32 implies s.subrange(i + 1, i + 33)[k] == secret[k] by {
                assert(enc[1 + k] == secret[k]);
                assert(s[i + (1 + k)] == enc[1 + k]);
                assert(s.subrange(i + 1, i + 33)[k] == s[i + 1 + k]);
            }
            assert(s.subrange(i + 1, i + 33) =~= secret);
        },
        AccessView::Protected(env) => {
            let inner = spec_encrypted_bytes(env);
            assert((seq![3u8] + inner)[0] == seq![3u8][0]);
            assert(s[i + 0] == enc[0]);
            assert(s[i] == 3);
            assert forall|k: int|
                0 <= k < inner.len() implies s.subrange(i + 1, i + 1 + inner.len())[k]
                == inner[k] by {
                assert(enc[1 + k] == inner[k]);
                assert(s[i + (1 + k)] == enc[1 + k]);
                assert(s.subrange(i + 1, i + 1 + inner.len())[k] == s[i + 1 + k]);
            }
            assert(s.subrange(i + 1, i + 1 + inner.len()) =~= inner);
            crate::encrypted::lemma_parse_encrypted_of_bytes(env, s, i + 1);
        },
    }
}

/// Law: the access byte format is bijective — parsing the encoding of
/// any well-formed access descriptor gives that descriptor back,
/// consuming all of it.
pub proof fn lemma_access_codec_roundtrip(v: AccessView)
    requires
        v.wf(),
    ensures
        spec_parse_access(spec_access_bytes(v), 0) == Some(
            (v, spec_access_bytes(v).len() as int),
        ),
{
    let enc = spec_access_bytes(v);
    assert(enc.subrange(0, enc.len() as int) =~= enc);
    lemma_parse_access_of_bytes(v, enc, 0);
}

impl Access {
    /// Every access value in hand is well formed: its payload types
    /// enforce their own shapes.
    pub fn check_wf(&self)
        ensures
            self@.wf(),
    {
        match self {
            Access::Locked => {},
            Access::Unlocked(secret) => {
                proof {
                    use_type_invariant(secret);
                }
            },
            Access::Protected(protected) => {
                proof {
                    use_type_invariant(protected);
                }
            },
        }
    }

    /// Appends the byte form.
    pub fn write(&self, out: &mut Vec<u8>)
        ensures
            final(out)@ == old(out)@ + spec_access_bytes(self@),
            self@.wf(),
    {
        match self {
            Access::Locked => {
                write_u8(out, 1);
            },
            Access::Unlocked(secret) => {
                proof {
                    use_type_invariant(secret);
                }
                write_u8(out, 2);
                write_bytes(out, secret.bytes());
            },
            Access::Protected(protected) => {
                proof {
                    use_type_invariant(protected);
                }
                write_u8(out, 3);
                let env = protected.0.to_bytes();
                write_bytes(out, &env);
            },
        }
        proof {
            assert(out@ =~= old(out)@ + spec_access_bytes(self@));
        }
    }

    /// Encodes the descriptor into its canonical byte layout.
    pub fn to_bytes(&self) -> (r: Vec<u8>)
        ensures
            r@ == spec_access_bytes(self@),
            self@.wf(),
    {
        let mut out: Vec<u8> = Vec::new();
        self.write(&mut out);
        out
    }

    /// Parses an access descriptor at a position inside a byte string.
    pub fn parse_at(bytes: &Vec<u8>, pos: usize) -> (r: Option<(Access, usize)>)
        ensures
            match r {
                Some(p) => {
                    &&& spec_parse_access(bytes@, pos as int) == Some((p.0@, p.1 as int))
                    &&& p.0@.wf()
                    &&& pos < p.1 <= bytes@.len()
                },
                None => spec_parse_access(bytes@, pos as int) is None,
            },
    {
        let (tag, p1) = match read_u8(bytes, pos) {
            Some(p) => p,
            None => {
                return None;
            },
        };
        if tag == 1 {
            Some((Access::Locked, p1))
        } else if tag == 2 {
            match read_exact(bytes, p1, 32) {
                Some((secret_bytes, p2)) => {
                    let secret = Secret::from_bytes(secret_bytes);
                    proof {
                        assert(bytes@.subrange(pos + 1, pos + 33) == secret@);
                    }
                    Some((Access::Unlocked(secret), p2))
                },
                None => None,
            }
        } else if tag == 3 {
            match Encrypted::parse_at(bytes, p1) {
                Some((env, p2)) => Some((Access::Protected(ProtectedSecret(env)), p2)),
                None => None,
            }
        } else {
            None
        }
    }

    /// The Base58 text form of the descriptor.  It decodes back to the
    /// byte form only within the Base58 decoder's capacity of 132
    /// payload bytes.
    pub fn to_text(&self) -> (r: String)
        ensures
            r@ == base58_of(spec_access_bytes(self@)),
            spec_access_bytes(self@).len() <= 132 ==> base58_decode_of(r@) == Some(
                spec_access_bytes(self@),
            ),
            self@.wf(),
    {
        let bytes = self.to_bytes();
        crypto::base58_encode(&bytes)
    }

    /// Parses the Base58 text form of a descriptor; text beyond the
    /// decoder's capacity is rejected as undecodable.
    pub fn from_str(text: &str) -> (r: Result<Access, AccessError>)
        ensures
            match r {
                Ok(a) => {
                    &&& base58_decode_of(text@) is Some
                    &&& spec_parse_access(base58_decode_of(text@)->Some_0, 0) is Some
                    &&& spec_parse_access(base58_decode_of(text@)->Some_0, 0)->Some_0.0 == a@
                    &&& a@.wf()
                },
                Err(_) => !crate::crypto::spec_base58_within_capacity(
                    vstd::utf8::encode_utf8(text@),
                ) || base58_decode_of(text@) is None || spec_parse_access(
                    base58_decode_of(text@)->Some_0,
                    0,
                ) is None,
            },
    {
        if !crypto::base58_text_within_capacity(text) {
            return Err(AccessError::DeserialisationFailed("invalid base58".to_owned()));
        }
        match crypto::base58_decode(text) {
            Some(bytes) => Self::from_bytes(&bytes),
            None => Err(AccessError::DeserialisationFailed("invalid base58".to_owned())),
        }
    }

    /// Decodes a descriptor from the start of a byte string.
    pub fn from_bytes(bytes: &Vec<u8>) -> (r: Result<Access, AccessError>)
        ensures
            match r {
                Ok(a) => {
                    &&& spec_parse_access(bytes@, 0) is Some
                    &&& spec_parse_access(bytes@, 0)->Some_0.0 == a@
                    &&& a@.wf()
                },
                Err(e) => {
                    &&& spec_parse_access(bytes@, 0) is None
                    &&& e is DeserialisationFailed
                },
            },
    {
        match Self::parse_at(bytes, 0) {
            Some((a, _)) => Ok(a),
            None => Err(AccessError::DeserialisationFailed("invalid access".to_owned())),
        }
    }
}

impl Clone for Access {
    fn clone(&self) -> (r: Self)
        ensures
            r@ == self@,
    {
        match self {
            Access::Locked => Access::Locked,
            Access::Unlocked(secret) => Access::Unlocked(secret.clone()),
            Access::Protected(protected) => Access::Protected(protected.clone()),
        }
    }
}

impl PartialEq for Access {
    fn eq(&self, other: &Self) -> (r: bool) {
        match (self, other) {
            (Access::Locked, Access::Locked) => true,
            (Access::Unlocked(a), Access::Unlocked(b)) => bytes_eq(a.bytes(), b.bytes()),
            (Access::Protected(a), Access::Protected(b)) => a == b,
            _ => false,
        }
    }
}

impl vstd::std_specs::cmp::PartialEqSpecImpl for Access {
    open spec fn obeys_eq_spec() -> bool {
        true
    }

    open spec fn eq_spec(&self, other: &Self) -> bool {
        self@ == other@
    }
}

} // verus!
