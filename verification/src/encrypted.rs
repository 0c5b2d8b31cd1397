//! The authenticated-encryption envelope: a magic prefix, a 24-byte
//! nonce, a length-prefixed ciphertext.
//!
//! Every persisted payload except the chunk-count header travels inside
//! one of these envelopes; clear text is never put on the wire.

use vstd::prelude::*;

use crate::codec::be32_bytes;
use crate::codec::be32_value;
use crate::codec::bytes_eq;
use crate::codec::lemma_be32_value_of_bytes;
use crate::codec::read_be_u32;
use crate::codec::read_exact;
use crate::codec::write_be_u32;
use crate::codec::write_bytes;
use crate::crypto;
use crate::crypto::aead_ct;
use crate::crypto::base58_decode_of;
use crate::crypto::base58_of;
use crate::crypto::aead_pt;
use crate::keys::Secret;

verus! {

/// Why encryption, decryption or envelope decoding failed.
#[derive(Debug, Clone)]
pub enum EncryptionError {
    EncryptionFailed,
    DecryptionFailed,
    DeserialisationFailed(String),
}

/// The literal prefix `/??/` that opens every envelope.
pub open spec fn envelope_magic() -> Seq<u8> {
    seq![47u8, 63u8, 63u8, 47u8]
}

/// The mathematical shape of an envelope.
#[verifier::ext_equal]
pub struct EncryptedView {
    pub nonce: Seq<u8>,
    pub ciphertext: Seq<u8>,
}

impl EncryptedView {
    /// The nonce is 24 bytes and the ciphertext fits its length prefix.
    pub open spec fn wf(self) -> bool {
        &&& self.nonce.len() == 24
        &&& self.ciphertext.len() <= u32::MAX
    }
}

/// The canonical byte layout of an envelope:
/// `/??/ || nonce(24) || length(u32 BE) || ciphertext`.
pub open spec fn spec_encrypted_bytes(v: EncryptedView) -> Seq<u8> {
    envelope_magic() + v.nonce + be32_bytes(v.ciphertext.len() as u32) + v.ciphertext
}

/// Parses an envelope at position `i`; gives the envelope and the
/// position after it.
pub open spec fn spec_parse_encrypted(s: Seq<u8>, i: int) -> Option<(EncryptedView, int)> {
    if 0 <= i && i + 32 <= s.len() && s.subrange(i, i + 4) == envelope_magic() {
        let n = be32_value(s[i + 28], s[i + 29], s[i + 30], s[i + 31]) as int;
        if i + 32 + n <= s.len() {
            Some(
                (
                    EncryptedView {
                        nonce: s.subrange(i + 4, i + 28),
                        ciphertext: s.subrange(i + 32, i + 32 + n),
                    },
                    i + 32 + n,
                ),
            )
        } else {
            None
        }
    } else {
        None
    }
}

/// Parsing reads back exactly what encoding wrote, wherever the encoding
/// stands in a longer byte string.
pub proof fn lemma_parse_encrypted_of_bytes(v: EncryptedView, s: Seq<u8>, i: int)
    requires
        v.wf(),
        0 <= i,
        i + spec_encrypted_bytes(v).len() <= s.len(),
        s.subrange(i, i + spec_encrypted_bytes(v).len()) == spec_encrypted_bytes(v),
    ensures
        spec_parse_encrypted(s, i) == Some((v, i + spec_encrypted_bytes(v).len())),
{
    let enc = spec_encrypted_bytes(v);
    let m = envelope_magic();
    let lenb = be32_bytes(v.ciphertext.len() as u32);
    let n = v.ciphertext.len() as int;
    assert(enc.len() == 32 + n);
    assert forall|j: int| 0 <= j < enc.len() implies s[i + j] == enc[j] by {
        assert(s.subrange(i, i + enc.len())[j] == s[i + j]);
    }
    assert forall|k: int| 0 <= k < 4 implies s.subrange(i, i + 4)[k] == m[k] by {
        assert((m + v.nonce)[k] == m[k]);
        assert((m + v.nonce + lenb)[k] == (m + v.nonce)[k]);
        assert(enc[k] == (m + v.nonce + lenb)[k]);
        assert(s[i + k] == enc[k]);
        assert(s.subrange(i, i + 4)[k] == s[i + k]);
    }
    assert(s.subrange(i, i + 4) =~= m);
    lemma_be32_value_of_bytes(v.ciphertext.len() as u32);
    assert forall|k: int| 0 <= k < 4 implies s[i + 28 + k] == lenb[k] by {
        assert((m + v.nonce + lenb)[28 + k] == lenb[k]);
        assert(enc[28 + k] == (m + v.nonce + lenb)[28 + k]);
        assert(s[i + (28 + k)] == enc[28 + k]);
    }
    assert(s[i + 28] == lenb[0] && s[i + 29] == lenb[1] && s[i + 30] == lenb[2] && s[i + 31]
        == lenb[3]);
    assert(be32_value(s[i + 28], s[i + 29], s[i + 30], s[i + 31]) as int == n);
    assert forall|k: int| 0 <= k < 24 implies s.subrange(i + 4, i + 28)[k] == v.nonce[k] by {
        assert((m + v.nonce)[4 + k] == v.nonce[k]);
        assert((m + v.nonce + lenb)[4 + k] == (m + v.nonce)[4 + k]);
        assert(enc[4 + k] == (m + v.nonce + lenb)[4 + k]);
        assert(s[i + (4 + k)] == enc[4 + k]);
        assert(s.subrange(i + 4, i + 28)[k] == s[i + 4 + k]);
    }
    assert(s.subrange(i + 4, i + 28) =~= v.nonce);
    assert forall|k: int| 0 <= k < n implies s.subrange(i + 32, i + 32 + n)[k] == v.ciphertext[k]
        by {
        assert((m + v.nonce + lenb).len() == 32);
        assert(enc[32 + k] == v.ciphertext[k]);
        assert(s[i + (32 + k)] == enc[32 + k]);
        assert(s.subrange(i + 32, i + 32 + n)[k] == s[i + 32 + k]);
    }
    assert(s.subrange(i + 32, i + 32 + n) =~= v.ciphertext);
    assert(spec_parse_encrypted(s, i)->Some_0.0 =~= v);
}

/// Law: the envelope byte format is bijective — parsing the encoding of
/// any well-formed envelope gives that envelope back, consuming all of
/// it.
pub proof fn lemma_encrypted_codec_roundtrip(v: EncryptedView)
    requires
        v.wf(),
    ensures
        spec_parse_encrypted(spec_encrypted_bytes(v), 0) == Some(
            (v, spec_encrypted_bytes(v).len() as int),
        ),
{
    let enc = spec_encrypted_bytes(v);
    assert(enc.subrange(0, enc.len() as int) =~= enc);
    lemma_parse_encrypted_of_bytes(v, enc, 0);
}

/// An AEAD ciphertext with its nonce, self-describing on the wire.
#[derive(Debug)]
pub struct Encrypted {
    nonce: Vec<u8>,
    ciphertext: Vec<u8>,
}

impl View for Encrypted {
    type V = EncryptedView;

    closed spec fn view(&self) -> EncryptedView {
        EncryptedView { nonce: self.nonce@, ciphertext: self.ciphertext@ }
    }
}

impl Encrypted {
    #[verifier::type_invariant]
    /// Every envelope is well formed.
    pub open spec fn inv(&self) -> bool {
        self@.wf()
    }

    /// Encrypts a byte string under the given secret with a fresh random
    /// nonce.  Within the length the envelope's prefix can frame, the
    /// cipher cannot refuse, so encryption always succeeds.
    pub fn encrypt(data: &Vec<u8>, shared_secret: &Secret) -> (r: Result<Encrypted, EncryptionError>)
        requires
            data@.len() + 16 <= u32::MAX,
        ensures
            r is Ok,
            match r {
                Ok(e) => {
                    &&& e@.wf()
                    &&& e@.ciphertext == aead_ct(data@, e@.nonce, shared_secret@)
                    &&& e@.ciphertext.len() == data@.len() + 16
                    &&& aead_pt(e@.ciphertext, e@.nonce, shared_secret@) == Some(data@)
                },
                Err(e) => e is EncryptionFailed,
            },
    {
        let nonce = crypto::random_bytes_raw(24);
        match crypto::aead_encrypt(data, &nonce, shared_secret.bytes()) {
            Some(ciphertext) => Ok(Encrypted { nonce, ciphertext }),
            None => Err(EncryptionError::EncryptionFailed),
        }
    }

    /// Encrypts under a fresh random secret and hands the secret back;
    /// like `encrypt`, it always succeeds.
    pub fn encrypt_with_random(data: &Vec<u8>) -> (r: Result<
        (Encrypted, Secret),
        EncryptionError,
    >)
        requires
            data@.len() + 16 <= u32::MAX,
        ensures
            r is Ok,
            match r {
                Ok(p) => {
                    &&& p.0@.wf()
                    &&& p.0@.ciphertext == aead_ct(data@, p.0@.nonce, p.1@)
                    &&& p.0@.ciphertext.len() == data@.len() + 16
                    &&& aead_pt(p.0@.ciphertext, p.0@.nonce, p.1@) == Some(data@)
                },
                Err(e) => e is EncryptionFailed,
            },
    {
        let key = Secret::random();
        match Self::encrypt(data, &key) {
            Ok(encrypted) => Ok((encrypted, key)),
            Err(e) => Err(e),
        }
    }

    /// Decrypts the ciphertext under the given secret: succeeds exactly
    /// when the ciphertext authenticates under that secret and this
    /// nonce, and then returns the unique plaintext.
    pub fn decrypt(&self, shared_secret: &Secret) -> (r: Result<Vec<u8>, EncryptionError>)
        ensures
            match r {
                Ok(pt) => aead_pt(self@.ciphertext, self@.nonce, shared_secret@) == Some(pt@),
                Err(e) => {
                    &&& e is DecryptionFailed
                    &&& aead_pt(self@.ciphertext, self@.nonce, shared_secret@) is None
                },
            },
    {
        proof {
            use_type_invariant(self);
        }
        match crypto::aead_decrypt(&self.ciphertext, &self.nonce, shared_secret.bytes()) {
            Some(pt) => Ok(pt),
            None => Err(EncryptionError::DecryptionFailed),
        }
    }

    /// The nonce this envelope was sealed with.
    pub fn nonce(&self) -> (r: &Vec<u8>)
        ensures
            r@ == self@.nonce,
            self@.wf(),
    {
        proof {
            use_type_invariant(self);
        }
        &self.nonce
    }

    /// The raw ciphertext, authentication tag included.
    pub fn ciphertext(&self) -> (r: &Vec<u8>)
        ensures
            r@ == self@.ciphertext,
            self@.wf(),
    {
        proof {
            use_type_invariant(self);
        }
        &self.ciphertext
    }

    /// Encodes the envelope into its canonical byte layout.
    pub fn to_bytes(&self) -> (r: Vec<u8>)
        ensures
            r@ == spec_encrypted_bytes(self@),
            self@.wf(),
    {
        proof {
            use_type_invariant(self);
        }
        let mut out: Vec<u8> = Vec::new();
        out.push(47);
        out.push(63);
        out.push(63);
        out.push(47);
        proof {
            assert(out@ =~= envelope_magic());
        }
        write_bytes(&mut out, &self.nonce);
        write_be_u32(&mut out, self.ciphertext.len() as u32);
        write_bytes(&mut out, &self.ciphertext);
        proof {
            assert(out@ =~= spec_encrypted_bytes(self@));
        }
        out
    }

    /// The Base58 text form of the envelope.  It decodes back to the
    /// byte form only within the Base58 decoder's capacity of 132
    /// payload bytes.
    pub fn to_text(&self) -> (r: String)
        ensures
            r@ == base58_of(spec_encrypted_bytes(self@)),
            spec_encrypted_bytes(self@).len() <= 132 ==> base58_decode_of(r@) == Some(
                spec_encrypted_bytes(self@),
            ),
            self@.wf(),
    {
        let bytes = self.to_bytes();
        crypto::base58_encode(&bytes)
    }

    /// Parses an envelope at a position inside a byte string.
    pub fn parse_at(bytes: &Vec<u8>, pos: usize) -> (r: Option<(Encrypted, usize)>)
        ensures
            match r {
                Some(p) => {
                    &&& spec_parse_encrypted(bytes@, pos as int) == Some((p.0@, p.1 as int))
                    &&& p.0@.wf()
                    &&& pos < p.1 <= bytes@.len()
                },
                None => spec_parse_encrypted(bytes@, pos as int) is None,
            },
    {
        let ghost s = bytes@;
        let ghost i = pos as int;
        match read_exact(bytes, pos, 4) {
            Some((magic, p1)) => {
                if magic[0] == 47 && magic[1] == 63 && magic[2] == 63 && magic[3] == 47 {
                    proof {
                        assert(s.subrange(i, i + 4) =~= envelope_magic());
                    }
                    match read_exact(bytes, p1, 24) {
                        Some((nonce, p2)) => {
                            match read_be_u32(bytes, p2) {
                                Some((len, p3)) => {
                                    match read_exact(bytes, p3, len as usize) {
                                        Some((ciphertext, p4)) => {
                                            let e = Encrypted { nonce, ciphertext };
                                            Some((e, p4))
                                        },
                                        None => None,
                                    }
                                },
                                None => None,
                            }
                        },
                        None => None,
                    }
                } else {
                    proof {
                        if s.subrange(i, i + 4) == envelope_magic() {
                            assert(s.subrange(i, i + 4)[0] == 47);
                            assert(s.subrange(i, i + 4)[1] == 63);
                            assert(s.subrange(i, i + 4)[2] == 63);
                            assert(s.subrange(i, i + 4)[3] == 47);
                            assert(magic@[0] == 47 && magic@[1] == 63 && magic@[2] == 63
                                && magic@[3] == 47);
                        }
                    }
                    None
                }
            },
            None => None,
        }
    }

    /// Decodes an envelope from the start of a byte string; bytes after
    /// the envelope are ignored, as the length prefix delimits it.
    pub fn from_bytes(bytes: &Vec<u8>) -> (r: Result<Encrypted, EncryptionError>)
        ensures
            match r {
                Ok(e) => {
                    &&& spec_parse_encrypted(bytes@, 0) is Some
                    &&& spec_parse_encrypted(bytes@, 0)->Some_0.0 == e@
                    &&& e@.wf()
                },
                Err(e) => {
                    &&& spec_parse_encrypted(bytes@, 0) is None
                    &&& e is DeserialisationFailed
                },
            },
    {
        match Self::parse_at(bytes, 0) {
            Some((e, _)) => Ok(e),
            None => Err(EncryptionError::DeserialisationFailed("invalid envelope".to_owned())),
        }
    }
}

impl Clone for Encrypted {
    fn clone(&self) -> (r: Self)
        ensures
            r@ == self@,
    {
        proof {
            use_type_invariant(self);
        }
        Encrypted { nonce: self.nonce.clone(), ciphertext: self.ciphertext.clone() }
    }
}

impl PartialEq for Encrypted {
    fn eq(&self, other: &Self) -> (r: bool) {
        let r = bytes_eq(&self.nonce, &other.nonce) && bytes_eq(&self.ciphertext, &other.ciphertext);
        proof {
            if r {
                assert(self@ =~= other@);
            }
        }
        r
    }
}

impl vstd::std_specs::cmp::PartialEqSpecImpl for Encrypted {
    open spec fn obeys_eq_spec() -> bool {
        true
    }

    open spec fn eq_spec(&self, other: &Self) -> bool {
        self@ == other@
    }
}

} // verus!
