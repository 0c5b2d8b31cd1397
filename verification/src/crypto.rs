//! Thin facade over the platform's cryptosystem: random bytes, keypairs,
//! a 256-bit cryptographic hash, a key-derivation function, and AEAD
//! encryption with an explicit 24-byte nonce.
//!
//! Every outside call sits behind a trusted wrapper here.  Results that no
//! short formula can state (digests, derived keys, ciphertexts) are given
//! uninterpreted names, and the wrappers relate each call to its name.

use vstd::prelude::*;

use base58::FromBase58;
use base58::ToBase58;
use chacha20poly1305::aead::Aead;
use chacha20poly1305::KeyInit;
use ed25519_dalek::SigningKey;
use rand::RngCore;
use unicode_segmentation::UnicodeSegmentation;
use vstd::utf8::decode_utf8;
use vstd::utf8::encode_utf8;
use vstd::utf8::valid_utf8;

verus! {

/// Length in bytes of every key, digest and record identifier.
pub const KEY_LENGTH: usize = 32;

/// Length in bytes of an AEAD nonce.
pub const NONCE_LENGTH: usize = 24;

/// The 256-bit digest of a byte string.
pub uninterp spec fn hash_of(data: Seq<u8>) -> Seq<u8>;

/// The 32-byte shared secret derived from an input and a salt.
pub uninterp spec fn kdf_of(input: Seq<u8>, salt: Seq<u8>) -> Seq<u8>;

/// The AEAD ciphertext (with trailing authentication tag) of a plaintext
/// under a nonce and a 32-byte key.
pub uninterp spec fn aead_ct(plaintext: Seq<u8>, nonce: Seq<u8>, key: Seq<u8>) -> Seq<u8>;

/// The plaintext that AEAD decryption recovers from a ciphertext under a
/// nonce and a key, or `None` when authentication fails.
pub uninterp spec fn aead_pt(ciphertext: Seq<u8>, nonce: Seq<u8>, key: Seq<u8>) -> Option<Seq<u8>>;

/// The public half of a keypair, as a function of the 32 private bytes.
pub uninterp spec fn pubkey_of(private: Seq<u8>) -> Seq<u8>;

/// The Base58 rendering of a byte string.
pub uninterp spec fn base58_of(data: Seq<u8>) -> Seq<char>;

/// The bytes a Base58 string decodes to, or `None` when it is not Base58.
pub uninterp spec fn base58_decode_of(text: Seq<char>) -> Option<Seq<u8>>;

/// Whether every character of a text is one drawn from the classes a
/// segment name accepts (space, alphabetic, digit, pattern syntax, emoji),
/// and the text is non-empty.
pub uninterp spec fn segment_text_ok(text: Seq<char>) -> bool;

/// The number of extended grapheme clusters in a text.
pub uninterp spec fn grapheme_count_of(text: Seq<char>) -> int;

/// How many leading `1` digits open a Base58 text; over the UTF-8
/// bytes, where the digit `1` is the single byte 49 (a multi-byte
/// character never starts with it).
pub open spec fn spec_base58_leading_ones(s: Seq<u8>) -> int
    decreases s.len(),
{
    if s.len() == 0 || s[0] != 49 {
        0int
    } else {
        1 + spec_base58_leading_ones(s.drop_first())
    }
}

/// Whether a Base58 text stays within the reference decoder's capacity:
/// its decoded output — one zero byte per leading `1`, then at most
/// `rest * 733 / 1000 + 1` significant bytes for `rest` further digits
/// (as `58^rest < 2^(5.86 * rest)`) — fits the decoder's fixed 132-byte
/// buffer.
pub open spec fn spec_base58_within_capacity(s: Seq<u8>) -> bool {
    spec_base58_leading_ones(s) + (s.len() - spec_base58_leading_ones(s)) * 733 / 1000 + 1 <= 132
}

/// The leading-ones count lies between zero and the length.
proof fn lemma_base58_leading_ones_bounds(s: Seq<u8>)
    ensures
        0 <= spec_base58_leading_ones(s) <= s.len(),
    decreases s.len(),
{
    if s.len() > 0 && s[0] == 49 {
        lemma_base58_leading_ones_bounds(s.drop_first());
    }
}

/// A scan that stops at the first byte other than `1` has counted the
/// leading ones.
proof fn lemma_base58_leading_ones_of_prefix(s: Seq<u8>, z: int)
    requires
        0 <= z <= s.len(),
        forall|j: int| 0 <= j < z ==> s[j] == 49,
        z < s.len() ==> s[z] != 49,
    ensures
        spec_base58_leading_ones(s) == z,
    decreases s.len(),
{
    if z == 0 {
    } else {
        assert(s[0] == 49);
        assert forall|j: int| 0 <= j < z - 1 implies s.drop_first()[j] == 49 by {
            assert(s.drop_first()[j] == s[j + 1]);
        }
        if z - 1 < s.drop_first().len() {
            assert(s.drop_first()[z - 1] == s[z]);
        }
        lemma_base58_leading_ones_of_prefix(s.drop_first(), z - 1);
    }
}

/// Whether a text stays within the Base58 decoder's capacity; texts that
/// do never make the decoder panic.
pub(crate) fn base58_text_within_capacity(text: &str) -> (r: bool)
    ensures
        r == spec_base58_within_capacity(encode_utf8(text@)),
{
    let bytes = text.as_bytes();
    let n = bytes.len();
    let mut z: usize = 0;
    while z < n && bytes[z] == 49
        invariant
            z <= n,
            n == encode_utf8(text@).len(),
            bytes@ == encode_utf8(text@),
            forall|j: int| 0 <= j < z ==> bytes@[j] == 49,
        decreases n - z,
    {
        z = z + 1;
    }
    proof {
        lemma_base58_leading_ones_of_prefix(bytes@, z as int);
    }
    if n >= 400 {
        proof {
            let rest = n - z;
            if spec_base58_within_capacity(bytes@) {
                vstd::arithmetic::div_mod::lemma_fundamental_div_mod(rest as int * 733, 1000);
                vstd::arithmetic::div_mod::lemma_mod_bound(rest as int * 733, 1000);
                assert(rest <= 180);
                assert(z <= 131);
            }
        }
        return false;
    }
    z + (n - z) * 733 / 1000 + 1 <= 132
}

/// Relies on `blake3::hash`: a 32-byte digest depending on the input alone.
#[verifier::external_body]
pub fn hash(data: &Vec<u8>) -> (r: Vec<u8>)
    ensures
        r@ == hash_of(data@),
        r@.len() == 32,
{
    blake3::hash(data.as_slice()).as_bytes().to_vec()
}

/// Relies on `argon2::Argon2::hash_password_into` with the default
/// parameters: fills the 32-byte output from the password and salt alone.
/// The crate rejects salts shorter than 8 bytes and inputs over `u32::MAX`
/// bytes, so those stay outside the precondition.
#[verifier::external_body]
pub fn derive_shared_secret(input: &Vec<u8>, salt: &Vec<u8>) -> (r: Vec<u8>)
    requires
        8 <= salt@.len() <= 0xFFFF_FFFF,
        input@.len() <= 0xFFFF_FFFF,
    ensures
        r@ == kdf_of(input@, salt@),
        r@.len() == 32,
{
    let mut out = [0u8; 32];
    argon2::Argon2::default()
        .hash_password_into(input.as_slice(), salt.as_slice(), &mut out)
        .unwrap();
    out.to_vec()
}

/// Relies on `chacha20poly1305::XChaCha20Poly1305` encryption: the
/// ciphertext is a function of plaintext, nonce and key; it is 16 bytes
/// (one tag) longer than the plaintext; and decryption under the same
/// nonce and key recovers the plaintext.  The cipher refuses only
/// plaintexts of 2^32 or more 64-byte blocks, so under the length bound
/// here — far below that — encryption always succeeds.
#[verifier::external_body]
pub(crate) fn aead_encrypt(plaintext: &Vec<u8>, nonce: &Vec<u8>, key: &Vec<u8>) -> (r: Option<
    Vec<u8>,
>)
    requires
        nonce@.len() == 24,
        key@.len() == 32,
        plaintext@.len() + 16 <= u32::MAX,
    ensures
        r is Some,
        match r {
            Some(ct) => {
                &&& ct@ == aead_ct(plaintext@, nonce@, key@)
                &&& ct@.len() == plaintext@.len() + 16
                &&& aead_pt(ct@, nonce@, key@) == Some(plaintext@)
            },
            None => true,
        },
{
    let cipher = chacha20poly1305::XChaCha20Poly1305::new(chacha20poly1305::Key::from_slice(
        key.as_slice(),
    ));
    let nonce = chacha20poly1305::XNonce::from_slice(nonce.as_slice());
    cipher.encrypt(nonce, plaintext.as_slice()).ok()
}

/// Relies on `chacha20poly1305::XChaCha20Poly1305` decryption: the result
/// depends on ciphertext, nonce and key alone, and authentication failure
/// is reported as `None`.
#[verifier::external_body]
pub(crate) fn aead_decrypt(ciphertext: &Vec<u8>, nonce: &Vec<u8>, key: &Vec<u8>) -> (r: Option<
    Vec<u8>,
>)
    requires
        nonce@.len() == 24,
        key@.len() == 32,
    ensures
        match r {
            Some(pt) => aead_pt(ciphertext@, nonce@, key@) == Some(pt@),
            None => aead_pt(ciphertext@, nonce@, key@) is None,
        },
{
    let cipher = chacha20poly1305::XChaCha20Poly1305::new(chacha20poly1305::Key::from_slice(
        key.as_slice(),
    ));
    let nonce = chacha20poly1305::XNonce::from_slice(nonce.as_slice());
    cipher.decrypt(nonce, ciphertext.as_slice()).ok()
}

/// Relies on `ed25519_dalek::SigningKey`: every 32-byte string is a valid
/// private key, and its verifying key is a function of it.
#[verifier::external_body]
pub(crate) fn public_key_of_private(private: &Vec<u8>) -> (r: Vec<u8>)
    requires
        private@.len() == 32,
    ensures
        r@ == pubkey_of(private@),
        r@.len() == 32,
{
    let mut sk = [0u8; 32];
    sk.copy_from_slice(private.as_slice());
    SigningKey::from_bytes(&sk).verifying_key().to_bytes().to_vec()
}

/// Relies on `ed25519_dalek::SigningKey::generate` with the operating
/// system's randomness: a fresh keypair whose public half matches the
/// private half.
#[verifier::external_body]
pub(crate) fn generate_keypair_raw() -> (r: (Vec<u8>, Vec<u8>))
    ensures
        r.0@.len() == 32,
        r.1@.len() == 32,
        r.0@ == pubkey_of(r.1@),
{
    let sk = SigningKey::generate(&mut rand::rngs::OsRng);
    (sk.verifying_key().to_bytes().to_vec(), sk.to_bytes().to_vec())
}

/// Relies on `rand::rngs::OsRng::fill_bytes`: random bytes of the asked
/// length, with nothing promised of their values.
#[verifier::external_body]
pub(crate) fn random_bytes_raw(n: usize) -> (r: Vec<u8>)
    ensures
        r@.len() == n,
{
    let mut out = vec![0u8; n];
    rand::rngs::OsRng.fill_bytes(&mut out);
    out
}

/// Relies on `base58::ToBase58`: the rendering depends on the bytes
/// alone.  It decodes back to the bytes only within the reference
/// decoder's capacity — `from_base58` rebuilds the payload in a fixed
/// 132-byte buffer — so the round trip is promised for payloads of at
/// most 132 bytes and nothing is said beyond that.
#[verifier::external_body]
pub(crate) fn base58_encode(data: &Vec<u8>) -> (r: String)
    ensures
        r@ == base58_of(data@),
        data@.len() <= 132 ==> base58_decode_of(r@) == Some(data@),
{
    data.as_slice().to_base58()
}

/// Relies on `base58::FromBase58`: the decoding depends on the text
/// alone; text that is not Base58 is rejected.  `from_base58` slices its
/// fixed 132-byte buffer at `leading_zeros - zcount` and panics when the
/// decoded output — one zero byte per leading `1`, then the significant
/// bytes of the number, at most `ceil(0.733 * rest)` of them for `rest`
/// further digits — would overflow the buffer; the precondition keeps
/// the output within it, so no admitted text panics.
#[verifier::external_body]
pub(crate) fn base58_decode(text: &str) -> (r: Option<Vec<u8>>)
    requires
        spec_base58_within_capacity(encode_utf8(text@)),
    ensures
        match r {
            Some(v) => base58_decode_of(text@) == Some(v@),
            None => base58_decode_of(text@) is None,
        },
{
    match text.from_base58() {
        Ok(v) => Some(v),
        Err(_) => None,
    }
}

/// Relies on `regex::Regex::is_match` with the fixed, valid pattern
/// `^( |\p{Alphabetic}|\d|\p{Pattern_Syntax}|\p{Emoji})+$`: the match
/// depends on the text alone, and the empty text never matches.
#[verifier::external_body]
pub(crate) fn segment_text_matches(text: &str) -> (r: bool)
    ensures
        r == segment_text_ok(text@),
        r ==> text@.len() > 0,
{
    match regex::Regex::new(r"^( |\p{Alphabetic}|\d|\p{Pattern_Syntax}|\p{Emoji})+$") {
        Ok(re) => re.is_match(text),
        Err(_) => false,
    }
}

/// Relies on `unicode_segmentation::UnicodeSegmentation::graphemes`: the
/// number of extended grapheme clusters depends on the text alone, and
/// only the empty text has none.
#[verifier::external_body]
pub(crate) fn grapheme_count(text: &str) -> (r: usize)
    ensures
        r as int == grapheme_count_of(text@),
        (r == 0) == (text@.len() == 0),
{
    text.graphemes(true).count()
}

/// Relies on `String::from_utf8`: accepts exactly the valid UTF-8 byte
/// strings and returns the text those bytes encode.
#[verifier::external_body]
pub(crate) fn string_from_utf8(bytes: &Vec<u8>) -> (r: Option<String>)
    ensures
        match r {
            Some(s) => {
                &&& valid_utf8(bytes@)
                &&& s@ == decode_utf8(bytes@)
                &&& encode_utf8(s@) == bytes@
            },
            None => !valid_utf8(bytes@),
        },
{
    match String::from_utf8(bytes.clone()) {
        Ok(s) => Some(s),
        Err(_) => None,
    }
}

} // verus!
