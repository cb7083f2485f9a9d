use vstd::prelude::*;
use vstd::utf8::encode_utf8;
use openssl::error::ErrorStack;
use openssl::hash::MessageDigest;
use openssl::pkey::{PKey, Private, Public};
use openssl::rsa::{Padding, Rsa};
use openssl::sign::{Signer, Verifier};
use sha3::{Digest, Sha3_512};

use crate::encoding::{b64_encode, decoded, lemma_decoded, lower_hex, to_lower_hex, Base64String, Base64Vec, decode_failure_text, DecodeFailure};
use crate::error::{debug_text_spec, HttpError};
use crate::text::{clean_email, clean_email_spec, contains_seq, decimal, push_decimal_u64, push_str, str_contains};
use crate::maps::{unit_result_is, ErrModel};
use crate::textfn::{apply_text, text_fn_ok, text_of};
use crate::laws::{is_lower_hex_digit, law_lower_hex_shape};

verus! {

#[verifier::external_type_specification]
#[verifier::external_body]
pub struct ExErrorStack(ErrorStack);

#[verifier::external_type_specification]
#[verifier::external_body]
pub struct ExPrivate(Private);

#[verifier::external_type_specification]
#[verifier::external_body]
pub struct ExPublic(Public);

#[verifier::external_type_specification]
#[verifier::external_body]
#[verifier::reject_recursive_types(T)]
pub struct ExRsa<T>(Rsa<T>);

#[verifier::external_type_specification]
#[verifier::external_body]
#[verifier::reject_recursive_types(T)]
pub struct ExPKey<T>(PKey<T>);

#[verifier::external_type_specification]
#[verifier::external_body]
pub struct ExSigner<'a>(Signer<'a>);

#[verifier::external_type_specification]
#[verifier::external_body]
pub struct ExVerifier<'a>(Verifier<'a>);

/// Calls `ErrorStack`'s `Display` (through `to_string`). What the text says
/// is not claimed.
#[verifier::external_body]
fn error_text(e: &ErrorStack) -> String {
    e.to_string()
}

/// Calls `ErrorStack`'s `Debug` (through `format!("{:?}", e)`). What the
/// text says is not claimed.
#[verifier::external_body]
fn error_debug(e: &ErrorStack) -> String {
    format!("{:?}", e)
}

// ---------------------------------------------------------------------
// Digests

/// What `Sha3_512::digest` returns for `data`.
pub uninterp spec fn sha3_512_digest(data: Seq<u8>) -> Seq<u8>;

/// Calls `sha3::Digest::digest` of `Sha3_512`, whose result is named
/// `sha3_512_digest`; the output type holds 64 bytes.
#[verifier::external_body]
fn sha3_512(data: &[u8]) -> (r: Vec<u8>)
    ensures
        r@ == sha3_512_digest(data@),
        r@.len() == 64,
{
    Sha3_512::digest(data).to_vec()
}

/// What `openssl::sha::sha256` returns for `data`.
pub uninterp spec fn sha256_digest(data: Seq<u8>) -> Seq<u8>;

/// Calls `openssl::sha::sha256`, whose result is named `sha256_digest`; its
/// result type holds 32 bytes.
#[verifier::external_body]
fn sha256(data: &[u8]) -> (r: Vec<u8>)
    ensures
        r@ == sha256_digest(data@),
        r@.len() == 32,
{
    openssl::sha::sha256(data).to_vec()
}

/// The hash of an email address salted by `salt`: the SHA3-512 digest of the
/// salted, cleaned address, in lowercase hexadecimal.
pub open spec fn hash_email_spec<F: Fn(String) -> String>(salt: F, email: Seq<char>) -> Seq<char> {
    lower_hex(sha3_512_digest(encode_utf8(text_of(salt, clean_email_spec(email)))))
}

/// Hashes strings.
pub trait Hashing {
    /// Salts and hashes an email address; `salt` is the store's salting.
    fn hash_email<F: Fn(String) -> String>(&self, salt: &F) -> String
        requires
            text_fn_ok(*salt),
    ;

    /// The SHA-256 digest of the string's bytes.
    fn to_hash(&self) -> Vec<u8>;
}

fn hash_email_str<F: Fn(String) -> String>(s: &str, salt: &F) -> (r: String)
    requires
        text_fn_ok(*salt),
    ensures
        r@ == hash_email_spec(*salt, s@),
        r@.len() == 128,
        forall|i: int| 0 <= i < r@.len() ==> is_lower_hex_digit(#[trigger] r@[i]),
{
    let email = clean_email(s);
    let salted = apply_text(salt, email.as_str());
    let digest = sha3_512(salted.as_str().as_bytes());
    proof {
        law_lower_hex_shape(digest@);
    }
    to_lower_hex(digest.as_slice())
}

impl<'a> Hashing for &'a str {
    fn hash_email<F: Fn(String) -> String>(&self, salt: &F) -> (r: String)
        ensures
            r@ == hash_email_spec(*salt, self@),
            r@.len() == 128,
            forall|i: int| 0 <= i < r@.len() ==> is_lower_hex_digit(#[trigger] r@[i]),
    {
        hash_email_str(*self, salt)
    }

    fn to_hash(&self) -> (r: Vec<u8>)
        ensures
            r@ == sha256_digest(encode_utf8(self@)),
    {
        sha256(self.as_bytes())
    }
}

impl Hashing for String {
    fn hash_email<F: Fn(String) -> String>(&self, salt: &F) -> (r: String)
        ensures
            r@ == hash_email_spec(*salt, self@),
            r@.len() == 128,
            forall|i: int| 0 <= i < r@.len() ==> is_lower_hex_digit(#[trigger] r@[i]),
    {
        hash_email_str(self.as_str(), salt)
    }

    fn to_hash(&self) -> (r: Vec<u8>)
        ensures
            r@ == sha256_digest(encode_utf8(self@)),
    {
        sha256(self.as_str().as_bytes())
    }
}

// ---------------------------------------------------------------------
// RSA keys

/// An RSA private key, with the PEM text that it was read from.
struct PrivateRsa {
    key: Rsa<Private>,
    pem: Ghost<Seq<u8>>,
}

/// An RSA public key, with the PEM text that it was read from.
struct PublicRsa {
    key: Rsa<Public>,
    pem: Ghost<Seq<u8>>,
}

/// A private key, with the PEM text that it was read from.
struct PrivatePKey {
    key: PKey<Private>,
    pem: Ghost<Seq<u8>>,
}

/// A public key, with the PEM text that it was read from.
struct PublicPKey {
    key: PKey<Public>,
    pem: Ghost<Seq<u8>>,
}

/// Whether `Rsa::private_key_from_pem` reads a key from `pem`.
pub uninterp spec fn rsa_private_pem_valid(pem: Seq<u8>) -> bool;

/// The size in bytes of the modulus of the RSA private key that
/// `Rsa::private_key_from_pem` reads from `pem`.
pub uninterp spec fn rsa_private_size(pem: Seq<u8>) -> u32;

/// Whether `Rsa::private_decrypt` with PKCS#1 padding decrypts `data` with
/// the private key of `pem`.
pub uninterp spec fn rsa_decrypt_succeeds(pem: Seq<u8>, data: Seq<u8>) -> bool;

/// The bytes that `Rsa::private_decrypt` with PKCS#1 padding decrypts from
/// `data` with the private key of `pem`.
pub uninterp spec fn rsa_pkcs1_plaintext(pem: Seq<u8>, data: Seq<u8>) -> Seq<u8>;

/// Whether `Rsa::public_key_from_pem` reads a key from `pem`.
pub uninterp spec fn rsa_public_pem_valid(pem: Seq<u8>) -> bool;

/// The size in bytes of the modulus of the RSA public key that
/// `Rsa::public_key_from_pem` reads from `pem`.
pub uninterp spec fn rsa_public_size(pem: Seq<u8>) -> u32;

/// Whether `Rsa::public_encrypt` with PKCS#1 padding encrypts `data` with
/// the public key of `pem`.
pub uninterp spec fn rsa_encrypt_succeeds(pem: Seq<u8>, data: Seq<u8>) -> bool;

/// `ct` is an encryption of `data`, with PKCS#1 padding, under the RSA
/// public key of `pem`: the private half of that key decrypts it to `data`.
pub uninterp spec fn rsa_pkcs1_ciphertext(pem: Seq<u8>, data: Seq<u8>, ct: Seq<u8>) -> bool;

/// Whether `PKey::private_key_from_pem` reads a key from `pem`.
pub uninterp spec fn pkey_private_pem_valid(pem: Seq<u8>) -> bool;

/// The maximum size in bytes of a signature by the private key of `pem`.
pub uninterp spec fn pkey_private_size(pem: Seq<u8>) -> usize;

/// Whether `Signer::new` with SHA-256 accepts the private key of `pem`.
pub uninterp spec fn sha256_signer_valid(pem: Seq<u8>) -> bool;

/// Whether `Signer::update` succeeds on `data` after `fed` was given to a
/// SHA-256 signer of the private key of `pem`.
pub uninterp spec fn signer_update_valid(pem: Seq<u8>, fed: Seq<u8>, data: Seq<u8>) -> bool;

/// Whether `Signer::sign` writes a signature into a buffer of `len` bytes
/// after `fed` was given to a SHA-256 signer of the private key of `pem`.
pub uninterp spec fn signer_sign_valid(pem: Seq<u8>, fed: Seq<u8>, len: nat) -> bool;

/// `sig` is a signature of `data`, with a SHA-256 digest, by the private key
/// of `pem`: it verifies under the public half of that key.
pub uninterp spec fn sha256_signature_of(pem: Seq<u8>, data: Seq<u8>, sig: Seq<u8>) -> bool;

/// Whether `PKey::public_key_from_pem` reads a key from `pem`.
pub uninterp spec fn pkey_public_pem_valid(pem: Seq<u8>) -> bool;

/// Whether `Verifier::new` with SHA-256 accepts the public key of `pem`.
pub uninterp spec fn sha256_verifier_valid(pem: Seq<u8>) -> bool;

/// Whether `Verifier::update` succeeds on `data` after `fed` was given to a
/// SHA-256 verifier of the public key of `pem`.
pub uninterp spec fn verifier_update_valid(pem: Seq<u8>, fed: Seq<u8>, data: Seq<u8>) -> bool;

/// What `Verifier::verify` gives for `sig` after `fed` was given to a
/// SHA-256 verifier of the public key of `pem`: whether the signature holds,
/// or `None` for an error.
pub uninterp spec fn rsa_sha256_verify(pem: Seq<u8>, fed: Seq<u8>, sig: Seq<u8>) -> Option<bool>;

/// Calls `Rsa::private_key_from_pem` on the bytes of `pem`, which reads an
/// RSA private key; it panics on a text longer than `i32::MAX` bytes. It
/// passes no passphrase, so OpenSSL would ask the terminal for one on an
/// encrypted key: `pem` is one without encryption (see `pem_unencrypted`),
/// and then its success is named `rsa_private_pem_valid`.
#[verifier::external_body]
fn rsa_private_from_pem(pem: &str) -> (r: Result<PrivateRsa, ErrorStack>)
    requires
        encode_utf8(pem@).len() <= i32::MAX,
        pem_unencrypted(pem@),
    ensures
        r is Ok == rsa_private_pem_valid(encode_utf8(pem@)),
        r matches Ok(k) ==> k.pem@ == encode_utf8(pem@),
{
    match Rsa::private_key_from_pem(pem.as_bytes()) {
        Ok(key) => Ok(PrivateRsa { key, pem: Ghost(encode_utf8(pem@)) }),
        Err(e) => Err(e),
    }
}

/// Calls `Rsa::size` on a private key: the size of its modulus in bytes,
/// named `rsa_private_size`.
#[verifier::external_body]
fn rsa_private_key_size(k: &PrivateRsa) -> (r: u32)
    ensures
        r == rsa_private_size(k.pem@),
{
    k.key.size()
}

/// Calls `Rsa::private_decrypt` with PKCS#1 padding, which decrypts `from`
/// into `to` and returns the number of bytes decrypted; it panics when `from`
/// is longer than `i32::MAX` bytes or `to` is shorter than the key's size.
/// Its success is named `rsa_decrypt_succeeds`, and the bytes decrypted,
/// written at the start of `to`, `rsa_pkcs1_plaintext`.
#[verifier::external_body]
fn rsa_private_decrypt(k: &PrivateRsa, from: &[u8], to: &mut Vec<u8>) -> (r: Result<usize, ErrorStack>)
    requires
        from@.len() <= i32::MAX,
        old(to)@.len() >= rsa_private_size(k.pem@),
    ensures
        final(to)@.len() == old(to)@.len(),
        r is Ok == rsa_decrypt_succeeds(k.pem@, from@),
        r matches Ok(n) ==> n <= old(to)@.len() && final(to)@.take(n as int) == rsa_pkcs1_plaintext(k.pem@, from@),
{
    k.key.private_decrypt(from, to, Padding::PKCS1)
}

/// Calls `Rsa::public_key_from_pem`, which reads an RSA public key; it
/// panics on a text longer than `i32::MAX` bytes. Its success is named
/// `rsa_public_pem_valid`.
#[verifier::external_body]
fn rsa_public_from_pem(pem: &[u8]) -> (r: Result<PublicRsa, ErrorStack>)
    requires
        pem@.len() <= i32::MAX,
    ensures
        r is Ok == rsa_public_pem_valid(pem@),
        r matches Ok(k) ==> k.pem@ == pem@,
{
    match Rsa::public_key_from_pem(pem) {
        Ok(key) => Ok(PublicRsa { key, pem: Ghost(pem@) }),
        Err(e) => Err(e),
    }
}

/// Calls `Rsa::size` on a public key: the size of its modulus in bytes,
/// named `rsa_public_size`.
#[verifier::external_body]
fn rsa_public_key_size(k: &PublicRsa) -> (r: u32)
    ensures
        r == rsa_public_size(k.pem@),
{
    k.key.size()
}

/// Calls `Rsa::public_encrypt` with PKCS#1 padding, which encrypts `from`
/// into the first `size` bytes of `to` (OpenSSL's `RSA_public_encrypt` writes
/// and returns the key's size) and leaves the rest; it panics when `from` is
/// longer than `i32::MAX` bytes or `to` is shorter than the key's size. Its
/// success is named `rsa_encrypt_succeeds`. The padding is random, so the
/// bytes written are only claimed to be an encryption of `from`.
#[verifier::external_body]
fn rsa_public_encrypt(k: &PublicRsa, from: &[u8], to: &mut Vec<u8>) -> (r: Result<usize, ErrorStack>)
    requires
        from@.len() <= i32::MAX,
        old(to)@.len() >= rsa_public_size(k.pem@),
    ensures
        final(to)@.len() == old(to)@.len(),
        r is Ok == rsa_encrypt_succeeds(k.pem@, from@),
        r matches Ok(n) ==> {
            &&& n == rsa_public_size(k.pem@)
            &&& rsa_pkcs1_ciphertext(k.pem@, from@, final(to)@.take(n as int))
            &&& final(to)@.skip(n as int) == old(to)@.skip(n as int)
        },
{
    k.key.public_encrypt(from, to, Padding::PKCS1)
}

/// Calls `PKey::private_key_from_pem` on the bytes of `pem`, which reads a
/// private key; it panics on a text longer than `i32::MAX` bytes. It passes
/// no passphrase, so OpenSSL would ask the terminal for one on an encrypted
/// key: `pem` is one without encryption (see `pem_unencrypted`), and then
/// its success is named `pkey_private_pem_valid`.
#[verifier::external_body]
fn pkey_private_from_pem(pem: &str) -> (r: Result<PrivatePKey, ErrorStack>)
    requires
        encode_utf8(pem@).len() <= i32::MAX,
        pem_unencrypted(pem@),
    ensures
        r is Ok == pkey_private_pem_valid(encode_utf8(pem@)),
        r matches Ok(k) ==> k.pem@ == encode_utf8(pem@),
{
    match PKey::private_key_from_pem(pem.as_bytes()) {
        Ok(key) => Ok(PrivatePKey { key, pem: Ghost(encode_utf8(pem@)) }),
        Err(e) => Err(e),
    }
}

/// Calls `PKey::size`: the maximum size of a signature in bytes, named
/// `pkey_private_size`.
#[verifier::external_body]
fn pkey_private_key_size(k: &PrivatePKey) -> (r: usize)
    ensures
        r == pkey_private_size(k.pem@),
{
    k.key.size()
}

/// Calls `PKey::public_key_from_pem`, which reads a public key; it panics on
/// a text longer than `i32::MAX` bytes. Its success is named
/// `pkey_public_pem_valid`.
#[verifier::external_body]
fn pkey_public_from_pem(pem: &[u8]) -> (r: Result<PublicPKey, ErrorStack>)
    requires
        pem@.len() <= i32::MAX,
    ensures
        r is Ok == pkey_public_pem_valid(pem@),
        r matches Ok(k) ==> k.pem@ == pem@,
{
    match PKey::public_key_from_pem(pem) {
        Ok(key) => Ok(PublicPKey { key, pem: Ghost(pem@) }),
        Err(e) => Err(e),
    }
}

// ---------------------------------------------------------------------
// Signing and verifying

/// A SHA-256 signer, with the key's PEM text and the data given so far.
struct KeySigner<'a> {
    signer: Signer<'a>,
    pem: Ghost<Seq<u8>>,
    fed: Ghost<Seq<u8>>,
}

/// A SHA-256 verifier, with the key's PEM text and the data given so far.
struct KeyVerifier<'a> {
    verifier: Verifier<'a>,
    pem: Ghost<Seq<u8>>,
    fed: Ghost<Seq<u8>>,
}

/// Calls `Signer::new` with `MessageDigest::sha256()`, which starts a
/// signature by the key; its success is named `sha256_signer_valid`.
#[verifier::external_body]
fn signer_new<'a>(k: &'a PrivatePKey) -> (r: Result<KeySigner<'a>, ErrorStack>)
    ensures
        r is Ok == sha256_signer_valid(k.pem@),
        r matches Ok(s) ==> s.pem@ == k.pem@ && s.fed@ == Seq::<u8>::empty(),
{
    match Signer::new(MessageDigest::sha256(), &k.key) {
        Ok(signer) => Ok(KeySigner { signer, pem: Ghost(k.pem@), fed: Ghost(Seq::empty()) }),
        Err(e) => Err(e),
    }
}

/// Calls `Signer::update`, which gives more data to sign; its success is
/// named `signer_update_valid`.
#[verifier::external_body]
fn signer_update(s: &mut KeySigner, data: &[u8]) -> (r: Result<(), ErrorStack>)
    ensures
        final(s).pem@ == old(s).pem@,
        r is Ok == signer_update_valid(old(s).pem@, old(s).fed@, data@),
        r is Ok ==> final(s).fed@ == old(s).fed@ + data@,
{
    s.signer.update(data)
}

/// Calls `Signer::sign`, which writes a signature of the data given into
/// `buf` and returns its length; its success is named `signer_sign_valid`.
/// A signature may be randomized (for an EC key), so the bytes written are
/// only claimed to be a signature, by `sha256_signature_of`.
#[verifier::external_body]
fn signer_sign(s: &KeySigner, buf: &mut Vec<u8>) -> (r: Result<usize, ErrorStack>)
    ensures
        final(buf)@.len() == old(buf)@.len(),
        r is Ok == signer_sign_valid(s.pem@, s.fed@, old(buf)@.len()),
        r matches Ok(n) ==> n <= old(buf)@.len() && sha256_signature_of(s.pem@, s.fed@, final(buf)@.take(n as int)),
{
    s.signer.sign(buf)
}

/// Calls `Verifier::new` with `MessageDigest::sha256()`, which starts the
/// check of a signature by the key; its success is named
/// `sha256_verifier_valid`.
#[verifier::external_body]
fn verifier_new<'a>(k: &'a PublicPKey) -> (r: Result<KeyVerifier<'a>, ErrorStack>)
    ensures
        r is Ok == sha256_verifier_valid(k.pem@),
        r matches Ok(v) ==> v.pem@ == k.pem@ && v.fed@ == Seq::<u8>::empty(),
{
    match Verifier::new(MessageDigest::sha256(), &k.key) {
        Ok(verifier) => Ok(KeyVerifier { verifier, pem: Ghost(k.pem@), fed: Ghost(Seq::empty()) }),
        Err(e) => Err(e),
    }
}

/// Calls `Verifier::update`, which gives more signed data; its success is
/// named `verifier_update_valid`.
#[verifier::external_body]
fn verifier_update(v: &mut KeyVerifier, data: &[u8]) -> (r: Result<(), ErrorStack>)
    ensures
        final(v).pem@ == old(v).pem@,
        r is Ok == verifier_update_valid(old(v).pem@, old(v).fed@, data@),
        r is Ok ==> final(v).fed@ == old(v).fed@ + data@,
{
    v.verifier.update(data)
}

/// Calls `Verifier::verify`, which tells whether `sig` is a signature of the
/// data given; its outcome is named `rsa_sha256_verify`.
#[verifier::external_body]
fn verifier_verify(v: &KeyVerifier, sig: &[u8]) -> (r: Result<bool, ErrorStack>)
    ensures
        match r {
            Ok(b) => rsa_sha256_verify(v.pem@, v.fed@, sig@) == Some(b),
            Err(_) => rsa_sha256_verify(v.pem@, v.fed@, sig@) is None,
        },
{
    v.verifier.verify(sig)
}

// ---------------------------------------------------------------------
// The library's RSA operations

/// A PEM text without encryption: it holds no `ENCRYPTED` marker, which an
/// encrypted private key carries (a `BEGIN ENCRYPTED PRIVATE KEY` block, or a
/// `Proc-Type: 4,ENCRYPTED` header).
pub open spec fn pem_unencrypted(pem: Seq<char>) -> bool {
    !contains_seq(pem, "ENCRYPTED"@)
}

/// Tells whether the PEM text `key` is without encryption.
pub fn is_unencrypted_pem(key: &str) -> (r: bool)
    ensures
        r == pem_unencrypted(key@),
{
    !str_contains(key, "ENCRYPTED")
}

/// `n` zero bytes.
pub open spec fn zeros(n: nat) -> Seq<u8> {
    Seq::new(n, |i: int| 0u8)
}

fn zero_buffer(n: usize) -> (r: Vec<u8>)
    ensures
        r@ == zeros(n as nat),
{
    let r = vec![0u8; n];
    assert(r@ =~= zeros(n as nat));
    r
}

/// `m` is `prefix` followed by some text.
pub open spec fn starts_with(m: Seq<char>, prefix: Seq<char>) -> bool {
    exists|t: Seq<char>| m == prefix + t
}

fn error_with(code: u16, prefix: &str, text: String) -> (r: HttpError)
    ensures
        r.is(code, prefix@ + text@),
{
    let mut m = prefix.to_owned();
    push_str(&mut m, text.as_str());
    HttpError::with_message(code, m)
}

fn message_with(prefix: &str, text: String) -> (r: String)
    ensures
        r@ == prefix@ + text@,
{
    let mut m = prefix.to_owned();
    push_str(&mut m, text.as_str());
    m
}

/// What `rsa_decrypt` gives for the base64 text `text` and the private key
/// `pem`: code 0 with `R41` when the key does not read, `A41` with the
/// decoding error when the text is not base64, `R57` when the decryption
/// fails, and otherwise the bytes decrypted from those that the text
/// encodes.
pub open spec fn rsa_decrypt_spec(text: Seq<char>, pem: Seq<u8>, r: Result<Vec<u8>, HttpError>) -> bool {
    if !rsa_private_pem_valid(pem) {
        r matches Err(e) && e.spec_code() == 0 && starts_with(e.spec_message(), "Error R41: "@)
    } else {
        match decoded(text) {
            None => r matches Err(e) && e.spec_code() == 0 && exists|f: DecodeFailure|
                e.spec_message() == "Error A41: "@ + debug_text_spec(500, "Error CLV27: "@ + #[trigger] decode_failure_text(f)),
            Some(k) => if rsa_decrypt_succeeds(pem, k) {
                r matches Ok(b) && b@ == rsa_pkcs1_plaintext(pem, k)
            } else {
                r matches Err(e) && e.spec_code() == 0 && starts_with(e.spec_message(), "Error R57: "@)
            },
        }
    }
}

/// The size of the signature buffer for the private key of `pem`: eight
/// times the key's maximum signature size, as `usize` arithmetic wraps.
pub open spec fn sign_buffer_len(pem: Seq<u8>) -> usize {
    vstd::wrapping::usize_specs::wrapping_mul(pkey_private_size(pem), 8)
}

/// What `sign` gives for `data` and the private key `pem`, all errors with
/// code 500: `CLRS18e` when the key does not read, `CLCR23` when no SHA-256
/// signer takes it, `CLCR38` and `CLCR42` when giving the data or signing
/// fails, and otherwise a SHA-256 signature of the data by the key, in
/// base64.
pub open spec fn sign_spec(data: Seq<u8>, pem: Seq<u8>, r: Result<String, HttpError>) -> bool {
    if !pkey_private_pem_valid(pem) {
        r matches Err(e) && e.spec_code() == 500 && starts_with(e.spec_message(), "Error CLRS18e: "@)
    } else if !sha256_signer_valid(pem) {
        r matches Err(e) && e.is(500, "Error CLCR23"@)
    } else if !signer_update_valid(pem, Seq::empty(), data) {
        r matches Err(e) && e.spec_code() == 500 && starts_with(e.spec_message(), "CLCR38: "@)
    } else if !signer_sign_valid(pem, data, sign_buffer_len(pem) as nat) {
        r matches Err(e) && e.spec_code() == 500 && starts_with(e.spec_message(), "CLCR42: "@)
    } else {
        r matches Ok(s) && exists|sig: Seq<u8>| sha256_signature_of(pem, data, sig) && s@ == #[trigger] b64_encode(sig)
    }
}

/// What `rsa_encrypt` gives for `data` and the public key `pem`: `CCR78`
/// when the key does not read, `CCR84` when the encryption fails, and
/// otherwise an encryption of `data` under the key, in base64.
pub open spec fn rsa_encrypt_spec(pem: Seq<u8>, data: Seq<u8>, r: Result<String, String>) -> bool {
    if !rsa_public_pem_valid(pem) {
        r matches Err(m) && starts_with(m@, "Error CCR78: "@)
    } else if !rsa_encrypt_succeeds(pem, data) {
        r matches Err(m) && starts_with(m@, "Error CCR84: "@)
    } else {
        r matches Ok(s) && exists|ct: Seq<u8>|
            rsa_pkcs1_ciphertext(pem, data, ct) && ct.len() == rsa_public_size(pem) && s@ == #[trigger] b64_encode(ct)
    }
}

/// RSA operations on a key or on data held as text.
pub trait Crypto {
    /// The bytes of the text.
    spec fn text_bytes(&self) -> Seq<u8>;

    /// The characters of the text.
    spec fn text_chars(&self) -> Seq<char>;

    /// Decrypts this base64 text, an AES key encrypted with the public half of
    /// `private_key` (PEM, without encryption).
    fn rsa_decrypt(&self, private_key: &str) -> Result<Vec<u8>, HttpError>
        requires
            encode_utf8(private_key@).len() <= i32::MAX,
            pem_unencrypted(private_key@),
            forall|b: Seq<u8>| #[trigger] b64_encode(b) == self.text_chars() ==> b.len() <= i32::MAX,
    ;

    /// Signs this text with `private_key` (PEM, without encryption).
    fn sign(&self, private_key: &str) -> Result<String, HttpError>
        requires
            encode_utf8(private_key@).len() <= i32::MAX,
            pem_unencrypted(private_key@),
    ;

    /// Encrypts `data`, usually an AES key, with this public key (PEM), and
    /// gives the ciphertext in base64; the key must fit a 2048-byte buffer.
    fn rsa_encrypt(&self, data: [u8; 16]) -> Result<String, String>
        requires
            self.text_bytes().len() <= i32::MAX,
            rsa_public_pem_valid(self.text_bytes()) ==> rsa_public_size(self.text_bytes()) <= 2048,
    ;
}

impl Crypto for String {
    open spec fn text_bytes(&self) -> Seq<u8> {
        encode_utf8(self@)
    }

    open spec fn text_chars(&self) -> Seq<char> {
        self@
    }

    fn rsa_decrypt(&self, private_key: &str) -> (r: Result<Vec<u8>, HttpError>)
        ensures
            rsa_decrypt_spec(self@, encode_utf8(private_key@), r),
    {
        let private_rsa = match rsa_private_from_pem(private_key) {
            Err(e) => {
                let r = error_with(0, "Error R41: ", error_debug(&e));
                return Err(r);
            },
            Ok(k) => k,
        };
        let key_bytes = match self.from_base64() {
            Err(e) => {
                let r = error_with(0, "Error A41: ", e.debug_text());
                return Err(r);
            },
            Ok(b) => b,
        };
        proof {
            lemma_decoded(key_bytes@, self@);
        }
        let size = rsa_private_key_size(&private_rsa);
        let mut buf = zero_buffer(size as usize);
        match rsa_private_decrypt(&private_rsa, key_bytes.as_slice(), &mut buf) {
            Err(e) => {
                let r = error_with(0, "Error R57: ", error_debug(&e));
                Err(r)
            },
            Ok(n) => {
                buf.truncate(n);
                Ok(buf)
            },
        }
    }

    fn sign(&self, private_key: &str) -> (r: Result<String, HttpError>)
        ensures
            sign_spec(encode_utf8(self@), encode_utf8(private_key@), r),
    {
        let private_p = match pkey_private_from_pem(private_key) {
            Err(e) => {
                return Err(error_with(500, "Error CLRS18e: ", error_text(&e)));
            },
            Ok(k) => k,
        };
        let mut signer = match signer_new(&private_p) {
            Err(_) => {
                return Err(HttpError::new(500, "Error CLCR23"));
            },
            Ok(s) => s,
        };
        let size = pkey_private_key_size(&private_p);
        let mut buf = zero_buffer(size.wrapping_mul(8));
        match signer_update(&mut signer, self.as_str().as_bytes()) {
            Err(e) => {
                return Err(error_with(500, "CLCR38: ", error_text(&e)));
            },
            Ok(_) => {},
        }
        assert(signer.fed@ =~= encode_utf8(self@));
        let num_bytes_signed = match signer_sign(&signer, &mut buf) {
            Err(e) => {
                return Err(error_with(500, "CLCR42: ", error_text(&e)));
            },
            Ok(n) => n,
        };
        let signed = vstd::slice::slice_subrange(buf.as_slice(), 0, num_bytes_signed);
        assert(signed@ == buf@.take(num_bytes_signed as int));
        let s = signed.to_base64();
        assert(sha256_signature_of(encode_utf8(private_key@), encode_utf8(self@), signed@) && s@ == b64_encode(signed@));
        Ok(s)
    }

    fn rsa_encrypt(&self, data: [u8; 16]) -> (r: Result<String, String>)
        ensures
            rsa_encrypt_spec(encode_utf8(self@), data@, r),
    {
        let pubkey = match rsa_public_from_pem(self.as_str().as_bytes()) {
            Err(e) => {
                return Err(message_with("Error CCR78: ", error_debug(&e)));
            },
            Ok(k) => k,
        };
        let mut buf = zero_buffer(2048);
        let n = match rsa_public_encrypt(&pubkey, data.as_slice(), &mut buf) {
            Err(e) => {
                return Err(message_with("Error CCR84: ", error_debug(&e)));
            },
            Ok(n) => n,
        };
        buf.truncate(n);
        let encoded = buf.to_base64();
        assert(rsa_pkcs1_ciphertext(encode_utf8(self@), data@, buf@) && buf@.len() == rsa_public_size(encode_utf8(self@))
            && encoded@ == b64_encode(buf@));
        Ok(encoded)
    }
}

// ---------------------------------------------------------------------
// Checking signatures

/// What `verify_signature` needs to run to the end: a readable public key, a
/// SHA-256 verifier for it that takes the digest, and a verification that
/// gives an answer for the signature when it is base64.
pub open spec fn signature_checkable(public_key: Seq<char>, signed_stuff: Seq<char>, signature: Seq<char>) -> bool {
    let pem = encode_utf8(public_key);
    let hash = sha256_digest(encode_utf8(signed_stuff));
    &&& pem.len() <= i32::MAX
    &&& pkey_public_pem_valid(pem)
    &&& sha256_verifier_valid(pem)
    &&& verifier_update_valid(pem, Seq::empty(), hash)
    &&& forall|s: Seq<u8>| #[trigger] b64_encode(s) == signature ==> rsa_sha256_verify(pem, hash, s) is Some
}

/// What `verify_signature` answers: 400 for a signature that is not base64,
/// 403 for one that does not hold for the SHA-256 digest of `signed_stuff`.
pub open spec fn verify_signature_spec(public_key: Seq<char>, signed_stuff: Seq<char>, signature: Seq<char>) -> Result<(), ErrModel> {
    let pem = encode_utf8(public_key);
    let hash = sha256_digest(encode_utf8(signed_stuff));
    if forall|s: Seq<u8>| #[trigger] b64_encode(s) != signature {
        Err((400u16, "Error: Signature must be base64 encoded."@))
    } else if rsa_sha256_verify(pem, hash, choose|s: Seq<u8>| #[trigger] b64_encode(s) == signature) == Some(true) {
        Ok(())
    } else {
        Err((403u16, "You shall not pass"@))
    }
}

/// Hashes `signed_stuff` with SHA-256, then checks that `signature` (base64)
/// is a signature of that hash by `public_key` (PEM).
pub fn verify_signature(public_key: &str, signed_stuff: &str, signature: &str) -> (r: Result<(), HttpError>)
    requires
        signature_checkable(public_key@, signed_stuff@, signature@),
    ensures
        unit_result_is(r, verify_signature_spec(public_key@, signed_stuff@, signature@)),
{
    let public_pkey = pkey_public_from_pem(public_key.as_bytes()).unwrap();
    let mut verifier = verifier_new(&public_pkey).unwrap();
    let hash = signed_stuff.to_hash();
    verifier_update(&mut verifier, hash.as_slice()).unwrap();
    assert(verifier.fed@ =~= hash@);
    let sig = match signature.from_base64() {
        Err(_) => {
            return Err(HttpError::new(400, "Error: Signature must be base64 encoded."));
        },
        Ok(s) => s,
    };
    let ghost pick = choose|s: Seq<u8>| #[trigger] b64_encode(s) == signature@;
    proof {
        crate::encoding::lemma_b64_injective(pick, sig@);
    }
    if !verifier_verify(&verifier, sig.as_slice()).unwrap() {
        return Err(HttpError::new(403, "You shall not pass"));
    }
    Ok(())
}

/// Tells whether `verify_signature` can run to the end on these inputs.
pub fn signature_is_checkable(public_key: &str, signed_stuff: &str, signature: &str) -> (r: bool)
    ensures
        r == signature_checkable(public_key@, signed_stuff@, signature@),
{
    let pem = public_key.as_bytes();
    if pem.len() > 0x7fff_ffff {
        return false;
    }
    let public_pkey = match pkey_public_from_pem(pem) {
        Ok(k) => k,
        Err(_) => {
            return false;
        },
    };
    let mut verifier = match verifier_new(&public_pkey) {
        Ok(v) => v,
        Err(_) => {
            return false;
        },
    };
    let hash = signed_stuff.to_hash();
    match verifier_update(&mut verifier, hash.as_slice()) {
        Ok(_) => {},
        Err(_) => {
            return false;
        },
    }
    assert(verifier.fed@ =~= hash@);
    match signature.from_base64() {
        Err(_) => true,
        Ok(sig) => {
            proof {
                assert forall|s: Seq<u8>| #[trigger] b64_encode(s) == signature@ implies s == sig@ by {
                    crate::encoding::lemma_b64_injective(s, sig@);
                }
            }
            match verifier_verify(&verifier, sig.as_slice()) {
                Err(_) => false,
                Ok(_) => true,
            }
        },
    }
}

/// `verify_signature` where it runs to the end; `None` where it would not.
pub fn verify_signature_checked(public_key: &str, signed_stuff: &str, signature: &str) -> (r: Option<Result<(), HttpError>>)
    ensures
        r is None <==> !signature_checkable(public_key@, signed_stuff@, signature@),
        r matches Some(x) ==> unit_result_is(x, verify_signature_spec(public_key@, signed_stuff@, signature@)),
{
    if signature_is_checkable(public_key, signed_stuff, signature) {
        Some(verify_signature(public_key, signed_stuff, signature))
    } else {
        None
    }
}

/// Checks that `pub_key` (PEM) is an RSA public key of `bit_requirement`
/// bits.
pub fn validate_key_size(pub_key: &str, bit_requirement: u32) -> (r: Result<(), String>)
    requires
        encode_utf8(pub_key@).len() <= i32::MAX,
    ensures
        !rsa_public_pem_valid(encode_utf8(pub_key@)) ==> r is Err,
        rsa_public_pem_valid(encode_utf8(pub_key@)) ==> {
            if vstd::wrapping::u32_specs::wrapping_mul(rsa_public_size(encode_utf8(pub_key@)), 8) != bit_requirement {
                r matches Err(m) && m@ == "Error CCR18: Key needs to be "@ + decimal(bit_requirement as nat) + " bits"@
            } else {
                r is Ok
            }
        },
{
    let rsa = match rsa_public_from_pem(pub_key.as_bytes()) {
        Err(e) => {
            return Err(error_text(&e));
        },
        Ok(k) => k,
    };
    if rsa_public_key_size(&rsa).wrapping_mul(8) != bit_requirement {
        let mut m = String::from_str("Error CCR18: Key needs to be ");
        push_decimal_u64(&mut m, bit_requirement as u64);
        push_str(&mut m, " bits");
        return Err(m);
    }
    Ok(())
}

/// `pem` can be handed to `rsa_encrypt`: its length is within the limit,
/// and where it reads as an RSA public key, the key fits the 2048-byte buffer.
pub open spec fn encrypt_key_ok(pem: Seq<u8>) -> bool {
    &&& pem.len() <= i32::MAX
    &&& rsa_public_pem_valid(pem) ==> rsa_public_size(pem) <= 2048
}

/// Tells whether `key` can be handed to `rsa_encrypt`.
pub fn encrypt_key_fits(key: &str) -> (r: bool)
    ensures
        r == encrypt_key_ok(encode_utf8(key@)),
{
    let pem = key.as_bytes();
    if pem.len() > 0x7fff_ffff {
        return false;
    }
    match rsa_public_from_pem(pem) {
        Err(_) => true,
        Ok(k) => rsa_public_key_size(&k) <= 2048,
    }
}

} // verus!
