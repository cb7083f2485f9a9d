use create_license::attr::AttrMap;
use create_license::crypto::{
    encrypt_key_fits, is_unencrypted_pem, signature_is_checkable, validate_key_size, verify_signature, verify_signature_checked, Crypto,
    Hashing,
};
use create_license::encoding::{to_lower_hex, Base64String, Base64Vec};
use create_license::input::Decrypted;
use create_license::error::HttpError;
use create_license::response::{answer_after_write, AfterWrite, HttpResponse};
use create_license::maps::S;
use openssl::hash::MessageDigest;
use openssl::pkey::PKey;
use openssl::rsa::{Padding, Rsa};
use openssl::sign::{Signer, Verifier};
use sha3::{Digest, Sha3_512};

fn key_pair(bits: u32) -> (String, String, Rsa<openssl::pkey::Private>) {
    let rsa = Rsa::generate(bits).unwrap();
    let private = String::from_utf8(rsa.private_key_to_pem().unwrap()).unwrap();
    let public = String::from_utf8(rsa.public_key_to_pem().unwrap()).unwrap();
    (private, public, rsa)
}

fn b64(bytes: &[u8]) -> String {
    bytes.to_base64()
}

#[test]
fn to_base64_encodes_with_padding() {
    assert_eq!(b"hello".to_vec().to_base64(), "aGVsbG8=");
    assert_eq!(b"hi".to_vec().to_base64(), "aGk=");
    assert_eq!(b"abc".to_vec().to_base64(), "YWJj");
    assert_eq!(Vec::<u8>::new().to_base64(), "");
    assert_eq!(b64(&[0xfb, 0xff]), "+/8=");
}

#[test]
fn from_base64_round_trip() {
    let bytes: Vec<u8> = (0u8..=255).collect();
    let text = bytes.to_base64();
    assert_eq!(text.from_base64().unwrap(), bytes);
    assert_eq!("aGVsbG8=".from_base64().unwrap(), b"hello".to_vec());
}

#[test]
fn from_base64_errors_name_the_problem() {
    let e = "a!AA".from_base64().unwrap_err();
    assert_eq!(e.code(), 500);
    assert_eq!(e.message(), "Error CLV27: Invalid byte 33, offset 1.");
    let e2 = "aGVsbG8".to_string().from_base64().unwrap_err();
    assert!(e2.message().starts_with("Error CLV27: "));
    let e3 = "aGk".from_base64().unwrap_err();
    assert!(e3.message().starts_with("Error CLV27: "));
}

#[test]
fn lower_hex_of_bytes() {
    assert_eq!(to_lower_hex(&[0x00, 0x0f, 0xa5, 0xff]), "000fa5ff");
    assert_eq!(to_lower_hex(&[]), "");
}

#[test]
fn to_hash_is_sha256() {
    let h = "abc".to_hash();
    assert_eq!(to_lower_hex(&h), "ba7816bf8f01cfea414140de5dae2223b00361a396177a9cb410ff61f20015ad");
    assert_eq!(String::from("abc").to_hash(), h);
}

fn identity(s: String) -> String {
    s
}

#[test]
fn hash_email_hashes_cleaned_salted_address() {
    let h = "j.o.h.n+x@gmail.com".hash_email(&identity);
    let expected = format!("{:x}", Sha3_512::digest(b"john@gmail.com"));
    assert_eq!(h, expected);
    assert_eq!(h.len(), 128);
    let salted = String::from("john@gmail.com").hash_email(&|s: String| format!("{}#salt", s));
    assert_eq!(salted, format!("{:x}", Sha3_512::digest(b"john@gmail.com#salt")));
}

#[test]
fn sign_produces_sha256_rsa_signature() {
    let (private, public, _) = key_pair(2048);
    let text = "data-nonce-key-time".to_string();
    let sig = text.sign(&private).unwrap();
    let raw = sig.from_base64().unwrap();
    assert_eq!(raw.len(), 256);
    let pkey = PKey::public_key_from_pem(public.as_bytes()).unwrap();
    let mut verifier = Verifier::new(MessageDigest::sha256(), &pkey).unwrap();
    verifier.update(text.as_bytes()).unwrap();
    assert!(verifier.verify(&raw).unwrap());
}

#[test]
fn sign_with_bad_key_errs() {
    let e = "x".to_string().sign("not a key").unwrap_err();
    assert_eq!(e.code(), 500);
    assert!(e.message().starts_with("Error CLRS18e: "));
}

#[test]
fn rsa_encrypt_then_private_decrypt() {
    let (_, public, rsa) = key_pair(2048);
    let data = [7u8; 16];
    let encoded = public.rsa_encrypt(data).unwrap();
    let buf = encoded.from_base64().unwrap();
    assert_eq!(buf.len(), 256);
    let mut out = vec![0u8; 256];
    let n = rsa.private_decrypt(&buf, &mut out, Padding::PKCS1).unwrap();
    assert_eq!(&out[..n], &data);
    let e = "not a key".to_string().rsa_encrypt(data).unwrap_err();
    assert!(e.starts_with("Error CCR78: "));
}

#[test]
fn rsa_decrypt_recovers_the_key() {
    let (private, _, rsa) = key_pair(2048);
    let secret = [42u8; 16];
    let mut enc = vec![0u8; 256];
    let n = rsa.public_encrypt(&secret, &mut enc, Padding::PKCS1).unwrap();
    let text = enc[..n].to_vec().to_base64();
    let buf = text.rsa_decrypt(&private).unwrap();
    assert_eq!(buf, secret.to_vec());
}

#[test]
fn rsa_encrypt_then_rsa_decrypt_round_trip() {
    let (private, public, _) = key_pair(2048);
    let secret = [3u8; 16];
    let encoded = public.rsa_encrypt(secret).unwrap();
    assert_eq!(encoded.rsa_decrypt(&private).unwrap(), secret.to_vec());
}

#[test]
fn unencrypted_pem_is_told_apart() {
    let (private, _, rsa) = key_pair(2048);
    assert!(is_unencrypted_pem(&private));
    let locked = rsa
        .private_key_to_pem_passphrase(openssl::symm::Cipher::aes_128_cbc(), b"secret")
        .unwrap();
    assert!(!is_unencrypted_pem(&String::from_utf8(locked).unwrap()));
    let pkey = PKey::from_rsa(rsa).unwrap();
    let pkcs8 = pkey
        .private_key_to_pem_pkcs8_passphrase(openssl::symm::Cipher::aes_128_cbc(), b"secret")
        .unwrap();
    assert!(!is_unencrypted_pem(&String::from_utf8(pkcs8).unwrap()));
}

#[test]
fn rsa_decrypt_errors_have_code_zero() {
    let (private, _, _) = key_pair(2048);
    let e = "abc".to_string().rsa_decrypt("nope").unwrap_err();
    assert_eq!(e.code(), 0);
    assert!(e.message().starts_with("Error R41: "));
    let e2 = "!AAA".to_string().rsa_decrypt(&private).unwrap_err();
    assert_eq!(e2.code(), 0);
    assert_eq!(
        e2.message(),
        "Error A41: HttpError { code: 500, message: \"Error CLV27: Invalid byte 33, offset 0.\" }"
    );
    let e3 = "AAAA".to_string().rsa_decrypt(&private).unwrap_err();
    assert!(e3.message().starts_with("Error R57: "));
}

fn sign_digest(rsa: &Rsa<openssl::pkey::Private>, stuff: &str) -> String {
    let digest = openssl::sha::sha256(stuff.as_bytes());
    let pkey = PKey::from_rsa(rsa.clone()).unwrap();
    let mut signer = Signer::new(MessageDigest::sha256(), &pkey).unwrap();
    signer.update(&digest).unwrap();
    signer.sign_to_vec().unwrap().to_base64()
}

#[test]
fn verify_signature_checks_signature_of_digest() {
    let (_, public, rsa) = key_pair(2048);
    let stuff = "companyproductsorder";
    let sig = sign_digest(&rsa, stuff);
    assert!(signature_is_checkable(&public, stuff, &sig));
    assert!(verify_signature(&public, stuff, &sig).is_ok());
    let e = verify_signature(&public, "other", &sig).unwrap_err();
    assert_eq!((e.code(), e.message()), (403, "You shall not pass"));
    let e2 = verify_signature(&public, stuff, "!!!").unwrap_err();
    assert_eq!((e2.code(), e2.message()), (400, "Error: Signature must be base64 encoded."));
}

#[test]
fn verify_signature_checked_refuses_bad_keys() {
    assert!(verify_signature_checked("not a key", "x", "AAAA").is_none());
    let (_, public, rsa) = key_pair(2048);
    let sig = sign_digest(&rsa, "x");
    assert!(verify_signature_checked(&public, "x", &sig).unwrap().is_ok());
}

#[test]
fn verify_signature_db_uses_company_key() {
    let (_, public, rsa) = key_pair(2048);
    let mut d = Decrypted {
        company: "COMPANY1234".to_string(),
        uuid: "UUID-12345678".to_string(),
        plugins: vec![],
        order_id: "O".to_string(),
        first_name: None,
        last_name: None,
        email: None,
        user_item: None,
        company_item: None,
        plugin_items: None,
        license_index: None,
        license_item: None,
    };
    d.company_item = Some(AttrMap::new_map(vec![("publicKey", public.as_str())]));
    let sig = sign_digest(&rsa, "stuff");
    assert!(d.verify_signature_db(&sig, "stuff").is_ok());
    assert_eq!(d.verify_signature_db_checked(&sig, "other").unwrap().unwrap_err().code(), 403);
}

#[test]
fn validate_key_size_checks_bits() {
    let (_, public, _) = key_pair(2048);
    assert!(validate_key_size(&public, 2048).is_ok());
    assert_eq!(validate_key_size(&public, 4096).unwrap_err(), "Error CCR18: Key needs to be 4096 bits");
    assert!(validate_key_size("junk", 2048).is_err());
    assert!(encrypt_key_fits(&public));
}

fn response_request(public: &str) -> Decrypted {
    let mut licenses = AttrMap::new();
    let mut entry = AttrMap::new();
    entry.insert_data("maxMachines", "2", create_license::maps::N);
    entry.insert_data("license_type", "perpetual", S);
    entry.insert_map("machines", None);
    licenses.insert_map("p1", Some(entry));
    let mut user = AttrMap::new();
    user.insert_map("licenses", Some(licenses));
    Decrypted {
        company: "COMPANY1234".to_string(),
        uuid: "UUID-12345678".to_string(),
        plugins: vec![],
        order_id: "O".to_string(),
        first_name: None,
        last_name: None,
        email: None,
        user_item: Some(user),
        company_item: Some(AttrMap::new_map(vec![("publicKeyA", public)])),
        plugin_items: None,
        license_index: Some("IDX".to_string()),
        license_item: None,
    }
}

#[test]
fn response_license_reads_user_licenses() {
    let d = response_request("k");
    let l = HttpResponse::license(&d, "CODE").unwrap();
    assert_eq!(l.code, "CODE");
    assert_eq!(l.plugins.len(), 1);
    assert_eq!(l.plugins[0].license_type, "perpetual");
    let mut d2 = response_request("k");
    d2.user_item = Some(AttrMap::new());
    let e = HttpResponse::license(&d2, "CODE").unwrap_err();
    assert_eq!(e.message(), "Error M24, Error CLOR35");
}

#[test]
fn response_is_encrypted_and_signed() {
    let (company_private, company_public, company_rsa) = key_pair(2048);
    let (our_private, our_public, _) = key_pair(2048);
    let d = response_request(&company_public);
    let aes_key = [9u8; 16];
    let resp = HttpResponse::new(&d, aes_key, "NONCE".to_string(), "DATA".to_string(), "1700000000".to_string(), &our_private)
        .unwrap();
    assert_eq!(resp.data, "DATA");
    assert_eq!(resp.nonce, "NONCE");
    assert_eq!(resp.timestamp, "1700000000");
    let buf = resp.key.from_base64().unwrap();
    assert_eq!(buf.len(), 256);
    assert_eq!(resp.key.rsa_decrypt(&company_private).unwrap(), aes_key.to_vec());
    let mut out = vec![0u8; 256];
    let n = company_rsa.private_decrypt(&buf, &mut out, Padding::PKCS1).unwrap();
    assert_eq!(&out[..n], &aes_key);
    let signed = format!("{}{}{}{}", resp.data, resp.nonce, resp.key, resp.timestamp);
    let pkey = PKey::public_key_from_pem(our_public.as_bytes()).unwrap();
    let mut verifier = Verifier::new(MessageDigest::sha256(), &pkey).unwrap();
    verifier.update(signed.as_bytes()).unwrap();
    assert!(verifier.verify(&resp.signature.from_base64().unwrap()).unwrap());
}

#[test]
fn response_without_company_key_errs() {
    let mut d = response_request("k");
    d.company_item = Some(AttrMap::new());
    let (private, _, _) = key_pair(2048);
    let e = HttpResponse::new(&d, [0u8; 16], "N".to_string(), "D".to_string(), "T".to_string(), &private).unwrap_err();
    assert_eq!((e.code(), e.message()), (500, "Error CLOR57s"));
    let (_, big_public, _) = key_pair(2048);
    let ok = HttpResponse::new_checked(&response_request(&big_public), [0u8; 16], "N".to_string(), "D".to_string(), "T".to_string(), &private);
    assert!(ok.unwrap().is_ok());
}

#[test]
fn equivalent_gmail_addresses_hash_the_same() {
    let a = "j.o.h.n+x@gmail.com".hash_email(&identity);
    let b = "john@gmail.com".hash_email(&identity);
    assert_eq!(a, b);
    let c = "john@example.com".hash_email(&identity);
    assert_ne!(a, c);
}

#[test]
fn from_base64_refuses_discarded_bits() {
    let e = "aGl=".from_base64().unwrap_err();
    assert_eq!(e.code(), 500);
    assert!(e.message().starts_with("Error CLV27: Invalid last symbol"));
}

#[test]
fn answer_after_write_says_request_went_through() {
    assert_eq!(answer_after_write(Ok("{}".to_string())), (200, "{}".to_string()));
    let (code, body) = answer_after_write(Err(AfterWrite::Prepare(HttpError::new(500, "Error CLOR57s"))));
    assert_eq!(code, 202);
    assert_eq!(body, "We encountered an error, but your request went through. Error CLM51g:Error CLOR57s");
    let (code2, body2) = answer_after_write(Err(AfterWrite::ToJson(HttpError::new(500, "error CLT15: x"))));
    assert_eq!(code2, 202);
    assert_eq!(body2, "We encountered an error, but your request went through. Error CLM53j:error CLT15: x");
}
