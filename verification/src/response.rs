use vstd::prelude::*;
use vstd::utf8::encode_utf8;

use crate::crypto::{
    encrypt_key_fits, encrypt_key_ok, pkey_private_pem_valid, rsa_encrypt_succeeds,
    rsa_pkcs1_ciphertext, rsa_public_pem_valid, rsa_public_size, sha256_signature_of,
    sha256_signer_valid, sign_buffer_len, signer_sign_valid, signer_update_valid, starts_with,
    pem_unencrypted, Crypto,
};
use crate::encoding::b64_encode;
use crate::error::HttpError;
use crate::input::Decrypted;
use crate::license::{plugin_models, scan_plugins, License, PluginsScan};
use crate::maps::{get_data_spec, get_m_spec};
use crate::text::push_str;

verus! {

/// Writes a value as JSON text, or gives the error of writing it.
pub trait ToJson {
    fn to_json(&self) -> Result<String, HttpError>;
}

/// The answer to a licensing request: the license, encrypted with an AES key
/// that is itself encrypted with the store's public key, and signed.
#[derive(Debug)]
pub struct HttpResponse {
    pub data: String,
    pub nonce: String,
    pub key: String,
    pub timestamp: String,
    pub signature: String,
}

/// The license of a request, or the error: the user's licenses map, read by
/// `init_license`.
pub open spec fn license_outcome(d: Decrypted) -> Result<crate::attr::MapModel, (u16, Seq<char>)> {
    get_m_spec(d.user_item->0.mv(), "licenses"@, "Error CLOR35"@)
}

/// What the response signs: the data, the nonce, the encrypted key and the
/// time, one after the other.
pub open spec fn signed_text(data: Seq<char>, nonce: Seq<char>, key: Seq<char>, time: Seq<char>) -> Seq<char> {
    data + nonce + key + time
}

/// The store's public key for the response can be used to encrypt the AES
/// key, where the company item holds it.
pub open spec fn response_key_ok(d: Decrypted) -> bool {
    get_data_spec(d.company_item->0.mv(), "publicKeyA"@, 's') matches Ok(pk) ==> encrypt_key_ok(encode_utf8(pk))
}

/// The signing step of `HttpResponse::new` once the AES key is encrypted as
/// `key`: the errors of signing with `private_key`, all with code 500, or the
/// response with the data, nonce, key and time and a SHA-256 signature of
/// the four in base64.
pub open spec fn signed_response(
    key: Seq<char>,
    data: Seq<char>,
    nonce: Seq<char>,
    time: Seq<char>,
    private_key: Seq<char>,
    r: Result<HttpResponse, HttpError>,
) -> bool {
    let pem = encode_utf8(private_key);
    let signed = encode_utf8(signed_text(data, nonce, key, time));
    if !pkey_private_pem_valid(pem) {
        r matches Err(e) && e.spec_code() == 500 && starts_with(e.spec_message(), "Error CLRS18e: "@)
    } else if !sha256_signer_valid(pem) {
        r matches Err(e) && e.is(500, "Error CLCR23"@)
    } else if !signer_update_valid(pem, Seq::empty(), signed) {
        r matches Err(e) && e.spec_code() == 500 && starts_with(e.spec_message(), "CLCR38: "@)
    } else if !signer_sign_valid(pem, signed, sign_buffer_len(pem) as nat) {
        r matches Err(e) && e.spec_code() == 500 && starts_with(e.spec_message(), "CLCR42: "@)
    } else {
        r matches Ok(resp) && {
            &&& resp.data@ == data
            &&& resp.nonce@ == nonce
            &&& resp.key@ == key
            &&& resp.timestamp@ == time
            &&& exists|sig: Seq<u8>| sha256_signature_of(pem, signed, sig) && resp.signature@ == #[trigger] b64_encode(sig)
        }
    }
}

/// What `HttpResponse::new` answers: 500 when the company item holds no
/// public key; 500 with `CCR78` when that key does not read and with `CCR84`
/// when it does not encrypt `aes_key`; otherwise, for an encryption of
/// `aes_key` under that key, what signing the response gives.
pub open spec fn response_spec(
    d: Decrypted,
    aes_key: Seq<u8>,
    data: Seq<char>,
    nonce: Seq<char>,
    time: Seq<char>,
    private_key: Seq<char>,
    r: Result<HttpResponse, HttpError>,
) -> bool {
    match get_data_spec(d.company_item->0.mv(), "publicKeyA"@, 's') {
        Err(_) => r matches Err(e) && e.is(500, "Error CLOR57s"@),
        Ok(pk) => {
            let pem = encode_utf8(pk);
            if !rsa_public_pem_valid(pem) {
                r matches Err(e) && e.spec_code() == 500 && starts_with(e.spec_message(), "Error CCR78: "@)
            } else if !rsa_encrypt_succeeds(pem, aes_key) {
                r matches Err(e) && e.spec_code() == 500 && starts_with(e.spec_message(), "Error CCR84: "@)
            } else {
                exists|ct: Seq<u8>|
                    #[trigger] rsa_pkcs1_ciphertext(pem, aes_key, ct) && ct.len() == rsa_public_size(pem)
                        && signed_response(b64_encode(ct), data, nonce, time, private_key, r)
            }
        },
    }
}

/// What went wrong in answering once the database was written: preparing
/// the response, or writing it as JSON.
#[derive(Debug)]
pub enum AfterWrite {
    Prepare(HttpError),
    ToJson(HttpError),
}

/// The message of a 202 answer: the request went through, but answering
/// failed at `stage` with `message`.
pub open spec fn went_through(stage: Seq<char>, message: Seq<char>) -> Seq<char> {
    "We encountered an error, but your request went through. Error "@ + stage + ":"@ + message
}

/// The status code and body answered once the database was written: 200
/// with the JSON of the response, or 202 saying that the request went
/// through (`CLM51g` when the response could not be prepared, `CLM53j` when
/// it could not be written as JSON).
pub fn answer_after_write(outcome: Result<String, AfterWrite>) -> (r: (u16, String))
    ensures
        match outcome {
            Ok(json) => r.0 == 200 && r.1@ == json@,
            Err(AfterWrite::Prepare(e)) => r.0 == 202 && r.1@ == went_through("CLM51g"@, e.spec_message()),
            Err(AfterWrite::ToJson(e)) => r.0 == 202 && r.1@ == went_through("CLM53j"@, e.spec_message()),
        },
{
    match outcome {
        Ok(json) => (200, json),
        Err(AfterWrite::Prepare(e)) => e._202("CLM51g").respond(),
        Err(AfterWrite::ToJson(e)) => e._202("CLM53j").respond(),
    }
}

impl HttpResponse {
    /// The license to answer with: code `license_code` and the plugins of the
    /// user's licenses.
    pub fn license(d: &Decrypted, license_code: &str) -> (r: Result<License, HttpError>)
        requires
            d.user_item is Some,
            license_outcome(*d) matches Ok(m) ==> !(scan_plugins(m) is Panics),
        ensures
            match license_outcome(*d) {
                Err(e) => r matches Err(x) && x.is(e.0, e.1),
                Ok(m) => match scan_plugins(m) {
                    PluginsScan::Added(ps) => r matches Ok(l) && l.code@ == license_code@ && plugin_models(l.plugins@) == ps,
                    PluginsScan::Failed(err) => r matches Err(x) && x.is(err.0, err.1),
                    PluginsScan::Panics => false,
                },
            },
    {
        let user = d.user_item.as_ref().unwrap();
        let user_licenses = match user.get_m("licenses", "Error CLOR35") {
            Err(e) => {
                return Err(e);
            },
            Ok(m) => m,
        };
        License::init_license(license_code, user_licenses)
    }

    /// The response for the license encrypted with AES (`aes_key`, `nonce`,
    /// `data`): the AES key encrypted with the company's public key, and the
    /// signature by `private_key` of the data, nonce, encrypted key and
    /// `time`.
    pub fn new(
        d: &Decrypted,
        aes_key: [u8; 16],
        nonce: String,
        data: String,
        time: String,
        private_key: &str,
    ) -> (r: Result<HttpResponse, HttpError>)
        requires
            d.company_item is Some,
            response_key_ok(*d),
            encode_utf8(private_key@).len() <= i32::MAX,
            pem_unencrypted(private_key@),
        ensures
            response_spec(*d, aes_key@, data@, nonce@, time@, private_key@, r),
    {
        let company = d.company_item.as_ref().unwrap();
        let pub_key = match company.get_data("publicKeyA", 's') {
            Err(_) => {
                return Err(HttpError::new(500, "Error CLOR57s"));
            },
            Ok(k) => k,
        };
        let aes_key_text = match pub_key.rsa_encrypt(aes_key) {
            Err(m) => {
                return Err(HttpError::with_message(crate::error::DEFAULT_ERROR_STATUS_CODE, m));
            },
            Ok(k) => k,
        };
        let ghost pem = encode_utf8(pub_key@);
        let ghost ct = choose|ct: Seq<u8>|
            rsa_pkcs1_ciphertext(pem, aes_key@, ct) && ct.len() == rsa_public_size(pem)
                && aes_key_text@ == #[trigger] b64_encode(ct);
        assert(rsa_pkcs1_ciphertext(pem, aes_key@, ct));
        let mut signed = data.clone();
        push_str(&mut signed, nonce.as_str());
        push_str(&mut signed, aes_key_text.as_str());
        push_str(&mut signed, time.as_str());
        assert(signed@ == signed_text(data@, nonce@, aes_key_text@, time@));
        let signature = match signed.sign(private_key) {
            Err(e) => {
                return Err(e);
            },
            Ok(s) => s,
        };
        let ghost (data_v, nonce_v, time_v) = (data@, nonce@, time@);
        let resp = HttpResponse { data, nonce, key: aes_key_text, timestamp: time, signature };
        assert(signed_response(b64_encode(ct), data_v, nonce_v, time_v, private_key@, Ok(resp)));
        Ok(resp)
    }
    /// `HttpResponse::new` where the company's public key fits; `None` where
    /// encrypting the AES key with it would not run to the end.
    pub fn new_checked(
        d: &Decrypted,
        aes_key: [u8; 16],
        nonce: String,
        data: String,
        time: String,
        private_key: &str,
    ) -> (r: Option<Result<HttpResponse, HttpError>>)
        requires
            d.company_item is Some,
            encode_utf8(private_key@).len() <= i32::MAX,
            pem_unencrypted(private_key@),
        ensures
            r is None <==> !response_key_ok(*d),
            r matches Some(x) ==> response_spec(*d, aes_key@, data@, nonce@, time@, private_key@, x),
    {
        let company = d.company_item.as_ref().unwrap();
        if let Ok(k) = company.get_data("publicKeyA", 's') {
            if !encrypt_key_fits(k.as_str()) {
                return None;
            }
        }
        Some(HttpResponse::new(d, aes_key, nonce, data, time, private_key))
    }
}

} // verus!
