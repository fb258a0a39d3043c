//! Credential handling and request signing.
//!
//! A [`Robinhood`] value holds the API key, the base64-encoded 32-byte
//! Ed25519 signing key, and the public key. For each request the signer
//! builds the message `api_key + timestamp + path + method + body` — in that
//! exact order, with no separators — signs it with the Ed25519 key, and
//! returns the three authentication headers `x-api-key`, `x-timestamp` and
//! `x-signature`.

use crate::digits::{dec_rep, u64_to_dec_string};
use base64::Engine;
use ed25519_dalek::Signer;
use vstd::prelude::*;
use vstd::string::*;
use vstd::utf8::encode_utf8;

verus! {

/// What the base64 decoder returns for a string: the decoded bytes, or
/// nothing when the string is not valid standard-alphabet base64.
pub uninterp spec fn b64_decoded(s: Seq<char>) -> Option<Seq<u8>>;

/// What the base64 encoder returns for a byte sequence, standard alphabet
/// with padding.
pub uninterp spec fn b64_encoded(b: Seq<u8>) -> Seq<char>;

/// What Ed25519 signing returns for a 32-byte key and a message.
pub uninterp spec fn ed25519_sig(key: Seq<u8>, msg: Seq<u8>) -> Seq<u8>;

/// Relies on `base64::engine::general_purpose::STANDARD.decode`: decoding is
/// a function of the input string alone; it fails exactly on strings that
/// are not valid padded standard-alphabet base64.
#[verifier::external_body]
fn b64_decode(s: &str) -> (r: Option<Vec<u8>>)
    ensures
        match r {
            Some(v) => b64_decoded(s@) == Some(v@),
            None => b64_decoded(s@) is None,
        },
{
    base64::engine::general_purpose::STANDARD.decode(s).ok()
}

/// Relies on `base64::engine::general_purpose::STANDARD.encode`: encoding is
/// a function of the input bytes alone and emits four characters for every
/// started three-byte group (padding included).
#[verifier::external_body]
fn b64_encode(b: &[u8]) -> (r: String)
    ensures
        r@ == b64_encoded(b@),
        r@.len() == 4 * ((b@.len() + 2) / 3),
{
    base64::engine::general_purpose::STANDARD.encode(b)
}

/// Relies on `ed25519_dalek::SigningKey::from_bytes` and `Signer::sign`:
/// Ed25519 (RFC 8032) signing is deterministic — a function of the 32-byte
/// key and the message bytes alone — and produces a 64-byte signature.
#[verifier::external_body]
fn sign_ed25519(key: &[u8], msg: &str) -> (r: Vec<u8>)
    requires
        key@.len() == 32,
    ensures
        r@ == ed25519_sig(key@, encode_utf8(msg@)),
        r@.len() == 64,
{
    let mut key_bytes = [0u8; 32];
    key_bytes.copy_from_slice(key);
    let sk = ed25519_dalek::SigningKey::from_bytes(&key_bytes);
    sk.sign(msg.as_bytes()).to_bytes().to_vec()
}

/// Relies on `std::time::SystemTime::now` for the current wall-clock
/// instant, reduced to whole seconds since the Unix epoch (zero for a clock
/// set before it). Nothing is promised of the value: it depends on the
/// clock.
#[verifier::external_body]
fn now_unix_seconds() -> u64 {
    match std::time::SystemTime::now().duration_since(std::time::UNIX_EPOCH) {
        Ok(d) => d.as_secs(),
        Err(_) => 0,
    }
}

/// Why a credential could not be constructed.
#[derive(Clone, Copy, Debug, PartialEq, Eq, Structural)]
pub enum ConfigError {
    /// The signing key is not valid base64.
    KeyNotBase64,
    /// The signing key is valid base64 but does not decode to 32 bytes.
    KeyWrongLength,
}

/// API credentials and signing keys.
///
/// Construct with [`Robinhood::new`], which checks that the private signing
/// key decodes to exactly 32 bytes, and use [`Robinhood::auth_headers`] to
/// produce the headers for an authenticated request.
#[derive(Debug)]
pub struct Robinhood {
    pub api_key: String,
    pub signing_priv_b64: String,
    pub signing_public_key: String,
}

/// The message that is signed: `api_key`, the decimal timestamp, `path`,
/// `method` and `body`, concatenated in that order with no separators.
pub open spec fn signing_message(
    api_key: Seq<char>,
    ts: nat,
    path: Seq<char>,
    method: Seq<char>,
    body: Seq<char>,
) -> Seq<char> {
    api_key + dec_rep(ts) + path + method + body
}

/// The base64 signature string for a credential with key bytes `key`, at
/// timestamp `ts`, over a request's path, method and body.
pub open spec fn signature_b64(
    key: Seq<u8>,
    api_key: Seq<char>,
    ts: nat,
    path: Seq<char>,
    method: Seq<char>,
    body: Seq<char>,
) -> Seq<char> {
    b64_encoded(ed25519_sig(key, encode_utf8(signing_message(api_key, ts, path, method, body))))
}

/// The three authentication headers of one request, to be attached verbatim
/// as `x-api-key`, `x-timestamp` and `x-signature`.
pub struct AuthHeaders {
    pub api_key: String,
    pub timestamp: String,
    pub signature: String,
}

impl AuthHeaders {
    /// The headers a well-formed credential produces at timestamp `ts` for
    /// the given request descriptor.
    pub open spec fn is_for(&self, rh: &Robinhood, ts: nat, path: Seq<char>, method: Seq<char>, body: Seq<char>) -> bool {
        &&& self.api_key@ == rh.api_key@
        &&& self.timestamp@ == dec_rep(ts)
        &&& self.signature@ == signature_b64(rh.key_bytes(), rh.api_key@, ts, path, method, body)
    }

    /// The headers a well-formed credential produces for the given request
    /// descriptor at some timestamp.
    pub open spec fn is_for_some_ts(&self, rh: &Robinhood, path: Seq<char>, method: Seq<char>, body: Seq<char>) -> bool {
        exists|ts: nat| self.is_for(rh, ts, path, method, body)
    }
}

impl Robinhood {
    /// The stored private key decodes to exactly 32 bytes.
    pub open spec fn wf(&self) -> bool {
        &&& b64_decoded(self.signing_priv_b64@) matches Some(k)
        &&& b64_decoded(self.signing_priv_b64@)->Some_0.len() == 32
    }

    /// The raw 32 key bytes of a well-formed credential.
    pub open spec fn key_bytes(&self) -> Seq<u8>
        recommends
            self.wf(),
    {
        b64_decoded(self.signing_priv_b64@)->Some_0
    }

    /// Construct a credential, validating the signing key eagerly: the
    /// result is `Ok` exactly when the private key is base64 that decodes
    /// to 32 bytes, and each failure names its cause.
    pub fn new(api_key: String, signing_priv_b64: String, signing_public_key: String) -> (r:
        Result<Robinhood, ConfigError>)
        ensures
            match r {
                Ok(rh) => {
                    &&& rh.wf()
                    &&& rh.api_key@ == api_key@
                    &&& rh.signing_priv_b64@ == signing_priv_b64@
                    &&& rh.signing_public_key@ == signing_public_key@
                },
                Err(ConfigError::KeyNotBase64) => b64_decoded(signing_priv_b64@) is None,
                Err(ConfigError::KeyWrongLength) => {
                    &&& b64_decoded(signing_priv_b64@) matches Some(k)
                    &&& b64_decoded(signing_priv_b64@)->Some_0.len() != 32
                },
            },
    {
        match b64_decode(signing_priv_b64.as_str()) {
            None => Err(ConfigError::KeyNotBase64),
            Some(k) => {
                if k.len() != 32 {
                    Err(ConfigError::KeyWrongLength)
                } else {
                    Ok(Robinhood { api_key, signing_priv_b64, signing_public_key })
                }
            },
        }
    }

    /// Create the base64 signature and the timestamp string for a request,
    /// at the current wall-clock second.
    fn create_signature(&self, path: &str, method: &str, body: &str) -> (r: (String, String))
        requires
            self.wf(),
        ensures
            exists|ts: nat|
                {
                    &&& r.1@ == dec_rep(ts)
                    &&& r.0@ == signature_b64(self.key_bytes(), self.api_key@, ts, path@, method@, body@)
                },
    {
        let ts = now_unix_seconds();
        let sig = self.signature_at(ts, path, method, body);
        let ts_string = u64_to_dec_string(ts);
        (sig, ts_string)
    }

    /// The base64 signature for a request at a given timestamp.
    pub fn signature_at(&self, ts: u64, path: &str, method: &str, body: &str) -> (r: String)
        requires
            self.wf(),
        ensures
            r@ == signature_b64(self.key_bytes(), self.api_key@, ts as nat, path@, method@, body@),
    {
        let key = b64_decode(self.signing_priv_b64.as_str()).unwrap();
        let msg = build_signing_message(self.api_key.as_str(), ts, path, method, body);
        let sig_bytes = sign_ed25519(key.as_slice(), msg.as_str());
        b64_encode(sig_bytes.as_slice())
    }

    /// Build the three authentication headers for a request, signing at a
    /// given timestamp.
    pub fn auth_headers_at(&self, ts: u64, path: &str, method: &str, body: &str) -> (h: AuthHeaders)
        requires
            self.wf(),
        ensures
            h.is_for(self, ts as nat, path@, method@, body@),
    {
        let sig = self.signature_at(ts, path, method, body);
        let ts_string = u64_to_dec_string(ts);
        AuthHeaders { api_key: self.api_key.clone(), timestamp: ts_string, signature: sig }
    }

    /// Build the three authentication headers for a request, signing at the
    /// current wall-clock second.
    ///
    /// Parameters:
    /// - `path`: the request path beginning with `/`, query string included.
    /// - `method`: the HTTP verb, e.g. `GET` or `POST`.
    /// - `body`: the raw request body string, empty for bodyless requests.
    pub fn auth_headers(&self, path: &str, method: &str, body: &str) -> (h: AuthHeaders)
        requires
            self.wf(),
        ensures
            h.is_for_some_ts(self, path@, method@, body@),
    {
        let (sig, ts_string) = self.create_signature(path, method, body);
        let h = AuthHeaders { api_key: self.api_key.clone(), timestamp: ts_string, signature: sig };
        proof {
            let ts = choose|ts: nat|
                {
                    &&& h.timestamp@ == dec_rep(ts)
                    &&& h.signature@ == signature_b64(
                        self.key_bytes(),
                        self.api_key@,
                        ts,
                        path@,
                        method@,
                        body@,
                    )
                };
            assert(h.is_for(self, ts, path@, method@, body@));
        }
        h
    }

    /// Build the authentication headers after checking the stored key at
    /// run time: `None` exactly when the credential is not well formed.
    pub fn try_auth_headers(&self, path: &str, method: &str, body: &str) -> (r: Option<AuthHeaders>)
        ensures
            r is Some <==> self.wf(),
            r matches Some(h) ==> h.is_for_some_ts(self, path@, method@, body@),
    {
        match b64_decode(self.signing_priv_b64.as_str()) {
            None => None,
            Some(k) => {
                if k.len() != 32 {
                    None
                } else {
                    Some(self.auth_headers(path, method, body))
                }
            },
        }
    }
}

/// The exact message fed to the signer: `api_key + timestamp + path +
/// method + body`, with no inserted separators.
pub fn build_signing_message(api_key: &str, ts: u64, path: &str, method: &str, body: &str) -> (r:
    String)
    ensures
        r@ == signing_message(api_key@, ts as nat, path@, method@, body@),
{
    let mut m = String::from_str(api_key);
    let ts_string = u64_to_dec_string(ts);
    m.append(ts_string.as_str());
    m.append(path);
    m.append(method);
    m.append(body);
    m
}

/// Re-signing one request at two distinct timestamps yields two distinct
/// `x-timestamp` headers, and the two signatures cover two distinct
/// messages under the same message-construction rule.
pub proof fn lemma_resign_differs(
    h1: AuthHeaders,
    h2: AuthHeaders,
    rh: &Robinhood,
    ts1: nat,
    ts2: nat,
    path: Seq<char>,
    method: Seq<char>,
    body: Seq<char>,
)
    requires
        ts1 != ts2,
        h1.is_for(rh, ts1, path, method, body),
        h2.is_for(rh, ts2, path, method, body),
    ensures
        h1.timestamp@ != h2.timestamp@,
        signing_message(rh.api_key@, ts1, path, method, body) != signing_message(
            rh.api_key@,
            ts2,
            path,
            method,
            body,
        ),
{
    lemma_distinct_ts_distinct_message(rh.api_key@, ts1, ts2, path, method, body);
}

/// Distinct signing timestamps give distinct timestamp headers and distinct
/// signed messages, whatever the other fields are: the decimal
/// representation is injective, and it sits between fixed surroundings in
/// the message.
pub proof fn lemma_distinct_ts_distinct_message(
    api_key: Seq<char>,
    ts1: nat,
    ts2: nat,
    path: Seq<char>,
    method: Seq<char>,
    body: Seq<char>,
)
    requires
        ts1 != ts2,
    ensures
        dec_rep(ts1) != dec_rep(ts2),
        signing_message(api_key, ts1, path, method, body) != signing_message(
            api_key,
            ts2,
            path,
            method,
            body,
        ),
{
    if dec_rep(ts1) == dec_rep(ts2) {
        crate::digits::lemma_dec_rep_injective(ts1, ts2);
        assert(false);
    }
    let m1 = signing_message(api_key, ts1, path, method, body);
    let m2 = signing_message(api_key, ts2, path, method, body);
    let r1 = dec_rep(ts1);
    let r2 = dec_rep(ts2);
    if m1 == m2 {
        if r1.len() == r2.len() {
            assert(!(r1 =~= r2));
            let i = choose|i: int| 0 <= i < r1.len() && r1[i] != r2[i];
            assert(m1[api_key.len() + i] == r1[i]);
            assert(m2[api_key.len() + i] == r2[i]);
            assert(false);
        } else {
            assert(m1.len() != m2.len());
            assert(false);
        }
    }
}

} // verus!
