//! The WeChat Work side of the hub: checking the signature of a callback URL,
//! decrypting the message it carries, and the decisions around the API's
//! access token and its replies.
use aes::cipher::block_padding::Pkcs7;
use aes::cipher::{BlockDecryptMut, KeyIvInit};
use aes::Aes256;
use base64::engine::{general_purpose, GeneralPurpose};
use base64::{alphabet, Engine};
use sha1_smol::Sha1;
use vstd::prelude::*;
use vstd::utf8::{decode_utf8, encode_utf8, valid_utf8};

use crate::auth::AccessToken;
use crate::lexicographic::{byte_views, lemma_lex_total_ordering, lex_leq, sort_bytes};
use vstd::relations::sorted_by;
use vstd::seq_lib::lemma_sorted_unique;

verus! {

/// What the API answers to a request for an access token.
#[derive(Debug, Clone, PartialEq, Eq)]
pub struct GetTokenResult {
    pub errcode: i32,
    pub errmsg: String,
    pub access_token: String,
    pub expires_in: i64,
}

/// What the API answers to a message that was sent.
#[derive(Debug, Clone, PartialEq, Eq)]
pub struct SendMessageResult {
    pub errcode: i32,
    pub errmsg: String,
    pub invaliduser: Option<String>,
    pub invalidparty: Option<String>,
    pub invalidtag: Option<String>,
    pub unlicenseduser: Option<String>,
    pub msgid: Option<String>,
    pub response_code: Option<String>,
}

impl SendMessageResult {
    /// The API reports success with error code 0.
    pub fn is_success(&self) -> (r: bool)
        ensures
            r == (self.errcode == 0),
    {
        self.errcode == 0
    }
}

/// A decrypted callback message: its content and the id of the receiver it
/// was meant for.
#[derive(Debug, Clone, PartialEq, Eq)]
pub struct DecryptMessage {
    pub content: String,
    pub from_receive_id: String,
}

/// The client of the WeChat Work API.
#[derive(Debug, Clone, Copy, Default)]
pub struct WxCorpService {}

/// The cache key under which the access token is kept.
pub const ACCESS_TOKEN_CACHE_KEY: &'static str = "App:MessageHub:AccessToken:WxCorp";

/// How long, in seconds, a cached access token is kept: one day.
pub const ACCESS_TOKEN_CACHE_TTL_SECS: u64 = 86400;

/// The largest number of seconds that `chrono::Duration::seconds` accepts.
pub const MAX_DURATION_SECS: i64 = 9223372036854775;

/// The Unix time of the earliest instant that `chrono::DateTime<Utc>` holds.
pub const MIN_UTC_TIMESTAMP: i64 = -8334601315200;

/// The Unix time of the latest instant that `chrono::DateTime<Utc>` holds.
pub const MAX_UTC_TIMESTAMP: i64 = 8210266876799;

/// The expiry of a token granted `expires_in` seconds of life at Unix time
/// `now`.
pub open spec fn fresh_token_expiry(now: i64, expires_in: i64) -> int {
    now + expires_in
}

/// The cached token if it is still valid at Unix time `now`.
pub open spec fn usable_token(cached: Option<AccessToken>, now: i64) -> Option<AccessToken> {
    match cached {
        Some(token) => if now < token.expires {
            Some(token)
        } else {
            None
        },
        None => None,
    }
}

impl WxCorpService {
    /// The access token that a token reply grants at Unix time `now`: it
    /// expires `expires_in` seconds later. The inputs left out are those on
    /// which the clock arithmetic overflows.
    pub fn access_token_from_reply(reply: &GetTokenResult, now: i64) -> (r: AccessToken)
        requires
            -MAX_DURATION_SECS <= reply.expires_in <= MAX_DURATION_SECS,
            MIN_UTC_TIMESTAMP <= now + reply.expires_in <= MAX_UTC_TIMESTAMP,
        ensures
            r.access_token@ == reply.access_token@,
            r.expires == fresh_token_expiry(now, reply.expires_in),
    {
        AccessToken { access_token: reply.access_token.clone(), expires: now + reply.expires_in }
    }

    /// The cached access token if it is still valid at Unix time `now`;
    /// `None` where a new one has to be fetched.
    pub fn usable_access_token(cached: Option<AccessToken>, now: i64) -> (r: Option<AccessToken>)
        ensures
            r == usable_token(cached, now),
    {
        match cached {
            Some(token) => if token.expires <= now {
                None
            } else {
                Some(token)
            },
            None => None,
        }
    }
}

// ---------------------------------------------------------------------------
// Outside computations
// ---------------------------------------------------------------------------

/// The lowercase hexadecimal SHA-1 digest of `data`, as `sha1_smol` prints it.
pub uninterp spec fn sha1_hex(data: Seq<u8>) -> Seq<char>;

/// Forty lowercase hexadecimal digits, the form of a SHA-1 digest.
pub open spec fn is_sha1_hex_text(t: Seq<char>) -> bool {
    t.len() == 40 && forall|i: int| 0 <= i < 40 ==> ('0' <= #[trigger] t[i] <= '9' || 'a' <= t[i] <= 'f')
}

/// Digest of `sha1_smol::Sha1` (`default`, `update`, `digest`) printed
/// through its `Display` impl. Claimed: the text is `sha1_hex` of the bytes,
/// and it is 40 lowercase hexadecimal digits (five words printed with
/// `{:08x}`).
#[verifier::external_body]
fn sha1_hex_digest(data: &[u8]) -> (r: String)
    ensures
        r@ == sha1_hex(data@),
        is_sha1_hex_text(r@),
{
    let mut hasher = Sha1::default();
    hasher.update(data);
    hasher.digest().to_string()
}

/// What `base64`'s standard engine with the `NO_PAD` config decodes from the
/// bytes of `text` (`None` where it reports an error).
pub uninterp spec fn base64_decoded_unpadded(text: Seq<char>) -> Option<Seq<u8>>;

/// What `base64`'s standard engine with the `PAD` config (canonical padding
/// required) decodes from the bytes of `text` (`None` where it reports an
/// error).
pub uninterp spec fn base64_decoded_padded(text: Seq<char>) -> Option<Seq<u8>>;

/// `Engine::decode` of `GeneralPurpose::new(&alphabet::STANDARD, NO_PAD)`.
/// Claimed: the outcome is a function of the text alone, named
/// `base64_decoded_unpadded`; the error becomes `None`.
#[verifier::external_body]
fn base64_decode_unpadded(text: &str) -> (r: Option<Vec<u8>>)
    ensures
        r.deep_view() == base64_decoded_unpadded(text@),
{
    GeneralPurpose::new(&alphabet::STANDARD, general_purpose::NO_PAD).decode(text).ok()
}

/// `Engine::decode` of `GeneralPurpose::new(&alphabet::STANDARD, PAD)`.
/// Claimed: the outcome is a function of the text alone, named
/// `base64_decoded_padded`; the error becomes `None`.
#[verifier::external_body]
fn base64_decode_padded(text: &str) -> (r: Option<Vec<u8>>)
    ensures
        r.deep_view() == base64_decoded_padded(text@),
{
    GeneralPurpose::new(&alphabet::STANDARD, general_purpose::PAD).decode(text).ok()
}

/// The plaintext that AES-256 in CBC mode with PKCS#7 padding recovers from
/// `data` under `key` and `iv` (`None` where unpadding fails).
pub uninterp spec fn aes256_cbc_decrypted(key: Seq<u8>, iv: Seq<u8>, data: Seq<u8>) -> Option<
    Seq<u8>,
>;

/// `cbc::Decryptor::<aes::Aes256>::new_from_slices` followed by
/// `decrypt_padded_vec_mut::<Pkcs7>`. Claimed: with a 32-byte key and a
/// 16-byte iv (the lengths `new_from_slices` accepts) the outcome is named
/// `aes256_cbc_decrypted`, and, as `cipher` documents, input whose length is
/// not a multiple of the block size is refused.
#[verifier::external_body]
fn aes256_cbc_decrypt(key: &[u8], iv: &[u8], data: &[u8]) -> (r: Option<Vec<u8>>)
    requires
        key@.len() == 32,
        iv@.len() == 16,
    ensures
        r.deep_view() == aes256_cbc_decrypted(key@, iv@, data@),
        data@.len() % 16 != 0 ==> r is None,
{
    match cbc::Decryptor::<Aes256>::new_from_slices(key, iv) {
        Ok(cipher) => cipher.decrypt_padded_vec_mut::<Pkcs7>(data).ok(),
        Err(_) => None,
    }
}

/// The text that `String::from_utf8_lossy` makes of `bytes`.
pub uninterp spec fn utf8_lossy(bytes: Seq<u8>) -> Seq<char>;

/// `String::from_utf8_lossy`, made owned. Claimed: the text is named
/// `utf8_lossy`, and valid UTF-8 is decoded unchanged, as std documents.
#[verifier::external_body]
fn from_utf8_lossy(bytes: &[u8]) -> (r: String)
    ensures
        r@ == utf8_lossy(bytes@),
        valid_utf8(bytes@) ==> r@ == decode_utf8(bytes@),
{
    String::from_utf8_lossy(bytes).into_owned()
}

// ---------------------------------------------------------------------------
// The decrypted frame: 16 random bytes, a 4-byte big-endian message length,
// the message, and the receiver id.
// ---------------------------------------------------------------------------

/// The number that four bytes spell in big-endian order.
pub open spec fn be_u32_value(b0: u8, b1: u8, b2: u8, b3: u8) -> nat {
    (b0 as nat) * 16777216 + (b1 as nat) * 65536 + (b2 as nat) * 256 + (b3 as nat)
}

/// The message length that a frame declares.
pub open spec fn frame_length(plain: Seq<u8>) -> nat
    recommends
        plain.len() >= 20,
{
    be_u32_value(plain[16], plain[17], plain[18], plain[19])
}

/// A frame holds the random prefix, the length, and at least as many message
/// bytes as the length declares.
pub open spec fn frame_is_valid(plain: Seq<u8>) -> bool {
    plain.len() >= 20 && 20 + frame_length(plain) <= plain.len()
}

/// The message bytes of a valid frame.
pub open spec fn frame_message(plain: Seq<u8>) -> Seq<u8> {
    plain.subrange(20, 20 + frame_length(plain) as int)
}

/// The receiver id bytes of a valid frame: all that follows the message.
pub open spec fn frame_receive_id(plain: Seq<u8>) -> Seq<u8> {
    plain.subrange(20 + frame_length(plain) as int, plain.len() as int)
}

/// The message that a decrypted frame carries, both parts decoded as
/// `String::from_utf8_lossy` decodes them.
pub open spec fn frame_decoded(plain: Seq<u8>) -> (Seq<char>, Seq<char>) {
    (utf8_lossy(frame_message(plain)), utf8_lossy(frame_receive_id(plain)))
}

/// Splits a decrypted frame into its message and receiver id bytes; `None`
/// where the frame is too short for the length it declares.
pub fn split_frame(plain: &[u8]) -> (r: Option<(&[u8], &[u8])>)
    ensures
        r is Some <==> frame_is_valid(plain@),
        r matches Some((m, id)) ==> m@ == frame_message(plain@) && id@ == frame_receive_id(plain@),
{
    if plain.len() < 20 {
        return None;
    }
    let length: u32 = (plain[16] as u32) * 16777216 + (plain[17] as u32) * 65536 + (plain[18] as u32)
        * 256 + (plain[19] as u32);
    let length = length as usize;
    if length > plain.len() - 20 {
        return None;
    }
    let end = 20 + length;
    Some((&plain[20..end], &plain[end..plain.len()]))
}

/// Decodes the message that a decrypted frame carries.
pub fn message_from_frame(plain: &[u8]) -> (r: DecryptMessage)
    requires
        frame_is_valid(plain@),
    ensures
        (r.content@, r.from_receive_id@) == frame_decoded(plain@),
        valid_utf8(frame_message(plain@)) ==> r.content@ == decode_utf8(frame_message(plain@)),
        valid_utf8(frame_receive_id(plain@)) ==> r.from_receive_id@ == decode_utf8(
            frame_receive_id(plain@),
        ),
{
    let (message, receive_id) = split_frame(plain).unwrap();
    DecryptMessage { content: from_utf8_lossy(message), from_receive_id: from_utf8_lossy(receive_id) }
}

// ---------------------------------------------------------------------------
// Decryption of a callback message
// ---------------------------------------------------------------------------

/// The plaintext of `text` under the `EncodingAESKey` `aes_key`: the key is
/// unpadded Base64 of 32 bytes whose first 16 bytes are the iv, the text is
/// padded Base64 of the AES-256-CBC ciphertext. `None` where any step fails.
pub open spec fn decrypted_plaintext(aes_key: Seq<char>, text: Seq<char>) -> Option<Seq<u8>> {
    match base64_decoded_unpadded(aes_key) {
        Some(key) => if key.len() == 32 {
            match base64_decoded_padded(text) {
                Some(encrypted) => aes256_cbc_decrypted(key, key.subrange(0, 16), encrypted),
                None => None,
            }
        } else {
            None
        },
        None => None,
    }
}

/// `text` decrypts under `aes_key` into a valid frame.
pub open spec fn is_decryptable(aes_key: Seq<char>, text: Seq<char>) -> bool {
    decrypted_plaintext(aes_key, text) matches Some(plain) && frame_is_valid(plain)
}

/// The decrypted frame of `text` under `aes_key`.
pub open spec fn decrypted_frame(aes_key: Seq<char>, text: Seq<char>) -> Seq<u8>
    recommends
        is_decryptable(aes_key, text),
{
    decrypted_plaintext(aes_key, text)->0
}

/// The message that `text` carries under `aes_key`.
pub open spec fn decrypted_message(aes_key: Seq<char>, text: Seq<char>) -> (Seq<char>, Seq<char>)
    recommends
        is_decryptable(aes_key, text),
{
    frame_decoded(decrypted_plaintext(aes_key, text)->0)
}

fn decrypt_plaintext(aes_key: &str, text: &str) -> (r: Option<Vec<u8>>)
    ensures
        r.deep_view() == decrypted_plaintext(aes_key@, text@),
{
    let key = match base64_decode_unpadded(aes_key) {
        Some(key) => key,
        None => return None,
    };
    proof {
        assert(key.deep_view() =~= key@);
    }
    if key.len() != 32 {
        return None;
    }
    let iv = &key.as_slice()[0..16];
    let encrypted = match base64_decode_padded(text) {
        Some(encrypted) => encrypted,
        None => return None,
    };
    proof {
        assert(encrypted.deep_view() =~= encrypted@);
    }
    let plain = aes256_cbc_decrypt(key.as_slice(), iv, encrypted.as_slice());
    proof {
        if let Some(p) = &plain {
            assert(p.deep_view() =~= p@);
        }
    }
    plain
}

/// Decrypts a callback message, or gives `None` where `decrypt` would have no
/// result (a key that is not Base64 of 32 bytes, a text that is not Base64,
/// a ciphertext that does not unpad, or a frame too short for its length).
pub fn try_decrypt(aes_key: &str, text: &str) -> (r: Option<DecryptMessage>)
    ensures
        r is Some <==> is_decryptable(aes_key@, text@),
        r matches Some(m) ==> (m.content@, m.from_receive_id@) == decrypted_message(
            aes_key@,
            text@,
        ),
        r matches Some(m) ==> (valid_utf8(frame_message(decrypted_frame(aes_key@, text@)))
            ==> m.content@ == decode_utf8(frame_message(decrypted_frame(aes_key@, text@)))),
        r matches Some(m) ==> (valid_utf8(frame_receive_id(decrypted_frame(aes_key@, text@)))
            ==> m.from_receive_id@ == decode_utf8(
            frame_receive_id(decrypted_frame(aes_key@, text@)),
        )),
{
    let plain = match decrypt_plaintext(aes_key, text) {
        Some(plain) => plain,
        None => return None,
    };
    proof {
        assert(plain.deep_view() =~= plain@);
    }
    match split_frame(plain.as_slice()) {
        Some(_) => Some(message_from_frame(plain.as_slice())),
        None => None,
    }
}

/// Decrypts a callback message `text` with the `EncodingAESKey` `aes_key`.
pub fn decrypt(aes_key: &str, text: &str) -> (r: DecryptMessage)
    requires
        is_decryptable(aes_key@, text@),
    ensures
        (r.content@, r.from_receive_id@) == decrypted_message(aes_key@, text@),
        valid_utf8(frame_message(decrypted_frame(aes_key@, text@))) ==> r.content@ == decode_utf8(
            frame_message(decrypted_frame(aes_key@, text@)),
        ),
        valid_utf8(frame_receive_id(decrypted_frame(aes_key@, text@))) ==> r.from_receive_id@
            == decode_utf8(frame_receive_id(decrypted_frame(aes_key@, text@))),
{
    try_decrypt(aes_key, text).unwrap()
}

// ---------------------------------------------------------------------------
// Verification of a callback URL
// ---------------------------------------------------------------------------

/// The parts sorted into lexicographic order and joined into one byte string.
pub open spec fn sorted_join(parts: Seq<Seq<u8>>) -> Seq<u8> {
    parts.sort_by(lex_leq()).flatten()
}

/// The signature of a callback URL: the SHA-1 digest of its token,
/// timestamp, nonce and echo string, sorted and joined.
pub open spec fn url_signature(
    token: Seq<char>,
    time_stamp: Seq<char>,
    nonce: Seq<char>,
    echo_str: Seq<char>,
) -> Seq<char> {
    sha1_hex(
        sorted_join(
            seq![encode_utf8(token), encode_utf8(time_stamp), encode_utf8(nonce), encode_utf8(echo_str)],
        ),
    )
}

/// The error that a signature mismatch is answered with.
pub open spec fn signature_error_text() -> Seq<char> {
    "AesException.ValidateSignatureError"@
}

/// The answer to the verification request of a callback URL: the decrypted
/// echo string where `msg_signature` is the URL's signature, otherwise the
/// signature error.
pub open spec fn url_verification(
    msg_signature: Seq<char>,
    token: Seq<char>,
    time_stamp: Seq<char>,
    nonce: Seq<char>,
    echo_str: Seq<char>,
    aes_key: Seq<char>,
) -> Result<Seq<char>, Seq<char>> {
    if url_signature(token, time_stamp, nonce, echo_str) == msg_signature {
        Ok(decrypted_message(aes_key, echo_str).0)
    } else {
        Err(signature_error_text())
    }
}

/// The views of a verification answer.
pub open spec fn answer_view(r: Result<String, String>) -> Result<Seq<char>, Seq<char>> {
    match r {
        Ok(c) => Ok(c@),
        Err(e) => Err(e@),
    }
}

fn compute_url_signature(token: &str, time_stamp: &str, nonce: &str, echo_str: &str) -> (r: String)
    ensures
        r@ == url_signature(token@, time_stamp@, nonce@, echo_str@),
        is_sha1_hex_text(r@),
{
    let mut args: Vec<&[u8]> = Vec::new();
    args.push(token.as_bytes());
    args.push(time_stamp.as_bytes());
    args.push(nonce.as_bytes());
    args.push(echo_str.as_bytes());
    proof {
        assert(byte_views(args@) =~= seq![
            encode_utf8(token@),
            encode_utf8(time_stamp@),
            encode_utf8(nonce@),
            encode_utf8(echo_str@),
        ]);
    }
    let sorted = sort_bytes(&args);
    let ghost parts = byte_views(sorted@);
    let mut message: Vec<u8> = Vec::new();
    let mut j: usize = 0;
    proof {
        assert(parts.take(0) =~= Seq::<Seq<u8>>::empty());
    }
    while j < sorted.len()
        invariant
            j <= sorted@.len(),
            parts == byte_views(sorted@),
            message@ == parts.take(j as int).flatten(),
        decreases sorted@.len() - j,
    {
        let part = sorted[j];
        let mut k: usize = 0;
        let ghost before = message@;
        while k < part.len()
            invariant
                k <= part@.len(),
                message@ == before + part@.take(k as int),
            decreases part@.len() - k,
        {
            message.push(part[k]);
            k = k + 1;
            proof {
                assert(message@ =~= before + part@.take(k as int));
            }
        }
        proof {
            assert(part@.take(k as int) =~= part@);
            assert(parts.take(j + 1) =~= parts.take(j as int).push(parts[j as int]));
            parts.take(j as int).lemma_flatten_push(parts[j as int]);
        }
        j = j + 1;
    }
    proof {
        assert(parts.take(sorted@.len() as int) =~= parts);
    }
    sha1_hex_digest(message.as_slice())
}

/// Compares two texts.
pub(crate) fn same_text(a: &str, b: &str) -> (r: bool)
    ensures
        r == (a@ == b@),
{
    let x = a.as_bytes();
    let y = b.as_bytes();
    if x.len() != y.len() {
        return false;
    }
    let mut i: usize = 0;
    while i < x.len()
        invariant
            i <= x@.len(),
            x@.len() == y@.len(),
            x@ == encode_utf8(a@),
            y@ == encode_utf8(b@),
            forall|j: int| 0 <= j < i ==> x@[j] == y@[j],
        decreases x@.len() - i,
    {
        if x[i] != y[i] {
            return false;
        }
        i = i + 1;
    }
    proof {
        assert(x@ =~= y@);
        vstd::utf8::encode_utf8_decode_utf8(a@);
        vstd::utf8::encode_utf8_decode_utf8(b@);
    }
    true
}

/// Answers the verification request of a callback URL: where `msg_signature`
/// is the signature of the token, timestamp, nonce and echo string, the
/// decrypted echo string; otherwise the signature error.
pub fn verify_url(
    msg_signature: &str,
    token: &str,
    time_stamp: &str,
    nonce: &str,
    echo_str: &str,
    aes_key: &str,
) -> (r: Result<String, String>)
    requires
        is_sha1_hex_text(msg_signature@) && url_signature(token@, time_stamp@, nonce@, echo_str@)
            == msg_signature@ ==> is_decryptable(aes_key@, echo_str@),
    ensures
        answer_view(r) == url_verification(
            msg_signature@,
            token@,
            time_stamp@,
            nonce@,
            echo_str@,
            aes_key@,
        ),
        is_sha1_hex_text(url_signature(token@, time_stamp@, nonce@, echo_str@)),
        !is_sha1_hex_text(msg_signature@) ==> (r matches Err(e) && e@ == signature_error_text()),
{
    let signature = compute_url_signature(token, time_stamp, nonce, echo_str);
    if !same_text(signature.as_str(), msg_signature) {
        return Err("AesException.ValidateSignatureError".to_string());
    }
    let result = decrypt(aes_key, echo_str);
    // The content is already a `String`, so it is valid UTF-8 as it stands.
    Ok(result.content)
}

/// `verify_url`, or `None` where the signature matches but the echo string
/// does not decrypt into a valid frame, the case in which `verify_url` has
/// no answer.
pub fn try_verify_url(
    msg_signature: &str,
    token: &str,
    time_stamp: &str,
    nonce: &str,
    echo_str: &str,
    aes_key: &str,
) -> (r: Option<Result<String, String>>)
    ensures
        r is None <==> (url_signature(token@, time_stamp@, nonce@, echo_str@) == msg_signature@
            && !is_decryptable(aes_key@, echo_str@)),
        r matches Some(a) ==> answer_view(a) == url_verification(
            msg_signature@,
            token@,
            time_stamp@,
            nonce@,
            echo_str@,
            aes_key@,
        ),
        is_sha1_hex_text(url_signature(token@, time_stamp@, nonce@, echo_str@)),
        !is_sha1_hex_text(msg_signature@) ==> (r matches Some(Err(e)) && e@
            == signature_error_text()),
{
    let signature = compute_url_signature(token, time_stamp, nonce, echo_str);
    if same_text(signature.as_str(), msg_signature) && try_decrypt(aes_key, echo_str).is_none() {
        return None;
    }
    Some(verify_url(msg_signature, token, time_stamp, nonce, echo_str, aes_key))
}

// ---------------------------------------------------------------------------
// Laws
// ---------------------------------------------------------------------------

/// Sorting before joining makes the joined bytes depend only on which parts
/// there are, not on the order in which they are given.
pub proof fn lemma_sorted_join_ignores_order(a: Seq<Seq<u8>>, b: Seq<Seq<u8>>)
    requires
        a.to_multiset() == b.to_multiset(),
    ensures
        sorted_join(a) == sorted_join(b),
{
    lemma_lex_total_ordering();
    a.lemma_sort_by_ensures(lex_leq());
    b.lemma_sort_by_ensures(lex_leq());
    lemma_sorted_unique(a.sort_by(lex_leq()), b.sort_by(lex_leq()), lex_leq());
}

/// The signature of a callback URL does not depend on the order of the
/// token, timestamp, nonce and echo string: exchanging any two neighbours
/// leaves it unchanged (and so does every reordering, these exchanges
/// generating them all).
pub proof fn lemma_url_signature_symmetric(a: Seq<char>, b: Seq<char>, c: Seq<char>, d: Seq<char>)
    ensures
        url_signature(a, b, c, d) == url_signature(b, a, c, d),
        url_signature(a, b, c, d) == url_signature(a, c, b, d),
        url_signature(a, b, c, d) == url_signature(a, b, d, c),
{
    broadcast use vstd::seq_lib::group_to_multiset_ensures;
    broadcast use vstd::multiset::group_multiset_axioms;

    let (x, y, z, w) = (encode_utf8(a), encode_utf8(b), encode_utf8(c), encode_utf8(d));
    let base = seq![x, y, z, w];
    let m = base.to_multiset();
    assert(seq![x, y, z, w] =~= Seq::<Seq<u8>>::empty().push(x).push(y).push(z).push(w));
    assert(seq![y, x, z, w] =~= Seq::<Seq<u8>>::empty().push(y).push(x).push(z).push(w));
    assert(seq![x, z, y, w] =~= Seq::<Seq<u8>>::empty().push(x).push(z).push(y).push(w));
    assert(seq![x, y, w, z] =~= Seq::<Seq<u8>>::empty().push(x).push(y).push(w).push(z));
    assert(seq![y, x, z, w].to_multiset() =~= m);
    assert(seq![x, z, y, w].to_multiset() =~= m);
    assert(seq![x, y, w, z].to_multiset() =~= m);
    lemma_sorted_join_ignores_order(base, seq![y, x, z, w]);
    lemma_sorted_join_ignores_order(base, seq![x, z, y, w]);
    lemma_sorted_join_ignores_order(base, seq![x, y, w, z]);
}

/// The answer to a callback-URL verification is the decrypted echo string
/// exactly when the signature matches, whatever the length of the parts, and
/// the signature error otherwise.
pub proof fn lemma_url_verification_answer(
    msg_signature: Seq<char>,
    token: Seq<char>,
    time_stamp: Seq<char>,
    nonce: Seq<char>,
    echo_str: Seq<char>,
    aes_key: Seq<char>,
)
    ensures
        url_signature(token, time_stamp, nonce, echo_str) == msg_signature ==> url_verification(
            msg_signature,
            token,
            time_stamp,
            nonce,
            echo_str,
            aes_key,
        ) == Ok::<Seq<char>, Seq<char>>(
            utf8_lossy(frame_message(decrypted_plaintext(aes_key, echo_str)->0)),
        ),
        url_signature(token, time_stamp, nonce, echo_str) != msg_signature ==> url_verification(
            msg_signature,
            token,
            time_stamp,
            nonce,
            echo_str,
            aes_key,
        ) == Err::<Seq<char>, Seq<char>>("AesException.ValidateSignatureError"@),
{
}

/// The signature of a callback URL is the SHA-1 digest of its four parts
/// put in ascending byte-wise order and joined: for every arrangement of the
/// parts' UTF-8 bytes that is in that order.
pub proof fn lemma_url_signature_of_sorted_parts(
    token: Seq<char>,
    time_stamp: Seq<char>,
    nonce: Seq<char>,
    echo_str: Seq<char>,
    arranged: Seq<Seq<u8>>,
)
    requires
        sorted_by(arranged, lex_leq()),
        arranged.to_multiset() == seq![
            encode_utf8(token),
            encode_utf8(time_stamp),
            encode_utf8(nonce),
            encode_utf8(echo_str),
        ].to_multiset(),
    ensures
        url_signature(token, time_stamp, nonce, echo_str) == sha1_hex(arranged.flatten()),
{
    let parts = seq![
        encode_utf8(token),
        encode_utf8(time_stamp),
        encode_utf8(nonce),
        encode_utf8(echo_str),
    ];
    lemma_lex_total_ordering();
    parts.lemma_sort_by_ensures(lex_leq());
    lemma_sorted_unique(arranged, parts.sort_by(lex_leq()), lex_leq());
}

/// Decryption of a callback message is determined by the outside
/// computations alone: where the key is Base64 of 32 bytes and the text is
/// Base64 of a ciphertext, the plaintext is AES-256-CBC's with the key's
/// first 16 bytes as iv, whatever the length of the ciphertext; otherwise
/// there is none.
pub proof fn lemma_decrypted_plaintext_determined(aes_key: Seq<char>, text: Seq<char>)
    ensures
        base64_decoded_unpadded(aes_key) matches Some(key) ==> (key.len() == 32 ==> (
        base64_decoded_padded(text) matches Some(encrypted) ==> decrypted_plaintext(aes_key, text)
            == aes256_cbc_decrypted(key, key.subrange(0, 16), encrypted))),
        !(base64_decoded_unpadded(aes_key) matches Some(key) && key.len() == 32
            && base64_decoded_padded(text) is Some) ==> decrypted_plaintext(aes_key, text) is None,
        is_decryptable(aes_key, text) <==> (decrypted_plaintext(aes_key, text) matches Some(plain)
            && plain.len() >= 20 && 20 + be_u32_value(plain[16], plain[17], plain[18], plain[19])
            <= plain.len()),
        is_decryptable(aes_key, text) ==> decrypted_message(aes_key, text) == (
            utf8_lossy(frame_message(decrypted_frame(aes_key, text))),
            utf8_lossy(frame_receive_id(decrypted_frame(aes_key, text))),
        ),
{
}

/// Every valid frame is one that a sender built: its first 16 bytes, then
/// the length of its message, the message and the receiver id; so the
/// message and the receiver id are the parts that building put in.
pub proof fn lemma_valid_frame_is_built(plain: Seq<u8>)
    requires
        frame_is_valid(plain),
    ensures
        plain == build_frame(plain.subrange(0, 16), frame_message(plain), frame_receive_id(plain)),
        frame_message(plain).len() == be_u32_value(plain[16], plain[17], plain[18], plain[19]),
        frame_message(plain) + frame_receive_id(plain) == plain.subrange(20, plain.len() as int),
{
    let n = frame_length(plain);
    assert(n < 4294967296) by (nonlinear_arith)
        requires
            n == be_u32_value(plain[16], plain[17], plain[18], plain[19]),
    ;
    let len_bytes = be_u32_bytes(n);
    assert(len_bytes[0] == plain[16] && len_bytes[1] == plain[17] && len_bytes[2] == plain[18]
        && len_bytes[3] == plain[19]) by (nonlinear_arith)
        requires
            len_bytes == be_u32_bytes(n),
            n == (plain[16] as nat) * 16777216 + (plain[17] as nat) * 65536 + (plain[18] as nat)
                * 256 + (plain[19] as nat),
    {
        let (b0, b1, b2, b3) = (plain[16] as nat, plain[17] as nat, plain[18] as nat, plain[19] as nat);
        assert(n / 16777216 == b0);
        assert(n / 65536 == b0 * 256 + b1);
        assert(n / 256 == b0 * 65536 + b1 * 256 + b2);
        assert(n % 256 == b3);
    }
    assert(plain =~= build_frame(plain.subrange(0, 16), frame_message(plain), frame_receive_id(plain)));
    assert(frame_message(plain) + frame_receive_id(plain) =~= plain.subrange(20, plain.len() as int));
}

/// What is served from the cache is the cached token itself, unchanged, and
/// only before its expiry; a cached token is served whenever it has not
/// expired, and nothing is served without one.
pub proof fn lemma_usable_token_is_cached_token(cached: Option<AccessToken>, now: i64)
    ensures
        usable_token(cached, now) matches Some(t) ==> cached == Some(t) && now < t.expires,
        cached matches Some(t) ==> (now < t.expires ==> usable_token(cached, now) == Some(t)),
        cached matches Some(t) ==> (t.expires <= now ==> usable_token(cached, now) is None),
        cached is None ==> usable_token(cached, now) is None,
{
}

/// A token fresh from a reply lives exactly the reply's `expires_in` seconds
/// past `now`.
pub proof fn lemma_fresh_token_lifetime(now: i64, expires_in: i64)
    ensures
        fresh_token_expiry(now, expires_in) - now == expires_in,
{
}

/// The answer to a callback-URL verification counts the token, timestamp
/// and nonce only as a collection: exchanging any two of them leaves it
/// unchanged.
pub proof fn lemma_url_verification_symmetric(
    s: Seq<char>,
    a: Seq<char>,
    b: Seq<char>,
    c: Seq<char>,
    e: Seq<char>,
    k: Seq<char>,
)
    ensures
        url_verification(s, a, b, c, e, k) == url_verification(s, b, a, c, e, k),
        url_verification(s, a, b, c, e, k) == url_verification(s, a, c, b, e, k),
        url_verification(s, a, b, c, e, k) == url_verification(s, c, b, a, e, k),
{
    lemma_url_signature_symmetric(a, b, c, e);
    lemma_url_signature_symmetric(b, a, c, e);
    lemma_url_signature_symmetric(b, c, a, e);
}

/// A token that is handed out is never expired at the time of the check:
/// a cached token only while `now` is before its expiry, a fresh one (whose
/// reply grants a positive lifetime) expiring after `now`.
pub proof fn lemma_served_token_unexpired(cached: Option<AccessToken>, now: i64, expires_in: i64)
    requires
        expires_in > 0,
    ensures
        usable_token(cached, now) matches Some(t) ==> now < t.expires,
        now < fresh_token_expiry(now, expires_in),
{
}

/// A token stored in the cache is served again at every later check before
/// it expires, unchanged: of two calls in a row within its lifetime, the
/// second is answered from the cache with the same token.
pub proof fn lemma_cached_token_served_again(token: AccessToken, later: i64)
    requires
        later < token.expires,
    ensures
        usable_token(Some(token), later) == Some(token),
{
}

/// Where a text decrypts into a frame that a sender built, decryption finds
/// exactly the sender's message and receiver id (and, by the contract of
/// `decrypt`, returns them as text where they are valid UTF-8).
pub proof fn lemma_decrypt_recovers_message(
    aes_key: Seq<char>,
    text: Seq<char>,
    random: Seq<u8>,
    message: Seq<u8>,
    receive_id: Seq<u8>,
)
    requires
        decrypted_plaintext(aes_key, text) == Some(build_frame(random, message, receive_id)),
        random.len() == 16,
        message.len() < 4294967296,
    ensures
        is_decryptable(aes_key, text),
        frame_message(decrypted_frame(aes_key, text)) == message,
        frame_receive_id(decrypted_frame(aes_key, text)) == receive_id,
{
    lemma_frame_roundtrip(random, message, receive_id);
}

/// The four big-endian bytes of a length below 2^32.
pub open spec fn be_u32_bytes(n: nat) -> Seq<u8> {
    seq![(n / 16777216) as u8, (n / 65536 % 256) as u8, (n / 256 % 256) as u8, (n % 256) as u8]
}

/// A frame as the sender builds it: 16 random bytes, the message length in
/// big-endian order, the message, and the receiver id.
pub open spec fn build_frame(random: Seq<u8>, message: Seq<u8>, receive_id: Seq<u8>) -> Seq<u8> {
    random + be_u32_bytes(message.len()) + message + receive_id
}

/// Every frame that a sender builds is valid, and splitting it gives back
/// the message and the receiver id.
pub proof fn lemma_frame_roundtrip(random: Seq<u8>, message: Seq<u8>, receive_id: Seq<u8>)
    requires
        random.len() == 16,
        message.len() < 4294967296,
    ensures
        frame_is_valid(build_frame(random, message, receive_id)),
        frame_message(build_frame(random, message, receive_id)) == message,
        frame_receive_id(build_frame(random, message, receive_id)) == receive_id,
{
    let n = message.len();
    let f = build_frame(random, message, receive_id);
    let len_bytes = be_u32_bytes(n);
    assert(f[16] == len_bytes[0] && f[17] == len_bytes[1] && f[18] == len_bytes[2] && f[19]
        == len_bytes[3]);
    assert(be_u32_value(len_bytes[0], len_bytes[1], len_bytes[2], len_bytes[3]) == n) by (
    nonlinear_arith)
        requires
            n < 4294967296,
            len_bytes == be_u32_bytes(n),
    {
        assert(n / 16777216 < 256) by (nonlinear_arith) requires n < 4294967296;
        assert(n == (n / 256) * 256 + n % 256);
        assert(n / 256 == (n / 65536) * 256 + (n / 256) % 256);
        assert(n / 65536 == (n / 16777216) * 256 + (n / 65536) % 256);
    }
    assert(frame_length(f) == n);
    assert(frame_message(f) =~= message);
    assert(frame_receive_id(f) =~= receive_id);
}

} // verus!
