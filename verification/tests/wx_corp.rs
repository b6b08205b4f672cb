use aes::cipher::block_padding::Pkcs7;
use aes::cipher::{BlockEncryptMut, KeyIvInit};
use base64::engine::{general_purpose, GeneralPurpose};
use base64::{alphabet, Engine};
use message_hub::auth::AccessToken;
use message_hub::wx_corp::{
    decrypt, message_from_frame, split_frame, try_decrypt, try_verify_url, verify_url,
    GetTokenResult, SendMessageResult, WxCorpService, ACCESS_TOKEN_CACHE_KEY,
    ACCESS_TOKEN_CACHE_TTL_SECS,
};

fn key_bytes() -> Vec<u8> {
    (0u8..32).map(|i| i.wrapping_mul(7).wrapping_add(3)).collect()
}

fn aes_key_text(key: &[u8]) -> String {
    GeneralPurpose::new(&alphabet::STANDARD, general_purpose::NO_PAD).encode(key)
}

fn frame(message: &[u8], receive_id: &[u8]) -> Vec<u8> {
    let mut plain: Vec<u8> = (0u8..16).map(|i| i + 100).collect();
    plain.extend_from_slice(&(message.len() as u32).to_be_bytes());
    plain.extend_from_slice(message);
    plain.extend_from_slice(receive_id);
    plain
}

fn encrypt(key: &[u8], plain: &[u8]) -> String {
    let cipher = cbc::Encryptor::<aes::Aes256>::new_from_slices(key, &key[..16]).unwrap();
    let encrypted = cipher.encrypt_padded_vec_mut::<Pkcs7>(plain);
    GeneralPurpose::new(&alphabet::STANDARD, general_purpose::PAD).encode(encrypted)
}

fn signature(parts: &[&str]) -> String {
    let mut parts: Vec<&str> = parts.to_vec();
    parts.sort();
    let mut hasher = sha1_smol::Sha1::default();
    hasher.update(parts.join("").as_bytes());
    hasher.digest().to_string()
}

fn reply(errcode: i32) -> SendMessageResult {
    SendMessageResult {
        errcode,
        errmsg: "ok".to_string(),
        invaliduser: None,
        invalidparty: None,
        invalidtag: None,
        unlicenseduser: None,
        msgid: Some("m1".to_string()),
        response_code: None,
    }
}

#[test]
fn is_success_only_for_code_zero() {
    assert!(reply(0).is_success());
    assert!(!reply(40001).is_success());
    assert!(!reply(-1).is_success());
}

#[test]
fn verify_url_answers_the_decrypted_echo_string() {
    let key = key_bytes();
    let aes_key = aes_key_text(&key);
    let echo = encrypt(&key, &frame(b"1616140317555161061", b"wx5823bf96d3bd56c7"));
    let sig = signature(&["QDG6eK", "1409659813", "1372623149", &echo]);
    let result = verify_url(&sig, "QDG6eK", "1409659813", "1372623149", &echo, &aes_key);
    assert_eq!(result, Ok("1616140317555161061".to_string()));
}

#[test]
fn verify_url_ignores_the_order_of_the_signed_parts() {
    let key = key_bytes();
    let aes_key = aes_key_text(&key);
    let echo = encrypt(&key, &frame("你好".as_bytes(), b"corp"));
    let sig = signature(&["token", "42", "nonce", &echo]);
    assert_eq!(verify_url(&sig, "42", "token", "nonce", &echo, &aes_key), Ok("你好".to_string()));
    assert_eq!(verify_url(&sig, "token", "nonce", "42", &echo, &aes_key), Ok("你好".to_string()));
}

#[test]
fn verify_url_refuses_a_wrong_signature() {
    let key = key_bytes();
    let aes_key = aes_key_text(&key);
    let echo = encrypt(&key, &frame(b"hello", b"corp"));
    let sig = signature(&["token", "1", "2", &echo]);
    let result = verify_url(&sig, "token", "1", "3", &echo, &aes_key);
    assert_eq!(result, Err("AesException.ValidateSignatureError".to_string()));
    let result = verify_url(&echo, "token", "1", "2", &echo, &aes_key);
    assert_eq!(result, Err("AesException.ValidateSignatureError".to_string()));
}

#[test]
fn try_verify_url_has_no_answer_for_an_undecryptable_echo_string() {
    let key = key_bytes();
    let aes_key = aes_key_text(&key);
    let echo = "bm90IGEgY2lwaGVydGV4dA==";
    let sig = signature(&["token", "1", "2", echo]);
    assert_eq!(try_verify_url(&sig, "token", "1", "2", echo, &aes_key), None);
    assert_eq!(
        try_verify_url("0000", "token", "1", "2", echo, &aes_key),
        Some(Err("AesException.ValidateSignatureError".to_string()))
    );
    let good = encrypt(&key, &frame(b"x", b""));
    let sig = signature(&["token", "1", "2", &good]);
    assert_eq!(try_verify_url(&sig, "token", "1", "2", &good, &aes_key), Some(Ok("x".to_string())));
}

#[test]
fn decrypt_recovers_message_and_receiver() {
    let key = key_bytes();
    let aes_key = aes_key_text(&key);
    let text = encrypt(&key, &frame(b"<xml>content</xml>", b"ww1234"));
    let message = decrypt(&aes_key, &text);
    assert_eq!(message.content, "<xml>content</xml>");
    assert_eq!(message.from_receive_id, "ww1234");
    assert_eq!(try_decrypt(&aes_key, &text), Some(message));
}

#[test]
fn try_decrypt_refuses_bad_inputs() {
    let key = key_bytes();
    let aes_key = aes_key_text(&key);
    let text = encrypt(&key, &frame(b"abc", b"id"));
    // a key that is not Base64
    assert_eq!(try_decrypt("!!!", &text), None);
    // a key of 16 bytes
    assert_eq!(try_decrypt(&aes_key_text(&key[..16]), &text), None);
    // a text that is not Base64
    assert_eq!(try_decrypt(&aes_key, "%%%"), None);
    // a text that does not decrypt under another key
    let other: Vec<u8> = key.iter().map(|b| b ^ 0x55).collect();
    let foreign = encrypt(&other, &frame(b"abc", b"id"));
    let outcome = try_decrypt(&aes_key, &foreign);
    assert!(outcome.map_or(true, |m| m.content != "abc"));
    // a frame shorter than its header
    assert_eq!(try_decrypt(&aes_key, &encrypt(&key, b"short")), None);
    // a frame that declares more message bytes than it has
    let mut long = frame(b"abc", b"");
    long[19] = 9;
    assert_eq!(try_decrypt(&aes_key, &encrypt(&key, &long)), None);
}

#[test]
fn split_frame_reads_the_big_endian_length() {
    let plain = frame(b"hello", b"receiver");
    let (message, id) = split_frame(&plain).unwrap();
    assert_eq!(message, b"hello");
    assert_eq!(id, b"receiver");
    let mut wide = vec![0u8; 16];
    wide.extend_from_slice(&[0, 0, 1, 0]);
    wide.extend_from_slice(&vec![b'a'; 256]);
    wide.extend_from_slice(b"z");
    let (message, id) = split_frame(&wide).unwrap();
    assert_eq!(message.len(), 256);
    assert_eq!(id, b"z");
    assert_eq!(split_frame(&[0u8; 19]), None);
    let empty = frame(b"", b"");
    assert_eq!(split_frame(&empty), Some((&b""[..], &b""[..])));
}

#[test]
fn message_from_frame_replaces_invalid_utf8() {
    let plain = frame(&[0x66, 0xff, 0x6f], "我".as_bytes());
    let message = message_from_frame(&plain);
    assert_eq!(message.content, "f\u{fffd}o");
    assert_eq!(message.from_receive_id, "我");
}

#[test]
fn access_token_expires_after_its_lifetime() {
    let reply = GetTokenResult {
        errcode: 0,
        errmsg: "ok".to_string(),
        access_token: "accesstoken000001".to_string(),
        expires_in: 7200,
    };
    let token = WxCorpService::access_token_from_reply(&reply, 1_700_000_000);
    assert_eq!(
        token,
        AccessToken { access_token: "accesstoken000001".to_string(), expires: 1_700_007_200 }
    );
}

#[test]
fn cached_access_token_is_used_until_it_expires() {
    let token = AccessToken { access_token: "t".to_string(), expires: 100 };
    assert_eq!(WxCorpService::usable_access_token(Some(token.clone()), 99), Some(token.clone()));
    assert_eq!(WxCorpService::usable_access_token(Some(token.clone()), 100), None);
    assert_eq!(WxCorpService::usable_access_token(Some(token), 101), None);
    assert_eq!(WxCorpService::usable_access_token(None, 0), None);
}

#[test]
fn access_token_cache_settings() {
    assert_eq!(ACCESS_TOKEN_CACHE_KEY, "App:MessageHub:AccessToken:WxCorp");
    assert_eq!(ACCESS_TOKEN_CACHE_TTL_SECS, 60 * 60 * 24);
}

#[test]
fn verify_url_refuses_a_malformed_signature_without_decrypting() {
    let result = verify_url("bad", "token", "1", "n", "e", "k");
    assert_eq!(result, Err("AesException.ValidateSignatureError".to_string()));
    assert_eq!(
        try_verify_url("bad", "token", "1", "n", "e", "k"),
        Some(Err("AesException.ValidateSignatureError".to_string()))
    );
}

#[test]
fn verify_url_counts_token_timestamp_and_nonce_as_a_collection() {
    let key = key_bytes();
    let aes_key = aes_key_text(&key);
    let echo = encrypt(&key, &frame(b"ok", b"id"));
    let sig = signature(&["a", "b", "c", &echo]);
    let expected = Ok("ok".to_string());
    assert_eq!(verify_url(&sig, "a", "b", "c", &echo, &aes_key), expected);
    assert_eq!(verify_url(&sig, "b", "a", "c", &echo, &aes_key), expected);
    assert_eq!(verify_url(&sig, "c", "b", "a", &echo, &aes_key), expected);
    assert_eq!(verify_url(&sig, "a", "c", "b", &echo, &aes_key), expected);
}

#[test]
fn a_fresh_token_is_served_again_from_the_cache() {
    let reply = GetTokenResult {
        errcode: 0,
        errmsg: "ok".to_string(),
        access_token: "fresh".to_string(),
        expires_in: 7200,
    };
    let token = WxCorpService::access_token_from_reply(&reply, 1000);
    assert!(token.expires > 1000);
    assert_eq!(WxCorpService::usable_access_token(Some(token.clone()), 1000), Some(token.clone()));
    assert_eq!(WxCorpService::usable_access_token(Some(token.clone()), 8199), Some(token));
}
