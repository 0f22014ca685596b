//! Protocol of the Remootio `ENCRYPTED` frames: AES-256-CBC (PKCS#7) on the
//! payload, HMAC-SHA256 over the JSON object `{iv,payload}` for the MAC, both
//! Base64-encoded; and the plaintext of the actions sent to a device.
//!
//! `ApiSecretKey` encrypts until the session is authenticated, the session
//! key received in the challenge afterwards; `ApiAuthKey` only signs.
use vstd::prelude::*;
use vstd::string::StringSliceAdditionalSpecFns;
use vstd::utf8::encode_utf8;
use hmac::Mac;
use cbc::cipher::{BlockDecryptMut, BlockEncryptMut, KeyIvInit};
use crate::json::{json_accepts, json_value_of, parse_json};
use crate::text::{
    chars_of, dec_digits, hex_digit, push_char, push_u64, string_of, trim, trim_window,
};

verus! {

#[verifier::external_type_specification]
#[verifier::external_body]
pub struct ExBase64DecodeError(base64::DecodeError);

#[verifier::external_type_specification]
#[verifier::external_body]
pub struct ExFromHexError(hex::FromHexError);

/// Failures of the protocol layer.
#[derive(Debug)]
pub enum ProtocolError {
    /// The frame does not come from a session authenticated with these keys.
    MacMismatch,
    Base64(base64::DecodeError),
    /// Key or IV of the wrong length.
    InvalidLength,
    Json(serde_json::Error),
    Hex(hex::FromHexError),
    /// Decryption failed (invalid padding).
    Decrypt,
    /// The frame is not of type `ENCRYPTED`.
    NotEncrypted,
}

/// `frame.data` of an `ENCRYPTED` frame (field order matters: the MAC is
/// computed over exactly this object, `iv` then `payload`).
#[derive(Debug, Clone)]
pub struct EncryptedData {
    pub iv: String,
    pub payload: String,
}

#[derive(Debug, Clone)]
pub struct EncryptedFrame {
    /// JSON field `type`.
    pub frame_type: String,
    pub data: EncryptedData,
    pub mac: String,
}

// ---------------------------------------------------------------------------
// Hexadecimal keys
// ---------------------------------------------------------------------------

/// Value of a hexadecimal digit byte (either case).
pub open spec fn hex_value(b: u8) -> Option<u8> {
    if 65 <= b <= 70 {
        Some((b - 65 + 10) as u8)
    } else if 97 <= b <= 102 {
        Some((b - 97 + 10) as u8)
    } else if 48 <= b <= 57 {
        Some((b - 48) as u8)
    } else {
        None
    }
}

/// Bytes that `hex::decode` accepts: an even number of hexadecimal digits.
pub open spec fn hex_decodable(b: Seq<u8>) -> bool {
    b.len() % 2 == 0 && forall|i: int| 0 <= i < b.len() ==> (#[trigger] hex_value(b[i])) is Some
}

/// The bytes a hexadecimal text stands for (two digits per byte, high first).
pub open spec fn hex_decoded(b: Seq<u8>) -> Seq<u8> {
    Seq::new(
        b.len() / 2,
        |i: int| (hex_value(b[2 * i]).unwrap() * 16 + hex_value(b[2 * i + 1]).unwrap()) as u8,
    )
}

/// `hex::decode`: `Ok` exactly for an even number of hexadecimal digits (in
/// the UTF-8 bytes of `s`), then the bytes they stand for, as its source shows.
#[verifier::external_body]
fn hex_decode(s: &str) -> (r: Result<Vec<u8>, hex::FromHexError>)
    ensures
        r is Ok <==> hex_decodable(s.spec_bytes()),
        r matches Ok(v) ==> v@ == hex_decoded(s.spec_bytes()),
{
    hex::decode(s)
}

/// Why a hexadecimal key text is refused, if it is (`None`: it is accepted).
pub enum KeyFailure {
    Hex,
    InvalidLength,
}

pub open spec fn hex_key_failure(s: Seq<char>) -> Option<KeyFailure> {
    let b = encode_utf8(trim(s));
    if !hex_decodable(b) {
        Some(KeyFailure::Hex)
    } else if b.len() / 2 != 32 {
        Some(KeyFailure::InvalidLength)
    } else {
        None
    }
}

fn array_of(v: &Vec<u8>) -> (a: [u8; 32])
    requires
        v@.len() == 32,
    ensures
        a@ == v@,
{
    let mut a = [0u8; 32];
    let mut i: usize = 0;
    while i < 32
        invariant
            v@.len() == 32,
            i <= 32,
            a@.len() == 32,
            forall|k: int| 0 <= k < i ==> a@[k] == v@[k],
        decreases 32 - i,
    {
        a[i] = v[i];
        i += 1;
    }
    assert(a@ =~= v@);
    a
}

/// A 32-byte key written in hexadecimal (surrounding white space ignored).
pub fn decode_hex_key(hex_key: &str) -> (r: Result<[u8; 32], ProtocolError>)
    ensures
        match r {
            Ok(k) => hex_key_failure(hex_key@) is None && k@ == hex_decoded(encode_utf8(trim(hex_key@))),
            Err(ProtocolError::Hex(_)) => hex_key_failure(hex_key@) == Some(KeyFailure::Hex),
            Err(ProtocolError::InvalidLength) => hex_key_failure(hex_key@) == Some(KeyFailure::InvalidLength),
            Err(_) => false,
        },
{
    let cs = chars_of(hex_key);
    let n = cs.len();
    let (a, b) = trim_window(&cs, 0, n);
    assert(cs@.subrange(0, n as int) =~= hex_key@);
    let trimmed = string_of(&cs, a, b);
    match hex_decode(trimmed.as_str()) {
        Ok(bytes) => {
            if bytes.len() != 32 {
                Err(ProtocolError::InvalidLength)
            } else {
                Ok(array_of(&bytes))
            }
        },
        Err(e) => Err(ProtocolError::Hex(e)),
    }
}

// ---------------------------------------------------------------------------
// Base64, HMAC-SHA256, AES-256-CBC
// ---------------------------------------------------------------------------

/// Standard Base64 (with padding) of some bytes.
pub uninterp spec fn base64_encoding(b: Seq<u8>) -> Seq<char>;

/// Bytes of a standard Base64 text, `None` when the text is not valid Base64.
pub uninterp spec fn base64_decoding(s: Seq<char>) -> Option<Seq<u8>>;

/// HMAC-SHA256 of `msg` under `key`.
pub uninterp spec fn hmac_sha256(key: Seq<u8>, msg: Seq<u8>) -> Seq<u8>;

/// AES-256-CBC encryption with PKCS#7 padding.
pub uninterp spec fn aes256_cbc_encryption(key: Seq<u8>, iv: Seq<u8>, plain: Seq<u8>) -> Seq<u8>;

/// AES-256-CBC decryption with PKCS#7 padding; `None` when the padding is invalid.
pub uninterp spec fn aes256_cbc_decryption(key: Seq<u8>, iv: Seq<u8>, cipher: Seq<u8>) -> Option<
    Seq<u8>,
>;

/// `Engine::encode` of `base64::engine::general_purpose::STANDARD`: the text
/// is named by [`base64_encoding`]; decoding it gives the bytes back.
#[verifier::external_body]
fn base64_encode(b: &[u8]) -> (r: String)
    ensures
        r@ == base64_encoding(b@),
        base64_decoding(r@) == Some(b@),
{
    base64::Engine::encode(&base64::engine::general_purpose::STANDARD, b)
}

/// `Engine::decode` of `STANDARD`: `Ok` with the bytes named by
/// [`base64_decoding`], `Err` when that name gives `None`.
#[verifier::external_body]
fn base64_decode(s: &str) -> (r: Result<Vec<u8>, base64::DecodeError>)
    ensures
        match r {
            Ok(v) => base64_decoding(s@) == Some(v@),
            Err(_) => base64_decoding(s@) is None,
        },
{
    base64::Engine::decode(&base64::engine::general_purpose::STANDARD, s)
}

/// `Hmac::<Sha256>` keyed with `key` (any key length is accepted) over
/// `msg`: the 32-byte tag named by [`hmac_sha256`].
#[verifier::external_body]
fn hmac_sha256_tag(key: &[u8; 32], msg: &[u8]) -> (r: Vec<u8>)
    ensures
        r@ == hmac_sha256(key@, msg@),
        r@.len() == 32,
{
    let mut mac = <hmac::Hmac<sha2::Sha256> as Mac>::new_from_slice(key).expect("any key length");
    mac.update(msg);
    mac.finalize().into_bytes().to_vec()
}

/// `cbc::Encryptor<Aes256>` with PKCS#7 padding (`encrypt_padded_vec_mut`):
/// the ciphertext named by [`aes256_cbc_encryption`]; decrypting it with the
/// same key and IV gives the plaintext back.
#[verifier::external_body]
fn aes_encrypt(key: &[u8; 32], iv: &[u8; 16], plain: &[u8]) -> (r: Vec<u8>)
    ensures
        r@ == aes256_cbc_encryption(key@, iv@, plain@),
        aes256_cbc_decryption(key@, iv@, r@) == Some(plain@),
{
    cbc::Encryptor::<aes::Aes256>::new(key.into(), iv.into())
        .encrypt_padded_vec_mut::<cbc::cipher::block_padding::Pkcs7>(plain)
}

/// `cbc::Decryptor<Aes256>` with PKCS#7 padding (`decrypt_padded_vec_mut`):
/// the plaintext named by [`aes256_cbc_decryption`], `None` on invalid padding.
#[verifier::external_body]
fn aes_decrypt(key: &[u8; 32], iv: &[u8; 16], cipher: &[u8]) -> (r: Option<Vec<u8>>)
    ensures
        match r {
            Some(v) => aes256_cbc_decryption(key@, iv@, cipher@) == Some(v@),
            None => aes256_cbc_decryption(key@, iv@, cipher@) is None,
        },
{
    cbc::Decryptor::<aes::Aes256>::new(key.into(), iv.into())
        .decrypt_padded_vec_mut::<cbc::cipher::block_padding::Pkcs7>(cipher).ok()
}

/// 16 random bytes from the thread-local generator (`rand::thread_rng`);
/// nothing is stated of their value.
#[verifier::external_body]
fn random_iv() -> [u8; 16] {
    let mut iv = [0u8; 16];
    rand::RngCore::fill_bytes(&mut rand::thread_rng(), &mut iv);
    iv
}

/// A 32-byte key written in standard Base64 (the session key of a challenge).
pub fn decode_base64_key(b64_key: &str) -> (r: Result<[u8; 32], ProtocolError>)
    ensures
        match base64_decoding(b64_key@) {
            Some(b) => if b.len() == 32 {
                r matches Ok(k) && k@ == b
            } else {
                r matches Err(ProtocolError::InvalidLength)
            },
            None => r matches Err(ProtocolError::Base64(_)),
        },
{
    match base64_decode(b64_key) {
        Ok(bytes) => {
            if bytes.len() != 32 {
                Err(ProtocolError::InvalidLength)
            } else {
                Ok(array_of(&bytes))
            }
        },
        Err(e) => Err(ProtocolError::Base64(e)),
    }
}

// ---------------------------------------------------------------------------
// MAC over `{iv, payload}`
// ---------------------------------------------------------------------------

/// JSON escape of one character, as `serde_json` writes it in a string.
pub open spec fn json_char(c: char) -> Seq<char> {
    if c == '"' {
        seq!['\\', '"']
    } else if c == '\\' {
        seq!['\\', '\\']
    } else if c == '\u{8}' {
        seq!['\\', 'b']
    } else if c == '\t' {
        seq!['\\', 't']
    } else if c == '\n' {
        seq!['\\', 'n']
    } else if c == '\u{c}' {
        seq!['\\', 'f']
    } else if c == '\r' {
        seq!['\\', 'r']
    } else if (c as u32) < 0x20 {
        seq!['\\', 'u', '0', '0', hex_digit((c as u32 / 16) as nat), hex_digit((c as u32 % 16) as nat)]
    } else {
        seq![c]
    }
}

/// Contents of a JSON string literal holding `s`.
pub open spec fn json_escaped(s: Seq<char>) -> Seq<char>
    decreases s.len(),
{
    if s.len() == 0 {
        seq![]
    } else {
        json_escaped(s.drop_last()) + json_char(s.last())
    }
}

/// `serde_json::to_string` of an [`EncryptedData`].
pub open spec fn data_json(iv: Seq<char>, payload: Seq<char>) -> Seq<char> {
    "{\"iv\":\""@ + json_escaped(iv) + "\",\"payload\":\""@ + json_escaped(payload) + "\"}"@
}

/// MAC of a frame's data: Base64 of the HMAC-SHA256 of its JSON text.
pub open spec fn mac_of(iv: Seq<char>, payload: Seq<char>, auth_key: Seq<u8>) -> Seq<char> {
    base64_encoding(hmac_sha256(auth_key, encode_utf8(data_json(iv, payload))))
}

pub fn push_json_escaped(out: &mut String, s: &str)
    ensures
        final(out)@ == old(out)@ + json_escaped(s@),
{
    let n = s.unicode_len();
    let mut i: usize = 0;
    assert(s@.take(0) =~= seq![]);
    while i < n
        invariant
            n == s@.len(),
            i <= n,
            out@ == old(out)@ + json_escaped(s@.take(i as int)),
        decreases n - i,
    {
        let c = s.get_char(i);
        let ghost before = out@;
        if c == '"' {
            push_char(out, '\\');
            push_char(out, '"');
        } else if c == '\\' {
            push_char(out, '\\');
            push_char(out, '\\');
        } else if c == '\u{8}' {
            push_char(out, '\\');
            push_char(out, 'b');
        } else if c == '\t' {
            push_char(out, '\\');
            push_char(out, 't');
        } else if c == '\n' {
            push_char(out, '\\');
            push_char(out, 'n');
        } else if c == '\u{c}' {
            push_char(out, '\\');
            push_char(out, 'f');
        } else if c == '\r' {
            push_char(out, '\\');
            push_char(out, 'r');
        } else if (c as u32) < 0x20 {
            push_char(out, '\\');
            push_char(out, 'u');
            push_char(out, '0');
            push_char(out, '0');
            let code = c as u32;
            push_char(out, crate::text::hex_digit_char((code / 16) as u8));
            push_char(out, crate::text::hex_digit_char((code % 16) as u8));
        } else {
            push_char(out, c);
        }
        assert(s@.take(i + 1).drop_last() =~= s@.take(i as int));
        assert(s@.take(i + 1).last() == c);
        assert(out@ =~= before + json_char(c));
        i += 1;
    }
    assert(s@.take(n as int) =~= s@);
}

fn data_json_text(data: &EncryptedData) -> (r: String)
    ensures
        r@ == data_json(data.iv@, data.payload@),
{
    let mut s = String::from_str("{\"iv\":\"");
    push_json_escaped(&mut s, data.iv.as_str());
    s.append("\",\"payload\":\"");
    push_json_escaped(&mut s, data.payload.as_str());
    s.append("\"}");
    s
}

/// A character that a JSON string holds as itself: neither a quote, a
/// backslash nor a control character (every Base64 character is one).
pub open spec fn plain_json_char(c: char) -> bool {
    c != '"' && c != '\\' && (c as u32) >= 0x20
}

/// A character of the standard Base64 alphabet (with the `=` padding).
pub open spec fn base64_char(c: char) -> bool {
    ('A' <= c && c <= 'Z') || ('a' <= c && c <= 'z') || ('0' <= c && c <= '9') || c == '+' || c
        == '/' || c == '='
}

proof fn lemma_plain_text_unescaped(s: Seq<char>)
    requires
        forall|i: int| 0 <= i < s.len() ==> plain_json_char(#[trigger] s[i]),
    ensures
        json_escaped(s) == s,
    decreases s.len(),
{
    if s.len() > 0 {
        let t = s.drop_last();
        assert forall|i: int| 0 <= i < t.len() implies plain_json_char(#[trigger] t[i]) by {
            assert(t[i] == s[i]);
        }
        lemma_plain_text_unescaped(t);
        assert(plain_json_char(s.last()));
        assert(s =~= t + seq![s.last()]);
    }
}

/// The MAC of a frame is taken over the JSON object of its data with the
/// member `iv` first and `payload` second. For an IV and payload written in
/// Base64 (as every frame carries them) that text is exactly
/// `{"iv":"<iv>","payload":"<payload>"}`, and it always starts with
/// `{"iv":"`.
pub proof fn lemma_mac_text_is_iv_then_payload(iv: Seq<char>, payload: Seq<char>, auth_key: Seq<u8>)
    ensures
        data_json(iv, payload).take(7) == "{\"iv\":\""@,
        (forall|i: int| 0 <= i < iv.len() ==> base64_char(#[trigger] iv[i])) && (forall|i: int|
            0 <= i < payload.len() ==> base64_char(#[trigger] payload[i])) ==> {
            &&& data_json(iv, payload) == "{\"iv\":\""@ + iv + "\",\"payload\":\""@ + payload
                + "\"}"@
            &&& mac_of(iv, payload, auth_key) == base64_encoding(
                hmac_sha256(
                    auth_key,
                    encode_utf8("{\"iv\":\""@ + iv + "\",\"payload\":\""@ + payload + "\"}"@),
                ),
            )
        },
{
    reveal_strlit("{\"iv\":\"");
    let pre = "{\"iv\":\""@;
    assert(pre.len() == 7);
    let rest = json_escaped(iv) + "\",\"payload\":\""@ + json_escaped(payload) + "\"}"@;
    assert(data_json(iv, payload) =~= pre + rest);
    assert((pre + rest).take(7) =~= pre);
    if (forall|i: int| 0 <= i < iv.len() ==> base64_char(#[trigger] iv[i])) && (forall|i: int|
        0 <= i < payload.len() ==> base64_char(#[trigger] payload[i])) {
        assert forall|i: int| 0 <= i < iv.len() implies plain_json_char(#[trigger] iv[i]) by {
            assert(base64_char(iv[i]));
        }
        assert forall|i: int| 0 <= i < payload.len() implies plain_json_char(#[trigger] payload[i]) by {
            assert(base64_char(payload[i]));
        }
        lemma_plain_text_unescaped(iv);
        lemma_plain_text_unescaped(payload);
    }
}

fn mac_over_data(data: &EncryptedData, auth_key: &[u8; 32]) -> (r: String)
    ensures
        r@ == mac_of(data.iv@, data.payload@, auth_key@),
{
    let js = data_json_text(data);
    let tag = hmac_sha256_tag(auth_key, js.as_str().as_bytes());
    base64_encode(tag.as_slice())
}

// ---------------------------------------------------------------------------
// Frames
// ---------------------------------------------------------------------------

/// Stage at which the decryption of a frame fails.
pub enum FrameFailure {
    NotEncrypted,
    MacMismatch,
    Base64,
    InvalidLength,
    Decrypt,
}

/// Plaintext bytes of a frame, or the first check it fails: type
/// `ENCRYPTED`, MAC, Base64 of the IV, IV length, Base64 of the payload,
/// decryption.
pub open spec fn frame_plaintext(
    frame_type: Seq<char>,
    iv: Seq<char>,
    payload: Seq<char>,
    mac: Seq<char>,
    aes_key: Seq<u8>,
    auth_key: Seq<u8>,
) -> Result<Seq<u8>, FrameFailure> {
    if frame_type != "ENCRYPTED"@ {
        Err(FrameFailure::NotEncrypted)
    } else if mac_of(iv, payload, auth_key) != mac {
        Err(FrameFailure::MacMismatch)
    } else {
        match base64_decoding(iv) {
            None => Err(FrameFailure::Base64),
            Some(ivb) => if ivb.len() != 16 {
                Err(FrameFailure::InvalidLength)
            } else {
                match base64_decoding(payload) {
                    None => Err(FrameFailure::Base64),
                    Some(ct) => match aes256_cbc_decryption(aes_key, ivb, ct) {
                        None => Err(FrameFailure::Decrypt),
                        Some(pt) => Ok(pt),
                    },
                }
            },
        }
    }
}

pub open spec fn plaintext_of(frame: EncryptedFrame, aes_key: Seq<u8>, auth_key: Seq<u8>) -> Result<
    Seq<u8>,
    FrameFailure,
> {
    frame_plaintext(frame.frame_type@, frame.data.iv@, frame.data.payload@, frame.mac@, aes_key, auth_key)
}

pub open spec fn failure_matches(e: ProtocolError, f: FrameFailure) -> bool {
    match f {
        FrameFailure::NotEncrypted => e is NotEncrypted,
        FrameFailure::MacMismatch => e is MacMismatch,
        FrameFailure::Base64 => e is Base64,
        FrameFailure::InvalidLength => e is InvalidLength,
        FrameFailure::Decrypt => e is Decrypt,
    }
}

fn iv_array(v: &Vec<u8>) -> (a: [u8; 16])
    requires
        v@.len() == 16,
    ensures
        a@ == v@,
{
    let mut a = [0u8; 16];
    let mut i: usize = 0;
    while i < 16
        invariant
            v@.len() == 16,
            i <= 16,
            a@.len() == 16,
            forall|k: int| 0 <= k < i ==> a@[k] == v@[k],
        decreases 16 - i,
    {
        a[i] = v[i];
        i += 1;
    }
    assert(a@ =~= v@);
    a
}

/// Checks the MAC then decrypts the payload of a frame; `aes_key` is the
/// secret key before authentication, the session key afterwards.
pub fn decrypt_frame_bytes(frame: &EncryptedFrame, aes_key: &[u8; 32], auth_key: &[u8; 32]) -> (r:
    Result<Vec<u8>, ProtocolError>)
    ensures
        match (r, plaintext_of(*frame, aes_key@, auth_key@)) {
            (Ok(v), Ok(pt)) => v@ == pt,
            (Err(e), Err(f)) => failure_matches(e, f),
            _ => false,
        },
{
    if frame.frame_type != String::from_str("ENCRYPTED") {
        return Err(ProtocolError::NotEncrypted);
    }
    let expected_mac = mac_over_data(&frame.data, auth_key);
    if expected_mac != frame.mac {
        return Err(ProtocolError::MacMismatch);
    }
    let iv = match base64_decode(frame.data.iv.as_str()) {
        Ok(v) => v,
        Err(e) => return Err(ProtocolError::Base64(e)),
    };
    if iv.len() != 16 {
        return Err(ProtocolError::InvalidLength);
    }
    let iv = iv_array(&iv);
    let buf = match base64_decode(frame.data.payload.as_str()) {
        Ok(v) => v,
        Err(e) => return Err(ProtocolError::Base64(e)),
    };
    match aes_decrypt(aes_key, &iv, buf.as_slice()) {
        Some(pt) => Ok(pt),
        None => Err(ProtocolError::Decrypt),
    }
}

/// Checks the MAC, decrypts the payload and parses it as JSON.
pub fn decrypt_frame(frame: &EncryptedFrame, aes_key: &[u8; 32], auth_key: &[u8; 32]) -> (r: Result<
    serde_json::Value,
    ProtocolError,
>)
    ensures
        match plaintext_of(*frame, aes_key@, auth_key@) {
            Ok(pt) => if json_accepts(pt) {
                r matches Ok(v) && v == json_value_of(pt)
            } else {
                r matches Err(ProtocolError::Json(_))
            },
            Err(f) => r matches Err(e) && failure_matches(e, f),
        },
{
    let pt = decrypt_frame_bytes(frame, aes_key, auth_key)?;
    match parse_json(pt.as_slice()) {
        Ok(v) => Ok(v),
        Err(e) => Err(ProtocolError::Json(e)),
    }
}

/// Builds an `ENCRYPTED` frame from a JSON plaintext (always with the
/// session key: commands are only sent once authenticated), under a fresh
/// random IV.
pub fn build_encrypted_frame(session_key: &[u8; 32], auth_key: &[u8; 32], plaintext_json: &str) -> (r:
    Result<EncryptedFrame, ProtocolError>)
    ensures
        r matches Ok(f) && f.frame_type@ == "ENCRYPTED"@ && exists|iv: Seq<u8>|
            iv.len() == 16 && f.data.iv@ == base64_encoding(iv) && base64_decoding(f.data.iv@)
                == Some(iv) && f.data.payload@ == base64_encoding(
                aes256_cbc_encryption(session_key@, iv, plaintext_json.spec_bytes()),
            ) && aes256_cbc_decryption(
                session_key@,
                iv,
                aes256_cbc_encryption(session_key@, iv, plaintext_json.spec_bytes()),
            ) == Some(plaintext_json.spec_bytes()) && base64_decoding(f.data.payload@) == Some(
                aes256_cbc_encryption(session_key@, iv, plaintext_json.spec_bytes()),
            ),
        r matches Ok(f) ==> f.mac@ == mac_of(f.data.iv@, f.data.payload@, auth_key@),
{
    let iv = random_iv();
    let ciphertext = aes_encrypt(session_key, &iv, plaintext_json.as_bytes());
    let data = EncryptedData {
        iv: base64_encode(iv.as_slice()),
        payload: base64_encode(ciphertext.as_slice()),
    };
    let mac = mac_over_data(&data, auth_key);
    let f = EncryptedFrame { frame_type: String::from_str("ENCRYPTED"), data, mac };
    let ghost ivs = iv@;
    assert(ivs.len() == 16);
    assert(f.data.iv@ == base64_encoding(ivs));
    assert(base64_decoding(f.data.iv@) == Some(ivs));
    assert(f.data.payload@ == base64_encoding(aes256_cbc_encryption(session_key@, ivs, plaintext_json.spec_bytes())));
    Ok(f)
}

/// A frame built with a session key and an authentication key decrypts,
/// with the same keys, to the plaintext it was built from.
pub proof fn lemma_frame_round_trip(
    frame: EncryptedFrame,
    key: Seq<u8>,
    auth_key: Seq<u8>,
    iv: Seq<u8>,
    plain: Seq<u8>,
)
    requires
        frame.frame_type@ == "ENCRYPTED"@,
        iv.len() == 16,
        base64_decoding(frame.data.iv@) == Some(iv),
        base64_decoding(frame.data.payload@) == Some(aes256_cbc_encryption(key, iv, plain)),
        aes256_cbc_decryption(key, iv, aes256_cbc_encryption(key, iv, plain)) == Some(plain),
        frame.mac@ == mac_of(frame.data.iv@, frame.data.payload@, auth_key),
    ensures
        plaintext_of(frame, key, auth_key) == Ok::<Seq<u8>, FrameFailure>(plain),
{
}

/// A frame whose MAC was computed with another authentication key than the
/// one used to check it is rejected as a MAC mismatch (whenever the two MACs
/// differ).
pub proof fn lemma_wrong_auth_key_rejected(frame: EncryptedFrame, key: Seq<u8>, auth_key: Seq<u8>)
    requires
        frame.frame_type@ == "ENCRYPTED"@,
        frame.mac@ != mac_of(frame.data.iv@, frame.data.payload@, auth_key),
    ensures
        plaintext_of(frame, key, auth_key) matches Err(FrameFailure::MacMismatch),
{
}

// ---------------------------------------------------------------------------
// Actions
// ---------------------------------------------------------------------------

/// Plaintext JSON of an action: `{"action":{"type":T,"id":N}}`, with
/// `"duration":D` (minutes) for the "hold" variants.
pub open spec fn action_text(action_type: Seq<char>, id: u32, duration: Option<u32>) -> Seq<char> {
    "{\"action\":{\"type\":\""@ + action_type + "\",\"id\":"@ + dec_digits(id as nat) + match duration {
        Some(d) => ",\"duration\":"@ + dec_digits(d as nat) + "}}"@,
        None => "}}"@,
    }
}

pub fn action_json(action_type: &str, action_id: u32, duration_mins: Option<u32>) -> (r: String)
    ensures
        r@ == action_text(action_type@, action_id, duration_mins),
{
    let mut s = String::from_str("{\"action\":{\"type\":\"");
    s.append(action_type);
    s.append("\",\"id\":");
    push_u64(&mut s, action_id as u64);
    match duration_mins {
        Some(d) => {
            s.append(",\"duration\":");
            push_u64(&mut s, d as u64);
            s.append("}}");
        },
        None => {
            s.append("}}");
        },
    }
    s
}

/// Next action id, wrapping to 0 as the protocol does
/// (`(lastActionId + 1) % 0x7FFFFFFF`).
pub fn next_action_id(last_action_id: u32) -> (r: u32)
    requires
        last_action_id < u32::MAX,
    ensures
        r == (last_action_id + 1) % 0x7fff_ffff,
{
    (last_action_id + 1) % 0x7fff_ffff
}

} // verus!
