//! The trusted boundary: every call into an outside crate the pipeline
//! relies on, each behind a small wrapper whose contract states what the
//! call returns. Digests, ciphers and compression are pure functions of
//! their input bytes, named by bodiless spec functions; hex and base64 are
//! stated exactly; random and time-dependent results promise only their
//! shape.
use aes::cipher::{BlockEncryptMut, KeyIvInit};
use base64::Engine;
use des::cipher::generic_array::GenericArray;
use des::cipher::{BlockDecrypt, BlockEncrypt, KeyInit};
use rsa::pkcs8::DecodePublicKey;
use hmac::Mac;
use md5::Digest;
use std::io::Write;
use vstd::prelude::*;

verus! {

/// The 16-byte MD5 digest of a byte sequence: a function of the bytes alone.
pub uninterp spec fn md5_of(data: Seq<u8>) -> Seq<u8>;

/// The 32-byte HMAC-SHA256 tag of a message under a key: a function of the
/// key and message bytes alone.
pub uninterp spec fn hmac_sha256_of(key: Seq<u8>, msg: Seq<u8>) -> Seq<u8>;

/// The DES encryption of one 8-byte block under an 8-byte key.
pub uninterp spec fn des_block_of(key: Seq<u8>, block: Seq<u8>) -> Seq<u8>;

/// The DES decryption of one 8-byte block under an 8-byte key.
pub uninterp spec fn des_unblock_of(key: Seq<u8>, block: Seq<u8>) -> Seq<u8>;

/// The gzip stream for a byte sequence at the default compression level
/// with a zero header timestamp: with the time pinned, a function of the
/// input bytes alone, which makes the whole payload pipeline reproducible.
pub uninterp spec fn gzip_deflate_of(data: Seq<u8>) -> Seq<u8>;

/// The AES-128-CBC ciphertext of block-aligned data under a 16-byte key
/// and a 16-byte IV.
pub uninterp spec fn aes128_cbc_of(key: Seq<u8>, iv: Seq<u8>, data: Seq<u8>) -> Seq<u8>;

/// The ASCII hex digit for `d` (0 through 15), lower case.
pub open spec fn hex_digit(d: int) -> u8 {
    if d < 10 {
        (48 + d) as u8
    } else {
        (87 + d) as u8
    }
}

/// Lower-case hex form of a byte sequence: two digits per byte.
pub open spec fn hex_of(s: Seq<u8>) -> Seq<u8>
    decreases s.len(),
{
    if s.len() == 0 {
        Seq::empty()
    } else {
        seq![hex_digit(s[0] as int / 16), hex_digit(s[0] as int % 16)] + hex_of(s.drop_first())
    }
}

pub proof fn lemma_hex_len(s: Seq<u8>)
    ensures
        hex_of(s).len() == 2 * s.len(),
    decreases s.len(),
{
    if s.len() > 0 {
        lemma_hex_len(s.drop_first());
    }
}

/// The standard base64 alphabet, index `d` (0 through 63).
pub open spec fn b64_char(d: int) -> u8 {
    if d < 26 {
        (65 + d) as u8
    } else if d < 52 {
        (97 + (d - 26)) as u8
    } else if d < 62 {
        (48 + (d - 52)) as u8
    } else if d == 62 {
        43u8
    } else {
        47u8
    }
}

/// Standard padded base64 of a byte sequence: four characters per group of
/// three bytes, `=`-padded at the tail.
pub open spec fn base64_of(s: Seq<u8>) -> Seq<u8>
    decreases s.len(),
{
    if s.len() == 0 {
        Seq::empty()
    } else if s.len() == 1 {
        let b0 = s[0] as int;
        seq![b64_char(b0 / 4), b64_char((b0 % 4) * 16), 61u8, 61u8]
    } else if s.len() == 2 {
        let b0 = s[0] as int;
        let b1 = s[1] as int;
        seq![b64_char(b0 / 4), b64_char((b0 % 4) * 16 + b1 / 16), b64_char((b1 % 16) * 4), 61u8]
    } else {
        let b0 = s[0] as int;
        let b1 = s[1] as int;
        let b2 = s[2] as int;
        seq![
            b64_char(b0 / 4),
            b64_char((b0 % 4) * 16 + b1 / 16),
            b64_char((b1 % 16) * 4 + b2 / 64),
            b64_char(b2 % 64),
        ] + base64_of(s.skip(3))
    }
}

/// Relies on `md-5`'s `Md5` through the `Digest` trait: the 16-byte MD5
/// digest of the input.
#[verifier::external_body]
pub fn md5_digest(data: &[u8]) -> (r: Vec<u8>)
    ensures
        r@ == md5_of(data@),
        r@.len() == 16,
{
    let mut hasher = md5::Md5::new();
    hasher.update(data);
    hasher.finalize().to_vec()
}

/// Relies on `hmac` with `sha2`'s `Sha256`: the 32-byte HMAC-SHA256 tag of
/// `msg` under `key`. HMAC accepts keys of any length, so the constructor
/// cannot fail.
#[verifier::external_body]
pub fn hmac_sha256(key: &[u8], msg: &[u8]) -> (r: Vec<u8>)
    ensures
        r@ == hmac_sha256_of(key@, msg@),
        r@.len() == 32,
{
    let mut mac = <hmac::Hmac<sha2::Sha256> as hmac::Mac>::new_from_slice(key).unwrap();
    mac.update(msg);
    mac.finalize().into_bytes().to_vec()
}

/// Relies on `hex::encode`: two lower-case hex digits for each input byte.
#[verifier::external_body]
pub fn hex_bytes(data: &[u8]) -> (r: Vec<u8>)
    ensures
        r@ == hex_of(data@),
{
    hex::encode(data).into_bytes()
}

/// Relies on `base64`'s `STANDARD` engine: standard padded base64.
#[verifier::external_body]
pub fn base64_bytes(data: &[u8]) -> (r: Vec<u8>)
    ensures
        r@ == base64_of(data@),
{
    base64::engine::general_purpose::STANDARD.encode(data).into_bytes()
}

/// Relies on `des`'s `Des` (`encrypt_block`): DES of one block. The second
/// clause holds because DES decryption inverts DES encryption under the
/// same key.
#[verifier::external_body]
pub fn des_encrypt_block(key: &[u8], block: &[u8]) -> (r: Vec<u8>)
    requires
        key@.len() == 8,
        block@.len() == 8,
    ensures
        r@ == des_block_of(key@, block@),
        des_unblock_of(key@, r@) == block@,
        r@.len() == 8,
{
    let des = des::Des::new_from_slice(key).unwrap();
    let mut b = GenericArray::clone_from_slice(block);
    des.encrypt_block(&mut b);
    b.to_vec()
}

/// Relies on `des`'s `Des` (`decrypt_block`): DES decryption of one block.
#[verifier::external_body]
pub fn des_decrypt_block(key: &[u8], block: &[u8]) -> (r: Vec<u8>)
    requires
        key@.len() == 8,
        block@.len() == 8,
    ensures
        r@ == des_unblock_of(key@, block@),
        r@.len() == 8,
{
    let des = des::Des::new_from_slice(key).unwrap();
    let mut b = GenericArray::clone_from_slice(block);
    des.decrypt_block(&mut b);
    b.to_vec()
}

/// Relies on `flate2`'s `GzBuilder` writing into a `Vec` (which cannot
/// fail) with the header timestamp pinned to zero and the default level:
/// the stream's MTIME field (bytes 4 through 7) is zero, which is what
/// makes repeated runs byte-identical.
#[verifier::external_body]
pub fn gzip_deflate(data: &[u8]) -> (r: Vec<u8>)
    ensures
        r@ == gzip_deflate_of(data@),
        r@.len() >= 10,
        r@[4] == 0 && r@[5] == 0 && r@[6] == 0 && r@[7] == 0,
{
    let mut writer: Vec<u8> = Vec::new();
    let mut encoder = flate2::GzBuilder::new().mtime(0).write(
        &mut writer,
        flate2::Compression::default(),
    );
    encoder.write_all(data).unwrap();
    encoder.finish().unwrap();
    writer
}

/// Relies on `cbc`'s `Encryptor` over `aes`'s `Aes128` with
/// `block-padding`'s `NoPadding`: AES-128-CBC of already block-aligned
/// data, whose ciphertext has the plaintext's length.
#[verifier::external_body]
pub fn aes128_cbc_encrypt(key: &[u8], iv: &[u8], data: &[u8]) -> (r: Vec<u8>)
    requires
        key@.len() == 16,
        iv@.len() == 16,
        data@.len() % 16 == 0,
    ensures
        r@ == aes128_cbc_of(key@, iv@, data@),
        r@.len() == data@.len(),
{
    let mut buf = data.to_vec();
    let pt_len = data.len();
    let enc = cbc::Encryptor::<aes::Aes128>::new(key.into(), iv.into());
    let ct = enc.encrypt_padded_mut::<block_padding::NoPadding>(&mut buf, pt_len).unwrap();
    ct.to_vec()
}

/// Relies on `rsa` (`RsaPublicKey::from_public_key_der`, `encrypt` with
/// `Pkcs1v15Encrypt` and `rand::thread_rng`) and on `base64` decoding the
/// embedded public key constant. PKCS#1 v1.5 ciphertext is randomized, so
/// only the 1024-bit key's 128-byte ciphertext length is promised.
#[verifier::external_body]
pub fn rsa_encrypt_fixed_key(msg: &[u8]) -> (r: Option<Vec<u8>>)
    ensures
        r is Some ==> r.unwrap()@.len() == 128,
{
    let der = match base64::engine::general_purpose::STANDARD.decode(PUBLIC_KEY_B64) {
        Ok(d) => d,
        Err(_) => return None,
    };
    let key = match rsa::RsaPublicKey::from_public_key_der(&der) {
        Ok(k) => k,
        Err(_) => return None,
    };
    let mut rng = rand::thread_rng();
    match key.encrypt(&mut rng, rsa::Pkcs1v15Encrypt, msg) {
        Ok(ct) => Some(ct),
        Err(_) => None,
    }
}

/// Relies on `uuid`'s `Uuid::new_v4` and its `Display`: a fresh random
/// UUID in hyphenated form. The value is random; only the 36-byte
/// hyphenated shape is promised.
#[verifier::external_body]
pub fn uuid_string() -> (r: Vec<u8>)
    ensures
        r@.len() == 36,
{
    uuid::Uuid::new_v4().to_string().into_bytes()
}

/// Relies on `std::time` (`SystemTime::now`, `duration_since`,
/// `Duration::as_millis`): milliseconds since the Unix epoch, zero if the
/// clock reads before the epoch. Nothing is promised of the value.
#[verifier::external_body]
pub fn now_unix_millis() -> u64 {
    std::time::SystemTime::now().duration_since(std::time::UNIX_EPOCH).map(
        |d| d.as_millis() as u64,
    ).unwrap_or(0)
}

/// Relies on `std::time` (`SystemTime::now`, `duration_since`,
/// `Duration::as_secs`): seconds since the Unix epoch, zero if the clock
/// reads before the epoch. Nothing is promised of the value.
#[verifier::external_body]
pub fn now_unix_seconds() -> u64 {
    std::time::SystemTime::now().duration_since(std::time::UNIX_EPOCH).map(
        |d| d.as_secs(),
    ).unwrap_or(0)
}

/// Relies on `chrono` (`Local::now` and `format`): the local time as
/// `YYYYMMDDHHMMSS`. The value depends on the clock and time zone; only
/// the fields' minimum widths (4+2+2+2+2+2 digits) are promised.
#[verifier::external_body]
pub fn local_time_string() -> (r: Vec<u8>)
    ensures
        r@.len() >= 14,
{
    chrono::Local::now().format("%Y%m%d%H%M%S").to_string().into_bytes()
}

/// The service's fixed 1024-bit RSA public key, DER in base64.
const PUBLIC_KEY_B64: &'static str = "MIGfMA0GCSqGSIb3DQEBAQUAA4GNADCBiQKBgQCmxMNr7n8ZeT0tE1R9j/mPixoinPkeM+k4VGIn/s0k7N5rJAfnZ0eMER+QhwFvshzo0LNmeUkpR8uIlU/GEVr8mN28sKmwd2gpygqj0ePnBmOW4v0ZVwbSYK+izkhVFk2V/doLoMbWy6b+UnA8mkjvg0iYWRByfRsK2gdl7llqCwIDAQAB";

} // verus!
