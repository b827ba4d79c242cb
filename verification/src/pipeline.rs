//! The fingerprint payload pipeline: canonicalize the target, derive the
//! integrity tag, obfuscate and field-encrypt, JSON-encode, gzip, AES-CBC
//! encrypt under the session key with the fixed IV and zero padding, hex
//! encode; then frame the outer request body and judge the service's
//! answer.
use crate::canon::{canon_of, canonical_entries_bytes};
use crate::descriptor::{canonical_target_model, num_field, smid_of, text_field};
use crate::fieldcipher::{obf_entries, zeros};
use crate::json::{json_obj_of, json_object};
use crate::outside::{
    aes128_cbc_encrypt, aes128_cbc_of, base64_bytes, base64_of, gzip_deflate, gzip_deflate_of,
    hex_bytes, hex_of, lemma_hex_len, local_time_string, md5_digest, md5_of, now_unix_millis,
    rsa_encrypt_fixed_key, uuid_string,
};
use crate::value::{copy_bytes, entries_model, lit_bytes, str_bytes, FieldModel, FieldValue};
use vstd::prelude::*;

verus! {

broadcast use vstd::std_specs::vec::group_vec_axioms;

/// The core's error taxonomy: a constant-corruption failure in the
/// cryptography, a rejection by the fingerprint service (with the code it
/// answered), or a response missing a field the protocol requires.
#[derive(Debug, Clone, Copy, PartialEq, Eq, Structural)]
pub enum CoreError {
    Crypto,
    FingerprintRejected(i64),
    Protocol,
}

/// The fixed AES IV, the ASCII bytes of `0102030405060708`.
pub open spec fn aes_iv() -> Seq<u8> {
    seq![48u8, 49u8, 48u8, 50u8, 48u8, 51u8, 48u8, 52u8, 48u8, 53u8, 48u8, 54u8, 48u8, 55u8, 48u8, 56u8]
}

fn aes_iv_bytes() -> (r: Vec<u8>)
    ensures
        r@ == aes_iv(),
        r@.len() == 16,
{
    let mut v: Vec<u8> = Vec::new();
    v.push(48);
    v.push(49);
    v.push(48);
    v.push(50);
    v.push(48);
    v.push(51);
    v.push(48);
    v.push(52);
    v.push(48);
    v.push(53);
    v.push(48);
    v.push(54);
    v.push(48);
    v.push(55);
    v.push(48);
    v.push(56);
    proof {
        assert(v@ =~= aes_iv());
    }
    v
}

/// Zero padding up to the next AES block boundary; block-aligned data is
/// left as it is.
pub open spec fn pad16(s: Seq<u8>) -> Seq<u8> {
    if s.len() % 16 == 0 {
        s
    } else {
        s + zeros((16 - (s.len() % 16)) as nat)
    }
}

fn pad_zero16(data: Vec<u8>) -> (r: Vec<u8>)
    ensures
        r@ == pad16(data@),
        r@.len() % 16 == 0,
{
    let rem = data.len() % 16;
    if rem == 0 {
        return data;
    }
    let pad = 16 - rem;
    let mut out = data;
    let ghost base = out@;
    let mut k: usize = 0;
    proof {
        assert(out@ =~= base + zeros(0));
    }
    while k < pad
        invariant
            k <= pad,
            pad == 16 - (base.len() % 16),
            base.len() % 16 != 0,
            out@ == base + zeros(k as nat),
        decreases pad - k,
    {
        out.push(0);
        proof {
            assert(base + zeros(k as nat + 1) =~= (base + zeros(k as nat)).push(0u8));
        }
        k = k + 1;
    }
    proof {
        assert((base.len() + (16 - (base.len() % 16))) % 16 == 0) by {
            vstd::arithmetic::div_mod::lemma_fundamental_div_mod(base.len() as int, 16);
        }
    }
    out
}

/// The integrity tag of a canonicalization target: the MD5 hex of its
/// canonical byte string.
pub open spec fn tn_of(target: Seq<(Seq<u8>, FieldModel)>) -> Seq<u8> {
    hex_of(md5_of(canon_of(FieldModel::Obj(target))))
}

/// The AES key derived from the session UUID: the first 16 hex characters
/// of its MD5, used as ASCII key bytes.
pub open spec fn pri_id_of(uid: Seq<u8>) -> Seq<u8> {
    hex_of(md5_of(uid)).take(16)
}

/// The hex-encoded encrypted payload for a canonicalization target (with
/// its integrity tag already inserted) under a session key.
pub open spec fn payload_hex_of(target: Seq<(Seq<u8>, FieldModel)>, pri_id: Seq<u8>) -> Seq<u8> {
    hex_of(
        aes128_cbc_of(pri_id, aes_iv(), pad16(gzip_deflate_of(json_obj_of(obf_entries(target))))),
    )
}

/// The full deterministic payload for a session: the canonical target of
/// the fresh values, its integrity tag appended, obfuscated, JSON-encoded,
/// gzipped, AES-encrypted under the key derived from `uid`, hex-encoded.
pub open spec fn fingerprint_data_model(
    uid: Seq<u8>,
    vpw: Seq<u8>,
    svm: int,
    trees: Seq<u8>,
    pmf: int,
    smid: Seq<u8>,
) -> Seq<u8> {
    let target = canonical_target_model(vpw, svm, trees, pmf, smid);
    let with_tn = target + seq![(str_bytes("tn"@), FieldModel::Text(tn_of(target)))];
    payload_hex_of(with_tn, pri_id_of(uid))
}

/// Builds the hex-encoded encrypted payload from the session-fresh values:
/// a pure function of its arguments, so the pipeline is reproducible.
#[verifier::rlimit(100)]
pub fn build_fingerprint_data(
    uid: &Vec<u8>,
    vpw: &Vec<u8>,
    svm: i64,
    trees: &Vec<u8>,
    pmf: i64,
    smid: &Vec<u8>,
) -> (r: Vec<u8>)
    ensures
        r@ == fingerprint_data_model(uid@, vpw@, svm as int, trees@, pmf as int, smid@),
{
    let mut target = crate::descriptor::build_canonical_target(vpw, svm, trees, pmf, smid);
    let ghost target_m = entries_model(target@);
    let canon = canonical_entries_bytes(&target);
    let tn_md5 = md5_digest(canon.as_slice());
    let tn = hex_bytes(tn_md5.as_slice());
    let ghost before_tn = target@;
    target.push((lit_bytes("tn"), FieldValue::Text(tn)));
    let ghost with_tn_m = entries_model(target@);
    proof {
        assert(with_tn_m =~= target_m + seq![
            (str_bytes("tn"@), FieldModel::Text(tn_of(target_m))),
        ]);
        assert(forall|j: int|
            0 <= j < target@.len() ==> crate::value::is_flat(#[trigger] target@[j].1.model()))
            by {
            assert(forall|j: int|
                0 <= j < before_tn.len() ==> target@[j] == #[trigger] before_tn[j]);
        }
    }
    let obf = crate::fieldcipher::obfuscate_entries(&target);
    let js = json_object(&obf);
    let gz = gzip_deflate(js.as_slice());
    let padded = pad_zero16(gz);
    let uid_md5 = md5_digest(uid.as_slice());
    let uid_hex = hex_bytes(uid_md5.as_slice());
    proof {
        lemma_hex_len(md5_of(uid@));
    }
    let mut pri: Vec<u8> = Vec::new();
    let mut i: usize = 0;
    proof {
        assert(pri@ =~= uid_hex@.take(0));
    }
    while i < 16
        invariant
            uid_hex@.len() == 32,
            uid_hex@ == hex_of(md5_of(uid@)),
            i <= 16,
            pri@ == uid_hex@.take(i as int),
        decreases 16 - i,
    {
        pri.push(uid_hex[i]);
        proof {
            assert(uid_hex@.take(i as int + 1) =~= uid_hex@.take(i as int).push(
                uid_hex@[i as int],
            ));
        }
        i = i + 1;
    }
    let iv = aes_iv_bytes();
    let ct = aes128_cbc_encrypt(pri.as_slice(), iv.as_slice(), padded.as_slice());
    hex_bytes(ct.as_slice())
}

/// The outer request body: the payload hex under `data`, the RSA-encrypted
/// session UUID under `ep`, and the fixed protocol constants.
#[verifier::opaque]
pub open spec fn fingerprint_body_model(data_hex: Seq<u8>, ep: Seq<u8>) -> Seq<
    (Seq<u8>, FieldModel),
> {
    seq![
        text_field("appId"@, "default"@),
        num_field("compress"@, 2),
        (str_bytes("data"@), FieldModel::Text(data_hex)),
        num_field("encode"@, 5),
        (str_bytes("ep"@), FieldModel::Text(ep)),
        text_field("organization"@, "UWXspnCCJN4sfYlNfqps"@),
        text_field("os"@, "web"@),
    ]
}

/// Builds the outer request body's JSON bytes.
pub fn build_fingerprint_body(data_hex: &Vec<u8>, ep: &Vec<u8>) -> (r: Vec<u8>)
    ensures
        r@ == json_obj_of(fingerprint_body_model(data_hex@, ep@)),
{
    let mut m: Vec<(Vec<u8>, FieldValue)> = Vec::new();
    m.push((lit_bytes("appId"), FieldValue::Text(lit_bytes("default"))));
    m.push((lit_bytes("compress"), FieldValue::Num { mantissa: 2, scale: 0 }));
    m.push((lit_bytes("data"), FieldValue::Text(copy_bytes(data_hex))));
    m.push((lit_bytes("encode"), FieldValue::Num { mantissa: 5, scale: 0 }));
    m.push((lit_bytes("ep"), FieldValue::Text(copy_bytes(ep))));
    m.push((lit_bytes("organization"), FieldValue::Text(lit_bytes("UWXspnCCJN4sfYlNfqps"))));
    m.push((lit_bytes("os"), FieldValue::Text(lit_bytes("web"))));
    proof {
        reveal(fingerprint_body_model);
        assert(entries_model(m@) =~= fingerprint_body_model(data_hex@, ep@));
    }
    json_object(&m)
}

/// Draws the session-fresh values and builds the complete outer request
/// body for the fingerprint exchange. Randomized, so the contract says
/// what holds whatever was drawn: on success the body is exactly the
/// fixed frame whose `data` is the deterministic pipeline applied to some
/// fresh 36-byte UUID strings, one clock instant (used for both
/// timestamps) and the session marker id derived from the local time and
/// a fourth UUID, and whose `ep` is the base64 of the 128-byte RSA
/// ciphertext of the session UUID. It fails only when the RSA step does,
/// as `Crypto`.
pub fn build_fingerprint_request() -> (r: Result<Vec<u8>, CoreError>)
    ensures
        r is Err ==> r.unwrap_err() == CoreError::Crypto,
        r is Ok ==> exists|
            uid: Seq<u8>,
            vpw: Seq<u8>,
            trees: Seq<u8>,
            t: i64,
            lt: Seq<u8>,
            su: Seq<u8>,
            ct: Seq<u8>,
        |
            uid.len() == 36 && vpw.len() == 36 && trees.len() == 36 && su.len() == 36 && ct.len()
                == 128 && r.unwrap()@ == json_obj_of(
                fingerprint_body_model(
                    fingerprint_data_model(uid, vpw, t as int, trees, t as int, smid_of(lt, su)),
                    base64_of(ct),
                ),
            ),
{
    let uid = uuid_string();
    let ep_ct = match rsa_encrypt_fixed_key(uid.as_slice()) {
        Option::Some(ct) => ct,
        Option::None => {
            return Result::Err(CoreError::Crypto);
        },
    };
    let ep = base64_bytes(ep_ct.as_slice());
    let vpw = uuid_string();
    let trees = uuid_string();
    let ms = now_unix_millis();
    let now_ms: i64 = if ms <= 0x7fff_ffff_ffff_ffff {
        ms as i64
    } else {
        0x7fff_ffff_ffff_ffff
    };
    let lt = local_time_string();
    let smid_uuid = uuid_string();
    let smid = crate::descriptor::make_smid(&lt, &smid_uuid);
    let data = build_fingerprint_data(&uid, &vpw, now_ms, &trees, now_ms, &smid);
    let body = build_fingerprint_body(&data, &ep);
    proof {
        assert(body@ == json_obj_of(
            fingerprint_body_model(
                fingerprint_data_model(
                    uid@,
                    vpw@,
                    now_ms as int,
                    trees@,
                    now_ms as int,
                    smid_of(lt@, smid_uuid@),
                ),
                base64_of(ep_ct@),
            ),
        ));
    }
    Result::Ok(body)
}

/// Judges the fingerprint service's answer: the device id is valid only
/// under status code 1100, and is prefixed with `B`; any other code is a
/// fatal rejection carrying that code; a success answer without a device
/// id breaks the protocol.
pub fn device_id_from_response(code: i64, device_id: Option<&Vec<u8>>) -> (r: Result<
    Vec<u8>,
    CoreError,
>)
    ensures
        code == 1100 && device_id is Some ==> r is Ok && r.unwrap()@ == seq![66u8]
            + device_id.unwrap()@,
        code != 1100 ==> r is Err && r.unwrap_err() == CoreError::FingerprintRejected(code),
        code == 1100 && device_id is None ==> r is Err && r.unwrap_err() == CoreError::Protocol,
{
    if code != 1100 {
        return Result::Err(CoreError::FingerprintRejected(code));
    }
    match device_id {
        Option::Some(d) => {
            let mut out: Vec<u8> = Vec::new();
            out.push(66);
            out.extend_from_slice(d.as_slice());
            proof {
                assert(out@ =~= seq![66u8] + d@);
            }
            Result::Ok(out)
        },
        Option::None => Result::Err(CoreError::Protocol),
    }
}

} // verus!
