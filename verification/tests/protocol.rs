use aes::cipher::{BlockDecryptMut, KeyIvInit};
use base64::Engine;
use des::cipher::generic_array::GenericArray;
use des::cipher::{BlockEncrypt, KeyInit};
use hmac::Mac;
use md5::Digest;
use skland_core::canon::canonical_bytes;
use std::io::Read;
use skland_core::descriptor::make_smid;
use skland_core::fieldcipher::{
    des_ecb_decrypt, des_ecb_encrypt, des_field_round_trip, obfuscate_entries, obfuscate_field,
    pad_zero8, strip_trailing_zeros,
};
use skland_core::json::{json_object, json_string};
use skland_core::outside::{base64_bytes, gzip_deflate, hex_bytes, hmac_sha256, md5_digest, uuid_string};
use skland_core::pipeline::{build_fingerprint_body, build_fingerprint_data, build_fingerprint_request,
    device_id_from_response, CoreError};
use skland_core::rules::get_des_rules;
use skland_core::signer::{build_sign_header, sign_with_timestamp, signing_timestamp};
use skland_core::FieldValue;

fn t(s: &str) -> Vec<u8> {
    s.as_bytes().to_vec()
}

#[test]
fn canonical_serializer_sorts_keys_and_truncates_numbers() {
    // {"b": 1.23456, "a": "x"} -> "x12345": values in sorted-key order,
    // keys dropped, the number times 10,000 truncated toward zero.
    let v = FieldValue::Obj(vec![
        (t("b"), FieldValue::Num { mantissa: 123456, scale: 5 }),
        (t("a"), FieldValue::Text(t("x"))),
    ]);
    assert_eq!(canonical_bytes(&v), t("x12345"));
    // Insertion order must not matter.
    let v2 = FieldValue::Obj(vec![
        (t("a"), FieldValue::Text(t("x"))),
        (t("b"), FieldValue::Num { mantissa: 123456, scale: 5 }),
    ]);
    assert_eq!(canonical_bytes(&v2), t("x12345"));
}

#[test]
fn canonical_number_cases() {
    assert_eq!(canonical_bytes(&FieldValue::Num { mantissa: -480, scale: 0 }), t("-4800000"));
    assert_eq!(canonical_bytes(&FieldValue::Num { mantissa: 0, scale: 0 }), t("0"));
    assert_eq!(canonical_bytes(&FieldValue::Num { mantissa: -123456, scale: 5 }), t("-12345"));
    assert_eq!(canonical_bytes(&FieldValue::Num { mantissa: 7, scale: 0 }), t("70000"));
    assert_eq!(canonical_bytes(&FieldValue::Num { mantissa: 5, scale: 30 }), t("0"));
}

#[test]
fn canonical_nested_object() {
    let v = FieldValue::Obj(vec![
        (t("z"), FieldValue::Text(t("end"))),
        (
            t("a"),
            FieldValue::Obj(vec![
                (t("k2"), FieldValue::Text(t("two"))),
                (t("k1"), FieldValue::Text(t("one"))),
            ]),
        ),
    ]);
    assert_eq!(canonical_bytes(&v), t("onetwoend"));
}

#[test]
fn obfuscation_is_deterministic() {
    let name = t("ua");
    let val = FieldValue::Text(t("agent"));
    let a = obfuscate_field(&name, &val);
    let b = obfuscate_field(&name, &val);
    assert_eq!(a.0, b.0);
    match (&a.1, &b.1) {
        (FieldValue::Text(x), FieldValue::Text(y)) => assert_eq!(x, y),
        _ => panic!("expected encrypted text values"),
    }
    assert_eq!(a.0, t("bj"));
}

#[test]
fn protocol_and_version_pass_through() {
    let entries = vec![
        (t("protocol"), FieldValue::Num { mantissa: 102, scale: 0 }),
        (t("version"), FieldValue::Text(t("3.0.0"))),
    ];
    let obf = obfuscate_entries(&entries);
    let js = json_object(&obf);
    assert_eq!(js, t("{\"protocol\":102,\"version\":\"3.0.0\"}"));
}

#[test]
fn unknown_field_keeps_name_and_value() {
    let entries = vec![(t("smid"), FieldValue::Text(t("marker")))];
    let obf = obfuscate_entries(&entries);
    let js = json_object(&obf);
    assert_eq!(js, t("{\"smid\":\"marker\"}"));
}

#[test]
fn des_round_trip_for_every_rule() {
    let rules = get_des_rules();
    assert_eq!(rules.len(), 25);
    for (_name, rule) in &rules {
        if let Some(key) = &rule.key {
            assert!(rule.encrypt);
            assert_eq!(key.len(), 8);
            for value in [&b"v"[..], &b"hello"[..], &b"12345678"[..], &b""[..], &b"longer value 42!?"[..]] {
                let got = des_field_round_trip(key.as_slice(), &value.to_vec());
                assert_eq!(got, value.to_vec());
            }
        } else {
            assert!(!rule.encrypt);
        }
    }
}

#[test]
fn block_aligned_value_gains_full_zero_block() {
    // A value whose length is already a multiple of eight still receives a
    // whole extra zero block before encryption.
    let v = t("12345678");
    let padded = pad_zero8(&v);
    assert_eq!(padded.len(), 16);
    assert_eq!(&padded[..8], v.as_slice());
    assert_eq!(&padded[8..], &[0u8; 8]);
    let key = t("uy7mzc4h");
    let ct = des_ecb_encrypt(key.as_slice(), &padded);
    assert_eq!(ct.len(), 16);
    let pt = des_ecb_decrypt(key.as_slice(), &ct);
    assert_eq!(pt, padded);
    assert_eq!(strip_trailing_zeros(&pt), v);
}

#[test]
fn des_encryption_matches_reference_cipher() {
    let key = t("snrn887t");
    let data = pad_zero8(&t("259ffe69"));
    let ct = des_ecb_encrypt(key.as_slice(), &data);
    let des = des::Des::new_from_slice(key.as_slice()).unwrap();
    let mut expected = Vec::new();
    for chunk in data.chunks(8) {
        let mut block = GenericArray::clone_from_slice(chunk);
        des.encrypt_block(&mut block);
        expected.extend_from_slice(&block);
    }
    assert_eq!(ct, expected);
    assert_ne!(ct, data);
}

#[test]
fn encoders_known_values() {
    assert_eq!(hex_bytes(b"foo"), t("666f6f"));
    assert_eq!(base64_bytes(b"foobar"), t("Zm9vYmFy"));
    assert_eq!(base64_bytes(b"fooba"), t("Zm9vYmE="));
    assert_eq!(base64_bytes(b"foob"), t("Zm9vYg=="));
    assert_eq!(
        hex_bytes(md5_digest(b"").as_slice()),
        t("d41d8cd98f00b204e9800998ecf8427e")
    );
    assert_eq!(
        hex_bytes(md5_digest(b"abc").as_slice()),
        t("900150983cd24fb0d6963f7d28e17f72")
    );
    assert_eq!(
        hex_bytes(
            hmac_sha256(b"key", b"The quick brown fox jumps over the lazy dog").as_slice()
        ),
        t("f7bc83f430538424b13298e6aa6fb143ef4d59a14946175997479dbc2d1a3cd8")
    );
}

#[test]
fn json_escaping_matches_reference_serializer() {
    assert_eq!(json_string(b"a\"b\\c\nd"), t("\"a\\\"b\\\\c\\nd\""));
    assert_eq!(json_string(&[1u8, 31u8]), t("\"\\u0001\\u001f\""));
    let entries = vec![
        (t("b"), FieldValue::Num { mantissa: -7, scale: 0 }),
        (t("a"), FieldValue::Text(t("x\ty"))),
    ];
    let got = json_object(&entries);
    let mut map = serde_json::Map::new();
    map.insert("b".to_string(), serde_json::Value::from(-7i64));
    map.insert("a".to_string(), serde_json::Value::from("x\ty"));
    let expected = serde_json::to_string(&serde_json::Value::Object(map)).unwrap();
    assert_eq!(got, expected.into_bytes());
}

#[test]
fn gzip_header_timestamp_is_zero() {
    let gz = gzip_deflate(b"payload bytes");
    assert!(gz.len() >= 10);
    assert_eq!(&gz[..4], &[0x1f, 0x8b, 8, 0]);
    assert_eq!(&gz[4..8], &[0, 0, 0, 0]);
    assert_eq!(gz, gzip_deflate(b"payload bytes"));
}

#[test]
fn gzip_aes_pipeline_is_deterministic_and_decodable() {
    let uid = t("a3a04d6e-9f50-47b9-bb0e-5e81bc7ccf71");
    let vpw = t("0e9bd49a-7021-4f0f-b4d5-75b1e48229ef");
    let trees = t("0b4ae6a1-bd32-40c6-8023-0e61f76c4ee6");
    let smid = t("2024010112000099aa11bb22cc33dd44ee55ff6677889900aabbccddee0");
    let one = build_fingerprint_data(&uid, &vpw, 1700000000123, &trees, 1700000000123, &smid);
    let two = build_fingerprint_data(&uid, &vpw, 1700000000123, &trees, 1700000000123, &smid);
    assert_eq!(one, two);

    // Decode the pipeline back: hex -> AES-CBC decrypt under the derived
    // key -> strip zero padding -> gunzip -> JSON.
    let ct = hex::decode(String::from_utf8(one.clone()).unwrap()).unwrap();
    let md5_uid = md5_digest(uid.as_slice());
    let pri: Vec<u8> = hex_bytes(md5_uid.as_slice())[..16].to_vec();
    let mut buf = ct.clone();
    let dec = cbc::Decryptor::<aes::Aes128>::new(
        pri.as_slice().into(),
        b"0102030405060708".into(),
    );
    let pt = dec
        .decrypt_padded_mut::<block_padding::NoPadding>(&mut buf)
        .unwrap()
        .to_vec();
    // gzip streams carry their length; trailing zero padding is ignored by
    // the decoder.
    let mut gz = flate2::read::GzDecoder::new(pt.as_slice());
    let mut json = Vec::new();
    gz.read_to_end(&mut json).unwrap();
    let parsed: serde_json::Value = serde_json::from_slice(&json).unwrap();
    let obj = parsed.as_object().unwrap();
    assert_eq!(obj["protocol"].as_i64().unwrap(), 102);
    assert_eq!(obj["version"].as_str().unwrap(), "3.0.0");
    assert_eq!(obj["jf"].as_str().unwrap(), "");
    // every obfuscated field is present
    for k in ["xx", "yk", "zx", "dp", "pj", "gm", "kq", "vw", "ab", "hf", "lo", "sc", "an",
        "ns", "qr", "nb", "as", "py", "pi", "bj", "cf", "ca", "smid"] {
        assert!(obj.contains_key(k), "missing field {}", k);
    }
}

#[test]
fn signature_is_deterministic_and_matches_reference_construction() {
    let path = t("/api/v1/game/attendance");
    let body = t("{\"gameId\":1,\"uid\":\"123\"}");
    let token = t("abc");
    let d_id = t("Bxyz");
    let ts: u64 = 1700000000;
    let (sig1, hdr1) = sign_with_timestamp(&path, &body, &token, &d_id, ts);
    let (sig2, hdr2) = sign_with_timestamp(&path, &body, &token, &d_id, ts);
    assert_eq!(sig1, sig2);
    assert_eq!(hdr1, hdr2);
    assert_eq!(
        hdr1,
        t("{\"platform\":\"3\",\"timestamp\":\"1700000000\",\"dId\":\"Bxyz\",\"vName\":\"1.0.0\"}")
    );
    // Independent reconstruction with the underlying crates.
    let mut msg = Vec::new();
    msg.extend_from_slice(&path);
    msg.extend_from_slice(&body);
    msg.extend_from_slice(b"1700000000");
    msg.extend_from_slice(&hdr1);
    let mut mac = <hmac::Hmac<sha2::Sha256> as hmac::Mac>::new_from_slice(&token).unwrap();
    mac.update(&msg);
    let hex_s = hex::encode(mac.finalize().into_bytes());
    let mut hasher = md5::Md5::new();
    hasher.update(hex_s.as_bytes());
    let expected = hex::encode(hasher.finalize());
    assert_eq!(sig1, expected.into_bytes());
    // Any single changed input changes the signature.
    let (sig3, _) = sign_with_timestamp(&path, &body, &token, &d_id, ts + 1);
    assert_ne!(sig1, sig3);
    let (sig4, _) = sign_with_timestamp(&path, &body, &t("abd"), &d_id, ts);
    assert_ne!(sig1, sig4);
}

#[test]
fn device_id_accepted_only_on_code_1100() {
    let d = t("XYZ");
    assert_eq!(device_id_from_response(1100, Some(&d)), Ok(t("BXYZ")));
    assert_eq!(
        device_id_from_response(1101, Some(&d)),
        Err(CoreError::FingerprintRejected(1101))
    );
    assert_eq!(device_id_from_response(1100, None), Err(CoreError::Protocol));
}

#[test]
fn smid_has_documented_shape() {
    let time = t("20240101120000");
    let uuid = t("a3a04d6e-9f50-47b9-bb0e-5e81bc7ccf71");
    let smid = make_smid(&time, &uuid);
    // 14 time digits + 32 md5 hex + "00" + 14 tag hex + "0"
    assert_eq!(smid.len(), 63);
    assert_eq!(&smid[..14], time.as_slice());
    assert_eq!(*smid.last().unwrap(), b'0');
    assert_eq!(smid, make_smid(&time, &uuid));
    // The tag is the md5 of the "smsk_web_"-prefixed prefix.
    let mut tagged = b"smsk_web_".to_vec();
    tagged.extend_from_slice(&smid[..48]);
    let tag_hex = hex_bytes(md5_digest(&tagged).as_slice());
    assert_eq!(&smid[48..62], &tag_hex[..14]);
}

#[test]
fn fingerprint_body_has_fixed_frame() {
    let body = build_fingerprint_body(&t("00ff"), &t("ZXA="));
    let parsed: serde_json::Value = serde_json::from_slice(&body).unwrap();
    let obj = parsed.as_object().unwrap();
    assert_eq!(obj["appId"].as_str().unwrap(), "default");
    assert_eq!(obj["compress"].as_i64().unwrap(), 2);
    assert_eq!(obj["data"].as_str().unwrap(), "00ff");
    assert_eq!(obj["encode"].as_i64().unwrap(), 5);
    assert_eq!(obj["ep"].as_str().unwrap(), "ZXA=");
    assert_eq!(obj["organization"].as_str().unwrap(), "UWXspnCCJN4sfYlNfqps");
    assert_eq!(obj["os"].as_str().unwrap(), "web");
}

#[test]
fn fingerprint_request_is_complete() {
    let body = build_fingerprint_request().unwrap();
    let parsed: serde_json::Value = serde_json::from_slice(&body).unwrap();
    let obj = parsed.as_object().unwrap();
    let ep = obj["ep"].as_str().unwrap();
    let ep_bytes = base64::engine::general_purpose::STANDARD.decode(ep).unwrap();
    assert_eq!(ep_bytes.len(), 128);
    let data = obj["data"].as_str().unwrap();
    assert!(data.len() % 32 == 0 && !data.is_empty());
    assert!(data.bytes().all(|b| b.is_ascii_hexdigit()));
}

#[test]
fn uuid_and_timestamp_helpers() {
    let u = uuid_string();
    assert_eq!(u.len(), 36);
    assert_eq!(u[8], b'-');
    let now = std::time::SystemTime::now()
        .duration_since(std::time::UNIX_EPOCH)
        .unwrap()
        .as_secs();
    let ts = signing_timestamp();
    assert!(ts + 2 <= now + 1 && ts + 4 >= now);
    let hdr = build_sign_header(&t("1"), &t("d"));
    assert_eq!(hdr, t("{\"platform\":\"3\",\"timestamp\":\"1\",\"dId\":\"d\",\"vName\":\"1.0.0\"}"));
}
