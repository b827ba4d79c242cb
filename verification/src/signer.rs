//! The per-request signer: a header descriptor JSON in its declared field
//! order, an HMAC-SHA256 over path, body, timestamp and that JSON keyed by
//! the session token, hex-encoded, MD5-hashed and hex-encoded again. The
//! timestamp is the Unix time minus two seconds, exactly as the reference
//! client computes it.
use crate::json::{json_quote, json_string};
use crate::numfmt::{dec_bytes_of, i128_dec_bytes};
use crate::outside::{hex_bytes, hex_of, hmac_sha256, hmac_sha256_of, md5_digest, md5_of,
    now_unix_seconds};
use crate::value::{copy_bytes, str_bytes};
use vstd::prelude::*;

verus! {

broadcast use vstd::std_specs::vec::group_vec_axioms;

/// A `"key":"value"` JSON member.
pub open spec fn json_member(k: Seq<char>, v: Seq<u8>) -> Seq<u8> {
    json_quote(str_bytes(k)) + seq![58u8] + json_quote(v)
}

/// The header descriptor JSON, fields in their declared order (not
/// sorted): platform, timestamp, device id, client version.
pub open spec fn sign_header_model(ts: Seq<u8>, d_id: Seq<u8>) -> Seq<u8> {
    seq![123u8] + json_member("platform"@, str_bytes("3"@)) + seq![44u8] + json_member(
        "timestamp"@,
        ts,
    ) + seq![44u8] + json_member("dId"@, d_id) + seq![44u8] + json_member(
        "vName"@,
        str_bytes("1.0.0"@),
    ) + seq![125u8]
}

/// The signature for a request: the hex HMAC-SHA256 of
/// `path || body || timestamp || headerJson` under the token, MD5-hashed
/// and hex-encoded.
pub open spec fn signature_model(
    path: Seq<u8>,
    body: Seq<u8>,
    token: Seq<u8>,
    d_id: Seq<u8>,
    ts: Seq<u8>,
) -> Seq<u8> {
    hex_of(md5_of(hex_of(hmac_sha256_of(token, path + body + ts + sign_header_model(ts, d_id)))))
}

fn build_member(k: &str, v: &[u8]) -> (r: Vec<u8>)
    ensures
        r@ == json_member(k@, v@),
{
    let mut out = json_string(crate::value::lit_bytes(k).as_slice());
    out.push(58);
    let qv = json_string(v);
    out.extend_from_slice(qv.as_slice());
    proof {
        assert(out@ =~= json_member(k@, v@));
    }
    out
}

/// Builds the header descriptor JSON for a timestamp string and device id.
pub fn build_sign_header(ts: &Vec<u8>, d_id: &Vec<u8>) -> (r: Vec<u8>)
    ensures
        r@ == sign_header_model(ts@, d_id@),
{
    let mut out: Vec<u8> = Vec::new();
    out.push(123);
    let m1 = build_member("platform", crate::value::lit_bytes("3").as_slice());
    out.extend_from_slice(m1.as_slice());
    out.push(44);
    let m2 = build_member("timestamp", ts.as_slice());
    out.extend_from_slice(m2.as_slice());
    out.push(44);
    let m3 = build_member("dId", d_id.as_slice());
    out.extend_from_slice(m3.as_slice());
    out.push(44);
    let m4 = build_member("vName", crate::value::lit_bytes("1.0.0").as_slice());
    out.extend_from_slice(m4.as_slice());
    out.push(125);
    proof {
        assert(out@ =~= sign_header_model(ts@, d_id@));
    }
    out
}

/// Signs one request for a given timestamp: a pure function of its five
/// arguments, so equal inputs always produce the same signature and header
/// JSON. Returns the signature and the header descriptor JSON whose
/// embedded timestamp is textually the one signed.
pub fn sign_with_timestamp(
    path: &Vec<u8>,
    body: &Vec<u8>,
    token: &Vec<u8>,
    d_id: &Vec<u8>,
    timestamp: u64,
) -> (r: (Vec<u8>, Vec<u8>))
    ensures
        r.0@ == signature_model(
            path@,
            body@,
            token@,
            d_id@,
            dec_bytes_of(timestamp as int),
        ),
        r.1@ == sign_header_model(dec_bytes_of(timestamp as int), d_id@),
{
    let ts = i128_dec_bytes(timestamp as i128);
    let header = build_sign_header(&ts, d_id);
    let mut msg = copy_bytes(path);
    msg.extend_from_slice(body.as_slice());
    msg.extend_from_slice(ts.as_slice());
    msg.extend_from_slice(header.as_slice());
    proof {
        assert(msg@ =~= path@ + body@ + dec_bytes_of(timestamp as int) + sign_header_model(
            dec_bytes_of(timestamp as int),
            d_id@,
        ));
    }
    let mac = hmac_sha256(token.as_slice(), msg.as_slice());
    let mac_hex = hex_bytes(mac.as_slice());
    let digest = md5_digest(mac_hex.as_slice());
    let sig = hex_bytes(digest.as_slice());
    (sig, header)
}

/// The signing timestamp: the Unix time minus the protocol's fixed
/// two-second offset (zero should the clock read below two).
pub fn signing_timestamp() -> (r: u64) {
    let s = now_unix_seconds();
    if s >= 2 {
        s - 2
    } else {
        0
    }
}

/// Signs one request at the current time: the result is the deterministic
/// signature for the drawn timestamp.
pub fn generate_signature(path: &Vec<u8>, body: &Vec<u8>, token: &Vec<u8>, d_id: &Vec<u8>) -> (r: (
    Vec<u8>,
    Vec<u8>,
))
    ensures
        exists|ts: u64|
            r.0@ == signature_model(path@, body@, token@, d_id@, dec_bytes_of(ts as int))
                && r.1@ == sign_header_model(dec_bytes_of(ts as int), d_id@),
{
    let ts = signing_timestamp();
    let r = sign_with_timestamp(path, body, token, d_id, ts);
    proof {
        assert(r.0@ == signature_model(path@, body@, token@, d_id@, dec_bytes_of(ts as int))
            && r.1@ == sign_header_model(dec_bytes_of(ts as int), d_id@));
    }
    r
}

/// The header set of a signed request, in order: cred, sign, dId,
/// platform, timestamp, vName, Content-Type. The timestamp header is
/// textually the timestamp embedded in the signed header JSON.
pub open spec fn request_headers_model(
    path: Seq<u8>,
    body: Seq<u8>,
    token: Seq<u8>,
    cred: Seq<u8>,
    d_id: Seq<u8>,
    ts: Seq<u8>,
) -> Seq<(Seq<u8>, Seq<u8>)> {
    seq![
        (str_bytes("cred"@), cred),
        (str_bytes("sign"@), signature_model(path, body, token, d_id, ts)),
        (str_bytes("dId"@), d_id),
        (str_bytes("platform"@), str_bytes("3"@)),
        (str_bytes("timestamp"@), ts),
        (str_bytes("vName"@), str_bytes("1.0.0"@)),
        (str_bytes("Content-Type"@), str_bytes("application/json"@)),
    ]
}

/// Builds the headers of one signed request for a given timestamp.
pub fn request_headers_with_timestamp(
    path: &Vec<u8>,
    body: &Vec<u8>,
    token: &Vec<u8>,
    cred: &Vec<u8>,
    d_id: &Vec<u8>,
    timestamp: u64,
) -> (r: Vec<(Vec<u8>, Vec<u8>)>)
    ensures
        crate::order::pairs_model(r@) == request_headers_model(
            path@,
            body@,
            token@,
            cred@,
            d_id@,
            dec_bytes_of(timestamp as int),
        ),
{
    let (sig, _header) = sign_with_timestamp(path, body, token, d_id, timestamp);
    let ts = i128_dec_bytes(timestamp as i128);
    let mut out: Vec<(Vec<u8>, Vec<u8>)> = Vec::new();
    out.push((crate::value::lit_bytes("cred"), copy_bytes(cred)));
    out.push((crate::value::lit_bytes("sign"), sig));
    out.push((crate::value::lit_bytes("dId"), copy_bytes(d_id)));
    out.push((crate::value::lit_bytes("platform"), crate::value::lit_bytes("3")));
    out.push((crate::value::lit_bytes("timestamp"), ts));
    out.push((crate::value::lit_bytes("vName"), crate::value::lit_bytes("1.0.0")));
    out.push((
        crate::value::lit_bytes("Content-Type"),
        crate::value::lit_bytes("application/json"),
    ));
    proof {
        assert(crate::order::pairs_model(out@) =~= request_headers_model(
            path@,
            body@,
            token@,
            cred@,
            d_id@,
            dec_bytes_of(timestamp as int),
        ));
    }
    out
}

} // verus!
