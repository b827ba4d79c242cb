//! The synthetic browser-environment descriptor and the protocol metadata
//! merged with it, plus the session marker id derived from the local time
//! and a fresh UUID.
use crate::outside::{hex_of, md5_digest, md5_of};
use crate::value::{copy_bytes, entries_model, lit_bytes, str_bytes, FieldModel, FieldValue};
use vstd::prelude::*;

verus! {

broadcast use vstd::std_specs::vec::group_vec_axioms;

/// A string field of the descriptor.
pub open spec fn text_field(k: Seq<char>, v: Seq<char>) -> (Seq<u8>, FieldModel) {
    (str_bytes(k), FieldModel::Text(str_bytes(v)))
}

/// An integer field of the descriptor.
pub open spec fn num_field(k: Seq<char>, n: int) -> (Seq<u8>, FieldModel) {
    (str_bytes(k), FieldModel::Num { mantissa: n, scale: 0 })
}

/// The fixed browser-environment fields, reproduced verbatim from the
/// reference client.
#[verifier::opaque]
pub open spec fn browser_env_model() -> Seq<(Seq<u8>, FieldModel)> {
    seq![
        text_field(
            "plugins"@,
            "MicrosoftEdgePDFPluginPortableDocumentFormatinternal-pdf-viewer1,MicrosoftEdgePDFViewermhjfbmdgcfjbbpaeojofohoefgiehjai1"@,
        ),
        text_field(
            "ua"@,
            "Mozilla/5.0 (Windows NT 10.0; Win64; x64) AppleWebKit/537.36 (KHTML, like Gecko) Chrome/129.0.0.0 Safari/537.36 Edg/129.0.0.0"@,
        ),
        text_field("canvas"@, "259ffe69"@),
        num_field("timezone"@, -480),
        text_field("platform"@, "Win32"@),
        text_field("url"@, "https://www.skland.com/"@),
        text_field("referer"@, ""@),
        text_field("res"@, "1920_1080_24_1.25"@),
        text_field("clientSize"@, "0_0_1080_1920_1920_1080_1920_1080"@),
        text_field("status"@, "0011"@),
    ]
}

fn text_entry(k: &str, v: &str) -> (r: (Vec<u8>, FieldValue))
    ensures
        (r.0@, r.1.model()) == text_field(k@, v@),
{
    (lit_bytes(k), FieldValue::Text(lit_bytes(v)))
}

fn num_entry(k: &str, n: i64) -> (r: (Vec<u8>, FieldValue))
    ensures
        (r.0@, r.1.model()) == num_field(k@, n as int),
{
    (lit_bytes(k), FieldValue::Num { mantissa: n, scale: 0 })
}

/// Builds the fixed browser-environment fields.
pub fn get_browser_env() -> (r: Vec<(Vec<u8>, FieldValue)>)
    ensures
        entries_model(r@) == browser_env_model(),
        forall|j: int|
            0 <= j < r@.len() ==> crate::value::is_flat(#[trigger] r@[j].1.model()),
{
    let mut m: Vec<(Vec<u8>, FieldValue)> = Vec::new();
    m.push(text_entry(
        "plugins",
        "MicrosoftEdgePDFPluginPortableDocumentFormatinternal-pdf-viewer1,MicrosoftEdgePDFViewermhjfbmdgcfjbbpaeojofohoefgiehjai1",
    ));
    m.push(text_entry(
        "ua",
        "Mozilla/5.0 (Windows NT 10.0; Win64; x64) AppleWebKit/537.36 (KHTML, like Gecko) Chrome/129.0.0.0 Safari/537.36 Edg/129.0.0.0",
    ));
    m.push(text_entry("canvas", "259ffe69"));
    m.push(num_entry("timezone", -480));
    m.push(text_entry("platform", "Win32"));
    m.push(text_entry("url", "https://www.skland.com/"));
    m.push(text_entry("referer", ""));
    m.push(text_entry("res", "1920_1080_24_1.25"));
    m.push(text_entry("clientSize", "0_0_1080_1920_1920_1080_1920_1080"));
    m.push(text_entry("status", "0011"));
    proof {
        reveal(browser_env_model);
        assert(entries_model(m@) =~= browser_env_model());
        assert(forall|j: int|
            0 <= j < m@.len() ==> crate::value::is_flat(#[trigger] m@[j].1.model()));
    }
    m
}

/// The full map the protocol canonicalizes: the browser environment, the
/// four session-fresh fields, and the fixed protocol metadata. The two
/// timestamps carry the same instant.
#[verifier::opaque]
pub open spec fn canonical_target_model(
    vpw: Seq<u8>,
    svm: int,
    trees: Seq<u8>,
    pmf: int,
    smid: Seq<u8>,
) -> Seq<(Seq<u8>, FieldModel)> {
    browser_env_model() + seq![
        (str_bytes("vpw"@), FieldModel::Text(vpw)),
        num_field("svm"@, svm),
        (str_bytes("trees"@), FieldModel::Text(trees)),
        num_field("pmf"@, pmf),
        num_field("protocol"@, 102),
        text_field("organization"@, "UWXspnCCJN4sfYlNfqps"@),
        text_field("appId"@, "default"@),
        text_field("os"@, "web"@),
        text_field("version"@, "3.0.0"@),
        text_field("sdkver"@, "3.0.0"@),
        text_field("box"@, ""@),
        text_field("rtype"@, "all"@),
        (str_bytes("smid"@), FieldModel::Text(smid)),
        text_field("subVersion"@, "1.0.0"@),
        num_field("time"@, 0),
    ]
}

/// Builds the canonicalization target from the session-fresh values.
#[verifier::rlimit(100)]
pub fn build_canonical_target(
    vpw: &Vec<u8>,
    svm: i64,
    trees: &Vec<u8>,
    pmf: i64,
    smid: &Vec<u8>,
) -> (r: Vec<(Vec<u8>, FieldValue)>)
    ensures
        entries_model(r@) == canonical_target_model(vpw@, svm as int, trees@, pmf as int, smid@),
        forall|j: int|
            0 <= j < r@.len() ==> crate::value::is_flat(#[trigger] r@[j].1.model()),
{
    let mut m = get_browser_env();
    m.push((lit_bytes("vpw"), FieldValue::Text(copy_bytes(vpw))));
    m.push(num_entry("svm", svm));
    m.push((lit_bytes("trees"), FieldValue::Text(copy_bytes(trees))));
    m.push(num_entry("pmf", pmf));
    m.push(num_entry("protocol", 102));
    m.push(text_entry("organization", "UWXspnCCJN4sfYlNfqps"));
    m.push(text_entry("appId", "default"));
    m.push(text_entry("os", "web"));
    m.push(text_entry("version", "3.0.0"));
    m.push(text_entry("sdkver", "3.0.0"));
    m.push(text_entry("box", ""));
    m.push(text_entry("rtype", "all"));
    m.push((lit_bytes("smid"), FieldValue::Text(copy_bytes(smid))));
    m.push(text_entry("subVersion", "1.0.0"));
    m.push(num_entry("time", 0));
    proof {
        reveal(canonical_target_model);
        assert(entries_model(m@) =~= canonical_target_model(
            vpw@,
            svm as int,
            trees@,
            pmf as int,
            smid@,
        ));
        assert(forall|j: int|
            0 <= j < m@.len() ==> crate::value::is_flat(#[trigger] m@[j].1.model()));
    }
    m
}

/// The session marker id: the local-time string, the MD5 hex of a fresh
/// UUID and two `0` characters, followed by the first 14 hex characters
/// of the MD5 of that string prefixed with `smsk_web_`, and a final `0`.
pub open spec fn smid_of(time_str: Seq<u8>, uuid: Seq<u8>) -> Seq<u8> {
    let v = time_str + hex_of(md5_of(uuid)) + seq![48u8, 48u8];
    v + hex_of(md5_of(str_bytes("smsk_web_"@) + v)).take(14) + seq![48u8]
}

/// Derives the session marker id from the local-time string and a fresh
/// UUID's hyphenated form.
pub fn make_smid(time_str: &Vec<u8>, uuid: &Vec<u8>) -> (r: Vec<u8>)
    ensures
        r@ == smid_of(time_str@, uuid@),
{
    let mut v = copy_bytes(time_str);
    let uid_md5 = md5_digest(uuid.as_slice());
    let uid_hex = crate::outside::hex_bytes(uid_md5.as_slice());
    v.extend_from_slice(uid_hex.as_slice());
    v.push(48);
    v.push(48);
    proof {
        assert(v@ =~= time_str@ + hex_of(md5_of(uuid@)) + seq![48u8, 48u8]);
    }
    let mut tagged = lit_bytes("smsk_web_");
    tagged.extend_from_slice(v.as_slice());
    proof {
        assert(tagged@ =~= str_bytes("smsk_web_"@) + (time_str@ + hex_of(md5_of(uuid@)) + seq![
            48u8,
            48u8,
        ]));
    }
    let tag_md5 = md5_digest(tagged.as_slice());
    let tag_hex = crate::outside::hex_bytes(tag_md5.as_slice());
    proof {
        crate::outside::lemma_hex_len(md5_of(tagged@));
    }
    let mut out = v;
    let mut i: usize = 0;
    proof {
        assert(out@ =~= (time_str@ + hex_of(md5_of(uuid@)) + seq![48u8, 48u8]) + tag_hex@.take(0));
    }
    while i < 14
        invariant
            tag_hex@ == hex_of(md5_of(str_bytes("smsk_web_"@) + (time_str@ + hex_of(
                md5_of(uuid@),
            ) + seq![48u8, 48u8]))),
            tag_hex@.len() == 32,
            i <= 14,
            out@ == (time_str@ + hex_of(md5_of(uuid@)) + seq![48u8, 48u8]) + tag_hex@.take(
                i as int,
            ),
        decreases 14 - i,
    {
        out.push(tag_hex[i]);
        proof {
            assert(tag_hex@.take(i as int + 1) =~= tag_hex@.take(i as int).push(
                tag_hex@[i as int],
            ));
            assert(out@ =~= (time_str@ + hex_of(md5_of(uuid@)) + seq![48u8, 48u8])
                + tag_hex@.take(i as int + 1));
        }
        i = i + 1;
    }
    out.push(48);
    proof {
        assert(out@ =~= smid_of(time_str@, uuid@));
    }
    out
}

} // verus!
