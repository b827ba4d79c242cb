//! Laws of the field obfuscation step, for every field name and value.
use crate::fieldcipher::{obf_entry, obf_value};
use crate::rules::{lemma_lookup_at, rule_lookup, rules_table};
use crate::value::{str_bytes, FieldModel};
use vstd::prelude::*;
use vstd::utf8::{is_ascii_chars, is_ascii_chars_encode_utf8};

verus! {

/// Law: obfuscation is total and deterministic — for every field name and
/// value it yields exactly the table's verdict, and a field whose rule
/// does not encrypt (such as `protocol` and `version`, whose table entries
/// also keep their names) has its value passed through unchanged.
pub proof fn lemma_plain_rule_keeps_value(k: Seq<u8>, v: FieldModel)
    requires
        rule_lookup(k) is Some,
        !rule_lookup(k).unwrap().encrypt,
    ensures
        obf_entry(k, v) == (rule_lookup(k).unwrap().obf, v),
{
    assert(obf_value(rule_lookup(k).unwrap(), v) == v);
}

/// Law: a field the table does not know passes through with its name and
/// value unchanged.
pub proof fn lemma_unknown_field_unchanged(k: Seq<u8>, v: FieldModel)
    requires
        rule_lookup(k) is None,
    ensures
        obf_entry(k, v) == (k, v),
{
}


proof fn lemma_bytes_appid()
    ensures
        str_bytes("appId"@).len() == 5,
{
    reveal_strlit("appId");
    assert(is_ascii_chars("appId"@));
    is_ascii_chars_encode_utf8("appId"@);
}

proof fn lemma_bytes_box()
    ensures
        str_bytes("box"@).len() == 3,
{
    reveal_strlit("box");
    assert(is_ascii_chars("box"@));
    is_ascii_chars_encode_utf8("box"@);
}

proof fn lemma_bytes_canvas()
    ensures
        str_bytes("canvas"@).len() == 6,
{
    reveal_strlit("canvas");
    assert(is_ascii_chars("canvas"@));
    is_ascii_chars_encode_utf8("canvas"@);
}

proof fn lemma_bytes_clientsize()
    ensures
        str_bytes("clientSize"@).len() == 10,
{
    reveal_strlit("clientSize");
    assert(is_ascii_chars("clientSize"@));
    is_ascii_chars_encode_utf8("clientSize"@);
}

proof fn lemma_bytes_organization()
    ensures
        str_bytes("organization"@).len() == 12,
{
    reveal_strlit("organization");
    assert(is_ascii_chars("organization"@));
    is_ascii_chars_encode_utf8("organization"@);
}

proof fn lemma_bytes_os()
    ensures
        str_bytes("os"@).len() == 2,
{
    reveal_strlit("os");
    assert(is_ascii_chars("os"@));
    is_ascii_chars_encode_utf8("os"@);
}

proof fn lemma_bytes_platform()
    ensures
        str_bytes("platform"@).len() == 8,
        str_bytes("platform"@)[2] == 97u8,
{
    reveal_strlit("platform");
    assert(is_ascii_chars("platform"@));
    is_ascii_chars_encode_utf8("platform"@);
}

proof fn lemma_bytes_plugins()
    ensures
        str_bytes("plugins"@).len() == 7,
        str_bytes("plugins"@)[0] == 112u8,
{
    reveal_strlit("plugins");
    assert(is_ascii_chars("plugins"@));
    is_ascii_chars_encode_utf8("plugins"@);
}

proof fn lemma_bytes_pmf()
    ensures
        str_bytes("pmf"@).len() == 3,
{
    reveal_strlit("pmf");
    assert(is_ascii_chars("pmf"@));
    is_ascii_chars_encode_utf8("pmf"@);
}

proof fn lemma_bytes_protocol()
    ensures
        str_bytes("protocol"@).len() == 8,
        str_bytes("protocol"@)[2] == 111u8,
{
    reveal_strlit("protocol");
    assert(is_ascii_chars("protocol"@));
    is_ascii_chars_encode_utf8("protocol"@);
}

proof fn lemma_bytes_referer()
    ensures
        str_bytes("referer"@).len() == 7,
        str_bytes("referer"@)[0] == 114u8,
{
    reveal_strlit("referer");
    assert(is_ascii_chars("referer"@));
    is_ascii_chars_encode_utf8("referer"@);
}

proof fn lemma_bytes_res()
    ensures
        str_bytes("res"@).len() == 3,
{
    reveal_strlit("res");
    assert(is_ascii_chars("res"@));
    is_ascii_chars_encode_utf8("res"@);
}

proof fn lemma_bytes_rtype()
    ensures
        str_bytes("rtype"@).len() == 5,
{
    reveal_strlit("rtype");
    assert(is_ascii_chars("rtype"@));
    is_ascii_chars_encode_utf8("rtype"@);
}

proof fn lemma_bytes_sdkver()
    ensures
        str_bytes("sdkver"@).len() == 6,
{
    reveal_strlit("sdkver");
    assert(is_ascii_chars("sdkver"@));
    is_ascii_chars_encode_utf8("sdkver"@);
}

proof fn lemma_bytes_status()
    ensures
        str_bytes("status"@).len() == 6,
{
    reveal_strlit("status");
    assert(is_ascii_chars("status"@));
    is_ascii_chars_encode_utf8("status"@);
}

proof fn lemma_bytes_subversion()
    ensures
        str_bytes("subVersion"@).len() == 10,
{
    reveal_strlit("subVersion");
    assert(is_ascii_chars("subVersion"@));
    is_ascii_chars_encode_utf8("subVersion"@);
}

proof fn lemma_bytes_svm()
    ensures
        str_bytes("svm"@).len() == 3,
{
    reveal_strlit("svm");
    assert(is_ascii_chars("svm"@));
    is_ascii_chars_encode_utf8("svm"@);
}

proof fn lemma_bytes_time()
    ensures
        str_bytes("time"@).len() == 4,
{
    reveal_strlit("time");
    assert(is_ascii_chars("time"@));
    is_ascii_chars_encode_utf8("time"@);
}

proof fn lemma_bytes_timezone()
    ensures
        str_bytes("timezone"@).len() == 8,
{
    reveal_strlit("timezone");
    assert(is_ascii_chars("timezone"@));
    is_ascii_chars_encode_utf8("timezone"@);
}

proof fn lemma_bytes_tn()
    ensures
        str_bytes("tn"@).len() == 2,
{
    reveal_strlit("tn");
    assert(is_ascii_chars("tn"@));
    is_ascii_chars_encode_utf8("tn"@);
}

proof fn lemma_bytes_trees()
    ensures
        str_bytes("trees"@).len() == 5,
{
    reveal_strlit("trees");
    assert(is_ascii_chars("trees"@));
    is_ascii_chars_encode_utf8("trees"@);
}

proof fn lemma_bytes_ua()
    ensures
        str_bytes("ua"@).len() == 2,
{
    reveal_strlit("ua");
    assert(is_ascii_chars("ua"@));
    is_ascii_chars_encode_utf8("ua"@);
}

proof fn lemma_bytes_url()
    ensures
        str_bytes("url"@).len() == 3,
{
    reveal_strlit("url");
    assert(is_ascii_chars("url"@));
    is_ascii_chars_encode_utf8("url"@);
}

proof fn lemma_bytes_version()
    ensures
        str_bytes("version"@).len() == 7,
        str_bytes("version"@)[0] == 118u8,
{
    reveal_strlit("version");
    assert(is_ascii_chars("version"@));
    is_ascii_chars_encode_utf8("version"@);
}

/// Law: the `protocol` field is never encrypted and keeps its original
/// name, for every value.
#[verifier::rlimit(100)]
pub proof fn lemma_protocol_passthrough(v: FieldModel)
    ensures
        obf_entry(str_bytes("protocol"@), v) == (str_bytes("protocol"@), v),
{
    let k = str_bytes("protocol"@);
    lemma_bytes_protocol();
    lemma_bytes_appid();
    lemma_bytes_box();
    lemma_bytes_canvas();
    lemma_bytes_clientsize();
    lemma_bytes_organization();
    lemma_bytes_os();
    lemma_bytes_platform();
    lemma_bytes_plugins();
    lemma_bytes_pmf();
    reveal(rules_table);
    assert(forall|j: int| 0 <= j < 9 ==> #[trigger] rules_table()[j].0 != k);
    assert(rules_table()[9].0 == k);
    lemma_lookup_at(rules_table(), k, 9);
    assert(rule_lookup(k) == Option::Some(rules_table()[9].1));
    assert(obf_value(rules_table()[9].1, v) == v);
}

/// Law: the `version` field is never encrypted and keeps its original
/// name, for every value.
#[verifier::rlimit(100)]
pub proof fn lemma_version_passthrough(v: FieldModel)
    ensures
        obf_entry(str_bytes("version"@), v) == (str_bytes("version"@), v),
{
    let k = str_bytes("version"@);
    lemma_bytes_version();
    lemma_bytes_appid();
    lemma_bytes_box();
    lemma_bytes_canvas();
    lemma_bytes_clientsize();
    lemma_bytes_organization();
    lemma_bytes_os();
    lemma_bytes_platform();
    lemma_bytes_plugins();
    lemma_bytes_pmf();
    lemma_bytes_protocol();
    lemma_bytes_referer();
    lemma_bytes_res();
    lemma_bytes_rtype();
    lemma_bytes_sdkver();
    lemma_bytes_status();
    lemma_bytes_subversion();
    lemma_bytes_svm();
    lemma_bytes_time();
    lemma_bytes_timezone();
    lemma_bytes_tn();
    lemma_bytes_trees();
    lemma_bytes_ua();
    lemma_bytes_url();
    reveal(rules_table);
    assert(forall|j: int| 0 <= j < 23 ==> #[trigger] rules_table()[j].0 != k);
    assert(rules_table()[23].0 == k);
    lemma_lookup_at(rules_table(), k, 23);
    assert(rule_lookup(k) == Option::Some(rules_table()[23].1));
    assert(obf_value(rules_table()[23].1, v) == v);
}

} // verus!
