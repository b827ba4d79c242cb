//! The fixed field-obfuscation table: for each protocol field, whether it
//! is DES-encrypted, under which 8-byte key, and the obfuscated name it is
//! sent as. A field absent from the table passes through unchanged.
use crate::value::{lit_bytes, str_bytes};
use vstd::prelude::*;

verus! {

broadcast use vstd::std_specs::vec::group_vec_axioms;

/// One table entry: encrypt or not, the DES key when encrypting, and the
/// name the field is renamed to.
pub struct CipherRule {
    pub encrypt: bool,
    pub key: Option<Vec<u8>>,
    pub obf_name: Vec<u8>,
}

/// A table entry as contracts see it.
#[verifier::ext_equal]
pub struct RuleModel {
    pub encrypt: bool,
    pub key: Option<Seq<u8>>,
    pub obf: Seq<u8>,
}

pub open spec fn rule_model_of(r: CipherRule) -> RuleModel {
    RuleModel {
        encrypt: r.encrypt,
        key: match r.key {
            Option::Some(k) => Option::Some(k@),
            Option::None => Option::None,
        },
        obf: r.obf_name@,
    }
}

pub open spec fn rules_model_of(s: Seq<(Vec<u8>, CipherRule)>) -> Seq<(Seq<u8>, RuleModel)> {
    s.map(|_i, p: (Vec<u8>, CipherRule)| (p.0@, rule_model_of(p.1)))
}

/// A rule that encrypts under `key` and renames to `obf`.
pub open spec fn enc_rule(k: Seq<char>, key: Seq<char>, obf: Seq<char>) -> (Seq<u8>, RuleModel) {
    (
        str_bytes(k),
        RuleModel { encrypt: true, key: Option::Some(str_bytes(key)), obf: str_bytes(obf) },
    )
}

/// A rule that keeps the value and renames to `obf`.
pub open spec fn plain_rule(k: Seq<char>, obf: Seq<char>) -> (Seq<u8>, RuleModel) {
    (str_bytes(k), RuleModel { encrypt: false, key: Option::None, obf: str_bytes(obf) })
}

/// The whole fixed table, in its canonical field order.
#[verifier::opaque]
pub open spec fn rules_table() -> Seq<(Seq<u8>, RuleModel)> {
    seq![
        enc_rule("appId"@, "uy7mzc4h"@, "xx"@),
        plain_rule("box"@, "jf"@),
        enc_rule("canvas"@, "snrn887t"@, "yk"@),
        enc_rule("clientSize"@, "cpmjjgsu"@, "zx"@),
        enc_rule("organization"@, "78moqjfc"@, "dp"@),
        enc_rule("os"@, "je6vk6t4"@, "pj"@),
        enc_rule("platform"@, "pakxhcd2"@, "gm"@),
        enc_rule("plugins"@, "v51m3pzl"@, "kq"@),
        enc_rule("pmf"@, "2mdeslu3"@, "vw"@),
        plain_rule("protocol"@, "protocol"@),
        enc_rule("referer"@, "y7bmrjlc"@, "ab"@),
        enc_rule("res"@, "whxqm2a7"@, "hf"@),
        enc_rule("rtype"@, "x8o2h2bl"@, "lo"@),
        enc_rule("sdkver"@, "9q3dcxp2"@, "sc"@),
        enc_rule("status"@, "2jbrxxw4"@, "an"@),
        enc_rule("subVersion"@, "eo3i2puh"@, "ns"@),
        enc_rule("svm"@, "fzj3kaeh"@, "qr"@),
        enc_rule("time"@, "q2t3odsk"@, "nb"@),
        enc_rule("timezone"@, "1uv05lj5"@, "as"@),
        enc_rule("tn"@, "x9nzj1bp"@, "py"@),
        enc_rule("trees"@, "acfs0xo4"@, "pi"@),
        enc_rule("ua"@, "k92crp1t"@, "bj"@),
        enc_rule("url"@, "y95hjkoo"@, "cf"@),
        plain_rule("version"@, "version"@),
        enc_rule("vpw"@, "r9924ab5"@, "ca"@),
    ]
}

fn enc_entry(k: &str, key: &str, obf: &str) -> (r: (Vec<u8>, CipherRule))
    ensures
        (r.0@, rule_model_of(r.1)) == enc_rule(k@, key@, obf@),
{
    (
        lit_bytes(k),
        CipherRule { encrypt: true, key: Option::Some(lit_bytes(key)), obf_name: lit_bytes(obf) },
    )
}

fn plain_entry(k: &str, obf: &str) -> (r: (Vec<u8>, CipherRule))
    ensures
        (r.0@, rule_model_of(r.1)) == plain_rule(k@, obf@),
{
    (lit_bytes(k), CipherRule { encrypt: false, key: Option::None, obf_name: lit_bytes(obf) })
}

/// Builds the fixed obfuscation table.
pub fn get_des_rules() -> (r: Vec<(Vec<u8>, CipherRule)>)
    ensures
        rules_model_of(r@) == rules_table(),
{
    let mut m: Vec<(Vec<u8>, CipherRule)> = Vec::new();
    m.push(enc_entry("appId", "uy7mzc4h", "xx"));
    m.push(plain_entry("box", "jf"));
    m.push(enc_entry("canvas", "snrn887t", "yk"));
    m.push(enc_entry("clientSize", "cpmjjgsu", "zx"));
    m.push(enc_entry("organization", "78moqjfc", "dp"));
    m.push(enc_entry("os", "je6vk6t4", "pj"));
    m.push(enc_entry("platform", "pakxhcd2", "gm"));
    m.push(enc_entry("plugins", "v51m3pzl", "kq"));
    m.push(enc_entry("pmf", "2mdeslu3", "vw"));
    m.push(plain_entry("protocol", "protocol"));
    m.push(enc_entry("referer", "y7bmrjlc", "ab"));
    m.push(enc_entry("res", "whxqm2a7", "hf"));
    m.push(enc_entry("rtype", "x8o2h2bl", "lo"));
    m.push(enc_entry("sdkver", "9q3dcxp2", "sc"));
    m.push(enc_entry("status", "2jbrxxw4", "an"));
    m.push(enc_entry("subVersion", "eo3i2puh", "ns"));
    m.push(enc_entry("svm", "fzj3kaeh", "qr"));
    m.push(enc_entry("time", "q2t3odsk", "nb"));
    m.push(enc_entry("timezone", "1uv05lj5", "as"));
    m.push(enc_entry("tn", "x9nzj1bp", "py"));
    m.push(enc_entry("trees", "acfs0xo4", "pi"));
    m.push(enc_entry("ua", "k92crp1t", "bj"));
    m.push(enc_entry("url", "y95hjkoo", "cf"));
    m.push(plain_entry("version", "version"));
    m.push(enc_entry("vpw", "r9924ab5", "ca"));
    proof {
        reveal(rules_table);
        assert(rules_model_of(m@) =~= rules_table());
    }
    m
}

/// The first table entry for `k`, if any.
pub open spec fn lookup_in(s: Seq<(Seq<u8>, RuleModel)>, k: Seq<u8>) -> Option<RuleModel>
    decreases s.len(),
{
    if s.len() == 0 {
        Option::None
    } else if s[0].0 == k {
        Option::Some(s[0].1)
    } else {
        lookup_in(s.drop_first(), k)
    }
}

/// The fixed table's rule for a field name, if any.
pub open spec fn rule_lookup(k: Seq<u8>) -> Option<RuleModel> {
    lookup_in(rules_table(), k)
}

pub proof fn lemma_lookup_at(s: Seq<(Seq<u8>, RuleModel)>, k: Seq<u8>, i: int)
    requires
        0 <= i <= s.len(),
        forall|j: int| 0 <= j < i ==> #[trigger] s[j].0 != k,
        i < s.len() ==> s[i].0 == k,
    ensures
        lookup_in(s, k) == (if i < s.len() {
            Option::Some(s[i].1)
        } else {
            Option::<RuleModel>::None
        }),
    decreases i,
{
    if s.len() == 0 {
    } else if i == 0 {
    } else {
        assert(s[0].0 != k);
        lemma_lookup_at(s.drop_first(), k, i - 1);
    }
}

/// Byte-vector equality.
pub fn bytes_eq(a: &Vec<u8>, b: &Vec<u8>) -> (r: bool)
    ensures
        r == (a@ == b@),
{
    if a.len() != b.len() {
        return false;
    }
    let mut i: usize = 0;
    while i < a.len()
        invariant
            a@.len() == b@.len(),
            i <= a@.len(),
            forall|j: int| 0 <= j < i ==> a@[j] == b@[j],
        decreases a@.len() - i,
    {
        if a[i] != b[i] {
            return false;
        }
        i = i + 1;
    }
    proof {
        assert(a@ =~= b@);
    }
    true
}

} // verus!
