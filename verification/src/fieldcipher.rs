//! Per-field DES encryption and the field obfuscation step. A field's
//! string form is zero-padded — always by at least one byte, a whole extra
//! block when the length is already block-aligned — then DES-ECB-encrypted
//! under the field's 8-byte key and base64-encoded; the field is renamed
//! to its obfuscated name.
use crate::numfmt::dec_bytes_of;
use crate::outside::{
    base64_bytes, base64_of, des_block_of, des_decrypt_block, des_encrypt_block,
    des_unblock_of,
};
use crate::rules::{
    bytes_eq, get_des_rules, lemma_lookup_at, rule_lookup, rules_model_of, rules_table, CipherRule,
    RuleModel,
};
use crate::value::{copy_bytes, entries_model, is_flat, FieldModel, FieldValue};
use vstd::prelude::*;

verus! {

broadcast use vstd::std_specs::vec::group_vec_axioms;

/// `n` zero bytes.
pub open spec fn zeros(n: nat) -> Seq<u8> {
    Seq::new(n, |_i: int| 0u8)
}

/// How many zero bytes the protocol pads a value of length `n` with:
/// up to the next block boundary, and a whole block when `n` is already
/// a multiple of eight.
pub open spec fn pad_count(n: nat) -> nat {
    (8 - (n % 8)) as nat
}

/// A value zero-padded for DES: always at least one added zero byte.
pub open spec fn pad8(s: Seq<u8>) -> Seq<u8> {
    s + zeros(pad_count(s.len()))
}

/// Pads a value with zero bytes up to the next DES block boundary; a
/// block-aligned value receives one whole zero block.
pub fn pad_zero8(data: &Vec<u8>) -> (r: Vec<u8>)
    ensures
        r@ == pad8(data@),
        r@.len() % 8 == 0,
        data@.len() % 8 == 0 ==> r@ == data@ + zeros(8),
{
    let mut out = copy_bytes(data);
    let pad = 8 - (data.len() % 8);
    let mut k: usize = 0;
    while k < pad
        invariant
            k <= pad,
            pad == pad_count(data@.len()),
            out@ == data@ + zeros(k as nat),
        decreases pad - k,
    {
        out.push(0);
        proof {
            assert(data@ + zeros(k as nat + 1) =~= (data@ + zeros(k as nat)).push(0u8));
        }
        k = k + 1;
    }
    proof {
        assert((data@.len() + pad_count(data@.len())) % 8 == 0) by {
            vstd::arithmetic::div_mod::lemma_fundamental_div_mod(data@.len() as int, 8);
        }
    }
    out
}

/// DES-ECB of block-aligned data: each 8-byte block encrypted
/// independently, defined from the final block backward.
pub open spec fn des_ecb_of(key: Seq<u8>, data: Seq<u8>) -> Seq<u8>
    decreases data.len(),
{
    if data.len() < 8 {
        Seq::empty()
    } else {
        des_ecb_of(key, data.take(data.len() - 8)) + des_block_of(
            key,
            data.skip(data.len() - 8),
        )
    }
}

/// DES-ECB decryption of block-aligned data.
pub open spec fn des_ecb_inv_of(key: Seq<u8>, data: Seq<u8>) -> Seq<u8>
    decreases data.len(),
{
    if data.len() < 8 {
        Seq::empty()
    } else {
        des_ecb_inv_of(key, data.take(data.len() - 8)) + des_unblock_of(
            key,
            data.skip(data.len() - 8),
        )
    }
}

/// Encrypts block-aligned data DES-ECB under an 8-byte key. The second
/// clause records that decrypting the result gives the data back.
pub fn des_ecb_encrypt(key: &[u8], data: &Vec<u8>) -> (r: Vec<u8>)
    requires
        key@.len() == 8,
        data@.len() % 8 == 0,
    ensures
        r@ == des_ecb_of(key@, data@),
        des_ecb_inv_of(key@, r@) == data@,
        r@.len() == data@.len(),
{
    let n = data.len();
    let mut out: Vec<u8> = Vec::new();
    let mut i: usize = 0;
    proof {
        assert(data@.take(0) =~= Seq::<u8>::empty());
    }
    while i < data.len()
        invariant
            key@.len() == 8,
            data@.len() == n,
            data@.len() % 8 == 0,
            i % 8 == 0,
            i <= data@.len(),
            out@.len() == i,
            out@ == des_ecb_of(key@, data@.take(i as int)),
            des_ecb_inv_of(key@, out@) == data@.take(i as int),
        decreases data@.len() - i,
    {
        proof {
            assert(i + 8 <= data@.len()) by {
                vstd::arithmetic::div_mod::lemma_fundamental_div_mod(i as int, 8);
                vstd::arithmetic::div_mod::lemma_fundamental_div_mod(data@.len() as int, 8);
            }
        }
        let mut blk: Vec<u8> = Vec::new();
        let mut j: usize = 0;
        while j < 8
            invariant
                i + 8 <= data@.len(),
                data@.len() == n,
                j <= 8,
                blk@ == data@.subrange(i as int, i as int + j as int),
            decreases 8 - j,
        {
            blk.push(data[i + j]);
            proof {
                assert(data@.subrange(i as int, i as int + j as int + 1) =~= data@.subrange(
                    i as int,
                    i as int + j as int,
                ).push(data@[i as int + j as int]));
            }
            j = j + 1;
        }
        let c = des_encrypt_block(key, blk.as_slice());
        let ghost out_before = out@;
        out.extend_from_slice(c.as_slice());
        proof {
            let t = data@.take(i as int + 8);
            assert(t.take(t.len() - 8) =~= data@.take(i as int));
            assert(t.skip(t.len() - 8) =~= blk@);
            assert(out@ == des_ecb_of(key@, t));
            assert(out@.take(out@.len() - 8) =~= out_before);
            assert(out@.skip(out@.len() - 8) =~= c@);
            assert(des_ecb_inv_of(key@, out@) == data@.take(i as int) + blk@);
            assert(data@.take(i as int) + blk@ =~= t);
        }
        i = i + 8;
    }
    proof {
        assert(data@.take(data@.len() as int) =~= data@);
    }
    out
}

/// Decrypts block-aligned DES-ECB data under an 8-byte key.
pub fn des_ecb_decrypt(key: &[u8], data: &Vec<u8>) -> (r: Vec<u8>)
    requires
        key@.len() == 8,
        data@.len() % 8 == 0,
    ensures
        r@ == des_ecb_inv_of(key@, data@),
        r@.len() == data@.len(),
{
    let n = data.len();
    let mut out: Vec<u8> = Vec::new();
    let mut i: usize = 0;
    proof {
        assert(data@.take(0) =~= Seq::<u8>::empty());
    }
    while i < data.len()
        invariant
            key@.len() == 8,
            data@.len() == n,
            data@.len() % 8 == 0,
            i % 8 == 0,
            i <= data@.len(),
            out@.len() == i,
            out@ == des_ecb_inv_of(key@, data@.take(i as int)),
        decreases data@.len() - i,
    {
        proof {
            assert(i + 8 <= data@.len()) by {
                vstd::arithmetic::div_mod::lemma_fundamental_div_mod(i as int, 8);
                vstd::arithmetic::div_mod::lemma_fundamental_div_mod(data@.len() as int, 8);
            }
        }
        let mut blk: Vec<u8> = Vec::new();
        let mut j: usize = 0;
        while j < 8
            invariant
                i + 8 <= data@.len(),
                data@.len() == n,
                j <= 8,
                blk@ == data@.subrange(i as int, i as int + j as int),
            decreases 8 - j,
        {
            blk.push(data[i + j]);
            proof {
                assert(data@.subrange(i as int, i as int + j as int + 1) =~= data@.subrange(
                    i as int,
                    i as int + j as int,
                ).push(data@[i as int + j as int]));
            }
            j = j + 1;
        }
        let p = des_decrypt_block(key, blk.as_slice());
        out.extend_from_slice(p.as_slice());
        proof {
            let t = data@.take(i as int + 8);
            assert(t.take(t.len() - 8) =~= data@.take(i as int));
            assert(t.skip(t.len() - 8) =~= blk@);
            assert(out@ == des_ecb_inv_of(key@, t));
        }
        i = i + 8;
    }
    proof {
        assert(data@.take(data@.len() as int) =~= data@);
    }
    out
}

/// A byte sequence with its trailing zero bytes removed.
pub open spec fn strip_zeros(s: Seq<u8>) -> Seq<u8>
    decreases s.len(),
{
    if s.len() > 0 && s[s.len() - 1] == 0 {
        strip_zeros(s.drop_last())
    } else {
        s
    }
}

/// Removes trailing zero bytes.
pub fn strip_trailing_zeros(v: &Vec<u8>) -> (r: Vec<u8>)
    ensures
        r@ == strip_zeros(v@),
{
    let mut end: usize = v.len();
    proof {
        assert(v@.take(v@.len() as int) =~= v@);
    }
    while end > 0 && v[end - 1] == 0
        invariant
            end <= v@.len(),
            strip_zeros(v@) == strip_zeros(v@.take(end as int)),
        decreases end,
    {
        proof {
            assert(v@.take(end as int).drop_last() =~= v@.take(end as int - 1));
        }
        end = end - 1;
    }
    let mut out: Vec<u8> = Vec::new();
    let mut i: usize = 0;
    while i < end
        invariant
            i <= end <= v@.len(),
            out@ == v@.take(i as int),
        decreases end - i,
    {
        out.push(v[i]);
        proof {
            assert(v@.take(i as int + 1) =~= v@.take(i as int).push(v@[i as int]));
        }
        i = i + 1;
    }
    proof {
        assert(strip_zeros(v@.take(end as int)) == v@.take(end as int));
    }
    out
}

proof fn lemma_strip_pad(v: Seq<u8>, k: nat)
    requires
        v.len() == 0 || v[v.len() - 1] != 0,
    ensures
        strip_zeros(v + zeros(k)) == v,
    decreases k,
{
    if k == 0 {
        assert(v + zeros(0) =~= v);
    } else {
        let w = v + zeros(k);
        assert(w[w.len() - 1] == 0);
        assert(w.drop_last() =~= v + zeros((k - 1) as nat));
        lemma_strip_pad(v, (k - 1) as nat);
    }
}

/// Law: decrypting a field's DES ciphertext with the field's key and
/// stripping trailing zero bytes recovers the original field string,
/// whenever that string does not itself end in a zero byte.
pub fn des_field_round_trip(key: &[u8], value: &Vec<u8>) -> (r: Vec<u8>)
    requires
        key@.len() == 8,
        value@.len() == 0 || value@[value@.len() - 1] != 0,
    ensures
        r@ == value@,
{
    let padded = pad_zero8(value);
    let c = des_ecb_encrypt(key, &padded);
    let p = des_ecb_decrypt(key, &c);
    let out = strip_trailing_zeros(&p);
    proof {
        lemma_strip_pad(value@, pad_count(value@.len()));
    }
    out
}

/// The string form of a scalar value: a string's bytes, an integer's
/// decimal digits.
pub open spec fn value_bytes(m: FieldModel) -> Seq<u8> {
    match m {
        FieldModel::Text(s) => s,
        FieldModel::Num { mantissa, scale: _ } => dec_bytes_of(mantissa),
        FieldModel::Obj(_) => Seq::empty(),
    }
}

/// What an obfuscation rule makes of a value: the base64 of the padded
/// DES-ECB ciphertext of its string form when the rule encrypts, the
/// value itself otherwise.
pub open spec fn obf_value(rule: RuleModel, v: FieldModel) -> FieldModel {
    if rule.encrypt && rule.key is Some && rule.key.unwrap().len() == 8 {
        FieldModel::Text(base64_of(des_ecb_of(rule.key.unwrap(), pad8(value_bytes(v)))))
    } else {
        v
    }
}

/// What the table makes of one field: renamed and possibly encrypted
/// under its rule, untouched when it has none.
pub open spec fn obf_entry(k: Seq<u8>, v: FieldModel) -> (Seq<u8>, FieldModel) {
    match rule_lookup(k) {
        Option::None => (k, v),
        Option::Some(rule) => (rule.obf, obf_value(rule, v)),
    }
}

/// The table applied to every field of an entry list.
pub open spec fn obf_entries(s: Seq<(Seq<u8>, FieldModel)>) -> Seq<(Seq<u8>, FieldModel)> {
    s.map(|_i, p: (Seq<u8>, FieldModel)| obf_entry(p.0, p.1))
}

/// Obfuscates one field: a total, deterministic function of the field
/// name and value.
#[verifier::rlimit(60)]
pub fn obfuscate_field(name: &Vec<u8>, value: &FieldValue) -> (r: (Vec<u8>, FieldValue))
    requires
        is_flat(value.model()),
    ensures
        (r.0@, r.1.model()) == obf_entry(name@, value.model()),
{
    let rules = get_des_rules();
    let ghost rm = rules_table();
    let idx = find_rule(&rules, name);
    proof {
        lemma_lookup_at(rm, name@, idx as int);
    }
    if idx == rules.len() {
        return (copy_bytes(name), value_clone(value));
    }
    let rule = &rules[idx].1;
    let ghost rulem = rm[idx as int].1;
    proof {
        assert(rulem == crate::rules::rule_model_of(rules@[idx as int].1));
    }
    let obf_name = copy_bytes(&rule.obf_name);
    if rule.encrypt {
        match &rule.key {
            Option::Some(k) => {
                if k.len() == 8 {
                    let vb = value_to_bytes(value);
                    let padded = pad_zero8(&vb);
                    let c = des_ecb_encrypt(k.as_slice(), &padded);
                    let b64 = base64_bytes(c.as_slice());
                    (obf_name, FieldValue::Text(b64))
                } else {
                    (obf_name, value_clone(value))
                }
            },
            Option::None => (obf_name, value_clone(value)),
        }
    } else {
        (obf_name, value_clone(value))
    }
}

/// The index of the table entry for `name`, or the table's length when it
/// has none.
fn find_rule(rules: &Vec<(Vec<u8>, CipherRule)>, name: &Vec<u8>) -> (idx: usize)
    requires
        rules_model_of(rules@) == rules_table(),
    ensures
        idx <= rules@.len(),
        forall|j: int| 0 <= j < idx ==> #[trigger] rules_table()[j].0 != name@,
        idx < rules@.len() ==> rules_table()[idx as int].0 == name@ && rules_table()[idx as int]
            == (rules@[idx as int].0@, crate::rules::rule_model_of(rules@[idx as int].1)),
    decreases rules@.len(),
{
    let ghost rm = rules_table();
    let mut idx: usize = 0;
    while idx < rules.len()
        invariant
            rules_model_of(rules@) == rm,
            rm == rules_table(),
            rm.len() == rules@.len(),
            idx <= rules@.len(),
            forall|j: int| 0 <= j < idx ==> #[trigger] rm[j].0 != name@,
        decreases rules@.len() - idx,
    {
        proof {
            assert(rm[idx as int] == (rules@[idx as int].0@, crate::rules::rule_model_of(
                rules@[idx as int].1,
            )));
        }
        if bytes_eq(&rules[idx].0, name) {
            return idx;
        }
        idx = idx + 1;
    }
    idx
}

/// The string form of a scalar value.
pub fn value_to_bytes(v: &FieldValue) -> (r: Vec<u8>)
    requires
        is_flat(v.model()),
    ensures
        r@ == value_bytes(v.model()),
{
    match v {
        FieldValue::Text(s) => copy_bytes(s),
        FieldValue::Num { mantissa, scale: _ } => crate::numfmt::i128_dec_bytes(
            *mantissa as i128,
        ),
        FieldValue::Obj(_) => Vec::new(),
    }
}

/// A copy of a scalar value.
pub fn value_clone(v: &FieldValue) -> (r: FieldValue)
    requires
        is_flat(v.model()),
    ensures
        r.model() == v.model(),
{
    match v {
        FieldValue::Text(s) => FieldValue::Text(copy_bytes(s)),
        FieldValue::Num { mantissa, scale } => FieldValue::Num {
            mantissa: *mantissa,
            scale: *scale,
        },
        FieldValue::Obj(_) => FieldValue::Text(Vec::new()),
    }
}

/// Obfuscates every field of an entry list.
pub fn obfuscate_entries(entries: &Vec<(Vec<u8>, FieldValue)>) -> (r: Vec<
    (Vec<u8>, FieldValue),
>)
    requires
        forall|j: int| 0 <= j < entries@.len() ==> is_flat(#[trigger] entries@[j].1.model()),
    ensures
        entries_model(r@) == obf_entries(entries_model(entries@)),
{
    let ghost em = entries_model(entries@);
    let mut out: Vec<(Vec<u8>, FieldValue)> = Vec::new();
    let mut i: usize = 0;
    while i < entries.len()
        invariant
            i <= entries@.len(),
            out@.len() == i,
            em == entries_model(entries@),
            em.len() == entries@.len(),
            forall|j: int| 0 <= j < entries@.len() ==> is_flat(#[trigger] entries@[j].1.model()),
            forall|j: int|
                0 <= j < i ==> (#[trigger] out@[j].0@, out@[j].1.model()) == obf_entry(
                    em[j].0,
                    em[j].1,
                ),
        decreases entries@.len() - i,
    {
        proof {
            assert(em[i as int] == (entries@[i as int].0@, entries@[i as int].1.model()));
        }
        let p = obfuscate_field(&entries[i].0, &entries[i].1);
        out.push(p);
        i = i + 1;
    }
    proof {
        assert(entries_model(out@) =~= obf_entries(em));
    }
    out
}

} // verus!
