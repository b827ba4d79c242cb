//! Compact JSON emission for flat objects of strings and integers, with
//! the exact escaping rules of the ecosystem's JSON serializer: `"`, `\`,
//! and control bytes are escaped (`\b \t \n \f \r`, otherwise `\u00XX`
//! with lower-case hex); everything else is emitted verbatim. Object keys
//! are emitted in byte-wise ascending order.
use crate::numfmt::dec_bytes_of;
use crate::order::{pairs_model, sort_byte_pairs, sort_pairs, PairModel};
use crate::outside::hex_digit;
use crate::value::{copy_bytes, FieldModel, FieldValue};
use vstd::prelude::*;

verus! {

broadcast use vstd::std_specs::vec::group_vec_axioms;

/// The JSON escape of one byte of string content.
pub open spec fn json_esc_byte(b: u8) -> Seq<u8> {
    if b == 34 {
        seq![92u8, 34u8]
    } else if b == 92 {
        seq![92u8, 92u8]
    } else if b == 8 {
        seq![92u8, 98u8]
    } else if b == 9 {
        seq![92u8, 116u8]
    } else if b == 10 {
        seq![92u8, 110u8]
    } else if b == 12 {
        seq![92u8, 102u8]
    } else if b == 13 {
        seq![92u8, 114u8]
    } else if b < 32 {
        seq![92u8, 117u8, 48u8, 48u8, hex_digit(b as int / 16), hex_digit(b as int % 16)]
    } else {
        seq![b]
    }
}

/// The JSON escape of string content.
pub open spec fn json_esc(s: Seq<u8>) -> Seq<u8>
    decreases s.len(),
{
    if s.len() == 0 {
        Seq::empty()
    } else {
        json_esc_byte(s[0]) + json_esc(s.drop_first())
    }
}

proof fn lemma_json_esc_snoc(s: Seq<u8>, b: u8)
    ensures
        json_esc(s.push(b)) == json_esc(s) + json_esc_byte(b),
    decreases s.len(),
{
    if s.len() == 0 {
        reveal_with_fuel(json_esc, 3);
        assert(s.push(b).drop_first() =~= Seq::<u8>::empty());
        assert(json_esc(s.push(b)) =~= json_esc(s) + json_esc_byte(b));
    } else {
        assert(s.push(b).drop_first() =~= s.drop_first().push(b));
        lemma_json_esc_snoc(s.drop_first(), b);
        assert(s.push(b)[0] == s[0]);
        assert(json_esc_byte(s[0]) + (json_esc(s.drop_first()) + json_esc_byte(b)) =~= (json_esc_byte(
            s[0],
        ) + json_esc(s.drop_first())) + json_esc_byte(b));
    }
}

/// A JSON string: quoted, escaped content.
pub open spec fn json_quote(s: Seq<u8>) -> Seq<u8> {
    seq![34u8] + json_esc(s) + seq![34u8]
}

/// A scalar value the flat JSON emitter accepts: a string, or an integer
/// (a number of scale zero).
pub open spec fn is_json_scalar(m: FieldModel) -> bool {
    match m {
        FieldModel::Text(_) => true,
        FieldModel::Num { mantissa: _, scale } => scale == 0,
        FieldModel::Obj(_) => false,
    }
}

/// The JSON form of a scalar value.
pub open spec fn json_value_of(m: FieldModel) -> Seq<u8> {
    match m {
        FieldModel::Text(s) => json_quote(s),
        FieldModel::Num { mantissa, scale: _ } => dec_bytes_of(mantissa),
        FieldModel::Obj(_) => Seq::empty(),
    }
}

/// Each object entry keyed by its raw key, with its emitted
/// `"key":value` bytes as payload.
pub open spec fn json_pairs(entries: Seq<(Seq<u8>, FieldModel)>) -> Seq<PairModel> {
    entries.map(
        |_i, p: (Seq<u8>, FieldModel)| (p.0, json_quote(p.0) + seq![58u8] + json_value_of(p.1)),
    )
}

/// Pair payloads joined with commas.
pub open spec fn join_comma(s: Seq<PairModel>) -> Seq<u8>
    decreases s.len(),
{
    if s.len() == 0 {
        Seq::empty()
    } else if s.len() == 1 {
        s[0].1
    } else {
        s[0].1 + seq![44u8] + join_comma(s.drop_first())
    }
}

proof fn lemma_join_comma_snoc(s: Seq<PairModel>, p: PairModel)
    ensures
        s.len() == 0 ==> join_comma(s.push(p)) == p.1,
        s.len() > 0 ==> join_comma(s.push(p)) == join_comma(s) + seq![44u8] + p.1,
    decreases s.len(),
{
    if s.len() == 0 {
        assert(s.push(p)[0] == p);
    } else if s.len() == 1 {
        reveal_with_fuel(join_comma, 3);
        assert(s.push(p).drop_first() =~= Seq::<PairModel>::empty().push(p));
        lemma_join_comma_snoc(Seq::<PairModel>::empty(), p);
        assert(s.push(p)[0] == s[0]);
    } else {
        assert(s.push(p).drop_first() =~= s.drop_first().push(p));
        lemma_join_comma_snoc(s.drop_first(), p);
        assert(s.push(p)[0] == s[0]);
        assert(s[0].1 + seq![44u8] + (join_comma(s.drop_first()) + seq![44u8] + p.1) =~= (s[0].1
            + seq![44u8] + join_comma(s.drop_first())) + seq![44u8] + p.1);
    }
}

/// The compact JSON object for a flat entry list: entries sorted by raw
/// key byte-wise ascending, each emitted as `"key":value`, joined with
/// commas inside braces.
pub open spec fn json_obj_of(entries: Seq<(Seq<u8>, FieldModel)>) -> Seq<u8> {
    seq![123u8] + join_comma(sort_pairs(json_pairs(entries))) + seq![125u8]
}

fn hex_digit_byte(d: u8) -> (r: u8)
    requires
        d < 16,
    ensures
        r == hex_digit(d as int),
{
    if d < 10 {
        48 + d
    } else {
        87 + d
    }
}

/// Escapes string content for a JSON string literal.
pub fn json_escape(s: &[u8]) -> (r: Vec<u8>)
    ensures
        r@ == json_esc(s@),
{
    let mut out: Vec<u8> = Vec::new();
    let mut i: usize = 0;
    proof {
        assert(s@.take(0) =~= Seq::<u8>::empty());
    }
    while i < s.len()
        invariant
            i <= s@.len(),
            out@ == json_esc(s@.take(i as int)),
        decreases s@.len() - i,
    {
        let b = s[i];
        proof {
            lemma_json_esc_snoc(s@.take(i as int), b);
            assert(s@.take(i as int).push(b) =~= s@.take(i as int + 1));
        }
        if b == 34 {
            out.push(92);
            out.push(34);
        } else if b == 92 {
            out.push(92);
            out.push(92);
        } else if b == 8 {
            out.push(92);
            out.push(98);
        } else if b == 9 {
            out.push(92);
            out.push(116);
        } else if b == 10 {
            out.push(92);
            out.push(110);
        } else if b == 12 {
            out.push(92);
            out.push(102);
        } else if b == 13 {
            out.push(92);
            out.push(114);
        } else if b < 32 {
            out.push(92);
            out.push(117);
            out.push(48);
            out.push(48);
            out.push(hex_digit_byte(b / 16));
            out.push(hex_digit_byte(b % 16));
        } else {
            out.push(b);
        }
        proof {
            assert(out@ =~= json_esc(s@.take(i as int)) + json_esc_byte(b));
        }
        i = i + 1;
    }
    proof {
        assert(s@.take(s@.len() as int) =~= s@);
    }
    out
}

/// Emits a JSON string literal: quoted, escaped content.
pub fn json_string(s: &[u8]) -> (r: Vec<u8>)
    ensures
        r@ == json_quote(s@),
{
    let mut out: Vec<u8> = Vec::new();
    out.push(34);
    let esc = json_escape(s);
    out.extend_from_slice(esc.as_slice());
    out.push(34);
    proof {
        assert(out@ =~= json_quote(s@));
    }
    out
}

/// Emits the compact JSON object for a flat list of string and integer
/// fields, keys in byte-wise ascending order.
pub fn json_object(entries: &Vec<(Vec<u8>, FieldValue)>) -> (r: Vec<u8>)
    ensures
        r@ == json_obj_of(crate::value::entries_model(entries@)),
{
    let ghost em: Seq<(Seq<u8>, FieldModel)> = crate::value::entries_model(entries@);
    let mut pairs: Vec<(Vec<u8>, Vec<u8>)> = Vec::new();
    let mut i: usize = 0;
    while i < entries.len()
        invariant
            i <= entries@.len(),
            pairs@.len() == i,
            em == crate::value::entries_model(entries@),
            em.len() == entries@.len(),
            forall|j: int|
                0 <= j < i ==> (#[trigger] pairs@[j].0@, pairs@[j].1@) == json_pairs(em)[j],
        decreases entries@.len() - i,
    {
        proof {
            assert(em[i as int] == (entries@[i as int].0@, entries@[i as int].1.model()));
        }
        let kb = copy_bytes(&entries[i].0);
        let mut payload = json_string(kb.as_slice());
        payload.push(58);
        let vb: Vec<u8> = (match &entries[i].1 {
            FieldValue::Text(s) => json_string(s.as_slice()),
            FieldValue::Num { mantissa, scale: _ } => {
                crate::numfmt::i128_dec_bytes(*mantissa as i128)
            },
            FieldValue::Obj(_) => Vec::new(),
        });
        payload.extend_from_slice(vb.as_slice());
        proof {
            assert(payload@ =~= json_quote(em[i as int].0) + seq![58u8] + json_value_of(
                em[i as int].1,
            ));
        }
        pairs.push((kb, payload));
        i = i + 1;
    }
    proof {
        assert(pairs_model(pairs@) =~= json_pairs(em));
    }
    let sorted = sort_byte_pairs(pairs);
    let ghost sm: Seq<PairModel> = sort_pairs(json_pairs(em));
    let mut out: Vec<u8> = Vec::new();
    out.push(123);
    let mut k: usize = 0;
    proof {
        assert(sm.take(0) =~= Seq::<PairModel>::empty());
        assert(out@ =~= seq![123u8] + join_comma(sm.take(0)));
    }
    while k < sorted.len()
        invariant
            k <= sorted@.len(),
            pairs_model(sorted@) == sm,
            sm.len() == sorted@.len(),
            out@ == seq![123u8] + join_comma(sm.take(k as int)),
        decreases sorted@.len() - k,
    {
        proof {
            assert(sm[k as int] == (sorted@[k as int].0@, sorted@[k as int].1@));
            lemma_join_comma_snoc(sm.take(k as int), sm[k as int]);
            assert(sm.take(k as int).push(sm[k as int]) =~= sm.take(k as int + 1));
        }
        if k > 0 {
            out.push(44);
        }
        out.extend_from_slice(sorted[k].1.as_slice());
        proof {
            assert(out@ =~= seq![123u8] + join_comma(sm.take(k as int + 1)));
        }
        k = k + 1;
    }
    out.push(125);
    proof {
        assert(sm.take(sm.len() as int) =~= sm);
        assert(out@ =~= json_obj_of(em));
    }
    out
}

} // verus!
