//! The canonical serializer: deterministic, key-sorted, type-sensitive
//! flattening of a structured value into one byte string, used as the
//! integrity-hash input. Keys are sorted byte-wise ascending; only values
//! appear in the output, in sorted-key order; numbers appear as their
//! canonical fixed-point integer.
use crate::numfmt::{canon_num, canon_num_bytes, dec_bytes_of};
use crate::order::{join_snd, sort_byte_pairs, sort_pairs, pairs_model, PairModel};
use crate::value::{copy_bytes, FieldModel, FieldValue};
use vstd::prelude::*;

verus! {

broadcast use vstd::std_specs::vec::group_vec_axioms;

/// The canonical byte string of a value: a string verbatim, a number as
/// its canonical integer's decimal digits, an object as the canonical
/// forms of its values joined in sorted-key order (keys themselves are
/// not emitted).
pub open spec fn canon_of(m: FieldModel) -> Seq<u8>
    decreases m,
{
    match m {
        FieldModel::Text(s) => s,
        FieldModel::Num { mantissa, scale } => dec_bytes_of(canon_num(mantissa, scale)),
        FieldModel::Obj(entries) => join_snd(sort_pairs(canon_pairs(entries))),
    }
}

/// Each object entry paired with the canonical form of its value.
pub open spec fn canon_pairs(entries: Seq<(Seq<u8>, FieldModel)>) -> Seq<PairModel>
    decreases entries,
{
    Seq::new(
        entries.len(),
        |i: int|
            if 0 <= i < entries.len() {
                (entries[i].0, canon_of(entries[i].1))
            } else {
                (Seq::<u8>::empty(), Seq::<u8>::empty())
            },
    )
}

/// Serializes a value canonically.
pub fn canonical_bytes(v: &FieldValue) -> (r: Vec<u8>)
    ensures
        r@ == canon_of(v.model()),
    decreases *v,
{
    match v {
        FieldValue::Text(s) => copy_bytes(s),
        FieldValue::Num { mantissa, scale } => canon_num_bytes(*mantissa, *scale),
        FieldValue::Obj(entries) => {
            let ghost em: Seq<(Seq<u8>, FieldModel)> = (match v.model() {
                FieldModel::Obj(e) => e,
                _ => Seq::empty(),
            });
            let mut pairs: Vec<(Vec<u8>, Vec<u8>)> = Vec::new();
            let mut i: usize = 0;
            while i < entries.len()
                invariant
                    i <= entries@.len(),
                    pairs@.len() == i,
                    em == (match v.model() {
                        FieldModel::Obj(e) => e,
                        _ => Seq::<(Seq<u8>, FieldModel)>::empty(),
                    }),
                    v matches FieldValue::Obj(es) && es == entries,
                    em.len() == entries@.len(),
                    forall|j: int|
                        0 <= j < i ==> (#[trigger] pairs@[j].0@, pairs@[j].1@) == (
                        em[j].0,
                        canon_of(em[j].1),
                        ),
                decreases entries@.len() - i,
            {
                proof {
                    assert(em[i as int] == (entries@[i as int].0@, entries@[i as int].1.model()));
                }
                let kb = copy_bytes(&entries[i].0);
                let cb = canonical_bytes(&entries[i].1);
                pairs.push((kb, cb));
                i = i + 1;
            }
            proof {
                assert(pairs_model(pairs@) =~= canon_pairs(em));
            }
            let sorted = sort_byte_pairs(pairs);
            let out = concat_snd(sorted);
            proof {
                assert(out@ == canon_of(v.model()));
            }
            out
        },
    }
}

/// Serializes an entry list canonically, as the object it forms.
pub fn canonical_entries_bytes(entries: &Vec<(Vec<u8>, FieldValue)>) -> (r: Vec<u8>)
    ensures
        r@ == canon_of(FieldModel::Obj(crate::value::entries_model(entries@))),
{
    let ghost em: Seq<(Seq<u8>, FieldModel)> = crate::value::entries_model(entries@);
    let mut pairs: Vec<(Vec<u8>, Vec<u8>)> = Vec::new();
    let mut i: usize = 0;
    while i < entries.len()
        invariant
            i <= entries@.len(),
            pairs@.len() == i,
            em == crate::value::entries_model(entries@),
            em.len() == entries@.len(),
            forall|j: int|
                0 <= j < i ==> (#[trigger] pairs@[j].0@, pairs@[j].1@) == (
                em[j].0,
                canon_of(em[j].1),
                ),
        decreases entries@.len() - i,
    {
        proof {
            assert(em[i as int] == (entries@[i as int].0@, entries@[i as int].1.model()));
        }
        let kb = copy_bytes(&entries[i].0);
        let cb = canonical_bytes(&entries[i].1);
        pairs.push((kb, cb));
        i = i + 1;
    }
    proof {
        assert(pairs_model(pairs@) =~= canon_pairs(em));
    }
    let sorted = sort_byte_pairs(pairs);
    concat_snd(sorted)
}

/// Concatenates the payloads of a pair list, in order.
pub fn concat_snd(pairs: Vec<(Vec<u8>, Vec<u8>)>) -> (r: Vec<u8>)
    ensures
        r@ == join_snd(pairs_model(pairs@)),
{
    let ghost pm: Seq<PairModel> = pairs_model(pairs@);
    let mut out: Vec<u8> = Vec::new();
    let mut k: usize = 0;
    proof {
        assert(pm.take(0) =~= Seq::<PairModel>::empty());
    }
    while k < pairs.len()
        invariant
            k <= pairs@.len(),
            pm == pairs_model(pairs@),
            pm.len() == pairs@.len(),
            out@ == join_snd(pm.take(k as int)),
        decreases pairs@.len() - k,
    {
        proof {
            assert(pm[k as int] == (pairs@[k as int].0@, pairs@[k as int].1@));
            crate::order::lemma_join_snoc(pm.take(k as int), pm[k as int]);
            assert(pm.take(k as int).push(pm[k as int]) =~= pm.take(k as int + 1));
        }
        out.extend_from_slice(pairs[k].1.as_slice());
        k = k + 1;
    }
    proof {
        assert(pm.take(pm.len() as int) =~= pm);
    }
    out
}

} // verus!
