//! The structured values that the protocol canonicalizes and encrypts:
//! byte strings, fixed-point decimal numbers, and keyed objects.
use vstd::prelude::*;
use vstd::slice::slice_to_vec;
use vstd::string::StrSliceExecFns;
use vstd::utf8::encode_utf8;

verus! {

broadcast use vstd::std_specs::vec::group_vec_axioms;

/// A structured protocol value: a string (UTF-8 bytes), a decimal number,
/// or an object (a list of key/value fields; entry order is irrelevant,
/// serialization sorts keys itself). A number is held exactly as a scaled
/// decimal, `mantissa * 10^(-scale)`, so the pipeline never touches
/// floating point.
pub enum FieldValue {
    Text(Vec<u8>),
    Num { mantissa: i64, scale: u32 },
    Obj(Vec<(Vec<u8>, FieldValue)>),
}

/// The mathematical shape of a `FieldValue`: strings as byte sequences,
/// numbers as unbounded scaled decimals. Every contract speaks over this.
#[verifier::ext_equal]
pub enum FieldModel {
    Text(Seq<u8>),
    Num { mantissa: int, scale: nat },
    Obj(Seq<(Seq<u8>, FieldModel)>),
}

/// The UTF-8 bytes of a string literal.
pub open spec fn str_bytes(s: Seq<char>) -> Seq<u8> {
    encode_utf8(s)
}

impl FieldValue {
    /// The model of a value.
    pub open spec fn model(self) -> FieldModel
        decreases self,
    {
        match self {
            FieldValue::Text(s) => FieldModel::Text(s@),
            FieldValue::Num { mantissa, scale } => FieldModel::Num {
                mantissa: mantissa as int,
                scale: scale as nat,
            },
            FieldValue::Obj(entries) => FieldModel::Obj(
                Seq::new(
                    entries@.len(),
                    |i: int|
                        if 0 <= i < entries@.len() {
                            (entries[i].0@, entries[i].1.model())
                        } else {
                            (Seq::<u8>::empty(), FieldModel::Text(Seq::empty()))
                        },
                ),
            ),
        }
    }
}

/// A value that is not itself an object: what the flat pipeline maps hold.
pub open spec fn is_flat(m: FieldModel) -> bool {
    !(m is Obj)
}

/// The model of a field list (an object's entries, in their given order).
pub open spec fn entries_model(entries: Seq<(Vec<u8>, FieldValue)>) -> Seq<(Seq<u8>, FieldModel)> {
    entries.map(|_i, p: (Vec<u8>, FieldValue)| (p.0@, p.1.model()))
}

/// The byte form of a UTF-8 string literal, for building protocol
/// constants.
pub fn lit_bytes(s: &str) -> (r: Vec<u8>)
    ensures
        r@ == str_bytes(s@),
{
    s.as_bytes_vec()
}

/// A copy of a byte vector.
pub fn copy_bytes(v: &Vec<u8>) -> (r: Vec<u8>)
    ensures
        r@ == v@,
{
    slice_to_vec(v.as_slice())
}

} // verus!
