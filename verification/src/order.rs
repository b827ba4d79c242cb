//! Byte-wise lexicographic key order, and sorting of (key, payload) byte
//! pairs by key. Canonicalization and JSON emission both order fields this
//! way.
use vstd::prelude::*;

verus! {

broadcast use vstd::std_specs::vec::group_vec_axioms;

/// Byte-wise ascending lexicographic order: `a` strictly before `b`.
pub open spec fn lex_lt(a: Seq<u8>, b: Seq<u8>) -> bool
    decreases a.len(),
{
    if b.len() == 0 {
        false
    } else if a.len() == 0 {
        true
    } else if a[0] < b[0] {
        true
    } else if a[0] > b[0] {
        false
    } else {
        lex_lt(a.drop_first(), b.drop_first())
    }
}

proof fn lemma_lex_lt_step(a: Seq<u8>, b: Seq<u8>, i: int)
    requires
        0 <= i,
        i < a.len(),
        i < b.len(),
        a[i] == b[i],
    ensures
        lex_lt(a.skip(i), b.skip(i)) == lex_lt(a.skip(i + 1), b.skip(i + 1)),
{
    assert(a.skip(i).drop_first() =~= a.skip(i + 1));
    assert(b.skip(i).drop_first() =~= b.skip(i + 1));
    assert(a.skip(i)[0] == a[i]);
    assert(b.skip(i)[0] == b[i]);
}

/// Decides byte-wise lexicographic order of two byte vectors.
pub fn bytes_lt(a: &Vec<u8>, b: &Vec<u8>) -> (r: bool)
    ensures
        r == lex_lt(a@, b@),
{
    let mut i: usize = 0;
    proof {
        assert(a@.skip(0) =~= a@);
        assert(b@.skip(0) =~= b@);
    }
    loop
        invariant
            i <= a.len(),
            i <= b.len(),
            lex_lt(a@, b@) == lex_lt(a@.skip(i as int), b@.skip(i as int)),
        decreases a@.len() - i,
    {
        if i == a.len() || i == b.len() {
            return i == a.len() && i < b.len();
        }
        if a[i] < b[i] {
            return true;
        }
        if a[i] > b[i] {
            return false;
        }
        proof {
            lemma_lex_lt_step(a@, b@, i as int);
        }
        i = i + 1;
    }
}

/// A (key, payload) pair of byte sequences, as contracts see it.
pub type PairModel = (Seq<u8>, Seq<u8>);

/// The model of a vector of byte pairs.
pub open spec fn pairs_model(s: Seq<(Vec<u8>, Vec<u8>)>) -> Seq<PairModel> {
    s.map(|_i, p: (Vec<u8>, Vec<u8>)| (p.0@, p.1@))
}

/// Inserts a pair into a key-sorted pair sequence, before the first entry
/// whose key is strictly greater.
pub open spec fn insort_pair(s: Seq<PairModel>, p: PairModel) -> Seq<PairModel>
    decreases s.len(),
{
    if s.len() == 0 {
        seq![p]
    } else if lex_lt(p.0, s[0].0) {
        seq![p] + s
    } else {
        seq![s[0]] + insort_pair(s.drop_first(), p)
    }
}

/// Sorts the first `n` pairs of `s` by key, by repeated insertion.
pub open spec fn sort_pairs_prefix(s: Seq<PairModel>, n: int) -> Seq<PairModel>
    decreases n,
{
    if n <= 0 {
        Seq::empty()
    } else {
        insort_pair(sort_pairs_prefix(s, n - 1), s[n - 1])
    }
}

/// Key-sorted arrangement of `s`: the order the protocol serializes
/// object fields in.
pub open spec fn sort_pairs(s: Seq<PairModel>) -> Seq<PairModel> {
    sort_pairs_prefix(s, s.len() as int)
}

/// The payloads of a pair list, concatenated in order.
pub open spec fn join_snd(s: Seq<PairModel>) -> Seq<u8>
    decreases s.len(),
{
    if s.len() == 0 {
        Seq::empty()
    } else {
        s[0].1 + join_snd(s.drop_first())
    }
}

pub proof fn lemma_join_snoc(s: Seq<PairModel>, p: PairModel)
    ensures
        join_snd(s.push(p)) == join_snd(s) + p.1,
    decreases s.len(),
{
    if s.len() == 0 {
        reveal_with_fuel(join_snd, 3);
        assert(s.push(p)[0] == p);
        assert(s.push(p).drop_first() =~= Seq::<PairModel>::empty());
        assert(join_snd(s.push(p).drop_first()) == join_snd(Seq::<PairModel>::empty()));
        assert(join_snd(s.push(p)) =~= join_snd(s) + p.1);
    } else {
        assert(s.push(p).drop_first() =~= s.drop_first().push(p));
        lemma_join_snoc(s.drop_first(), p);
        assert(s.push(p)[0] == s[0]);
        assert(join_snd(s.push(p)) == s[0].1 + (join_snd(s.drop_first()) + p.1));
        assert(s[0].1 + (join_snd(s.drop_first()) + p.1) =~= (s[0].1 + join_snd(s.drop_first()))
            + p.1);
    }
}

proof fn lemma_insort_at(s: Seq<PairModel>, p: PairModel, i: int)
    requires
        0 <= i <= s.len(),
        forall|j: int| 0 <= j < i ==> !lex_lt(p.0, #[trigger] s[j].0),
        i < s.len() ==> lex_lt(p.0, s[i].0),
    ensures
        insort_pair(s, p) =~= s.insert(i, p),
    decreases i,
{
    if s.len() == 0 {
        assert(insort_pair(s, p) =~= s.insert(0, p));
    } else if i == 0 {
        assert(insort_pair(s, p) =~= s.insert(0, p));
    } else {
        assert(!lex_lt(p.0, s[0].0));
        lemma_insort_at(s.drop_first(), p, i - 1);
        assert(seq![s[0]] + s.drop_first().insert(i - 1, p) =~= s.insert(i, p));
    }
}

fn find_insert_pos(acc: &Vec<(Vec<u8>, Vec<u8>)>, key: &Vec<u8>) -> (idx: usize)
    ensures
        idx <= acc@.len(),
        forall|j: int| 0 <= j < idx ==> !lex_lt(key@, #[trigger] acc@[j].0@),
        idx < acc@.len() ==> lex_lt(key@, acc@[idx as int].0@),
{
    let mut idx: usize = 0;
    while idx < acc.len()
        invariant
            idx <= acc@.len(),
            forall|j: int| 0 <= j < idx ==> !lex_lt(key@, #[trigger] acc@[j].0@),
        decreases acc@.len() - idx,
    {
        if bytes_lt(key, &acc[idx].0) {
            return idx;
        }
        idx = idx + 1;
    }
    idx
}

/// Sorts (key, payload) byte pairs by byte-wise ascending key order.
pub fn sort_byte_pairs(entries: Vec<(Vec<u8>, Vec<u8>)>) -> (r: Vec<(Vec<u8>, Vec<u8>)>)
    ensures
        pairs_model(r@) == sort_pairs(pairs_model(entries@)),
{
    let ghost orig: Seq<PairModel> = pairs_model(entries@);
    proof {
        assert(forall|j: int|
            0 <= j < entries@.len() ==> orig[j] == (#[trigger] entries@[j].0@, entries@[j].1@));
    }
    let mut rest = entries;
    let mut acc: Vec<(Vec<u8>, Vec<u8>)> = Vec::new();
    let ghost mut k: int = 0;
    proof {
        assert(pairs_model(acc@) =~= sort_pairs_prefix(orig, 0));
    }
    while rest.len() > 0
        invariant
            0 <= k <= orig.len(),
            rest@.len() == orig.len() - k,
            forall|j: int|
                0 <= j < rest@.len() ==> orig[k + j] == (#[trigger] rest@[j].0@, rest@[j].1@),
            pairs_model(acc@) == sort_pairs_prefix(orig, k),
        decreases rest@.len(),
    {
        let ghost rest_before = rest@;
        let p = rest.remove(0);
        let ghost pm: PairModel = (p.0@, p.1@);
        proof {
            assert(pm == orig[k]);
        }
        let idx = find_insert_pos(&acc, &p.0);
        let ghost acc_before: Seq<PairModel> = pairs_model(acc@);
        proof {
            assert(forall|j: int|
                0 <= j < acc@.len() ==> acc_before[j] == (#[trigger] acc@[j].0@, acc@[j].1@));
            lemma_insort_at(acc_before, pm, idx as int);
        }
        acc.insert(idx, p);
        proof {
            assert(pairs_model(acc@) =~= acc_before.insert(idx as int, pm));
            assert(pairs_model(acc@) == sort_pairs_prefix(orig, k + 1));
            k = k + 1;
        }
    }
    proof {
        assert(pairs_model(acc@) == sort_pairs(orig));
    }
    acc
}

} // verus!
