//! Verified ordering helpers: lexicographic comparison of character
//! sequences and insertion sorts for counted topics and scored facts.
//!
//! A sort's contract states the order of the result (every adjacent pair
//! in order) and that it holds exactly the input's elements (multiset
//! equality).

use vstd::prelude::*;

verus! {

/// Lexicographic order on character sequences by code point; the empty
/// sequence comes first.
pub open spec fn lex_le(a: Seq<char>, b: Seq<char>) -> bool
    decreases a.len(),
{
    if a.len() == 0 {
        true
    } else if b.len() == 0 {
        false
    } else if a[0] != b[0] {
        (a[0] as int) < (b[0] as int)
    } else {
        lex_le(a.skip(1), b.skip(1))
    }
}

/// Any two sequences compare in at least one direction.
pub proof fn lemma_lex_total(a: Seq<char>, b: Seq<char>)
    ensures
        lex_le(a, b) || lex_le(b, a),
    decreases a.len(),
{
    if a.len() > 0 && b.len() > 0 && a[0] == b[0] {
        lemma_lex_total(a.skip(1), b.skip(1));
    }
}

/// Lexicographic comparison of strings by character code.
pub fn str_le(a: &str, b: &str) -> (r: bool)
    ensures
        r == lex_le(a@, b@),
{
    let av = crate::text::to_char_vec(a);
    let bv = crate::text::to_char_vec(b);
    proof {
        assert(a@.skip(0) =~= a@);
        assert(b@.skip(0) =~= b@);
    }
    let mut i: usize = 0;
    while i < av.len() && i < bv.len()
        invariant
            i <= av@.len(),
            i <= bv@.len(),
            av@ == a@,
            bv@ == b@,
            lex_le(a@, b@) == lex_le(a@.skip(i as int), b@.skip(i as int)),
            forall|k: int| 0 <= k < i ==> a@[k] == b@[k],
        decreases av@.len() - i,
    {
        if av[i] != bv[i] {
            proof {
                assert(a@.skip(i as int)[0] == a@[i as int]);
                assert(b@.skip(i as int)[0] == b@[i as int]);
            }
            let lt = av[i] < bv[i];
            proof {
                assert(lt == ((a@[i as int] as int) < (b@[i as int] as int)));
            }
            return lt;
        }
        proof {
            assert(a@.skip(i as int)[0] == a@[i as int]);
            assert(b@.skip(i as int)[0] == b@[i as int]);
            assert(a@.skip(i as int).skip(1) =~= a@.skip(i + 1));
            assert(b@.skip(i as int).skip(1) =~= b@.skip(i + 1));
        }
        i = i + 1;
    }
    proof {
        assert(a@.skip(i as int).len() == a@.len() - i);
        assert(b@.skip(i as int).len() == b@.len() - i);
    }
    av.len() <= bv.len()
}

/// Inserting an element anywhere adds exactly it to the multiset.
pub proof fn lemma_insert_multiset<A>(s: Seq<A>, i: int, x: A)
    requires
        0 <= i <= s.len(),
    ensures
        s.insert(i, x).to_multiset() == s.to_multiset().insert(x),
{
    let a = s.subrange(0, i);
    let b = s.subrange(i, s.len() as int);
    assert(s =~= a + b);
    assert(s.insert(i, x) =~= a.push(x) + b);
    vstd::seq_lib::lemma_multiset_commutative(a, b);
    vstd::seq_lib::lemma_multiset_commutative(a.push(x), b);
    a.to_multiset_ensures();
    assert(a.push(x).to_multiset() =~= a.to_multiset().insert(x));
    assert(s.insert(i, x).to_multiset() =~= s.to_multiset().insert(x));
}

/// Topic ranking order: higher count first, ties by token, ascending.
pub open spec fn pair_cb(a: (String, u64), b: (String, u64)) -> bool {
    a.1 > b.1 || (a.1 == b.1 && lex_le(a.0@, b.0@))
}

/// Every adjacent pair is in ranking order.
pub open spec fn pairs_ordered(s: Seq<(String, u64)>) -> bool {
    forall|i: int| 0 <= i < s.len() - 1 ==> pair_cb(#[trigger] s[i], s[i + 1])
}

/// The ranking order is total.
pub proof fn lemma_pair_cb_total(a: (String, u64), b: (String, u64))
    ensures
        pair_cb(a, b) || pair_cb(b, a),
{
    lemma_lex_total(a.0@, b.0@);
}

/// Sorts counted topics: count descending, ties by token ascending. The
/// result holds exactly the input's pairs.
pub fn sort_count_pairs(v: Vec<(String, u64)>) -> (r: Vec<(String, u64)>)
    ensures
        pairs_ordered(r@),
        r@.to_multiset() == v@.to_multiset(),
        r@.len() == v@.len(),
{
    let ghost v0 = v@;
    let mut out: Vec<(String, u64)> = Vec::new();
    let mut i: usize = 0;
    proof {
        v0.to_multiset_ensures();
        out@.to_multiset_ensures();
        assert(v0.subrange(0, 0) =~= out@);
        assert(out@.to_multiset() =~= v0.subrange(0, 0).to_multiset());
    }
    while i < v.len()
        invariant
            i <= v0.len(),
            v@ == v0,
            pairs_ordered(out@),
            out@.to_multiset() == v0.subrange(0, i as int).to_multiset(),
            out@.len() == i,
        decreases v0.len() - i,
    {
        let x = (v[i].0.clone(), v[i].1);
        proof {
            assert(x == v0[i as int]);
        }
        let mut pos: usize = 0;
        while pos < out.len() && pair_cb_x(&out[pos], &x)
            invariant
                pos <= out@.len(),
                forall|k: int| 0 <= k < pos ==> pair_cb(#[trigger] out@[k], x),
            decreases out@.len() - pos,
        {
            pos = pos + 1;
        }
        let ghost old_out = out@;
        out.insert(pos, x);
        proof {
            if pos < old_out.len() {
                lemma_pair_cb_total(old_out[pos as int], x);
            }
            assert forall|k: int| 0 <= k < out@.len() - 1 implies pair_cb(
                #[trigger] out@[k],
                out@[k + 1],
            ) by {
                if k + 1 < pos {
                    assert(out@[k] == old_out[k] && out@[k + 1] == old_out[k + 1]);
                } else if k + 1 == pos {
                    assert(out@[k] == old_out[k] && out@[k + 1] == x);
                } else if k == pos {
                    assert(out@[k] == x && out@[k + 1] == old_out[k]);
                } else {
                    assert(out@[k] == old_out[k - 1] && out@[k + 1] == old_out[k]);
                }
            }
            lemma_insert_multiset(old_out, pos as int, x);
            old_out.to_multiset_ensures();
            v0.subrange(0, i as int).to_multiset_ensures();
            assert(v0.subrange(0, i + 1) =~= v0.subrange(0, i as int).push(v0[i as int]));
            assert(v0.subrange(0, i + 1).to_multiset() =~= v0.subrange(
                0,
                i as int,
            ).to_multiset().insert(v0[i as int]));
        }
        i = i + 1;
    }
    proof {
        assert(v0.subrange(0, v0.len() as int) =~= v0);
    }
    out
}

/// The ranking comparison, executable.
fn pair_cb_x(a: &(String, u64), b: &(String, u64)) -> (r: bool)
    ensures
        r == pair_cb(*a, *b),
{
    a.1 > b.1 || (a.1 == b.1 && str_le(a.0.as_str(), b.0.as_str()))
}

/// A remembered personal fact.
pub struct LearnedFact {
    pub fact: String,
    pub canonical: String,
    pub created_at: String,
    pub updated_at: String,
}

impl LearnedFact {
    /// A copy equal to this fact.
    pub fn duplicate(&self) -> (r: LearnedFact)
        ensures
            r == *self,
    {
        LearnedFact {
            fact: self.fact.clone(),
            canonical: self.canonical.clone(),
            created_at: self.created_at.clone(),
            updated_at: self.updated_at.clone(),
        }
    }
}

/// Fact ranking order: higher score first, ties by most recent update
/// first.
pub open spec fn fact_cb(a: (u64, LearnedFact), b: (u64, LearnedFact)) -> bool {
    a.0 > b.0 || (a.0 == b.0 && lex_le(b.1.updated_at@, a.1.updated_at@))
}

/// Every adjacent scored fact is in ranking order.
pub open spec fn facts_ordered(s: Seq<(u64, LearnedFact)>) -> bool {
    forall|i: int| 0 <= i < s.len() - 1 ==> fact_cb(#[trigger] s[i], s[i + 1])
}

/// The fact order is total.
pub proof fn lemma_fact_cb_total(a: (u64, LearnedFact), b: (u64, LearnedFact))
    ensures
        fact_cb(a, b) || fact_cb(b, a),
{
    lemma_lex_total(a.1.updated_at@, b.1.updated_at@);
}

fn fact_cb_x(a: &(u64, LearnedFact), b: &(u64, LearnedFact)) -> (r: bool)
    ensures
        r == fact_cb(*a, *b),
{
    a.0 > b.0 || (a.0 == b.0 && str_le(b.1.updated_at.as_str(), a.1.updated_at.as_str()))
}

/// Sorts scored facts: score descending, ties by the most recent update
/// first. The result holds exactly the input's entries.
pub fn sort_scored_facts(v: Vec<(u64, LearnedFact)>) -> (r: Vec<(u64, LearnedFact)>)
    ensures
        facts_ordered(r@),
        r@.to_multiset() == v@.to_multiset(),
        r@.len() == v@.len(),
{
    let ghost v0 = v@;
    let mut out: Vec<(u64, LearnedFact)> = Vec::new();
    let mut i: usize = 0;
    proof {
        v0.to_multiset_ensures();
        out@.to_multiset_ensures();
        assert(v0.subrange(0, 0) =~= out@);
        assert(out@.to_multiset() =~= v0.subrange(0, 0).to_multiset());
    }
    while i < v.len()
        invariant
            i <= v0.len(),
            v@ == v0,
            facts_ordered(out@),
            out@.to_multiset() == v0.subrange(0, i as int).to_multiset(),
            out@.len() == i,
        decreases v0.len() - i,
    {
        let x = (v[i].0, v[i].1.duplicate());
        proof {
            assert(x == v0[i as int]);
        }
        let mut pos: usize = 0;
        while pos < out.len() && fact_cb_x(&out[pos], &x)
            invariant
                pos <= out@.len(),
                forall|k: int| 0 <= k < pos ==> fact_cb(#[trigger] out@[k], x),
            decreases out@.len() - pos,
        {
            pos = pos + 1;
        }
        let ghost old_out = out@;
        out.insert(pos, x);
        proof {
            if pos < old_out.len() {
                lemma_fact_cb_total(old_out[pos as int], x);
            }
            assert forall|k: int| 0 <= k < out@.len() - 1 implies fact_cb(
                #[trigger] out@[k],
                out@[k + 1],
            ) by {
                if k + 1 < pos {
                    assert(out@[k] == old_out[k] && out@[k + 1] == old_out[k + 1]);
                } else if k + 1 == pos {
                    assert(out@[k] == old_out[k] && out@[k + 1] == x);
                } else if k == pos {
                    assert(out@[k] == x && out@[k + 1] == old_out[k]);
                } else {
                    assert(out@[k] == old_out[k - 1] && out@[k + 1] == old_out[k]);
                }
            }
            lemma_insert_multiset(old_out, pos as int, x);
            old_out.to_multiset_ensures();
            v0.subrange(0, i as int).to_multiset_ensures();
            assert(v0.subrange(0, i + 1) =~= v0.subrange(0, i as int).push(v0[i as int]));
            assert(v0.subrange(0, i + 1).to_multiset() =~= v0.subrange(
                0,
                i as int,
            ).to_multiset().insert(v0[i as int]));
        }
        i = i + 1;
    }
    proof {
        assert(v0.subrange(0, v0.len() as int) =~= v0);
    }
    out
}

} // verus!
