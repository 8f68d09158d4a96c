//! Lexicographic ordering of display names, for presentation: the
//! candidate list is shown sorted, independent of fetch order.

use vstd::prelude::*;
use vstd::multiset::Multiset;

verus! {

/// Lexicographic order on character sequences, by code point. A prefix
/// sorts before every extension of it.
pub open spec fn lex_leq(a: Seq<char>, b: Seq<char>) -> bool
    decreases a.len(),
{
    if a.len() == 0 {
        true
    } else if b.len() == 0 {
        false
    } else if (a[0] as u32) == (b[0] as u32) {
        lex_leq(a.drop_first(), b.drop_first())
    } else {
        (a[0] as u32) < (b[0] as u32)
    }
}

/// The order is total.
pub proof fn lemma_lex_total(a: Seq<char>, b: Seq<char>)
    ensures
        lex_leq(a, b) || lex_leq(b, a),
    decreases a.len(),
{
    if a.len() > 0 && b.len() > 0 && (a[0] as u32) == (b[0] as u32) {
        lemma_lex_total(a.drop_first(), b.drop_first());
    }
}

/// The order is transitive.
pub proof fn lemma_lex_trans(a: Seq<char>, b: Seq<char>, c: Seq<char>)
    requires
        lex_leq(a, b),
        lex_leq(b, c),
    ensures
        lex_leq(a, c),
    decreases a.len(),
{
    if a.len() > 0 && b.len() > 0 && c.len() > 0 && (a[0] as u32) == (b[0] as u32) && (b[0] as u32)
        == (c[0] as u32) {
        lemma_lex_trans(a.drop_first(), b.drop_first(), c.drop_first());
    }
}

/// A shared prefix of equal code points does not decide the order.
proof fn lemma_lex_skip(a: Seq<char>, b: Seq<char>, i: int)
    requires
        0 <= i <= a.len(),
        i <= b.len(),
        forall|t: int| 0 <= t < i ==> (a[t] as u32) == (b[t] as u32),
    ensures
        lex_leq(a, b) == lex_leq(a.skip(i), b.skip(i)),
    decreases i,
{
    if i > 0 {
        lemma_lex_skip(a, b, i - 1);
        assert(a.skip(i - 1)[0] == a[i - 1]);
        assert(b.skip(i - 1)[0] == b[i - 1]);
        assert(a.skip(i - 1).drop_first() =~= a.skip(i));
        assert(b.skip(i - 1).drop_first() =~= b.skip(i));
    } else {
        assert(a.skip(0) =~= a);
        assert(b.skip(0) =~= b);
    }
}

/// Whether `a` sorts at or before `b`.
pub fn str_leq(a: &String, b: &String) -> (r: bool)
    ensures
        r == lex_leq(a@, b@),
{
    let alen = a.as_str().unicode_len();
    let blen = b.as_str().unicode_len();
    let mut i: usize = 0;
    while i < alen && i < blen
        invariant
            alen == a@.len(),
            blen == b@.len(),
            i <= alen,
            i <= blen,
            forall|t: int| 0 <= t < i ==> (a@[t] as u32) == (b@[t] as u32),
        decreases alen - i,
    {
        let ca = a.as_str().get_char(i);
        let cb = b.as_str().get_char(i);
        if (ca as u32) < (cb as u32) {
            proof {
                lemma_lex_skip(a@, b@, i as int);
                assert(a@.skip(i as int)[0] == a@[i as int]);
                assert(b@.skip(i as int)[0] == b@[i as int]);
            }
            return true;
        }
        if (ca as u32) > (cb as u32) {
            proof {
                lemma_lex_skip(a@, b@, i as int);
                assert(a@.skip(i as int)[0] == a@[i as int]);
                assert(b@.skip(i as int)[0] == b@[i as int]);
            }
            return false;
        }
        i = i + 1;
    }
    proof {
        lemma_lex_skip(a@, b@, i as int);
        if i < blen {
            assert(a@.skip(i as int).len() == 0);
        } else {
            assert(b@.skip(i as int) =~= Seq::<char>::empty());
            if i < alen {
                assert(a@.skip(i as int).len() > 0);
            } else {
                assert(a@.skip(i as int).len() == 0);
            }
        }
    }
    alen <= blen
}

/// Inserting an element anywhere adds exactly it to the contents.
proof fn lemma_insert_to_multiset(s: Seq<String>, k: int, x: String)
    requires
        0 <= k <= s.len(),
    ensures
        s.insert(k, x).to_multiset() == s.to_multiset().insert(x),
{
    broadcast use vstd::seq_lib::lemma_multiset_commutative;
    broadcast use vstd::seq_lib::group_to_multiset_ensures;
    broadcast use vstd::multiset::group_multiset_axioms;

    assert(s.insert(k, x) =~= s.take(k) + (seq![x] + s.skip(k)));
    assert(s =~= s.take(k) + s.skip(k));
    assert(seq![x] =~= Seq::<String>::empty().push(x));
    assert(seq![x].to_multiset() =~= Multiset::<String>::empty().insert(x));
    assert(s.insert(k, x).to_multiset() =~= s.to_multiset().insert(x));
}

/// Sort display names for presentation. The result is a permutation
/// of the input, in lexicographic order.
pub fn sort_names(names: Vec<String>) -> (r: Vec<String>)
    ensures
        r@.to_multiset() == names@.to_multiset(),
        forall|x: int, y: int| 0 <= x < y < r@.len() ==> lex_leq(r@[x]@, r@[y]@),
{
    broadcast use vstd::seq_lib::group_to_multiset_ensures;
    broadcast use vstd::multiset::group_multiset_axioms;

    let mut rest = names;
    let mut out: Vec<String> = Vec::new();
    proof {
        assert(out@.to_multiset().add(rest@.to_multiset()) =~= names@.to_multiset());
    }
    while rest.len() > 0
        invariant
            out@.to_multiset().add(rest@.to_multiset()) == names@.to_multiset(),
            forall|x: int, y: int| 0 <= x < y < out@.len() ==> lex_leq(out@[x]@, out@[y]@),
        decreases rest@.len(),
    {
        broadcast use vstd::seq_lib::group_to_multiset_ensures;
        broadcast use vstd::multiset::group_multiset_axioms;

        let ghost prev_rest = rest@;
        let ghost prev_out = out@;
        let x = rest.remove(0);
        let mut k: usize = 0;
        while k < out.len() && str_leq(&out[k], &x)
            invariant
                k <= out@.len(),
                forall|t: int| 0 <= t < k ==> lex_leq(out@[t]@, x@),
            decreases out@.len() - k,
        {
            k = k + 1;
        }
        proof {
            lemma_insert_to_multiset(out@, k as int, x);
            assert(prev_rest.to_multiset() =~= rest@.to_multiset().insert(x)) by {
                assert(rest@ =~= prev_rest.remove(0));
                assert(prev_rest[0] == x);
            }
            assert(out@.insert(k as int, x).to_multiset().add(rest@.to_multiset())
                =~= names@.to_multiset());
        }
        out.insert(k, x);
        proof {
            assert forall|a: int, b: int| 0 <= a < b < out@.len() implies lex_leq(
                out@[a]@,
                out@[b]@,
            ) by {
                if b < k {
                    assert(out@[a] == prev_out[a]);
                    assert(out@[b] == prev_out[b]);
                } else if b == k {
                    assert(out@[a] == prev_out[a]);
                } else if a < k {
                    assert(out@[a] == prev_out[a]);
                    assert(out@[b] == prev_out[b - 1]);
                    assert(lex_leq(prev_out[a]@, prev_out[b - 1]@));
                } else if a == k {
                    assert(out@[b] == prev_out[b - 1]);
                    assert(k < prev_out.len());
                    assert(!lex_leq(prev_out[k as int]@, x@));
                    lemma_lex_total(prev_out[k as int]@, x@);
                    if b - 1 > k {
                        lemma_lex_trans(x@, prev_out[k as int]@, prev_out[b - 1]@);
                    }
                } else {
                    assert(out@[a] == prev_out[a - 1]);
                    assert(out@[b] == prev_out[b - 1]);
                }
            }
        }
    }
    proof {
        assert(rest@.to_multiset() =~= Multiset::<String>::empty());
        assert(out@.to_multiset() =~= names@.to_multiset());
    }
    out
}

} // verus!
