//! Lexicographic order of folder names, and sorting by it.
use vstd::prelude::*;
use vstd::seq_lib::*;
use vstd::string::*;
use vstd::multiset::Multiset;

verus! {

/// `a` comes strictly before `b`, comparing characters by code point.
pub open spec fn name_lt(a: Seq<char>, b: Seq<char>) -> bool
    decreases a.len(),
{
    if a.len() == 0 {
        b.len() > 0
    } else if b.len() == 0 {
        false
    } else if a[0] != b[0] {
        a[0] < b[0]
    } else {
        name_lt(a.drop_first(), b.drop_first())
    }
}

pub open spec fn name_le(a: Seq<char>, b: Seq<char>) -> bool {
    !name_lt(b, a)
}

pub open spec fn views(s: Seq<String>) -> Seq<Seq<char>> {
    s.map_values(|x: String| x@)
}

/// Every name comes at or after every earlier one.
pub open spec fn sorted_names(s: Seq<Seq<char>>) -> bool {
    forall|i: int, j: int| 0 <= i < j < s.len() ==> name_le(#[trigger] s[i], #[trigger] s[j])
}

pub proof fn lemma_name_lt_irreflexive(a: Seq<char>)
    ensures
        !name_lt(a, a),
    decreases a.len(),
{
    if a.len() > 0 {
        lemma_name_lt_irreflexive(a.drop_first());
    }
}

/// Two names compare one way or the other, unless they are equal.
pub proof fn lemma_name_lt_total(a: Seq<char>, b: Seq<char>)
    ensures
        a == b || name_lt(a, b) || name_lt(b, a),
        !(name_lt(a, b) && name_lt(b, a)),
        !name_lt(a, a),
    decreases a.len(),
{
    lemma_name_lt_irreflexive(a);
    if a.len() == 0 && b.len() == 0 {
        assert(a =~= b);
    } else if a.len() > 0 && b.len() > 0 {
        if a[0] == b[0] {
            lemma_name_lt_total(a.drop_first(), b.drop_first());
            if a.drop_first() == b.drop_first() {
                assert(a =~= seq![a[0]] + a.drop_first());
                assert(b =~= seq![b[0]] + b.drop_first());
            }
        } else {
            assert(a[0] < b[0] || b[0] < a[0]);
        }
    }
}

pub proof fn lemma_name_lt_transitive(a: Seq<char>, b: Seq<char>, c: Seq<char>)
    requires
        name_lt(a, b),
        name_lt(b, c),
    ensures
        name_lt(a, c),
    decreases a.len(),
{
    if a.len() > 0 && b.len() > 0 && c.len() > 0 && a[0] == b[0] && b[0] == c[0] {
        lemma_name_lt_transitive(a.drop_first(), b.drop_first(), c.drop_first());
    }
}

pub proof fn lemma_name_le_transitive(a: Seq<char>, b: Seq<char>, c: Seq<char>)
    requires
        name_le(a, b),
        name_le(b, c),
    ensures
        name_le(a, c),
{
    lemma_name_lt_total(a, b);
    lemma_name_lt_total(b, c);
    if name_lt(c, a) {
        if name_lt(a, b) {
            lemma_name_lt_transitive(c, a, b);
        }
    }
}

/// Whether `a` comes strictly before `b`.
pub fn name_less(a: &str, b: &str) -> (r: bool)
    ensures
        r == name_lt(a@, b@),
{
    let la = a.unicode_len();
    let lb = b.unicode_len();
    let mut i: usize = 0;
    assert(a@.subrange(0, la as int) =~= a@);
    assert(b@.subrange(0, lb as int) =~= b@);
    while i < la && i < lb
        invariant
            la == a@.len(),
            lb == b@.len(),
            i <= la,
            i <= lb,
            name_lt(a@, b@) == name_lt(
                a@.subrange(i as int, la as int),
                b@.subrange(i as int, lb as int),
            ),
        decreases la - i,
    {
        let ca = a.get_char(i);
        let cb = b.get_char(i);
        let ghost sa = a@.subrange(i as int, la as int);
        let ghost sb = b@.subrange(i as int, lb as int);
        if ca != cb {
            return ca < cb;
        }
        assert(sa.drop_first() =~= a@.subrange(i + 1, la as int));
        assert(sb.drop_first() =~= b@.subrange(i + 1, lb as int));
        i = i + 1;
    }
    i < lb
}

/// Sorts names into lexicographic order.
pub fn sort_names(v: Vec<String>) -> (r: Vec<String>)
    ensures
        sorted_names(views(r@)),
        views(r@).to_multiset() == views(v@).to_multiset(),
{
    let mut rest = v;
    let mut out: Vec<String> = Vec::new();
    proof {
        broadcast use group_to_multiset_ensures;
        assert(views(out@).to_multiset().add(views(rest@).to_multiset()) =~= views(
            v@,
        ).to_multiset());
    }
    while rest.len() > 0
        invariant
            sorted_names(views(out@)),
            views(out@).to_multiset().add(views(rest@).to_multiset()) == views(v@).to_multiset(),
        decreases rest.len(),
    {
        proof {
            broadcast use group_to_multiset_ensures;
            let last = rest@.last();
            assert(views(rest@) =~= views(rest@.drop_last()).push(last@));
        }
        let x = match rest.pop() {
            Some(x) => x,
            None => { return out; },
        };
        let mut p: usize = 0;
        while p < out.len() && name_less(out[p].as_str(), x.as_str())
            invariant
                p <= out.len(),
                forall|k: int| 0 <= k < p ==> name_lt(#[trigger] out@[k]@, x@),
            decreases out.len() - p,
        {
            p = p + 1;
        }
        proof {
            let o = views(out@);
            if p < out.len() {
                assert forall|k: int| p <= k < o.len() implies name_le(x@, #[trigger] o[k]) by {
                    if k > p {
                        assert(name_le(o[p as int], o[k]));
                        lemma_name_le_transitive(x@, o[p as int], o[k]);
                    }
                }
            }
            assert forall|k: int| 0 <= k < p implies name_le(#[trigger] o[k], x@) by {
                lemma_name_lt_total(o[k], x@);
            }
        }
        let ghost ov = views(out@);
        out.insert(p, x);
        proof {
            broadcast use group_to_multiset_ensures;
            let o = views(out@);
            assert(o =~= ov.insert(p as int, x@));
            to_multiset_insert(ov, p as int, x@);
            assert forall|i: int, j: int| 0 <= i < j < o.len() implies name_le(
                #[trigger] o[i],
                #[trigger] o[j],
            ) by {
                if i < p && j > p {
                    assert(o[i] == ov[i]);
                    assert(o[j] == ov[j - 1]);
                    lemma_name_le_transitive(o[i], x@, o[j]);
                } else if i < p && j < p {
                    assert(o[i] == ov[i] && o[j] == ov[j]);
                } else if i > p {
                    assert(o[i] == ov[i - 1] && o[j] == ov[j - 1]);
                } else if i == p {
                    assert(o[j] == ov[j - 1]);
                } else {
                    assert(o[i] == ov[i]);
                }
            }
        }
    }
    proof {
        broadcast use group_to_multiset_ensures;
        assert(views(rest@).to_multiset() =~= Multiset::empty());
        assert(views(out@).to_multiset().add(Multiset::empty()) =~= views(out@).to_multiset());
    }
    out
}

} // verus!
