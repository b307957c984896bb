//! Character-sequence helpers shared by the resolver and the renderer:
//! lexicographic ordering of strings, substring containment, and
//! concatenation of text pieces.

use vstd::prelude::*;

verus! {

/// Lexicographic "less than or equal" over character sequences, comparing
/// characters by their Unicode scalar values. This is the order in which
/// triple lists and platform labels are sorted for stable output.
pub open spec fn lex_leq(a: Seq<char>, b: Seq<char>) -> bool
    decreases a.len(),
{
    if a.len() == 0 {
        true
    } else if b.len() == 0 {
        false
    } else if a[0] == b[0] {
        lex_leq(a.drop_first(), b.drop_first())
    } else {
        (a[0] as int) < (b[0] as int)
    }
}

/// The ordering as a closure, in the shape `Seq::sort_by` expects.
pub open spec fn lex_leq_pair() -> spec_fn(Seq<char>, Seq<char>) -> bool {
    |a: Seq<char>, b: Seq<char>| lex_leq(a, b)
}

pub proof fn lemma_lex_leq_total(a: Seq<char>, b: Seq<char>)
    ensures
        lex_leq(a, b) || lex_leq(b, a),
    decreases a.len(),
{
    if a.len() != 0 && b.len() != 0 && a[0] == b[0] {
        lemma_lex_leq_total(a.drop_first(), b.drop_first());
    }
}

pub proof fn lemma_lex_leq_antisymmetric(a: Seq<char>, b: Seq<char>)
    requires
        lex_leq(a, b),
        lex_leq(b, a),
    ensures
        a == b,
    decreases a.len(),
{
    if a.len() == 0 {
        assert(b.len() == 0);
        assert(a =~= b);
    } else {
        assert(b.len() != 0);
        assert(a[0] == b[0]);
        lemma_lex_leq_antisymmetric(a.drop_first(), b.drop_first());
        assert(a.len() == b.len());
        assert forall|i: int| 0 <= i < a.len() implies a[i] == b[i] by {
            if i > 0 {
                assert(a.drop_first()[i - 1] == b.drop_first()[i - 1]);
            }
        }
        assert(a =~= b);
    }
}

pub proof fn lemma_lex_leq_transitive(a: Seq<char>, b: Seq<char>, c: Seq<char>)
    requires
        lex_leq(a, b),
        lex_leq(b, c),
    ensures
        lex_leq(a, c),
    decreases a.len(),
{
    if a.len() != 0 && b.len() != 0 && c.len() != 0 {
        if a[0] == b[0] && b[0] == c[0] {
            lemma_lex_leq_transitive(a.drop_first(), b.drop_first(), c.drop_first());
        }
    }
}

/// `lex_leq_pair` is a total ordering, as `Seq::sort_by` requires.
pub proof fn lemma_lex_leq_total_ordering()
    ensures
        vstd::relations::total_ordering(lex_leq_pair()),
{
    let leq = lex_leq_pair();
    assert forall|a: Seq<char>| #[trigger] leq(a, a) by {
        lemma_lex_leq_total(a, a);
    }
    assert forall|a: Seq<char>, b: Seq<char>| #[trigger] leq(a, b) && #[trigger] leq(b, a)
        implies a == b by {
        lemma_lex_leq_antisymmetric(a, b);
    }
    assert forall|a: Seq<char>, b: Seq<char>, c: Seq<char>|
        #[trigger] leq(a, b) && #[trigger] leq(b, c) implies leq(a, c) by {
        lemma_lex_leq_transitive(a, b, c);
    }
    assert forall|a: Seq<char>, b: Seq<char>| #[trigger] leq(a, b) || #[trigger] leq(b, a) by {
        lemma_lex_leq_total(a, b);
    }
}

/// Executable lexicographic comparison matching `lex_leq` on the views.
pub fn str_leq(a: &str, b: &str) -> (r: bool)
    ensures
        r == lex_leq(a@, b@),
{
    let a_len: usize = a.unicode_len();
    let b_len: usize = b.unicode_len();
    let mut i: usize = 0;
    proof {
        assert(a@.skip(0) =~= a@);
        assert(b@.skip(0) =~= b@);
    }
    loop
        invariant
            i <= a_len,
            i <= b_len,
            a_len == a@.len(),
            b_len == b@.len(),
            lex_leq(a@, b@) == lex_leq(a@.skip(i as int), b@.skip(i as int)),
        decreases a_len - i,
    {
        if i >= a_len {
            assert(a@.skip(i as int).len() == 0);
            return true;
        }
        if i >= b_len {
            assert(b@.skip(i as int).len() == 0);
            assert(a@.skip(i as int).len() != 0);
            return false;
        }
        let ca = a.get_char(i);
        let cb = b.get_char(i);
        assert(a@.skip(i as int)[0] == a@[i as int]);
        assert(b@.skip(i as int)[0] == b@[i as int]);
        if ca != cb {
            return (ca as u32) < (cb as u32);
        }
        proof {
            assert(a@.skip(i as int).drop_first() =~= a@.skip(i + 1));
            assert(b@.skip(i as int).drop_first() =~= b@.skip(i + 1));
        }
        i = i + 1;
    }
}

/// Executable string equality on views.
pub fn str_eq(a: &str, b: &str) -> (r: bool)
    ensures
        r == (a@ == b@),
{
    let a_len: usize = a.unicode_len();
    let b_len: usize = b.unicode_len();
    if a_len != b_len {
        return false;
    }
    let mut i: usize = 0;
    while i < a_len
        invariant
            i <= a_len,
            a_len == a@.len(),
            b_len == b@.len(),
            a_len == b_len,
            forall|j: int| 0 <= j < i ==> a@[j] == b@[j],
        decreases a_len - i,
    {
        let ca = a.get_char(i);
        let cb = b.get_char(i);
        if ca != cb {
            assert(a@[i as int] != b@[i as int]);
            return false;
        }
        i = i + 1;
    }
    assert(a@ =~= b@);
    true
}

/// `needle` occurs contiguously somewhere in `hay`.
pub open spec fn is_substring(needle: Seq<char>, hay: Seq<char>) -> bool {
    exists|i: int|
        0 <= i && i + needle.len() <= hay.len() && #[trigger] hay.subrange(i, i + needle.len())
            == needle
}

pub proof fn lemma_substring_here(a: Seq<char>, needle: Seq<char>, b: Seq<char>)
    ensures
        is_substring(needle, a + needle + b),
{
    let hay = a + needle + b;
    let i = a.len() as int;
    assert(hay.subrange(i, i + needle.len()) =~= needle);
}

pub proof fn lemma_substring_extend_right(needle: Seq<char>, hay: Seq<char>, b: Seq<char>)
    requires
        is_substring(needle, hay),
    ensures
        is_substring(needle, hay + b),
{
    let i = choose|i: int|
        0 <= i && i + needle.len() <= hay.len() && #[trigger] hay.subrange(i, i + needle.len())
            == needle;
    assert((hay + b).subrange(i, i + needle.len()) =~= hay.subrange(i, i + needle.len()));
}

pub proof fn lemma_substring_extend_left(needle: Seq<char>, a: Seq<char>, hay: Seq<char>)
    requires
        is_substring(needle, hay),
    ensures
        is_substring(needle, a + hay),
{
    let i = choose|i: int|
        0 <= i && i + needle.len() <= hay.len() && #[trigger] hay.subrange(i, i + needle.len())
            == needle;
    assert((a + hay).subrange(a.len() + i, a.len() + i + needle.len()) =~= hay.subrange(
        i,
        i + needle.len(),
    ));
}

/// `hay` begins with `needle`.
pub open spec fn starts_with(needle: Seq<char>, hay: Seq<char>) -> bool {
    needle.len() <= hay.len() && hay.subrange(0, needle.len() as int) == needle
}

pub proof fn lemma_starts_with_concat(needle: Seq<char>, rest: Seq<char>)
    ensures
        starts_with(needle, needle + rest),
{
    assert((needle + rest).subrange(0, needle.len() as int) =~= needle);
}

pub proof fn lemma_starts_with_is_substring(needle: Seq<char>, hay: Seq<char>)
    requires
        starts_with(needle, hay),
    ensures
        is_substring(needle, hay),
{
    let i: int = 0;
    assert(hay.subrange(i, i + needle.len()) == needle);
}

/// Concatenation of a list of text pieces, in order.
pub open spec fn concat_texts(pieces: Seq<Seq<char>>) -> Seq<char>
    decreases pieces.len(),
{
    if pieces.len() == 0 {
        Seq::<char>::empty()
    } else {
        concat_texts(pieces.drop_last()) + pieces.last()
    }
}

pub proof fn lemma_concat_texts_elem(pieces: Seq<Seq<char>>, k: int)
    requires
        0 <= k < pieces.len(),
    ensures
        is_substring(pieces[k], concat_texts(pieces)),
    decreases pieces.len(),
{
    if k == pieces.len() - 1 {
        lemma_substring_here(concat_texts(pieces.drop_last()), pieces[k], Seq::empty());
        assert(concat_texts(pieces.drop_last()) + pieces[k] + Seq::<char>::empty()
            =~= concat_texts(pieces));
    } else {
        lemma_concat_texts_elem(pieces.drop_last(), k);
        lemma_substring_extend_right(pieces[k], concat_texts(pieces.drop_last()), pieces.last());
    }
}

/// The view of every string in a list, in order.
pub open spec fn views_of(strs: Seq<String>) -> Seq<Seq<char>> {
    strs.map_values(|s: String| s@)
}

/// Whether some string in `v` reads `w`.
pub fn contains_str(v: &Vec<String>, w: &str) -> (r: bool)
    ensures
        r == views_of(v@).contains(w@),
{
    let mut i: usize = 0;
    while i < v.len()
        invariant
            i <= v@.len(),
            forall|j: int| 0 <= j < i ==> views_of(v@)[j] != w@,
        decreases v@.len() - i,
    {
        if str_eq(v[i].as_str(), w) {
            assert(views_of(v@)[i as int] == w@);
            return true;
        }
        i = i + 1;
    }
    false
}

/// Sorts a list of strings into lexicographic order. The result is exactly
/// the `sort_by` of the input views under `lex_leq`.
pub fn sort_strings(input: Vec<String>) -> (r: Vec<String>)
    ensures
        views_of(r@) == views_of(input@).sort_by(lex_leq_pair()),
{
    broadcast use vstd::seq_lib::group_to_multiset_ensures;

    let ghost leq = lex_leq_pair();
    let ghost orig = views_of(input@);
    let mut rest = input;
    let mut out: Vec<String> = Vec::new();
    proof {
        assert(views_of(out@) =~= Seq::<Seq<char>>::empty());
        assert(views_of(out@).to_multiset().add(views_of(rest@).to_multiset()) =~= orig.to_multiset());
    }
    while rest.len() > 0
        invariant
            vstd::relations::sorted_by(views_of(out@), leq),
            views_of(out@).to_multiset().add(views_of(rest@).to_multiset()) =~= orig.to_multiset(),
            forall|a: int, b: int|
                0 <= a < views_of(out@).len() && 0 <= b < views_of(rest@).len() ==> #[trigger] leq(
                    views_of(out@)[a],
                    views_of(rest@)[b],
                ),
            leq == lex_leq_pair(),
            orig == views_of(input@),
        decreases rest@.len(),
    {
        let mut m: usize = 0;
        let mut k: usize = 1;
        proof {
            lemma_lex_leq_total(views_of(rest@)[0], views_of(rest@)[0]);
        }
        while k < rest.len()
            invariant
                m < k <= rest@.len() || (k <= rest@.len() && m == 0),
                m < rest@.len(),
                rest@.len() > 0,
                forall|j: int| 0 <= j < k ==> #[trigger] lex_leq(views_of(rest@)[m as int], views_of(rest@)[j]),
            decreases rest@.len() - k,
        {
            if str_leq(rest[k].as_str(), rest[m].as_str()) {
                proof {
                    assert forall|j: int| 0 <= j < k implies #[trigger] lex_leq(
                        views_of(rest@)[k as int],
                        views_of(rest@)[j],
                    ) by {
                        lemma_lex_leq_transitive(
                            views_of(rest@)[k as int],
                            views_of(rest@)[m as int],
                            views_of(rest@)[j],
                        );
                    }
                }
                m = k;
                proof {
                    lemma_lex_leq_total(views_of(rest@)[k as int], views_of(rest@)[k as int]);
                }
            } else {
                proof {
                    lemma_lex_leq_total(views_of(rest@)[k as int], views_of(rest@)[m as int]);
                }
            }
            k = k + 1;
        }
        let ghost rest_before = views_of(rest@);
        let x = rest.remove(m);
        proof {
            assert(views_of(rest@) =~= rest_before.remove(m as int));
            assert(x@ == rest_before[m as int]);
            rest_before.to_multiset_ensures();
            assert(rest_before.remove(m as int).to_multiset() =~= rest_before.to_multiset().remove(
                rest_before[m as int],
            ));
        }
        let ghost out_before = views_of(out@);
        out.push(x);
        proof {
            assert(views_of(out@) =~= out_before.push(x@));
            out_before.to_multiset_ensures();
            assert(out_before.push(x@).to_multiset() =~= out_before.to_multiset().insert(x@));
            assert(views_of(out@).to_multiset().add(views_of(rest@).to_multiset())
                =~= orig.to_multiset());
            assert forall|a: int, b: int|
                0 <= a < views_of(out@).len() && 0 <= b < views_of(rest@).len() implies #[trigger] leq(
                views_of(out@)[a],
                views_of(rest@)[b],
            ) by {
                let bb: int = if b < m { b } else { b + 1 };
                assert(views_of(rest@)[b] == rest_before[bb]);
                if a < out_before.len() {
                    assert(leq(out_before[a], rest_before[bb]));
                } else {
                    assert(views_of(out@)[a] == x@);
                    assert(lex_leq(rest_before[m as int], rest_before[bb]));
                }
            }
            assert forall|a: int, b: int|
                0 <= a < b < views_of(out@).len() implies #[trigger] leq(
                views_of(out@)[a],
                views_of(out@)[b],
            ) by {
                if b == out_before.len() {
                    assert(views_of(out@)[b] == x@);
                    assert(leq(out_before[a], rest_before[m as int]));
                }
            }
        }
    }
    proof {
        lemma_lex_leq_total_ordering();
        orig.lemma_sort_by_ensures(leq);
        assert(views_of(rest@) =~= Seq::<Seq<char>>::empty());
        assert(views_of(out@).to_multiset() =~= orig.to_multiset());
        vstd::seq_lib::lemma_sorted_unique(views_of(out@), orig.sort_by(leq), leq);
    }
    out
}

} // verus!
