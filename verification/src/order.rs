//! Lexicographic order on text and the newest-first ordering of directory
//! listings that the SDK and JDK locators search through.

use vstd::prelude::*;

use crate::text::chars_of;

verus! {

broadcast use vstd::seq_lib::group_to_multiset_ensures;

/// `a` sorts strictly before `b`: code point by code point, a proper prefix
/// first. This is the order of `str`, and of UTF-8 file names as `OsStr`.
pub open spec fn lex_lt(a: Seq<char>, b: Seq<char>) -> bool
    decreases a.len(),
{
    if a.len() == 0 {
        b.len() > 0
    } else if b.len() == 0 {
        false
    } else if a[0] != b[0] {
        (a[0] as u32) < (b[0] as u32)
    } else {
        lex_lt(a.drop_first(), b.drop_first())
    }
}

pub proof fn lemma_lex_irreflexive(a: Seq<char>)
    ensures
        !lex_lt(a, a),
    decreases a.len(),
{
    if a.len() > 0 {
        lemma_lex_irreflexive(a.drop_first());
    }
}

pub proof fn lemma_lex_transitive(a: Seq<char>, b: Seq<char>, c: Seq<char>)
    requires
        lex_lt(a, b),
        lex_lt(b, c),
    ensures
        lex_lt(a, c),
    decreases a.len(),
{
    if a.len() > 0 && b.len() > 0 && c.len() > 0 && a[0] == b[0] && b[0] == c[0] {
        lemma_lex_transitive(a.drop_first(), b.drop_first(), c.drop_first());
    }
}

pub proof fn lemma_lex_total(a: Seq<char>, b: Seq<char>)
    ensures
        a == b || lex_lt(a, b) || lex_lt(b, a),
    decreases a.len(),
{
    if a.len() > 0 && b.len() > 0 {
        if a[0] == b[0] {
            lemma_lex_total(a.drop_first(), b.drop_first());
            if a.drop_first() == b.drop_first() {
                assert(a =~= seq![a[0]] + a.drop_first());
                assert(b =~= seq![b[0]] + b.drop_first());
            }
        } else {
            vstd::utf8::char_u32_cast(a[0], a[0] as u32);
            vstd::utf8::char_u32_cast(b[0], b[0] as u32);
        }
    } else if a.len() == 0 && b.len() == 0 {
        assert(a =~= b);
    }
}

pub proof fn lemma_lex_asymmetric(a: Seq<char>, b: Seq<char>)
    requires
        lex_lt(a, b),
    ensures
        !lex_lt(b, a),
{
    if lex_lt(b, a) {
        lemma_lex_transitive(a, b, a);
        lemma_lex_irreflexive(a);
    }
}

/// `a < b` for strings.
pub fn lex_less(a: &str, b: &str) -> (r: bool)
    ensures
        r == lex_lt(a@, b@),
{
    let x = chars_of(a);
    let y = chars_of(b);
    let mut i: usize = 0;
    assert(x@.skip(0) =~= x@);
    assert(y@.skip(0) =~= y@);
    while i < x.len() && i < y.len() && x[i] == y[i]
        invariant
            i <= x@.len(),
            i <= y@.len(),
            lex_lt(a@, b@) == lex_lt(x@.skip(i as int), y@.skip(i as int)),
            x@ == a@,
            y@ == b@,
        decreases x@.len() - i,
    {
        assert(x@.skip(i as int).drop_first() =~= x@.skip(i + 1));
        assert(y@.skip(i as int).drop_first() =~= y@.skip(i + 1));
        i = i + 1;
    }
    let ghost xs = x@.skip(i as int);
    let ghost ys = y@.skip(i as int);
    if i == x.len() {
        assert(xs.len() == 0);
        i < y.len()
    } else if i == y.len() {
        assert(ys.len() == 0);
        false
    } else {
        assert(xs[0] == x@[i as int] && ys[0] == y@[i as int]);
        (x[i] as u32) < (y[i] as u32)
    }
}

/// No element sorts strictly before a later one: newest (greatest) first.
pub open spec fn sorted_desc(s: Seq<Seq<char>>) -> bool {
    forall|i: int, j: int| 0 <= i < j < s.len() ==> !lex_lt(#[trigger] s[i], #[trigger] s[j])
}

/// `r` holds exactly the elements of `s`, greatest first.
pub open spec fn is_desc_arrangement(r: Seq<Seq<char>>, s: Seq<Seq<char>>) -> bool {
    r.to_multiset() == s.to_multiset() && sorted_desc(r)
}

/// The elements of `s`, greatest first. There is exactly one such
/// arrangement (see `lemma_desc_arrangement_unique`).
pub open spec fn newest_first(s: Seq<Seq<char>>) -> Seq<Seq<char>> {
    choose|r: Seq<Seq<char>>| is_desc_arrangement(r, s)
}

/// Two descending arrangements of the same elements are the same sequence.
pub proof fn lemma_desc_arrangement_unique(a: Seq<Seq<char>>, b: Seq<Seq<char>>)
    requires
        a.to_multiset() == b.to_multiset(),
        sorted_desc(a),
        sorted_desc(b),
    ensures
        a == b,
    decreases a.len(),
{
    assert(a.len() == a.to_multiset().len());
    assert(b.len() == b.to_multiset().len());
    if a.len() == 0 {
        assert(a =~= b);
    } else {
        let x = a[0];
        let y = b[0];
        // each first element is in the other sequence, so neither sorts before the other
        assert(a.to_multiset().count(x) > 0);
        assert(b.contains(x));
        let j = choose|j: int| 0 <= j < b.len() && b[j] == x;
        if j > 0 {
            assert(!lex_lt(b[0], b[j]));
        }
        assert(!lex_lt(y, x)) by {
            if j == 0 {
                lemma_lex_irreflexive(x);
            }
        }
        assert(b.to_multiset().count(y) > 0);
        assert(a.contains(y));
        let k = choose|k: int| 0 <= k < a.len() && a[k] == y;
        if k > 0 {
            assert(!lex_lt(a[0], a[k]));
        }
        assert(!lex_lt(x, y)) by {
            if k == 0 {
                lemma_lex_irreflexive(x);
            }
        }
        lemma_lex_total(x, y);
        assert(x == y);
        assert(a.remove(0) =~= a.drop_first());
        assert(b.remove(0) =~= b.drop_first());
        assert(a.drop_first().to_multiset() =~= b.drop_first().to_multiset());
        assert(sorted_desc(a.drop_first())) by {
            assert forall|i: int, l: int| 0 <= i < l < a.drop_first().len() implies !lex_lt(
                #[trigger] a.drop_first()[i],
                #[trigger] a.drop_first()[l],
            ) by {
                assert(a.drop_first()[i] == a[i + 1] && a.drop_first()[l] == a[l + 1]);
            }
        }
        assert(sorted_desc(b.drop_first())) by {
            assert forall|i: int, l: int| 0 <= i < l < b.drop_first().len() implies !lex_lt(
                #[trigger] b.drop_first()[i],
                #[trigger] b.drop_first()[l],
            ) by {
                assert(b.drop_first()[i] == b[i + 1] && b.drop_first()[l] == b[l + 1]);
            }
        }
        lemma_desc_arrangement_unique(a.drop_first(), b.drop_first());
        assert(a =~= seq![x] + a.drop_first());
        assert(b =~= seq![y] + b.drop_first());
    }
}

/// `names` sorted greatest first (the listing `sort()`ed, then walked with
/// `rev()`): the same names, each as often, in descending order.
pub fn sort_desc(names: &Vec<String>) -> (r: Vec<String>)
    ensures
        r.deep_view().to_multiset() == names.deep_view().to_multiset(),
        sorted_desc(r.deep_view()),
        r.deep_view() == newest_first(names.deep_view()),
{
    let mut r: Vec<String> = Vec::new();
    let n = names.len();
    let mut i: usize = 0;
    while i < n
        invariant
            n == names@.len(),
            i <= n,
            r.deep_view().to_multiset() == names.deep_view().take(i as int).to_multiset(),
            sorted_desc(r.deep_view()),
        decreases n - i,
    {
        let x = names[i].clone();
        let ghost xv = names.deep_view()[i as int];
        assert(x@ == xv);
        // first position whose element sorts strictly before x
        let mut pos: usize = 0;
        while pos < r.len() && !lex_less(r[pos].as_str(), x.as_str())
            invariant
                pos <= r@.len(),
                x@ == xv,
                forall|k: int| 0 <= k < pos ==> !lex_lt(#[trigger] r.deep_view()[k], xv),
            decreases r@.len() - pos,
        {
            assert(r.deep_view()[pos as int] == r@[pos as int]@);
            pos = pos + 1;
        }
        let ghost old_r = r.deep_view();
        proof {
            if pos < old_r.len() {
                assert(old_r[pos as int] == r@[pos as int]@);
                assert(lex_lt(old_r[pos as int], xv));
            }
        }
        r.insert(pos, x);
        let ghost new_r = r.deep_view();
        assert(new_r =~= old_r.insert(pos as int, xv));
        proof {
            // the multiset gains exactly x
            assert(new_r.remove(pos as int) =~= old_r);
            assert(new_r.to_multiset().remove(xv) =~= old_r.to_multiset());
            assert(new_r.to_multiset().count(xv) > 0);
            assert(new_r.to_multiset() =~= old_r.to_multiset().insert(xv));
            assert(names.deep_view().take(i + 1) =~= names.deep_view().take(i as int).push(xv));
            // order is kept
            assert forall|a: int, b: int| 0 <= a < b < new_r.len() implies !lex_lt(
                #[trigger] new_r[a],
                #[trigger] new_r[b],
            ) by {
                if a < pos && b < pos {
                    assert(new_r[a] == old_r[a] && new_r[b] == old_r[b]);
                } else if a < pos && b == pos {
                    assert(new_r[a] == old_r[a]);
                } else if a < pos && b > pos {
                    assert(new_r[a] == old_r[a] && new_r[b] == old_r[b - 1]);
                    if lex_lt(old_r[a], old_r[b - 1]) {
                        if b - 1 == a {
                            lemma_lex_irreflexive(old_r[a]);
                        }
                    }
                } else if a == pos {
                    // b > pos: old_r[b - 1] is at or after old_r[pos], which is below x
                    assert(new_r[b] == old_r[b - 1]);
                    assert(lex_lt(old_r[pos as int], xv));
                    if b - 1 > pos {
                        lemma_lex_total(old_r[pos as int], old_r[b - 1]);
                        if lex_lt(old_r[pos as int], old_r[b - 1]) {
                            assert(!lex_lt(old_r[pos as int], old_r[b - 1]));
                        }
                        if old_r[b - 1] != old_r[pos as int] {
                            lemma_lex_transitive(old_r[b - 1], old_r[pos as int], xv);
                        }
                    }
                    lemma_lex_asymmetric(old_r[b - 1], xv);
                } else {
                    assert(new_r[a] == old_r[a - 1] && new_r[b] == old_r[b - 1]);
                }
            }
        }
        i = i + 1;
    }
    assert(names.deep_view().take(n as int) =~= names.deep_view());
    proof {
        let c = newest_first(names.deep_view());
        assert(is_desc_arrangement(r.deep_view(), names.deep_view()));
        assert(is_desc_arrangement(c, names.deep_view()));
        lemma_desc_arrangement_unique(r.deep_view(), c);
    }
    r
}

} // verus!
