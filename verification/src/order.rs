//! The lexicographic order of labels and of category paths.
//!
//! A label is a string, ordered character by character in code point order.
//! A category path is a sequence of labels, ordered label by label.  Both are
//! instances of one generic lexicographic order, whose laws are proved once.

use vstd::prelude::*;

verus! {

// ---------------------------------------------------------------------------
// Generic lexicographic order
// ---------------------------------------------------------------------------

/// `before` is a strict total order: nothing comes before itself, of two
/// different items one comes first, and the relation is transitive.
pub open spec fn strict_total<A>(before: spec_fn(A, A) -> bool) -> bool {
    &&& forall|x: A| !#[trigger] before(x, x)
    &&& forall|x: A, y: A| x != y && !#[trigger] before(x, y) ==> before(y, x)
    &&& forall|x: A, y: A, z: A| #[trigger] before(x, y) && #[trigger] before(y, z) ==> before(x, z)
}

/// `a` and `b` agree on their first `k` items, and there `a` either ends while
/// `b` goes on, or holds an item that comes before the one in `b`.
pub open spec fn lex_decided_at<A>(
    a: Seq<A>,
    b: Seq<A>,
    before: spec_fn(A, A) -> bool,
    k: int,
) -> bool {
    &&& 0 <= k <= a.len()
    &&& k < b.len()
    &&& a.take(k) == b.take(k)
    &&& k < a.len() ==> before(a[k], b[k])
}

/// `a` comes strictly before `b` in the lexicographic order built on `before`.
pub open spec fn lex_before<A>(a: Seq<A>, b: Seq<A>, before: spec_fn(A, A) -> bool) -> bool {
    exists|k: int| lex_decided_at(a, b, before, k)
}

/// Nothing comes before itself.
pub proof fn lemma_lex_irreflexive<A>(a: Seq<A>, before: spec_fn(A, A) -> bool)
    requires
        strict_total(before),
    ensures
        !lex_before(a, a, before),
{
}

/// Sequences that agree on their first `k` items are equal or ordered one way
/// or the other.
proof fn lemma_lex_total_from<A>(a: Seq<A>, b: Seq<A>, before: spec_fn(A, A) -> bool, k: int)
    requires
        strict_total(before),
        0 <= k <= a.len(),
        k <= b.len(),
        a.take(k) == b.take(k),
    ensures
        a == b || lex_before(a, b, before) || lex_before(b, a, before),
    decreases a.len() - k,
{
    if k == a.len() {
        if k == b.len() {
            assert(a.take(k) == a);
            assert(b.take(k) == b);
        } else {
            assert(lex_decided_at(a, b, before, k));
        }
    } else if k == b.len() {
        assert(lex_decided_at(b, a, before, k));
    } else if a[k] == b[k] {
        assert(a.take(k + 1) == a.take(k).push(a[k]));
        assert(b.take(k + 1) == b.take(k).push(b[k]));
        lemma_lex_total_from(a, b, before, k + 1);
    } else if before(a[k], b[k]) {
        assert(lex_decided_at(a, b, before, k));
    } else {
        assert(before(b[k], a[k]));
        assert(lex_decided_at(b, a, before, k));
    }
}

/// Of two different sequences one comes before the other.
pub proof fn lemma_lex_total<A>(a: Seq<A>, b: Seq<A>, before: spec_fn(A, A) -> bool)
    requires
        strict_total(before),
    ensures
        a == b || lex_before(a, b, before) || lex_before(b, a, before),
{
    assert(a.take(0) == b.take(0));
    lemma_lex_total_from(a, b, before, 0);
}

/// The lexicographic order is transitive.
pub proof fn lemma_lex_transitive<A>(
    a: Seq<A>,
    b: Seq<A>,
    c: Seq<A>,
    before: spec_fn(A, A) -> bool,
)
    requires
        strict_total(before),
        lex_before(a, b, before),
        lex_before(b, c, before),
    ensures
        lex_before(a, c, before),
{
    let k1 = choose|k: int| lex_decided_at(a, b, before, k);
    let k2 = choose|k: int| lex_decided_at(b, c, before, k);
    let k = if k1 <= k2 {
        k1
    } else {
        k2
    };
    assert(a.take(k) == a.take(k1).take(k));
    assert(b.take(k) == b.take(k1).take(k));
    assert(b.take(k) == b.take(k2).take(k));
    assert(c.take(k) == c.take(k2).take(k));
    if k1 < k2 {
        assert(b[k1] == b.take(k2)[k1]);
        assert(c[k1] == c.take(k2)[k1]);
    } else if k2 < k1 {
        assert(a[k2] == a.take(k1)[k2]);
        assert(b[k2] == b.take(k1)[k2]);
    }
    assert(lex_decided_at(a, c, before, k));
}

/// The lexicographic order built on a strict total order is one itself.
pub proof fn lemma_lex_strict_total<A>(before: spec_fn(A, A) -> bool)
    requires
        strict_total(before),
    ensures
        strict_total(|a: Seq<A>, b: Seq<A>| lex_before(a, b, before)),
{
    let lifted = |a: Seq<A>, b: Seq<A>| lex_before(a, b, before);
    assert forall|x: Seq<A>, y: Seq<A>| x != y && !#[trigger] lifted(x, y) implies lifted(
        y,
        x,
    ) by {
        lemma_lex_total(x, y, before);
    }
    assert forall|x: Seq<A>, y: Seq<A>, z: Seq<A>| #[trigger]
        lifted(x, y) && #[trigger] lifted(y, z) implies lifted(x, z) by {
        lemma_lex_transitive(x, y, z, before);
    }
}

// ---------------------------------------------------------------------------
// Labels and category paths
// ---------------------------------------------------------------------------

/// Code point order on characters.
pub open spec fn char_before() -> spec_fn(char, char) -> bool {
    |x: char, y: char| (x as u32) < (y as u32)
}

/// `a` comes strictly before `b`: lexicographically, by code points.
pub open spec fn label_before(a: Seq<char>, b: Seq<char>) -> bool {
    lex_before(a, b, char_before())
}

/// The order of labels as a relation.
pub open spec fn label_order() -> spec_fn(Seq<char>, Seq<char>) -> bool {
    |a: Seq<char>, b: Seq<char>| label_before(a, b)
}

/// `a` comes strictly before `b`: lexicographically, label by label.
pub open spec fn path_before(a: Seq<Seq<char>>, b: Seq<Seq<char>>) -> bool {
    lex_before(a, b, label_order())
}

/// Every path in the list comes strictly before all that follow it.  Such a
/// list holds no path twice.
pub open spec fn strictly_ascending(paths: Seq<Seq<Seq<char>>>) -> bool {
    forall|i: int, j: int| 0 <= i < j < paths.len() ==> path_before(paths[i], paths[j])
}

/// Code point order is a strict total order on characters.
pub proof fn lemma_char_order()
    ensures
        strict_total(char_before()),
{
    let before = char_before();
    assert forall|x: char, y: char| x != y && !#[trigger] before(x, y) implies before(y, x) by {
        vstd::utf8::char_u32_cast(x, x as u32);
        vstd::utf8::char_u32_cast(y, y as u32);
    }
}

/// The order of labels is a strict total order.
pub proof fn lemma_label_order()
    ensures
        strict_total(label_order()),
{
    lemma_char_order();
    lemma_lex_strict_total(char_before());
    assert(label_order() == (|a: Seq<char>, b: Seq<char>| lex_before(a, b, char_before())));
}

/// Of two different labels, one comes before the other.
pub proof fn lemma_label_total(a: Seq<char>, b: Seq<char>)
    ensures
        a == b || label_before(a, b) || label_before(b, a),
{
    lemma_char_order();
    lemma_lex_total(a, b, char_before());
}

/// No path comes before itself.
pub proof fn lemma_path_irreflexive(a: Seq<Seq<char>>)
    ensures
        !path_before(a, a),
{
    lemma_label_order();
    lemma_lex_irreflexive(a, label_order());
}

/// Of two different paths, one comes before the other.
pub proof fn lemma_path_total(a: Seq<Seq<char>>, b: Seq<Seq<char>>)
    ensures
        a == b || path_before(a, b) || path_before(b, a),
{
    lemma_label_order();
    lemma_lex_total(a, b, label_order());
}

/// The order of paths is transitive.
pub proof fn lemma_path_transitive(a: Seq<Seq<char>>, b: Seq<Seq<char>>, c: Seq<Seq<char>>)
    requires
        path_before(a, b),
        path_before(b, c),
    ensures
        path_before(a, c),
{
    lemma_label_order();
    lemma_lex_transitive(a, b, c, label_order());
}

/// Compares two strings with `<` on `str`, which std documents as the
/// lexicographic order of their bytes, that is of their code points.
#[verifier::external_body]
fn label_precedes(a: &str, b: &str) -> (r: bool)
    ensures
        r == label_before(a@, b@),
{
    a < b
}

/// How one category path stands to another in the listing order.
#[derive(Clone, Copy, Debug, PartialEq, Eq)]
pub enum PathOrder {
    /// The first path comes earlier.
    Before,
    /// The two paths are the same.
    Same,
    /// The first path comes later.
    After,
}

/// Where `a` stands relative to `b` in the order of category paths.
pub fn order_paths(a: &[String], b: &[String]) -> (r: PathOrder)
    ensures
        r == PathOrder::Before <==> path_before(a.deep_view(), b.deep_view()),
        r == PathOrder::Same <==> a.deep_view() == b.deep_view(),
        r == PathOrder::After <==> path_before(b.deep_view(), a.deep_view()),
{
    let ghost av = a.deep_view();
    let ghost bv = b.deep_view();
    let mut i: usize = 0;
    let mut verdict = PathOrder::Same;
    let mut decided = false;
    while !decided && i < a.len() && i < b.len()
        invariant
            av == a.deep_view(),
            bv == b.deep_view(),
            i <= a.len(),
            i <= b.len(),
            av.take(i as int) == bv.take(i as int),
            !decided ==> verdict == PathOrder::Same,
            decided ==> verdict != PathOrder::Same && i < a.len() && i < b.len(),
            decided && verdict == PathOrder::Before ==> lex_decided_at(
                av,
                bv,
                label_order(),
                i as int,
            ),
            decided && verdict == PathOrder::After ==> lex_decided_at(
                bv,
                av,
                label_order(),
                i as int,
            ),
        decreases a.len() - i + (if decided { 0int } else { 1int }),
    {
        assert(av[i as int] == a[i as int]@);
        assert(bv[i as int] == b[i as int]@);
        if a[i] == b[i] {
            proof {
                assert(av.take(i + 1) == av.take(i as int).push(av[i as int]));
                assert(bv.take(i + 1) == bv.take(i as int).push(bv[i as int]));
            }
            i = i + 1;
        } else if label_precedes(a[i].as_str(), b[i].as_str()) {
            verdict = PathOrder::Before;
            decided = true;
        } else {
            proof {
                lemma_label_total(av[i as int], bv[i as int]);
            }
            verdict = PathOrder::After;
            decided = true;
        }
    }
    if !decided {
        if a.len() < b.len() {
            assert(lex_decided_at(av, bv, label_order(), i as int));
            verdict = PathOrder::Before;
        } else if b.len() < a.len() {
            assert(lex_decided_at(bv, av, label_order(), i as int));
            verdict = PathOrder::After;
        } else {
            assert(av.take(i as int) == av);
            assert(bv.take(i as int) == bv);
        }
    }
    proof {
        lemma_path_irreflexive(av);
        lemma_path_total(av, bv);
        if path_before(av, bv) && path_before(bv, av) {
            lemma_path_transitive(av, bv, av);
        }
    }
    verdict
}

} // verus!
