//! Ranking of scored documents: a verified insertion sort, descending by
//! score, with ties broken by insertion order.
//!
//! A scored entry is a pair `(score, position)`; positions are distinct, so
//! "descending by score, ascending by position" is a strict total order and
//! the sorted sequence is unique. The executable sort is proved equal to the
//! spec-level insertion sort [`sort_pairs`], which contracts elsewhere can
//! unfold.

use vstd::prelude::*;

verus! {

broadcast use vstd::std_specs::vec::group_vec_axioms;

/// Strict order: higher score first; among equal scores, lower position
/// first.
pub open spec fn pair_before(a: (i64, usize), b: (i64, usize)) -> bool {
    a.0 > b.0 || (a.0 == b.0 && a.1 < b.1)
}

/// Sorted: every element strictly precedes every later one.
pub open spec fn pairs_sorted(s: Seq<(i64, usize)>) -> bool {
    forall|i: int, j: int| 0 <= i < j < s.len() ==> pair_before(s[i], s[j])
}

/// Inserts `x` before the first element it precedes.
pub open spec fn insert_pair(x: (i64, usize), s: Seq<(i64, usize)>) -> Seq<(i64, usize)>
    decreases s.len(),
{
    if s.len() == 0 {
        seq![x]
    } else if pair_before(x, s[0]) {
        seq![x] + s
    } else {
        seq![s[0]] + insert_pair(x, s.skip(1))
    }
}

/// Insertion sort.
pub open spec fn sort_pairs(s: Seq<(i64, usize)>) -> Seq<(i64, usize)>
    decreases s.len(),
{
    if s.len() == 0 {
        Seq::empty()
    } else {
        insert_pair(s[0], sort_pairs(s.skip(1)))
    }
}

/// The entries have pairwise distinct positions.
pub open spec fn distinct_positions(s: Seq<(i64, usize)>) -> bool {
    forall|i: int, j: int| 0 <= i < j < s.len() ==> (#[trigger] s[i]).1 != (#[trigger] s[j]).1
}

/// Where `x` lands: inserting at the first position whose element `x`
/// precedes is what `insert_pair` does.
proof fn lemma_insert_at(x: (i64, usize), s: Seq<(i64, usize)>, p: int)
    requires
        0 <= p <= s.len(),
        forall|j: int| 0 <= j < p ==> !pair_before(x, #[trigger] s[j]),
        p < s.len() ==> pair_before(x, s[p]),
    ensures
        insert_pair(x, s) == s.take(p) + seq![x] + s.skip(p),
    decreases p,
{
    if s.len() == 0 {
        assert(insert_pair(x, s) =~= s.take(0) + seq![x] + s.skip(0));
    } else if p == 0 {
        assert(insert_pair(x, s) =~= s.take(0) + seq![x] + s.skip(0));
    } else {
        lemma_insert_at(x, s.skip(1), p - 1);
        assert(s.skip(1).take(p - 1) =~= s.take(p).skip(1));
        assert(s.skip(1).skip(p - 1) =~= s.skip(p));
        assert(seq![s[0]] + (s.take(p).skip(1) + seq![x] + s.skip(p)) =~= s.take(p) + seq![x]
            + s.skip(p));
    }
}

/// Inserting a comparable element into a sorted sequence keeps it sorted;
/// every element of the result is `x` or comes from `s`.
proof fn lemma_insert_sorted(x: (i64, usize), s: Seq<(i64, usize)>)
    requires
        pairs_sorted(s),
        forall|j: int|
            0 <= j < s.len() ==> pair_before(x, #[trigger] s[j]) || pair_before(s[j], x),
    ensures
        pairs_sorted(insert_pair(x, s)),
        insert_pair(x, s).len() == s.len() + 1,
        forall|k: int|
            0 <= k < insert_pair(x, s).len() ==> #[trigger] insert_pair(x, s)[k] == x || exists|m: int|
                0 <= m < s.len() && insert_pair(x, s)[k] == s[m],
    decreases s.len(),
{
    if s.len() == 0 {
    } else if pair_before(x, s[0]) {
        let r = seq![x] + s;
        assert forall|i: int, j: int| 0 <= i < j < r.len() implies pair_before(r[i], r[j]) by {
            if i == 0 && j > 1 {
                assert(pair_before(s[0], s[j - 1]));
            }
        }
        assert forall|k: int| 0 <= k < r.len() implies #[trigger] r[k] == x || exists|m: int|
            0 <= m < s.len() && r[k] == s[m] by {
            if k > 0 {
                assert(r[k] == s[k - 1]);
            }
        }
    } else {
        let rest = insert_pair(x, s.skip(1));
        lemma_insert_sorted(x, s.skip(1));
        let r = seq![s[0]] + rest;
        assert(pair_before(s[0], x));
        assert forall|i: int, j: int| 0 <= i < j < r.len() implies pair_before(r[i], r[j]) by {
            if i == 0 {
                let y = rest[j - 1];
                if y == x {
                } else {
                    let m = choose|m: int| 0 <= m < s.skip(1).len() && rest[j - 1] == s.skip(
                        1,
                    )[m];
                    assert(s.skip(1)[m] == s[m + 1]);
                    assert(pair_before(s[0], s[m + 1]));
                }
            } else {
                assert(pair_before(rest[i - 1], rest[j - 1]));
            }
        }
        assert forall|k: int| 0 <= k < r.len() implies #[trigger] r[k] == x || exists|m: int|
            0 <= m < s.len() && r[k] == s[m] by {
            if k == 0 {
                assert(r[0] == s[0]);
            } else if rest[k - 1] == x {
            } else {
                let m = choose|m: int| 0 <= m < s.skip(1).len() && rest[k - 1] == s.skip(1)[m];
                assert(r[k] == s[m + 1]);
            }
        }
    }
}

/// Insertion keeps every element: the inserted one and all of `s` appear in
/// the result.
proof fn lemma_insert_contains(x: (i64, usize), s: Seq<(i64, usize)>)
    ensures
        insert_pair(x, s).len() == s.len() + 1,
        exists|k: int| 0 <= k < insert_pair(x, s).len() && insert_pair(x, s)[k] == x,
        forall|m: int|
            0 <= m < s.len() ==> exists|k: int|
                0 <= k < insert_pair(x, s).len() && insert_pair(x, s)[k] == #[trigger] s[m],
    decreases s.len(),
{
    if s.len() == 0 {
        assert(insert_pair(x, s)[0] == x);
    } else if pair_before(x, s[0]) {
        let r = seq![x] + s;
        assert(r[0] == x);
        assert forall|m: int| 0 <= m < s.len() implies exists|k: int|
            0 <= k < r.len() && r[k] == #[trigger] s[m] by {
            assert(r[m + 1] == s[m]);
        }
    } else {
        lemma_insert_contains(x, s.skip(1));
        let rest = insert_pair(x, s.skip(1));
        let r = seq![s[0]] + rest;
        let kx = choose|k: int| 0 <= k < rest.len() && rest[k] == x;
        assert(r[kx + 1] == x);
        assert forall|m: int| 0 <= m < s.len() implies exists|k: int|
            0 <= k < r.len() && r[k] == #[trigger] s[m] by {
            if m == 0 {
                assert(r[0] == s[0]);
            } else {
                assert(s.skip(1)[m - 1] == s[m]);
                let k2 = choose|k2: int|
                    0 <= k2 < rest.len() && rest[k2] == s.skip(1)[m - 1];
                assert(r[k2 + 1] == s[m]);
            }
        }
    }
}

/// Sorting keeps every element of the input.
pub proof fn lemma_sort_contains(s: Seq<(i64, usize)>)
    ensures
        sort_pairs(s).len() == s.len(),
        forall|m: int|
            0 <= m < s.len() ==> exists|k: int|
                0 <= k < sort_pairs(s).len() && sort_pairs(s)[k] == #[trigger] s[m],
    decreases s.len(),
{
    if s.len() > 0 {
        let tail = s.skip(1);
        lemma_sort_contains(tail);
        let sorted_tail = sort_pairs(tail);
        lemma_insert_contains(s[0], sorted_tail);
        assert forall|m: int| 0 <= m < s.len() implies exists|k: int|
            0 <= k < sort_pairs(s).len() && sort_pairs(s)[k] == #[trigger] s[m] by {
            if m == 0 {
                let k = choose|k: int|
                    0 <= k < insert_pair(s[0], sorted_tail).len() && insert_pair(
                        s[0],
                        sorted_tail,
                    )[k] == s[0];
                assert(sort_pairs(s)[k] == s[0]);
            } else {
                assert(tail[m - 1] == s[m]);
                let k1 = choose|k1: int|
                    0 <= k1 < sorted_tail.len() && sorted_tail[k1] == tail[m - 1];
                let k2 = choose|k2: int|
                    0 <= k2 < insert_pair(s[0], sorted_tail).len() && insert_pair(
                        s[0],
                        sorted_tail,
                    )[k2] == #[trigger] sorted_tail[k1];
                assert(sort_pairs(s)[k2] == s[m]);
            }
        }
    }
}

/// Sorting entries with distinct positions yields a sorted sequence of the
/// same length whose entries all come from the input.
pub proof fn lemma_sort_pairs(s: Seq<(i64, usize)>)
    requires
        distinct_positions(s),
    ensures
        pairs_sorted(sort_pairs(s)),
        sort_pairs(s).len() == s.len(),
        forall|k: int|
            0 <= k < sort_pairs(s).len() ==> exists|m: int|
                0 <= m < s.len() && #[trigger] sort_pairs(s)[k] == s[m],
    decreases s.len(),
{
    if s.len() == 0 {
    } else {
        let tail = s.skip(1);
        assert(distinct_positions(tail)) by {
            assert forall|i: int, j: int| 0 <= i < j < tail.len() implies (#[trigger] tail[i]).1
                != (#[trigger] tail[j]).1 by {
                assert(s[i + 1].1 != s[j + 1].1);
            }
        }
        lemma_sort_pairs(tail);
        let sorted_tail = sort_pairs(tail);
        assert forall|j: int| 0 <= j < sorted_tail.len() implies pair_before(
            s[0],
            #[trigger] sorted_tail[j],
        ) || pair_before(sorted_tail[j], s[0]) by {
            let m = choose|m: int| 0 <= m < tail.len() && sorted_tail[j] == tail[m];
            assert(tail[m] == s[m + 1]);
            assert(s[0].1 != s[m + 1].1);
        }
        lemma_insert_sorted(s[0], sorted_tail);
        assert forall|k: int| 0 <= k < sort_pairs(s).len() implies exists|m: int|
            0 <= m < s.len() && #[trigger] sort_pairs(s)[k] == s[m] by {
            if sort_pairs(s)[k] == s[0] {
                assert(0 <= 0 < s.len() && sort_pairs(s)[k] == s[0]);
            } else {
                let q = choose|q: int| 0 <= q < sorted_tail.len() && sort_pairs(s)[k]
                    == sorted_tail[q];
                if 0 <= q < sorted_tail.len() && sort_pairs(s)[k] == sorted_tail[q] {
                    let m = choose|m: int| 0 <= m < tail.len() && sorted_tail[q] == tail[m];
                    assert(sort_pairs(s)[k] == s[m + 1]);
                }
            }
        }
    }
}

fn pair_before_exec(a: (i64, usize), b: (i64, usize)) -> (r: bool)
    ensures
        r == pair_before(a, b),
{
    a.0 > b.0 || (a.0 == b.0 && a.1 < b.1)
}

/// Sorts scored entries, descending by score with ties in position order.
pub fn sort_scored(v: &Vec<(i64, usize)>) -> (r: Vec<(i64, usize)>)
    ensures
        r@ == sort_pairs(v@),
{
    let mut r: Vec<(i64, usize)> = Vec::new();
    let mut i: usize = v.len();
    proof {
        assert(v@.skip(v@.len() as int) =~= Seq::empty());
    }
    while i > 0
        invariant
            i <= v.len(),
            r@ == sort_pairs(v@.skip(i as int)),
        decreases i,
    {
        i = i - 1;
        let x = v[i];
        let mut p: usize = 0;
        while p < r.len() && !pair_before_exec(x, r[p])
            invariant
                p <= r.len(),
                forall|j: int| 0 <= j < p ==> !pair_before(x, #[trigger] r@[j]),
        decreases r.len() - p,
        {
            p = p + 1;
        }
        let ghost r0 = r@;
        r.insert(p, x);
        proof {
            lemma_insert_at(x, r0, p as int);
            assert(r@ =~= r0.take(p as int) + seq![x] + r0.skip(p as int));
            assert(v@.skip(i as int)[0] == v@[i as int]);
            assert(v@.skip(i as int).skip(1) =~= v@.skip(i as int + 1));
            assert(r@ == insert_pair(x, sort_pairs(v@.skip(i as int + 1))));
        }
    }
    proof {
        assert(v@.skip(0) =~= v@);
    }
    r
}

} // verus!
