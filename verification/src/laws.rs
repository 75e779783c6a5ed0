//! The laws of the store, stated over the same models its contracts use
//! and proved once and for all.

use vstd::prelude::*;
use crate::embed::{embed_spec, token_lens};
use crate::json::JsonV;
use crate::rank::{pair_before, sort_pairs};
use crate::store::{
    CollM, DocM, StoreV, add_doc_m, add_fold, coll_idx, del_fold, docs_of, drop_coll, empty_coll,
    fresh_distinct_count, has_coll, has_doc, put_coll, put_doc, query_result_v, query_top,
    query_v, scored, upd_doc,
};
use crate::tools::{create_effect, ensure_v};
use crate::vector::{norm2, score_micros};

verus! {

broadcast use vstd::seq::group_seq_axioms;

/// A synthesized embedding behaves like a unit (or zero) vector: its
/// similarity with itself is exactly one, unless the text had no token at
/// all, in which case it is zero.
pub proof fn lemma_embedding_normalized(t: Seq<char>)
    ensures
        token_lens(t).len() > 0 ==> score_micros(embed_spec(t), embed_spec(t)) == 1000000,
        token_lens(t).len() == 0 ==> score_micros(embed_spec(t), embed_spec(t)) == 0,
{
    if token_lens(t).len() > 0 {
        crate::embed::lemma_embed_norm_positive(t);
        crate::vector::lemma_self_score(embed_spec(t));
    } else {
        crate::embed::lemma_embed_spec_bounds(t);
        let e = embed_spec(t);
        assert forall|i: int| 0 <= i < e.len() implies #[trigger] e[i] == 0i64 by {}
        lemma_zero_norm(e, e.len() as int);
        assert(norm2(e) * norm2(e) == 0) by (nonlinear_arith)
            requires
                norm2(e) == 0,
        ;
    }
}

/// A vector of zeros has zero norm.
proof fn lemma_zero_norm(e: Seq<i64>, n: int)
    requires
        0 <= n <= e.len(),
        forall|i: int| 0 <= i < e.len() ==> #[trigger] e[i] == 0i64,
    ensures
        crate::vector::dot_prefix(e, e, n) == 0,
    decreases n,
{
    if n > 0 {
        lemma_zero_norm(e, n - 1);
        assert(e[n - 1] * e[n - 1] == 0) by (nonlinear_arith)
            requires
                e[n - 1] == 0i64,
        ;
    }
}

/// A document whose embedding equals the query embedding is ranked first,
/// provided no earlier document already matches the query perfectly (with
/// an earlier perfect match, insertion order wins the tie and that
/// document is returned instead).
#[verifier::rlimit(100)]
pub proof fn lemma_own_nearest_neighbor(docs: Seq<DocM>, i: int, q: Seq<i64>)
    requires
        docs.len() <= usize::MAX,
        0 <= i < docs.len(),
        docs[i].embedding == q,
        norm2(q) > 0,
        forall|j: int|
            0 <= j < i ==> score_micros(q, (#[trigger] docs[j]).embedding) < 1000000,
    ensures
        sort_pairs(scored(docs, q)).len() == docs.len(),
        sort_pairs(scored(docs, q))[0] == (1000000i64, i as usize),
        query_top(docs, q, 1) == seq![(1000000i64, i as usize)],
{
    let sc = scored(docs, q);
    assert(crate::rank::distinct_positions(sc)) by {
        assert forall|a: int, b: int| 0 <= a < b < sc.len() implies (#[trigger] sc[a]).1 != (
        #[trigger] sc[b]).1 by {
            assert(sc[a].1 == a as usize);
            assert(sc[b].1 == b as usize);
        }
    }
    crate::rank::lemma_sort_pairs(sc);
    crate::rank::lemma_sort_contains(sc);
    crate::vector::lemma_self_score(q);
    assert(sc[i] == (1000000i64, i as usize));
    let sorted = sort_pairs(sc);
    let k = choose|k: int| 0 <= k < sorted.len() && sorted[k] == sc[i];
    assert(sorted[k] == (1000000i64, i as usize));
    if k > 0 {
        assert(pair_before(sorted[0], sorted[k]));
        let m = choose|m: int| 0 <= m < sc.len() && sorted[0] == sc[m];
        crate::vector::lemma_score_range(q, docs[m].embedding);
        assert(sorted[0].0 == score_micros(q, docs[m].embedding));
        assert(sorted[0].0 <= 1000000);
        assert(sorted[0].0 == 1000000 && sorted[0].1 < i);
        assert(sc[m].1 == m);
        assert(score_micros(q, docs[m].embedding) == 1000000);
        assert(false);
    }
    assert(sorted[0] == (1000000i64, i as usize));
    assert(query_top(docs, q, 1) =~= seq![(1000000i64, i as usize)]);
}

/// The wire-level form of the nearest-neighbor law: under the same
/// conditions, the inner ids array of a one-result query holds exactly the
/// matching document's id.
pub proof fn lemma_query_returns_own_id(docs: Seq<DocM>, i: int, q: Seq<i64>)
    requires
        docs.len() <= usize::MAX,
        0 <= i < docs.len(),
        docs[i].embedding == q,
        norm2(q) > 0,
        forall|j: int|
            0 <= j < i ==> score_micros(q, (#[trigger] docs[j]).embedding) < 1000000,
    ensures
        query_result_v(docs, query_top(docs, q, 1))->Obj_0[0].1->Arr_0[0]->Arr_0 == seq![
            JsonV::Str(docs[i].id),
        ],
{
    lemma_own_nearest_neighbor(docs, i, q);
    let top = query_top(docs, q, 1);
    assert(top[0].1 == i as usize);
    assert(query_result_v(docs, top)->Obj_0[0].1->Arr_0[0]->Arr_0 =~= seq![
        JsonV::Str(docs[i].id),
    ]);
}

/// Overwriting an existing id keeps the document count; inserting a fresh
/// id grows it by one.
pub proof fn lemma_put_doc_count(docs: Seq<DocM>, d: DocM)
    ensures
        has_doc(docs, d.id) ==> put_doc(docs, d).len() == docs.len(),
        !has_doc(docs, d.id) ==> put_doc(docs, d).len() == docs.len() + 1,
{
}

/// Adding documents grows the count by exactly the number of entries
/// whose id is fresh and not repeated from an earlier entry of the same
/// call: every other entry overwrites. With pairwise distinct, all-fresh
/// ids that number is the number of entries; re-adding only existing ids
/// leaves the count unchanged. The ids afterwards are the old ones plus
/// those of the call.
pub proof fn lemma_add_count(
    docs: Seq<DocM>,
    contents: Seq<Seq<char>>,
    embs: Option<Seq<Seq<i64>>>,
    metas: Option<Seq<JsonV>>,
    ids: Seq<Seq<char>>,
    now: int,
    n: int,
)
    requires
        0 <= n <= contents.len(),
        n <= ids.len(),
    ensures
        add_fold(docs, contents, embs, metas, ids, now, n).len() == docs.len()
            + fresh_distinct_count(docs, ids, n),
        forall|x: Seq<char>|
            #[trigger] has_doc(add_fold(docs, contents, embs, metas, ids, now, n), x) <==> (
            has_doc(docs, x) || exists|k: int| 0 <= k < n && ids[k] == x),
    decreases n,
{
    if n > 0 {
        lemma_add_count(docs, contents, embs, metas, ids, now, n - 1);
        let prev = add_fold(docs, contents, embs, metas, ids, now, n - 1);
        let d = add_doc_m(contents, embs, metas, ids, n - 1, now);
        assert(d.id == ids[n - 1]);
        let r = put_doc(prev, d);
        if has_doc(prev, d.id) {
            assert(has_doc(docs, d.id) || exists|k: int| 0 <= k < n - 1 && ids[k] == d.id);
            assert(fresh_distinct_count(docs, ids, n) == fresh_distinct_count(docs, ids, n - 1));
            let j = crate::store::doc_idx(prev, d.id);
            assert(0 <= j < prev.len() && prev[j].id == d.id);
            assert(r == prev.update(j, d));
            assert forall|x: Seq<char>| #[trigger] has_doc(r, x) implies (has_doc(docs, x)
                || exists|k: int| 0 <= k < n && ids[k] == x) by {
                let w = choose|w: int| 0 <= w < r.len() && r[w].id == x;
                if w == j {
                    assert(x == ids[n - 1]);
                } else {
                    assert(prev[w].id == x);
                    assert(has_doc(prev, x));
                }
            }
            assert forall|x: Seq<char>| (has_doc(docs, x) || exists|k: int|
                0 <= k < n && ids[k] == x) implies #[trigger] has_doc(r, x) by {
                if has_doc(docs, x) || (exists|k: int| 0 <= k < n - 1 && ids[k] == x) {
                    assert(has_doc(prev, x));
                    let w = choose|w: int| 0 <= w < prev.len() && prev[w].id == x;
                    if w == j {
                        assert(r[j].id == d.id);
                        assert(r[j].id == x);
                    } else {
                        assert(r[w].id == x);
                    }
                } else {
                    assert(x == ids[n - 1]);
                    assert(r[j].id == x);
                }
            }
        } else {
            assert(!has_doc(docs, ids[n - 1]) && forall|k: int|
                0 <= k < n - 1 ==> #[trigger] ids[k] != ids[n - 1]) by {
                if has_doc(docs, ids[n - 1]) || exists|k: int|
                    0 <= k < n - 1 && #[trigger] ids[k] == ids[n - 1] {
                    assert(has_doc(prev, d.id));
                }
            }
            assert(fresh_distinct_count(docs, ids, n) == fresh_distinct_count(docs, ids, n - 1)
                + 1);
            assert(r == prev.push(d));
            assert forall|x: Seq<char>| #[trigger] has_doc(r, x) implies (has_doc(docs, x)
                || exists|k: int| 0 <= k < n && ids[k] == x) by {
                let w = choose|w: int| 0 <= w < r.len() && r[w].id == x;
                if w < prev.len() {
                    assert(has_doc(prev, x));
                } else {
                    assert(r[w] == d);
                }
            }
            assert forall|x: Seq<char>| (has_doc(docs, x) || exists|k: int|
                0 <= k < n && ids[k] == x) implies #[trigger] has_doc(r, x) by {
                if has_doc(docs, x) || (exists|k: int| 0 <= k < n - 1 && ids[k] == x) {
                    assert(has_doc(prev, x));
                    let w = choose|w: int| 0 <= w < prev.len() && prev[w].id == x;
                    assert(r[w].id == x);
                } else {
                    assert(r[r.len() - 1].id == x);
                }
            }
        }
    }
}

/// An update never changes which ids exist, nor the count.
pub proof fn lemma_update_keeps_count(
    docs: Seq<DocM>,
    ids: Seq<Seq<char>>,
    metas: Option<Seq<JsonV>>,
    contents: Option<Seq<Seq<char>>>,
    embs: Option<Seq<Seq<i64>>>,
    now: int,
    n: int,
)
    ensures
        crate::store::upd_fold(docs, ids, metas, contents, embs, now, n).len() == docs.len(),
    decreases n,
{
    if n > 0 {
        lemma_update_keeps_count(docs, ids, metas, contents, embs, now, n - 1);
    }
}

/// An update entry that replaces the content without supplying an
/// embedding recomputes the embedding from the new content.
pub proof fn lemma_update_recomputes_embedding(
    d: DocM,
    meta: Option<JsonV>,
    c: Seq<char>,
    now: int,
)
    ensures
        upd_doc(d, meta, Some(c), None, now).content == c,
        upd_doc(d, meta, Some(c), None, now).embedding == embed_spec(c),
        upd_doc(d, meta, Some(c), None, now).id == d.id,
{
}

/// Deleting one existing id removes exactly that document: the count drops
/// by one and the id is gone.
pub proof fn lemma_delete_one(docs: Seq<DocM>, id: Seq<char>)
    requires
        forall|a: int, b: int|
            0 <= a < b < docs.len() ==> (#[trigger] docs[a]).id != (#[trigger] docs[b]).id,
        has_doc(docs, id),
    ensures
        del_fold(docs, seq![id], 1).len() == docs.len() - 1,
        !has_doc(del_fold(docs, seq![id], 1), id),
        forall|x: Seq<char>|
            x != id ==> (#[trigger] has_doc(del_fold(docs, seq![id], 1), x) <==> has_doc(
                docs,
                x,
            )),
{
    let w0 = choose|w: int| 0 <= w < docs.len() && docs[w].id == id;
    crate::store::lemma_doc_idx_is(docs, id, w0);
    let i = crate::store::doc_idx(docs, id);
    let r = docs.remove(i);
    assert(seq![id][0] == id);
    assert(del_fold(docs, seq![id], 0) == docs);
    assert(del_fold(docs, seq![id], 1) == r);
    assert forall|x: Seq<char>| !(x == id) implies (#[trigger] has_doc(r, x) <==> has_doc(
        docs,
        x,
    )) by {
        if has_doc(r, x) {
            let w = choose|w: int| 0 <= w < r.len() && r[w].id == x;
            let w0 = if w < i {
                w
            } else {
                w + 1
            };
            assert(docs[w0].id == x);
        }
        if has_doc(docs, x) {
            let w = choose|w: int| 0 <= w < docs.len() && docs[w].id == x;
            assert(w != i);
            let w1 = if w < i {
                w
            } else {
                w - 1
            };
            assert(r[w1].id == x);
        }
    }
    assert forall|w: int| 0 <= w < r.len() implies (#[trigger] r[w]).id != id by {
        let w0 = if w < i {
            w
        } else {
            w + 1
        };
        assert(r[w] == docs[w0]);
        if w0 != i {
            assert(docs[w0].id != docs[i].id || docs[i].id != docs[w0].id);
        }
    }
}

/// Distances in a query result never decrease from one entry to the next.
pub proof fn lemma_query_distances_sorted(docs: Seq<DocM>, q: Seq<i64>, n: int)
    requires
        docs.len() <= usize::MAX,
        n >= 0,
    ensures
        forall|a: int, b: int|
            0 <= a < b < query_top(docs, q, n).len() ==> 1000000 - (#[trigger] query_top(
                docs,
                q,
                n,
            )[a]).0 <= 1000000 - (#[trigger] query_top(docs, q, n)[b]).0,
{
    let sc = scored(docs, q);
    assert(crate::rank::distinct_positions(sc)) by {
        assert forall|a: int, b: int| 0 <= a < b < sc.len() implies (#[trigger] sc[a]).1 != (
        #[trigger] sc[b]).1 by {
            assert(sc[a].1 == a as usize);
            assert(sc[b].1 == b as usize);
        }
    }
    crate::rank::lemma_sort_pairs(sc);
    let top = query_top(docs, q, n);
    assert forall|a: int, b: int| 0 <= a < b < top.len() implies 1000000 - (#[trigger] top[a]).0
        <= 1000000 - (#[trigger] top[b]).0 by {
        assert(top[a] == sort_pairs(sc)[a]);
        assert(top[b] == sort_pairs(sc)[b]);
        assert(pair_before(sort_pairs(sc)[a], sort_pairs(sc)[b]));
    }
}

/// Creating a collection twice leaves exactly what creating it once
/// leaves: the second creation resets it to the same fresh state.
pub proof fn lemma_create_idempotent(s: StoreV, name: Seq<char>, meta: Option<JsonV>)
    requires
        crate::store::store_wf(s),
    ensures
        create_effect(create_effect(s, name, meta), name, meta) == create_effect(s, name, meta),
{
    let c = empty_coll(name, meta);
    let s1 = put_coll(s.collections, c);
    if has_coll(s.collections, name) {
        let i = coll_idx(s.collections, name);
        assert(s1[i].name == name);
        lemma_coll_idx_unique(s1, name, i);
        assert(put_coll(s1, c) =~= s1);
    } else {
        let i = s.collections.len() as int;
        assert(s1[i].name == name);
        lemma_coll_idx_unique(s1, name, i);
        assert(put_coll(s1, c) =~= s1);
    }
    assert(create_effect(create_effect(s, name, meta), name, meta) =~= create_effect(
        s,
        name,
        meta,
    ));
}

/// In a sequence whose names repeat at most once beyond `i`, an index
/// bearing the name is the one `coll_idx` picks.
proof fn lemma_coll_idx_unique(s: Seq<CollM>, name: Seq<char>, i: int)
    requires
        0 <= i < s.len(),
        s[i].name == name,
        forall|a: int, b: int|
            0 <= a < b < s.len() ==> (#[trigger] s[a]).name != (#[trigger] s[b]).name,
    ensures
        has_coll(s, name),
        coll_idx(s, name) == i,
        s.update(i, s[i]) =~= s,
{
    assert(has_coll(s, name));
    let j = coll_idx(s, name);
    if j < i {
        assert(s[j].name != s[i].name);
    } else if j > i {
        assert(s[i].name != s[j].name);
    }
}

/// Deleting a collection twice is no different from deleting it once.
pub proof fn lemma_delete_idempotent(s: StoreV, name: Seq<char>)
    requires
        crate::store::store_wf(s),
    ensures
        drop_coll(drop_coll(s.collections, name), name) == drop_coll(s.collections, name),
{
    if has_coll(s.collections, name) {
        let i = coll_idx(s.collections, name);
        let r = s.collections.remove(i);
        assert(!has_coll(r, name)) by {
            if has_coll(r, name) {
                let w = choose|w: int| 0 <= w < r.len() && r[w].name == name;
                let w0 = if w < i {
                    w
                } else {
                    w + 1
                };
                assert(s.collections[w0].name == name);
                assert(w0 != i);
                if w0 < i {
                    assert(s.collections[w0].name != s.collections[i].name);
                } else {
                    assert(s.collections[i].name != s.collections[w0].name);
                }
            }
        }
    }
}

/// Fetching an absent collection first creates it empty: the "ensure"
/// semantics is creation followed by lookup.
pub proof fn lemma_get_absent_creates(s: StoreV, name: Seq<char>)
    requires
        !has_coll(s.collections, name),
    ensures
        ensure_v(s, name) == create_effect(s, name, None),
        has_coll(ensure_v(s, name).collections, name),
{
    assert(ensure_v(s, name).collections =~= put_coll(
        s.collections,
        empty_coll(name, None),
    ));
    assert(ensure_v(s, name) =~= create_effect(s, name, None));
    let r = ensure_v(s, name).collections;
    assert(r[r.len() - 1].name == name);
}

/// A query on an existing but empty collection keeps the double-nested
/// shape with empty inner arrays.
pub proof fn lemma_query_empty_collection(
    colls: Seq<CollM>,
    name: Seq<char>,
    texts: Seq<Seq<char>>,
    n: int,
)
    requires
        has_coll(colls, name),
        docs_of(colls, name).len() == 0,
    ensures
        query_v(colls, name, texts, n) == query_result_v(Seq::empty(), Seq::empty()),
{
    assert(docs_of(colls, name) =~= Seq::<DocM>::empty());
}

} // verus!
