//! The in-memory vector store: named collections of documents.
//!
//! Collections keep their documents in insertion order, which makes the
//! iteration order of `get`/`peek` and the tie order of `query` stable and
//! fully specified. Mutation instants (`created_at`/`updated_at`) are drawn
//! from a logical clock that advances on every mutating call.

use vstd::prelude::*;
use crate::json::{Json, JsonV};
use crate::vector::emb_ok;

verus! {

broadcast use vstd::std_specs::vec::group_vec_axioms;

/// A stored document.
#[derive(Debug)]
pub struct Document {
    pub id: String,
    pub content: String,
    pub metadata: Json,
    pub embedding: Vec<i64>,
    pub created_at: u64,
    pub updated_at: u64,
}

/// The model of a document.
#[verifier::ext_equal]
pub struct DocM {
    pub id: Seq<char>,
    pub content: Seq<char>,
    pub metadata: JsonV,
    pub embedding: Seq<i64>,
    pub created_at: int,
    pub updated_at: int,
}

impl View for Document {
    type V = DocM;

    open spec fn view(&self) -> DocM {
        DocM {
            id: self.id@,
            content: self.content@,
            metadata: self.metadata.v(),
            embedding: self.embedding@,
            created_at: self.created_at as int,
            updated_at: self.updated_at as int,
        }
    }
}

/// A named collection of documents.
#[derive(Debug)]
pub struct CollectionData {
    pub name: String,
    pub metadata: Option<Json>,
    pub documents: Vec<Document>,
}

/// The model of a collection.
#[verifier::ext_equal]
pub struct CollM {
    pub name: Seq<char>,
    pub metadata: Option<JsonV>,
    pub documents: Seq<DocM>,
}

/// The models of a sequence of documents.
pub open spec fn docs_v(s: Seq<Document>) -> Seq<DocM> {
    Seq::new(s.len(), |i: int| s[i]@)
}

impl View for CollectionData {
    type V = CollM;

    open spec fn view(&self) -> CollM {
        CollM {
            name: self.name@,
            metadata: match self.metadata {
                Some(m) => Some(m.v()),
                None => None,
            },
            documents: docs_v(self.documents@),
        }
    }
}

/// The client owning the whole store, together with the (unused) connection
/// settings kept for parity with the configuration surface.
#[derive(Debug)]
pub struct ChromaClient {
    pub host: String,
    pub port: u16,
    pub username: Option<String>,
    pub password: Option<String>,
    pub collections: Vec<CollectionData>,
    pub tick: u64,
}

/// The model of the whole store.
#[verifier::ext_equal]
pub struct StoreV {
    pub host: Seq<char>,
    pub port: u16,
    pub username: Option<Seq<char>>,
    pub password: Option<Seq<char>>,
    pub collections: Seq<CollM>,
    pub tick: int,
}

impl View for ChromaClient {
    type V = StoreV;

    open spec fn view(&self) -> StoreV {
        StoreV {
            host: self.host@,
            port: self.port,
            username: match self.username {
                Some(u) => Some(u@),
                None => None,
            },
            password: match self.password {
                Some(p) => Some(p@),
                None => None,
            },
            collections: Seq::new(self.collections@.len(), |i: int| self.collections@[i]@),
            tick: self.tick as int,
        }
    }
}

/// A well-formed document: bounded embedding, ordered instants.
pub open spec fn doc_wf(d: DocM) -> bool {
    &&& emb_ok(d.embedding)
    &&& 0 <= d.created_at <= d.updated_at
}

/// A well-formed collection: well-formed documents with distinct ids.
pub open spec fn coll_wf(c: CollM) -> bool {
    &&& forall|i: int| 0 <= i < c.documents.len() ==> doc_wf(#[trigger] c.documents[i])
    &&& forall|i: int, j: int|
        0 <= i < j < c.documents.len() ==> (#[trigger] c.documents[i]).id != (
        #[trigger] c.documents[j]).id
}

/// All instants in these documents lie at or before `t`.
pub open spec fn docs_fresh(docs: Seq<DocM>, t: int) -> bool {
    forall|k: int|
        0 <= k < docs.len() ==> (#[trigger] docs[k]).created_at <= t && docs[k].updated_at <= t
}

/// A well-formed store: well-formed collections with distinct names, whose
/// instants never run ahead of the logical clock.
pub open spec fn store_wf(s: StoreV) -> bool {
    &&& forall|i: int| 0 <= i < s.collections.len() ==> coll_wf(#[trigger] s.collections[i])
    &&& forall|i: int, j: int|
        0 <= i < j < s.collections.len() ==> (#[trigger] s.collections[i]).name != (
        #[trigger] s.collections[j]).name
    &&& forall|i: int|
        0 <= i < s.collections.len() ==> docs_fresh(
            (#[trigger] s.collections[i]).documents,
            s.tick,
        )
}

impl ChromaClient {
    /// Well-formedness of the whole client state.
    pub open spec fn wf(self) -> bool {
        store_wf(self@)
    }
}

/// The store holds a collection of this name.
pub open spec fn has_coll(s: Seq<CollM>, name: Seq<char>) -> bool {
    exists|i: int| 0 <= i < s.len() && (#[trigger] s[i]).name == name
}

/// The index of the collection of this name.
pub open spec fn coll_idx(s: Seq<CollM>, name: Seq<char>) -> int {
    choose|i: int| 0 <= i < s.len() && (#[trigger] s[i]).name == name
}

/// The collection of this name.
pub open spec fn coll_at(s: Seq<CollM>, name: Seq<char>) -> CollM {
    s[coll_idx(s, name)]
}

/// The documents of the collection of this name, or the empty sequence when
/// there is none.
pub open spec fn docs_of(s: Seq<CollM>, name: Seq<char>) -> Seq<DocM> {
    if has_coll(s, name) {
        coll_at(s, name).documents
    } else {
        Seq::empty()
    }
}

/// The collection sequence with `c` replacing its namesake, or appended.
pub open spec fn put_coll(s: Seq<CollM>, c: CollM) -> Seq<CollM> {
    if has_coll(s, c.name) {
        s.update(coll_idx(s, c.name), c)
    } else {
        s.push(c)
    }
}

/// The collection sequence without the named collection.
pub open spec fn drop_coll(s: Seq<CollM>, name: Seq<char>) -> Seq<CollM> {
    if has_coll(s, name) {
        s.remove(coll_idx(s, name))
    } else {
        s
    }
}

/// The model of an optional JSON argument.
pub open spec fn opt_v(m: Option<Json>) -> Option<JsonV> {
    match m {
        Some(j) => Some(j.v()),
        None => None,
    }
}

/// The logical clock after one mutating operation.
pub open spec fn next_tick(t: int) -> int {
    if t < 0xFFFF_FFFF_FFFF_FFFFu64 {
        t + 1
    } else {
        t
    }
}

/// A fresh, empty collection model.
pub open spec fn empty_coll(name: Seq<char>, metadata: Option<JsonV>) -> CollM {
    CollM { name: name, metadata: metadata, documents: Seq::empty() }
}

impl ChromaClient {
    /// Finds the index of the named collection.
    fn find_coll(&self, name: &str) -> (r: Option<usize>)
        ensures
            match r {
                Some(i) => 0 <= i < self@.collections.len() && self@.collections[i as int].name
                    == name@ && has_coll(self@.collections, name@),
                None => !has_coll(self@.collections, name@),
            },
    {
        let n = self.collections.len();
        let mut i: usize = 0;
        while i < n
            invariant
                i <= n,
                n == self.collections.len(),
                forall|j: int|
                    0 <= j < i ==> (#[trigger] self@.collections[j]).name != name@,
            decreases n - i,
        {
            if crate::text::str_eq(self.collections[i].name.as_str(), name) {
                proof {
                    assert(self@.collections[i as int].name == name@);
                }
                return Some(i);
            }
            i = i + 1;
        }
        None
    }

    /// Builds a client with the given connection settings and an empty
    /// store.
    pub fn new(host: &str, port: u16, username: Option<&str>, password: Option<&str>) -> (r:
        Self)
        ensures
            r@.host == host@,
            r@.port == port,
            r@.username == match username {
                Some(u) => Some(u@),
                None => None::<Seq<char>>,
            },
            r@.password == match password {
                Some(p) => Some(p@),
                None => None::<Seq<char>>,
            },
            r@.collections == Seq::<CollM>::empty(),
            r@.tick == 0,
            r.wf(),
    {
        let r = ChromaClient {
            host: host.to_owned(),
            port,
            username: match username {
                Some(u) => Some(u.to_owned()),
                None => None,
            },
            password: match password {
                Some(p) => Some(p.to_owned()),
                None => None,
            },
            collections: Vec::new(),
            tick: 0,
        };
        proof {
            assert(r@.collections =~= Seq::<CollM>::empty());
        }
        r
    }

    /// The names of all collections, in insertion order. The limit and
    /// offset are advisory and, as in the wire protocol, left to the caller;
    /// they do not affect the result.
    pub fn list_collections(&self, _limit: Option<usize>, _offset: Option<usize>) -> (r: Vec<
        String>)
        ensures
            r@.len() == self@.collections.len(),
            forall|i: int|
                0 <= i < r@.len() ==> r@[i]@ == (#[trigger] self@.collections[i]).name,
    {
        let n = self.collections.len();
        let mut r: Vec<String> = Vec::with_capacity(n);
        let mut i: usize = 0;
        while i < n
            invariant
                i <= n,
                n == self.collections.len(),
                r@.len() == i,
                forall|j: int|
                    0 <= j < i ==> r@[j]@ == (#[trigger] self@.collections[j]).name,
            decreases n - i,
        {
            let name = crate::json::clone_string(&self.collections[i].name);
            r.push(name);
            i = i + 1;
        }
        r
    }

    /// Creates the named collection, empty, with the given metadata; an
    /// existing collection of that name is replaced wholesale.
    pub fn create_collection(&mut self, name: &str, metadata: Option<Json>) -> (r: String)
        requires
            old(self).wf(),
        ensures
            final(self).wf(),
            final(self)@ == (StoreV {
                collections: put_coll(
                    old(self)@.collections,
                    empty_coll(name@, opt_v(metadata)),
                ),
                ..old(self)@
            }),
            r@ == "Created collection: "@ + name@,
    {
        let fresh = CollectionData {
            name: name.to_owned(),
            metadata,
            documents: Vec::new(),
        };
        proof {
            assert(fresh@.documents =~= Seq::<DocM>::empty());
            assert(fresh@ =~= empty_coll(name@, opt_v(metadata)));
        }
        match self.find_coll(name) {
            Some(i) => {
                let ghost pre = self@;
                self.collections.set(i, fresh);
                proof {
                    assert(self@.collections =~= pre.collections.update(
                        coll_idx(pre.collections, name@),
                        empty_coll(name@, opt_v(metadata)),
                    )) by {
                        lemma_coll_idx_is(pre.collections, name@, i as int);
                        assert forall|k: int| 0 <= k < self@.collections.len() implies
                            self@.collections[k] == pre.collections.update(
                            i as int,
                            empty_coll(name@, opt_v(metadata)),
                        )[k] by {}
                    }
                    assert(self@ =~= StoreV {
                        collections: put_coll(
                            pre.collections,
                            empty_coll(name@, opt_v(metadata)),
                        ),
                        ..pre
                    });
                    lemma_put_coll_wf(pre, empty_coll(name@, opt_v(metadata)));
                }
            },
            None => {
                let ghost pre = self@;
                self.collections.push(fresh);
                proof {
                    assert(self@.collections =~= pre.collections.push(
                        empty_coll(name@, opt_v(metadata)),
                    ));
                    assert(self@ =~= StoreV {
                        collections: put_coll(
                            pre.collections,
                            empty_coll(name@, opt_v(metadata)),
                        ),
                        ..pre
                    });
                    lemma_put_coll_wf(pre, empty_coll(name@, opt_v(metadata)));
                }
            },
        }
        let msg = String::from_str("Created collection: ");
        vstd::string::StringExecFns::concat(msg, name)
    }

    /// Returns a handle to the named collection, creating it empty first
    /// when absent ("ensure" semantics).
    pub fn get_collection(&mut self, name: &str) -> (r: Collection)
        requires
            old(self).wf(),
        ensures
            final(self).wf(),
            r.name@ == name@,
            has_coll(old(self)@.collections, name@) ==> final(self)@ == old(self)@,
            !has_coll(old(self)@.collections, name@) ==> final(self)@ == (StoreV {
                collections: old(self)@.collections.push(empty_coll(name@, None)),
                ..old(self)@
            }),
            has_coll(final(self)@.collections, name@),
    {
        match self.find_coll(name) {
            Some(_) => {},
            None => {
                let ghost pre = self@;
                let fresh = CollectionData {
                    name: name.to_owned(),
                    metadata: None,
                    documents: Vec::new(),
                };
                proof {
                    assert(fresh@.documents =~= Seq::<DocM>::empty());
                    assert(fresh@ =~= empty_coll(name@, None));
                }
                self.collections.push(fresh);
                proof {
                    assert(self@.collections =~= pre.collections.push(empty_coll(name@, None)));
                    assert(self@ =~= StoreV {
                        collections: pre.collections.push(empty_coll(name@, None)),
                        ..pre
                    });
                    lemma_put_coll_wf(pre, empty_coll(name@, None));
                    assert(self@.collections[self@.collections.len() - 1].name == name@);
                }
            },
        }
        Collection { name: name.to_owned() }
    }

    /// Removes the named collection; doing nothing when it is absent.
    pub fn delete_collection(&mut self, name: &str)
        requires
            old(self).wf(),
        ensures
            final(self).wf(),
            final(self)@ == (StoreV {
                collections: drop_coll(old(self)@.collections, name@),
                ..old(self)@
            }),
            !has_coll(final(self)@.collections, name@),
    {
        let ghost pre = self@;
        match self.find_coll(name) {
            Some(i) => {
                self.collections.remove(i);
                proof {
                    lemma_coll_idx_is(pre.collections, name@, i as int);
                    assert(self@.collections =~= pre.collections.remove(i as int));
                    assert(self@ =~= StoreV {
                        collections: drop_coll(pre.collections, name@),
                        ..pre
                    });
                    lemma_drop_coll_wf(pre, name@);
                    assert forall|k: int| 0 <= k < self@.collections.len() implies (
                    #[trigger] self@.collections[k]).name != name@ by {
                        if k < i {
                            assert(self@.collections[k] == pre.collections[k]);
                            lemma_coll_names_unique(pre.collections, k, i as int);
                        } else {
                            assert(self@.collections[k] == pre.collections[k + 1]);
                            lemma_coll_names_unique(pre.collections, i as int, k + 1);
                        }
                    }
                }
            },
            None => {
                proof {
                    assert(self@ =~= StoreV {
                        collections: drop_coll(pre.collections, name@),
                        ..pre
                    });
                }
            },
        }
    }
}

/// In a well-formed store any index whose collection bears the name is the
/// index `coll_idx` denotes.
proof fn lemma_coll_idx_is(s: Seq<CollM>, name: Seq<char>, i: int)
    requires
        forall|a: int, b: int|
            0 <= a < b < s.len() ==> (#[trigger] s[a]).name != (#[trigger] s[b]).name,
        0 <= i < s.len(),
        s[i].name == name,
    ensures
        coll_idx(s, name) == i,
        has_coll(s, name),
{
    assert(has_coll(s, name));
    let j = coll_idx(s, name);
    if j < i {
        assert(s[j].name != s[i].name);
    } else if j > i {
        assert(s[i].name != s[j].name);
    }
}

/// Distinct indices bear distinct names.
proof fn lemma_coll_names_unique(s: Seq<CollM>, i: int, j: int)
    requires
        forall|a: int, b: int|
            0 <= a < b < s.len() ==> (#[trigger] s[a]).name != (#[trigger] s[b]).name,
        0 <= i < s.len(),
        0 <= j < s.len(),
        i != j,
    ensures
        s[i].name != s[j].name,
{
}

/// Replacing or appending a well-formed collection keeps the store
/// well-formed.
proof fn lemma_put_coll_wf(s: StoreV, c: CollM)
    requires
        store_wf(s),
        coll_wf(c),
        docs_fresh(c.documents, s.tick),
    ensures
        store_wf(StoreV { collections: put_coll(s.collections, c), ..s }),
{
    let r = put_coll(s.collections, c);
    if has_coll(s.collections, c.name) {
        let i = coll_idx(s.collections, c.name);
        assert(s.collections[i].name == c.name);
        assert forall|a: int, b: int| 0 <= a < b < r.len() implies (#[trigger] r[a]).name != (
        #[trigger] r[b]).name by {
            if a != i && b != i {
                assert(s.collections[a].name != s.collections[b].name);
            } else if a == i {
                assert(s.collections[i].name != s.collections[b].name);
            } else {
                assert(s.collections[a].name != s.collections[i].name);
            }
        }
    } else {
        assert forall|a: int, b: int| 0 <= a < b < r.len() implies (#[trigger] r[a]).name != (
        #[trigger] r[b]).name by {
            if b == r.len() - 1 {
                assert(r[b] == c);
                assert(!(s.collections[a].name == c.name));
            }
        }
    }
}

/// Removing a collection keeps the store well-formed.
proof fn lemma_drop_coll_wf(s: StoreV, name: Seq<char>)
    requires
        store_wf(s),
    ensures
        store_wf(StoreV { collections: drop_coll(s.collections, name), ..s }),
{
    if has_coll(s.collections, name) {
        let i = coll_idx(s.collections, name);
        let r = s.collections.remove(i);
        assert forall|a: int, b: int| 0 <= a < b < r.len() implies (#[trigger] r[a]).name != (
        #[trigger] r[b]).name by {
            let a0 = if a < i {
                a
            } else {
                a + 1
            };
            let b0 = if b < i {
                b
            } else {
                b + 1
            };
            assert(r[a] == s.collections[a0]);
            assert(r[b] == s.collections[b0]);
            assert(s.collections[a0].name != s.collections[b0].name);
        }
        assert forall|k: int| 0 <= k < r.len() implies coll_wf(#[trigger] r[k]) by {
            if k < i {
                assert(r[k] == s.collections[k]);
            } else {
                assert(r[k] == s.collections[k + 1]);
            }
        }
    }
}

/// A handle naming a collection; every operation re-resolves the name
/// against the store it is handed.
#[derive(Debug)]
pub struct Collection {
    pub name: String,
}

/// Builds a client with the default connection settings and an empty store.
pub fn get_client() -> (r: ChromaClient)
    ensures
        r@.host == "localhost"@,
        r@.port == 8000,
        r@.username is None,
        r@.password is None,
        r@.collections == Seq::<CollM>::empty(),
        r@.tick == 0,
        r.wf(),
{
    ChromaClient::new("localhost", 8000, None, None)
}

/// The documents hold one with this id.
pub open spec fn has_doc(docs: Seq<DocM>, id: Seq<char>) -> bool {
    exists|i: int| 0 <= i < docs.len() && (#[trigger] docs[i]).id == id
}

/// The index of the document with this id.
pub open spec fn doc_idx(docs: Seq<DocM>, id: Seq<char>) -> int {
    choose|i: int| 0 <= i < docs.len() && (#[trigger] docs[i]).id == id
}

/// The documents with `d` replacing its namesake in place, or appended.
pub open spec fn put_doc(docs: Seq<DocM>, d: DocM) -> Seq<DocM> {
    if has_doc(docs, d.id) {
        docs.update(doc_idx(docs, d.id), d)
    } else {
        docs.push(d)
    }
}

/// A vector clamped to the stored-embedding bounds: at most `DIM_MAX`
/// components, each within `COMP_MAX` in magnitude.
pub open spec fn clamp_comp_i64(x: i64) -> i64 {
    if x > crate::vector::COMP_MAX {
        crate::vector::COMP_MAX
    } else if x < -crate::vector::COMP_MAX {
        (-1000000) as i64
    } else {
        x
    }
}

/// See [`clamp_comp_i64`].
pub open spec fn clamp_emb(v: Seq<i64>) -> Seq<i64> {
    Seq::new(
        if v.len() > crate::vector::DIM_MAX {
            crate::vector::DIM_MAX as nat
        } else {
            v.len()
        },
        |i: int| clamp_comp_i64(v[i]),
    )
}

/// The id a document gets when the caller supplied none for its index.
pub open spec fn default_id(i: int) -> Seq<char> {
    "doc_"@ + crate::num::dec_rep(i as nat)
}

/// The model of the optional per-document metadata arguments.
pub open spec fn metas_v(m: Option<Vec<Json>>) -> Option<Seq<JsonV>> {
    match m {
        Some(v) => Some(Seq::new(v@.len(), |i: int| v@[i].v())),
        None => None,
    }
}

/// The model of the optional per-document embedding arguments.
pub open spec fn embs_v(e: Option<Vec<Vec<i64>>>) -> Option<Seq<Seq<i64>>> {
    match e {
        Some(v) => Some(Seq::new(v@.len(), |i: int| v@[i]@)),
        None => None,
    }
}

/// The element of an optional argument sequence used at index `i`, if any.
pub open spec fn opt_at<A>(s: Option<Seq<A>>, i: int) -> Option<A> {
    match s {
        Some(v) => if 0 <= i < v.len() {
            Some(v[i])
        } else {
            None
        },
        None => None,
    }
}

/// The document that `add` writes for index `i` at instant `now`.
pub open spec fn add_doc_m(
    contents: Seq<Seq<char>>,
    embs: Option<Seq<Seq<i64>>>,
    metas: Option<Seq<JsonV>>,
    ids: Seq<Seq<char>>,
    i: int,
    now: int,
) -> DocM {
    DocM {
        id: if i < ids.len() {
            ids[i]
        } else {
            default_id(i)
        },
        content: contents[i],
        metadata: match opt_at(metas, i) {
            Some(m) => m,
            None => JsonV::Obj(Seq::empty()),
        },
        embedding: match opt_at(embs, i) {
            Some(e) => clamp_emb(e),
            None => crate::embed::embed_spec(contents[i]),
        },
        created_at: now,
        updated_at: now,
    }
}

/// The documents after the first `n` entries of an `add` call.
pub open spec fn add_fold(
    docs: Seq<DocM>,
    contents: Seq<Seq<char>>,
    embs: Option<Seq<Seq<i64>>>,
    metas: Option<Seq<JsonV>>,
    ids: Seq<Seq<char>>,
    now: int,
    n: int,
) -> Seq<DocM>
    decreases n,
{
    if n <= 0 {
        docs
    } else {
        put_doc(
            add_fold(docs, contents, embs, metas, ids, now, n - 1),
            add_doc_m(contents, embs, metas, ids, n - 1, now),
        )
    }
}

/// How many of the first `n` entries of an `add` call insert a fresh
/// document: those whose id is neither already present nor repeated from
/// an earlier entry of the same call.
pub open spec fn fresh_distinct_count(docs: Seq<DocM>, ids: Seq<Seq<char>>, n: int) -> int
    decreases n,
{
    if n <= 0 {
        0
    } else {
        fresh_distinct_count(docs, ids, n - 1) + if !has_doc(docs, ids[n - 1]) && (forall|k: int|
            0 <= k < n - 1 ==> #[trigger] ids[k] != ids[n - 1]) {
            1int
        } else {
            0int
        }
    }
}

/// One document after an `update` entry touched it.
pub open spec fn upd_doc(
    d: DocM,
    meta: Option<JsonV>,
    content: Option<Seq<char>>,
    emb: Option<Seq<i64>>,
    now: int,
) -> DocM {
    let d1 = DocM {
        metadata: match meta {
            Some(m) => m,
            None => d.metadata,
        },
        ..d
    };
    let d2 = match content {
        Some(c) => DocM { content: c, embedding: crate::embed::embed_spec(c), ..d1 },
        None => d1,
    };
    let d3 = match emb {
        Some(e) => DocM { embedding: clamp_emb(e), ..d2 },
        None => d2,
    };
    DocM { updated_at: now, ..d3 }
}

/// The documents after the first `n` entries of an `update` call; ids not
/// present are skipped.
pub open spec fn upd_fold(
    docs: Seq<DocM>,
    ids: Seq<Seq<char>>,
    metas: Option<Seq<JsonV>>,
    contents: Option<Seq<Seq<char>>>,
    embs: Option<Seq<Seq<i64>>>,
    now: int,
    n: int,
) -> Seq<DocM>
    decreases n,
{
    if n <= 0 {
        docs
    } else {
        let prev = upd_fold(docs, ids, metas, contents, embs, now, n - 1);
        if has_doc(prev, ids[n - 1]) {
            prev.update(
                doc_idx(prev, ids[n - 1]),
                upd_doc(
                    prev[doc_idx(prev, ids[n - 1])],
                    opt_at(metas, n - 1),
                    opt_at(contents, n - 1),
                    opt_at(embs, n - 1),
                    now,
                ),
            )
        } else {
            prev
        }
    }
}

/// The documents after the first `n` entries of a `delete` call; absent ids
/// are no error.
pub open spec fn del_fold(docs: Seq<DocM>, ids: Seq<Seq<char>>, n: int) -> Seq<DocM>
    decreases n,
{
    if n <= 0 {
        docs
    } else {
        let prev = del_fold(docs, ids, n - 1);
        if has_doc(prev, ids[n - 1]) {
            prev.remove(doc_idx(prev, ids[n - 1]))
        } else {
            prev
        }
    }
}

/// In documents with distinct ids, any index bearing the id is the one
/// `doc_idx` denotes.
pub proof fn lemma_doc_idx_is(docs: Seq<DocM>, id: Seq<char>, i: int)
    requires
        forall|a: int, b: int|
            0 <= a < b < docs.len() ==> (#[trigger] docs[a]).id != (#[trigger] docs[b]).id,
        0 <= i < docs.len(),
        docs[i].id == id,
    ensures
        doc_idx(docs, id) == i,
        has_doc(docs, id),
{
    assert(has_doc(docs, id));
    let j = doc_idx(docs, id);
    if j < i {
        assert(docs[j].id != docs[i].id);
    } else if j > i {
        assert(docs[i].id != docs[j].id);
    }
}

/// Putting a well-formed document keeps a collection's documents
/// well-formed.
pub proof fn lemma_put_doc_wf(c: CollM, d: DocM)
    requires
        coll_wf(c),
        doc_wf(d),
    ensures
        coll_wf(CollM { documents: put_doc(c.documents, d), ..c }),
        put_doc(c.documents, d).len() == if has_doc(c.documents, d.id) {
            c.documents.len()
        } else {
            c.documents.len() + 1
        },
{
    let docs = c.documents;
    let r = put_doc(docs, d);
    if has_doc(docs, d.id) {
        let i = doc_idx(docs, d.id);
        assert(docs[i].id == d.id);
        assert forall|a: int, b: int| 0 <= a < b < r.len() implies (#[trigger] r[a]).id != (
        #[trigger] r[b]).id by {
            if a != i && b != i {
                assert(docs[a].id != docs[b].id);
            } else if a == i {
                assert(docs[i].id != docs[b].id);
            } else {
                assert(docs[a].id != docs[i].id);
            }
        }
    } else {
        assert forall|a: int, b: int| 0 <= a < b < r.len() implies (#[trigger] r[a]).id != (
        #[trigger] r[b]).id by {
            if b == r.len() - 1 {
                assert(r[b] == d);
                assert(!(docs[a].id == d.id));
            }
        }
    }
}

/// The update fold keeps a collection's documents well-formed.
pub proof fn lemma_upd_fold_wf(
    c: CollM,
    ids: Seq<Seq<char>>,
    metas: Option<Seq<JsonV>>,
    contents: Option<Seq<Seq<char>>>,
    embs: Option<Seq<Seq<i64>>>,
    now: int,
    n: int,
)
    requires
        coll_wf(c),
        now >= 0,
        docs_fresh(c.documents, now),
        forall|i: int, e: Seq<i64>|
            opt_at(embs, i) == Some(e) ==> emb_ok(clamp_emb(e)),
        forall|i: int, t: Seq<char>|
            opt_at(contents, i) == Some(t) ==> emb_ok(crate::embed::embed_spec(t)),
    ensures
        coll_wf(
            CollM { documents: upd_fold(c.documents, ids, metas, contents, embs, now, n), ..c },
        ),
        upd_fold(c.documents, ids, metas, contents, embs, now, n).len() == c.documents.len(),
        docs_fresh(upd_fold(c.documents, ids, metas, contents, embs, now, n), now),
    decreases n,
{
    if n > 0 {
        lemma_upd_fold_wf(c, ids, metas, contents, embs, now, n - 1);
        let prev = upd_fold(c.documents, ids, metas, contents, embs, now, n - 1);
        if has_doc(prev, ids[n - 1]) {
            let i = doc_idx(prev, ids[n - 1]);
            let d2 = upd_doc(
                prev[i],
                opt_at(metas, n - 1),
                opt_at(contents, n - 1),
                opt_at(embs, n - 1),
                now,
            );
            assert(d2.id == prev[i].id);
            let r = prev.update(i, d2);
            assert forall|a: int, b: int| 0 <= a < b < r.len() implies (#[trigger] r[a]).id != (
            #[trigger] r[b]).id by {
                assert(prev[a].id != prev[b].id);
            }
            assert(doc_wf(d2)) by {
                assert(doc_wf(prev[i]));
            }
        }
    }
}

/// The delete fold keeps a collection's documents well-formed.
pub proof fn lemma_del_fold_wf(c: CollM, ids: Seq<Seq<char>>, t: int, n: int)
    requires
        coll_wf(c),
        docs_fresh(c.documents, t),
    ensures
        coll_wf(CollM { documents: del_fold(c.documents, ids, n), ..c }),
        del_fold(c.documents, ids, n).len() <= c.documents.len(),
        docs_fresh(del_fold(c.documents, ids, n), t),
    decreases n,
{
    if n > 0 {
        lemma_del_fold_wf(c, ids, t, n - 1);
        let prev = del_fold(c.documents, ids, n - 1);
        if has_doc(prev, ids[n - 1]) {
            let i = doc_idx(prev, ids[n - 1]);
            let r = prev.remove(i);
            assert forall|a: int, b: int| 0 <= a < b < r.len() implies (#[trigger] r[a]).id != (
            #[trigger] r[b]).id by {
                let a0 = if a < i { a } else { a + 1 };
                let b0 = if b < i { b } else { b + 1 };
                assert(r[a] == prev[a0]);
                assert(r[b] == prev[b0]);
                assert(prev[a0].id != prev[b0].id);
            }
            assert forall|k: int| 0 <= k < r.len() implies doc_wf(#[trigger] r[k]) by {
                if k < i {
                    assert(r[k] == prev[k]);
                } else {
                    assert(r[k] == prev[k + 1]);
                }
            }
        }
    }
}

/// The add fold keeps a collection's documents well-formed.
pub proof fn lemma_add_fold_wf(
    c: CollM,
    contents: Seq<Seq<char>>,
    embs: Option<Seq<Seq<i64>>>,
    metas: Option<Seq<JsonV>>,
    ids: Seq<Seq<char>>,
    now: int,
    n: int,
)
    requires
        coll_wf(c),
        now >= 0,
        n <= contents.len(),
        docs_fresh(c.documents, now),
        forall|t: Seq<char>| emb_ok(#[trigger] crate::embed::embed_spec(t)),
        forall|e: Seq<i64>| emb_ok(#[trigger] clamp_emb(e)),
    ensures
        coll_wf(
            CollM { documents: add_fold(c.documents, contents, embs, metas, ids, now, n), ..c },
        ),
        docs_fresh(add_fold(c.documents, contents, embs, metas, ids, now, n), now),
    decreases n,
{
    if n > 0 {
        lemma_add_fold_wf(c, contents, embs, metas, ids, now, n - 1);
        let prev = add_fold(c.documents, contents, embs, metas, ids, now, n - 1);
        let d = add_doc_m(contents, embs, metas, ids, n - 1, now);
        assert(doc_wf(d));
        lemma_put_doc_wf(CollM { documents: prev, ..c }, d);
    }
}

/// Every clamped vector is a well-formed embedding.
pub proof fn lemma_clamp_emb_ok(e: Seq<i64>)
    ensures
        emb_ok(clamp_emb(e)),
{
}

/// Every synthesized embedding is well-formed.
pub proof fn lemma_embed_spec_ok(t: Seq<char>)
    ensures
        emb_ok(crate::embed::embed_spec(t)),
{
    crate::embed::lemma_embed_spec_bounds(t);
}

impl Collection {
    /// The number of documents in the named collection; zero when it is
    /// absent.
    pub fn count(&self, store: &ChromaClient) -> (r: usize)
        requires
            store.wf(),
        ensures
            r == docs_of(store@.collections, self.name@).len(),
    {
        match store.find_coll(self.name.as_str()) {
            Some(ci) => {
                proof {
                    lemma_coll_idx_is(store@.collections, self.name@, ci as int);
                }
                store.collections[ci].documents.len()
            },
            None => 0,
        }
    }

    /// Removes each listed id from the named collection; absent ids and an
    /// absent collection are no error.
    pub fn delete(&self, store: &mut ChromaClient, ids: Vec<String>)
        requires
            old(store).wf(),
        ensures
            final(store).wf(),
            !has_coll(old(store)@.collections, self.name@) ==> final(store)@ == old(store)@,
            has_coll(old(store)@.collections, self.name@) ==> final(store)@ == (StoreV {
                collections: old(store)@.collections.update(
                    coll_idx(old(store)@.collections, self.name@),
                    (CollM {
                        documents: del_fold(
                            coll_at(old(store)@.collections, self.name@).documents,
                            ids.deep_view(),
                            ids@.len() as int,
                        ),
                        ..coll_at(old(store)@.collections, self.name@)
                    }),
                ),
                ..old(store)@
            }),
    {
        let ghost pre = store@;
        match store.find_coll(self.name.as_str()) {
            Some(ci) => {
                proof {
                    lemma_coll_idx_is(pre.collections, self.name@, ci as int);
                }
                let mut cd = store.collections.remove(ci);
                let ghost coll0 = cd@;
                del_docs(&mut cd.documents, &ids);
                proof {
                    assert(cd@ =~= (CollM {
                        documents: del_fold(coll0.documents, ids.deep_view(), ids@.len() as int),
                        ..coll0
                    }));
                }
                store.collections.insert(ci, cd);
                proof {
                    assert(store@.collections =~= pre.collections.update(ci as int, cd@));
                    assert(store@ =~= (StoreV {
                        collections: pre.collections.update(ci as int, cd@),
                        ..pre
                    }));
                    lemma_del_fold_wf(coll0, ids.deep_view(), pre.tick, ids@.len() as int);
                    assert forall|a: int, b: int|
                        0 <= a < b < store@.collections.len() implies (
                    #[trigger] store@.collections[a]).name != (
                    #[trigger] store@.collections[b]).name by {
                        assert(pre.collections[a].name != pre.collections[b].name);
                    }
                }
            },
            None => {},
        }
    }

    /// Replaces the collection metadata when new metadata is supplied. A new
    /// name is accepted but does not rename: the collection keeps its key.
    pub fn modify(&self, store: &mut ChromaClient, _name: Option<String>, metadata: Option<
        Json>)
        requires
            old(store).wf(),
        ensures
            final(store).wf(),
            !has_coll(old(store)@.collections, self.name@) || metadata is None ==> final(store)@
                == old(store)@,
            has_coll(old(store)@.collections, self.name@) && metadata is Some ==> final(store)@
                == (StoreV {
                collections: old(store)@.collections.update(
                    coll_idx(old(store)@.collections, self.name@),
                    (CollM {
                        metadata: opt_v(metadata),
                        ..coll_at(old(store)@.collections, self.name@)
                    }),
                ),
                ..old(store)@
            }),
    {
        let ghost pre = store@;
        match store.find_coll(self.name.as_str()) {
            Some(ci) => {
                proof {
                    lemma_coll_idx_is(pre.collections, self.name@, ci as int);
                }
                match metadata {
                    Some(m) => {
                        let mut cd = store.collections.remove(ci);
                        let ghost coll0 = cd@;
                        cd.metadata = Some(m);
                        proof {
                            assert(cd@ =~= (CollM { metadata: opt_v(Some(m)), ..coll0 }));
                        }
                        store.collections.insert(ci, cd);
                        proof {
                            assert(store@.collections =~= pre.collections.update(
                                ci as int,
                                cd@,
                            ));
                            assert(store@ =~= (StoreV {
                                collections: pre.collections.update(ci as int, cd@),
                                ..pre
                            }));
                            assert forall|a: int, b: int|
                                0 <= a < b < store@.collections.len() implies (
                            #[trigger] store@.collections[a]).name != (
                            #[trigger] store@.collections[b]).name by {
                                assert(pre.collections[a].name != pre.collections[b].name);
                            }
                        }
                    },
                    None => {},
                }
            },
            None => {},
        }
    }
}

/// Removes each listed id from the documents.
fn del_docs(docs: &mut Vec<Document>, ids: &Vec<String>)
    requires
        forall|a: int, b: int|
            0 <= a < b < docs_v(old(docs)@).len() ==> (#[trigger] docs_v(old(docs)@)[a]).id != (
            #[trigger] docs_v(old(docs)@)[b]).id,
    ensures
        docs_v(final(docs)@) == del_fold(docs_v(old(docs)@), ids.deep_view(), ids@.len() as int),
{
    let ghost docs0 = docs_v(docs@);
    let n = ids.len();
    let mut k: usize = 0;
    while k < n
        invariant
            k <= n,
            n == ids.len(),
            docs_v(docs@) == del_fold(docs0, ids.deep_view(), k as int),
            forall|a: int, b: int|
                0 <= a < b < docs_v(docs@).len() ==> (#[trigger] docs_v(docs@)[a]).id != (
                #[trigger] docs_v(docs@)[b]).id,
        decreases n - k,
    {
        let ghost prev = docs_v(docs@);
        match find_doc(docs, ids[k].as_str()) {
            Some(di) => {
                proof {
                    lemma_doc_idx_is(prev, ids@[k as int]@, di as int);
                    assert(ids.deep_view()[k as int] == ids@[k as int]@);
                }
                docs.remove(di);
                proof {
                    assert(docs_v(docs@) =~= prev.remove(di as int));
                    assert forall|a: int, b: int|
                        0 <= a < b < docs_v(docs@).len() implies (
                    #[trigger] docs_v(docs@)[a]).id != (#[trigger] docs_v(docs@)[b]).id by {
                        let a0 = if a < di { a } else { a + 1 };
                        let b0 = if b < di { b } else { b + 1 };
                        assert(docs_v(docs@)[a] == prev[a0]);
                        assert(docs_v(docs@)[b] == prev[b0]);
                        assert(prev[a0].id != prev[b0].id);
                    }
                }
            },
            None => {
                proof {
                    assert(ids.deep_view()[k as int] == ids@[k as int]@);
                }
            },
        }
        k = k + 1;
    }
}

/// Finds the index of the document with this id.
fn find_doc(docs: &Vec<Document>, id: &str) -> (r: Option<usize>)
    ensures
        match r {
            Some(i) => 0 <= i < docs_v(docs@).len() && docs_v(docs@)[i as int].id == id@
                && has_doc(docs_v(docs@), id@),
            None => !has_doc(docs_v(docs@), id@),
        },
{
    let n = docs.len();
    let mut i: usize = 0;
    while i < n
        invariant
            i <= n,
            n == docs.len(),
            forall|j: int| 0 <= j < i ==> (#[trigger] docs_v(docs@)[j]).id != id@,
        decreases n - i,
    {
        if crate::text::str_eq(docs[i].id.as_str(), id) {
            proof {
                assert(docs_v(docs@)[i as int].id == id@);
            }
            return Some(i);
        }
        i = i + 1;
    }
    None
}

/// Clamps a caller-supplied vector to the stored-embedding bounds.
fn clamp_vec(v: &Vec<i64>) -> (r: Vec<i64>)
    ensures
        r@ == clamp_emb(v@),
{
    let n = if v.len() > crate::vector::DIM_MAX {
        crate::vector::DIM_MAX
    } else {
        v.len()
    };
    let mut r: Vec<i64> = Vec::with_capacity(n);
    let mut i: usize = 0;
    while i < n
        invariant
            i <= n,
            n <= v.len(),
            n == clamp_emb(v@).len(),
            r@.len() == i,
            forall|j: int| 0 <= j < i ==> r@[j] == #[trigger] clamp_emb(v@)[j],
        decreases n - i,
    {
        let x = v[i];
        let c: i64 = if x > 1000000 {
            1000000
        } else if x < -1000000 {
            -1000000
        } else {
            x
        };
        r.push(c);
        i = i + 1;
    }
    proof {
        assert(r@ =~= clamp_emb(v@));
    }
    r
}

/// Writes one `add` entry into the documents.
fn add_docs(
    docs: &mut Vec<Document>,
    contents: &Vec<String>,
    embeddings: &Option<Vec<Vec<i64>>>,
    metadatas: &Option<Vec<Json>>,
    ids: &Vec<String>,
    now: u64,
)
    requires
        forall|a: int, b: int|
            0 <= a < b < docs_v(old(docs)@).len() ==> (#[trigger] docs_v(old(docs)@)[a]).id != (
            #[trigger] docs_v(old(docs)@)[b]).id,
    ensures
        docs_v(final(docs)@) == add_fold(
            docs_v(old(docs)@),
            contents.deep_view(),
            embs_v(*embeddings),
            metas_v(*metadatas),
            ids.deep_view(),
            now as int,
            contents@.len() as int,
        ),
{
    let ghost docs0 = docs_v(docs@);
    let ghost contents_s = contents.deep_view();
    let ghost embs_s = embs_v(*embeddings);
    let ghost metas_s = metas_v(*metadatas);
    let ghost ids_s = ids.deep_view();
    let n = contents.len();
    let mut k: usize = 0;
    while k < n
        invariant
            k <= n,
            n == contents.len(),
            contents_s == contents.deep_view(),
            embs_s == embs_v(*embeddings),
            metas_s == metas_v(*metadatas),
            ids_s == ids.deep_view(),
            docs_v(docs@) == add_fold(docs0, contents_s, embs_s, metas_s, ids_s, now as int, k as int),
            forall|a: int, b: int|
                0 <= a < b < docs_v(docs@).len() ==> (#[trigger] docs_v(docs@)[a]).id != (
                #[trigger] docs_v(docs@)[b]).id,
        decreases n - k,
    {
        let ghost prev = docs_v(docs@);
        let idstr: String = if k < ids.len() {
            crate::json::clone_string(&ids[k])
        } else {
            let stem = String::from_str("doc_");
            let digits = crate::num::u64_to_string(k as u64);
            vstd::string::StringExecFns::concat(stem, digits.as_str())
        };
        proof {
            if k < ids@.len() {
                assert(ids_s[k as int] == ids@[k as int]@);
            }
        }
        let content = crate::json::clone_string(&contents[k]);
        proof {
            assert(contents_s[k as int] == contents@[k as int]@);
        }
        let metadata: Json = match metadatas {
            Some(ms) => if k < ms.len() {
                ms[k].deep_clone()
            } else {
                crate::json::empty_obj()
            },
            None => crate::json::empty_obj(),
        };
        let embedding: Vec<i64> = match embeddings {
            Some(es) => if k < es.len() {
                clamp_vec(&es[k])
            } else {
                crate::embed::embed(content.as_str())
            },
            None => crate::embed::embed(content.as_str()),
        };
        let doc = Document {
            id: idstr,
            content,
            metadata,
            embedding,
            created_at: now,
            updated_at: now,
        };
        proof {
            assert(doc@ =~= add_doc_m(contents_s, embs_s, metas_s, ids_s, k as int, now as int));
        }
        match find_doc(docs, doc.id.as_str()) {
            Some(di) => {
                proof {
                    lemma_doc_idx_is(prev, doc@.id, di as int);
                }
                docs.set(di, doc);
                proof {
                    assert(docs_v(docs@) =~= prev.update(di as int, add_doc_m(contents_s, embs_s, metas_s, ids_s, k as int, now as int)));
                }
            },
            None => {
                docs.push(doc);
                proof {
                    assert(docs_v(docs@) =~= prev.push(add_doc_m(contents_s, embs_s, metas_s, ids_s, k as int, now as int)));
                }
            },
        }
        proof {
            let d = add_doc_m(contents_s, embs_s, metas_s, ids_s, k as int, now as int);
            assert(docs_v(docs@) =~= put_doc(prev, d));
            lemma_put_doc_keeps_unique(prev, d);
        }
        k = k + 1;
    }
}

/// `put_doc` keeps ids distinct.
proof fn lemma_put_doc_keeps_unique(docs: Seq<DocM>, d: DocM)
    requires
        forall|a: int, b: int|
            0 <= a < b < docs.len() ==> (#[trigger] docs[a]).id != (#[trigger] docs[b]).id,
    ensures
        forall|a: int, b: int|
            0 <= a < b < put_doc(docs, d).len() ==> (#[trigger] put_doc(docs, d)[a]).id != (
            #[trigger] put_doc(docs, d)[b]).id,
{
    let r = put_doc(docs, d);
    if has_doc(docs, d.id) {
        let i = doc_idx(docs, d.id);
        assert(docs[i].id == d.id);
        assert forall|a: int, b: int| 0 <= a < b < r.len() implies (#[trigger] r[a]).id != (
        #[trigger] r[b]).id by {
            if a != i && b != i {
                assert(docs[a].id != docs[b].id);
            } else if a == i {
                assert(docs[i].id != docs[b].id);
            } else {
                assert(docs[a].id != docs[i].id);
            }
        }
    } else {
        assert forall|a: int, b: int| 0 <= a < b < r.len() implies (#[trigger] r[a]).id != (
        #[trigger] r[b]).id by {
            if b == r.len() - 1 {
                assert(r[b] == d);
                assert(!(docs[a].id == d.id));
            }
        }
    }
}

/// Writes the `update` entries into the documents.
fn upd_docs(
    docs: &mut Vec<Document>,
    ids: &Vec<String>,
    embeddings: &Option<Vec<Vec<i64>>>,
    metadatas: &Option<Vec<Json>>,
    contents: &Option<Vec<String>>,
    now: u64,
)
    requires
        forall|a: int, b: int|
            0 <= a < b < docs_v(old(docs)@).len() ==> (#[trigger] docs_v(old(docs)@)[a]).id != (
            #[trigger] docs_v(old(docs)@)[b]).id,
    ensures
        docs_v(final(docs)@) == upd_fold(
            docs_v(old(docs)@),
            ids.deep_view(),
            metas_v(*metadatas),
            opt_deep(*contents),
            embs_v(*embeddings),
            now as int,
            ids@.len() as int,
        ),
{
    let ghost docs0 = docs_v(docs@);
    let ghost ids_s = ids.deep_view();
    let ghost metas_s = metas_v(*metadatas);
    let ghost contents_s = opt_deep(*contents);
    let ghost embs_s = embs_v(*embeddings);
    let n = ids.len();
    let mut k: usize = 0;
    while k < n
        invariant
            k <= n,
            n == ids.len(),
            ids_s == ids.deep_view(),
            metas_s == metas_v(*metadatas),
            contents_s == opt_deep(*contents),
            embs_s == embs_v(*embeddings),
            docs_v(docs@) == upd_fold(docs0, ids_s, metas_s, contents_s, embs_s, now as int, k as int),
            forall|a: int, b: int|
                0 <= a < b < docs_v(docs@).len() ==> (#[trigger] docs_v(docs@)[a]).id != (
                #[trigger] docs_v(docs@)[b]).id,
        decreases n - k,
    {
        let ghost prev = docs_v(docs@);
        proof {
            assert(ids_s[k as int] == ids@[k as int]@);
        }
        match find_doc(docs, ids[k].as_str()) {
            Some(di) => {
                proof {
                    lemma_doc_idx_is(prev, ids_s[k as int], di as int);
                }
                let mut d = docs.remove(di);
                let ghost d0 = d@;
                match metadatas {
                    Some(ms) => if k < ms.len() {
                        d.metadata = ms[k].deep_clone();
                    },
                    None => {},
                }
                match contents {
                    Some(cs) => if k < cs.len() {
                        d.content = crate::json::clone_string(&cs[k]);
                        d.embedding = crate::embed::embed(d.content.as_str());
                    },
                    None => {},
                }
                match embeddings {
                    Some(es) => if k < es.len() {
                        d.embedding = clamp_vec(&es[k]);
                    },
                    None => {},
                }
                d.updated_at = now;
                proof {
                    assert(d@ =~= upd_doc(
                        d0,
                        opt_at(metas_s, k as int),
                        opt_at(contents_s, k as int),
                        opt_at(embs_s, k as int),
                        now as int,
                    ));
                }
                docs.insert(di, d);
                proof {
                    let d2 = upd_doc(
                        prev[di as int],
                        opt_at(metas_s, k as int),
                        opt_at(contents_s, k as int),
                        opt_at(embs_s, k as int),
                        now as int,
                    );
                    assert(docs_v(docs@) =~= prev.update(di as int, d2));
                    assert forall|a: int, b: int|
                        0 <= a < b < docs_v(docs@).len() implies (
                    #[trigger] docs_v(docs@)[a]).id != (#[trigger] docs_v(docs@)[b]).id by {
                        assert(prev[a].id != prev[b].id);
                        assert(d2.id == prev[di as int].id);
                    }
                }
            },
            None => {},
        }
        k = k + 1;
    }
}

/// The model of an optional list of strings.
pub open spec fn opt_deep(s: Option<Vec<String>>) -> Option<Seq<Seq<char>>> {
    match s {
        Some(v) => Some(v.deep_view()),
        None => None,
    }
}

impl Collection {
    /// Inserts one document per entry of `documents`; an existing id is
    /// overwritten in place. Embeddings left unsupplied are synthesized from
    /// the content; supplied ones are stored (clamped to the component
    /// bounds). Metadata defaults to the empty object, ids to `doc_<index>`.
    /// All entries of one call share one instant of the logical clock.
    pub fn add(
        &self,
        store: &mut ChromaClient,
        documents: Vec<String>,
        embeddings: Option<Vec<Vec<i64>>>,
        metadatas: Option<Vec<Json>>,
        ids: Vec<String>,
    )
        requires
            old(store).wf(),
        ensures
            final(store).wf(),
            !has_coll(old(store)@.collections, self.name@) ==> final(store)@ == old(store)@,
            has_coll(old(store)@.collections, self.name@) ==> final(store)@ == (StoreV {
                collections: old(store)@.collections.update(
                    coll_idx(old(store)@.collections, self.name@),
                    (CollM {
                        documents: add_fold(
                            coll_at(old(store)@.collections, self.name@).documents,
                            documents.deep_view(),
                            embs_v(embeddings),
                            metas_v(metadatas),
                            ids.deep_view(),
                            old(store)@.tick,
                            documents@.len() as int,
                        ),
                        ..coll_at(old(store)@.collections, self.name@)
                    }),
                ),
                tick: next_tick(old(store)@.tick),
                ..old(store)@
            }),
    {
        let ghost pre = store@;
        match store.find_coll(self.name.as_str()) {
            Some(ci) => {
                proof {
                    lemma_coll_idx_is(pre.collections, self.name@, ci as int);
                }
                let now = store.tick;
                let mut cd = store.collections.remove(ci);
                let ghost coll0 = cd@;
                add_docs(&mut cd.documents, &documents, &embeddings, &metadatas, &ids, now);
                store.collections.insert(ci, cd);
                store.tick = if store.tick < 0xFFFF_FFFF_FFFF_FFFF {
                    store.tick + 1
                } else {
                    store.tick
                };
                proof {
                    let newdocs = add_fold(
                        coll0.documents,
                        documents.deep_view(),
                        embs_v(embeddings),
                        metas_v(metadatas),
                        ids.deep_view(),
                        pre.tick,
                        documents@.len() as int,
                    );
                    assert(store@.collections =~= pre.collections.update(
                        ci as int,
                        (CollM { documents: newdocs, ..coll0 }),
                    ));
                    assert(store@ =~= (StoreV {
                        collections: pre.collections.update(
                            ci as int,
                            (CollM { documents: newdocs, ..coll0 }),
                        ),
                        tick: next_tick(pre.tick),
                        ..pre
                    }));
                    assert forall|t: Seq<char>|
                        emb_ok(#[trigger] crate::embed::embed_spec(t)) by {
                        lemma_embed_spec_ok(t);
                    }
                    lemma_add_fold_wf(
                        coll0,
                        documents.deep_view(),
                        embs_v(embeddings),
                        metas_v(metadatas),
                        ids.deep_view(),
                        pre.tick,
                        documents@.len() as int,
                    );
                    assert forall|a: int, b: int|
                        0 <= a < b < store@.collections.len() implies (
                    #[trigger] store@.collections[a]).name != (
                    #[trigger] store@.collections[b]).name by {
                        assert(pre.collections[a].name != pre.collections[b].name);
                    }
                }
            },
            None => {},
        }
    }

    /// Updates each listed id that exists; missing ids are silently
    /// skipped. New content recomputes the embedding; an explicitly
    /// supplied embedding wins over the recomputed one.
    pub fn update(
        &self,
        store: &mut ChromaClient,
        ids: Vec<String>,
        embeddings: Option<Vec<Vec<i64>>>,
        metadatas: Option<Vec<Json>>,
        documents: Option<Vec<String>>,
    )
        requires
            old(store).wf(),
        ensures
            final(store).wf(),
            !has_coll(old(store)@.collections, self.name@) ==> final(store)@ == old(store)@,
            has_coll(old(store)@.collections, self.name@) ==> final(store)@ == (StoreV {
                collections: old(store)@.collections.update(
                    coll_idx(old(store)@.collections, self.name@),
                    (CollM {
                        documents: upd_fold(
                            coll_at(old(store)@.collections, self.name@).documents,
                            ids.deep_view(),
                            metas_v(metadatas),
                            opt_deep(documents),
                            embs_v(embeddings),
                            old(store)@.tick,
                            ids@.len() as int,
                        ),
                        ..coll_at(old(store)@.collections, self.name@)
                    }),
                ),
                tick: next_tick(old(store)@.tick),
                ..old(store)@
            }),
    {
        let ghost pre = store@;
        match store.find_coll(self.name.as_str()) {
            Some(ci) => {
                proof {
                    lemma_coll_idx_is(pre.collections, self.name@, ci as int);
                }
                let now = store.tick;
                let mut cd = store.collections.remove(ci);
                let ghost coll0 = cd@;
                upd_docs(&mut cd.documents, &ids, &embeddings, &metadatas, &documents, now);
                store.collections.insert(ci, cd);
                store.tick = if store.tick < 0xFFFF_FFFF_FFFF_FFFF {
                    store.tick + 1
                } else {
                    store.tick
                };
                proof {
                    let newdocs = upd_fold(
                        coll0.documents,
                        ids.deep_view(),
                        metas_v(metadatas),
                        opt_deep(documents),
                        embs_v(embeddings),
                        pre.tick,
                        ids@.len() as int,
                    );
                    assert(store@.collections =~= pre.collections.update(
                        ci as int,
                        (CollM { documents: newdocs, ..coll0 }),
                    ));
                    assert(store@ =~= (StoreV {
                        collections: pre.collections.update(
                            ci as int,
                            (CollM { documents: newdocs, ..coll0 }),
                        ),
                        tick: next_tick(pre.tick),
                        ..pre
                    }));
                    assert forall|i: int, e: Seq<i64>|
                        opt_at(embs_v(embeddings), i) == Some(e) implies emb_ok(
                        clamp_emb(e),
                    ) by {
                        lemma_clamp_emb_ok(e);
                    }
                    assert forall|i: int, t: Seq<char>|
                        opt_at(opt_deep(documents), i) == Some(t) implies emb_ok(
                        crate::embed::embed_spec(t),
                    ) by {
                        lemma_embed_spec_ok(t);
                    }
                    lemma_upd_fold_wf(
                        coll0,
                        ids.deep_view(),
                        metas_v(metadatas),
                        opt_deep(documents),
                        embs_v(embeddings),
                        pre.tick,
                        ids@.len() as int,
                    );
                    assert forall|a: int, b: int|
                        0 <= a < b < store@.collections.len() implies (
                    #[trigger] store@.collections[a]).name != (
                    #[trigger] store@.collections[b]).name by {
                        assert(pre.collections[a].name != pre.collections[b].name);
                    }
                }
            },
            None => {},
        }
    }
}

/// How many documents a `get` or `peek` returns.
pub open spec fn get_limit(docs_len: int, limit: Option<usize>) -> int {
    match limit {
        Some(l) => if l < docs_len {
            l as int
        } else {
            docs_len
        },
        None => docs_len,
    }
}

/// The single-nested result shape of `get` and `peek`: the first `m`
/// documents in iteration (insertion) order.
pub open spec fn get_result_v(docs: Seq<DocM>, m: int) -> JsonV {
    JsonV::Obj(
        seq![
            ("ids"@, JsonV::Arr(Seq::new(m as nat, |i: int| JsonV::Str(docs[i].id)))),
            (
                "documents"@,
                JsonV::Arr(Seq::new(m as nat, |i: int| JsonV::Str(docs[i].content))),
            ),
            ("metadatas"@, JsonV::Arr(Seq::new(m as nat, |i: int| docs[i].metadata))),
        ],
    )
}

/// Builds the `get`/`peek` result for the first `m` documents.
fn build_get_json(docs: &Vec<Document>, m: usize) -> (r: Json)
    requires
        m <= docs@.len(),
    ensures
        r.v() == get_result_v(docs_v(docs@), m as int),
{
    let mut ids: Vec<Json> = Vec::with_capacity(m);
    let mut contents: Vec<Json> = Vec::with_capacity(m);
    let mut metas: Vec<Json> = Vec::with_capacity(m);
    let mut i: usize = 0;
    while i < m
        invariant
            i <= m,
            m <= docs@.len(),
            ids@.len() == i,
            contents@.len() == i,
            metas@.len() == i,
            forall|j: int|
                0 <= j < i ==> #[trigger] ids@[j].v() == JsonV::Str(docs_v(docs@)[j].id),
            forall|j: int|
                0 <= j < i ==> #[trigger] contents@[j].v() == JsonV::Str(
                    docs_v(docs@)[j].content,
                ),
            forall|j: int| 0 <= j < i ==> #[trigger] metas@[j].v() == docs_v(docs@)[j].metadata,
        decreases m - i,
    {
        let idj = Json::Str(crate::json::clone_string(&docs[i].id));
        ids.push(idj);
        let cj = Json::Str(crate::json::clone_string(&docs[i].content));
        contents.push(cj);
        let mj = docs[i].metadata.deep_clone();
        metas.push(mj);
        i = i + 1;
    }
    let ghost ids_s = ids@;
    let ghost contents_s = contents@;
    let ghost metas_s = metas@;
    let ja = Json::Arr(ids);
    let ghost jav = ja.v();
    let jd = Json::Arr(contents);
    let ghost jdv = jd.v();
    let jm = Json::Arr(metas);
    let ghost jmv = jm.v();
    proof {
        let want = get_result_v(docs_v(docs@), m as int);
        assert forall|j: int| 0 <= j < m implies jav->Arr_0[j] == want->Obj_0[0].1->Arr_0[j] by {
            assert(jav->Arr_0[j] == ids_s[j].v());
            assert(ids_s[j].v() == JsonV::Str(docs_v(docs@)[j].id));
        }
        assert forall|j: int| 0 <= j < m implies jdv->Arr_0[j] == want->Obj_0[1].1->Arr_0[j] by {
            assert(jdv->Arr_0[j] == contents_s[j].v());
            assert(contents_s[j].v() == JsonV::Str(docs_v(docs@)[j].content));
        }
        assert forall|j: int| 0 <= j < m implies jmv->Arr_0[j] == want->Obj_0[2].1->Arr_0[j] by {
            assert(jmv->Arr_0[j] == metas_s[j].v());
            assert(metas_s[j].v() == docs_v(docs@)[j].metadata);
        }
        assert(jav->Arr_0 =~= want->Obj_0[0].1->Arr_0);
        assert(jdv->Arr_0 =~= want->Obj_0[1].1->Arr_0);
        assert(jmv->Arr_0 =~= want->Obj_0[2].1->Arr_0);
    }
    let mut fields: Vec<(String, Json)> = Vec::with_capacity(3);
    fields.push((String::from_str("ids"), ja));
    fields.push((String::from_str("documents"), jd));
    fields.push((String::from_str("metadatas"), jm));
    let r = Json::Obj(fields);
    proof {
        let want = get_result_v(docs_v(docs@), m as int);
        assert(r.v()->Obj_0[0] == ("ids"@, jav));
        assert(r.v()->Obj_0[1] == ("documents"@, jdv));
        assert(r.v()->Obj_0[2] == ("metadatas"@, jmv));
        assert(r.v()->Obj_0 =~~= want->Obj_0);
        assert(r.v() =~~= want);
    }
    r
}

impl Collection {
    /// All documents of the named collection in iteration order, truncated
    /// by `limit`; id and metadata filters and the offset are accepted but
    /// not applied. An absent collection yields the empty result shape.
    pub fn get(
        &self,
        store: &ChromaClient,
        _ids: Option<Vec<String>>,
        _where_filter: Option<Json>,
        _where_document: Option<Json>,
        _include: Vec<String>,
        limit: Option<usize>,
        _offset: Option<usize>,
    ) -> (r: Json)
        requires
            store.wf(),
        ensures
            r.v() == get_result_v(
                docs_of(store@.collections, self.name@),
                get_limit(docs_of(store@.collections, self.name@).len() as int, limit),
            ),
    {
        match store.find_coll(self.name.as_str()) {
            Some(ci) => {
                proof {
                    lemma_coll_idx_is(store@.collections, self.name@, ci as int);
                }
                let dn = store.collections[ci].documents.len();
                let m = match limit {
                    Some(l) => if l < dn {
                        l
                    } else {
                        dn
                    },
                    None => dn,
                };
                build_get_json(&store.collections[ci].documents, m)
            },
            None => {
                let empty: Vec<Document> = Vec::new();
                proof {
                    assert(docs_v(empty@) =~= Seq::<DocM>::empty());
                }
                build_get_json(&empty, 0)
            },
        }
    }

    /// The first `limit` documents, in the shape of [`Collection::get`].
    pub fn peek(&self, store: &ChromaClient, limit: usize) -> (r: Json)
        requires
            store.wf(),
        ensures
            r.v() == get_result_v(
                docs_of(store@.collections, self.name@),
                get_limit(docs_of(store@.collections, self.name@).len() as int, Some(limit)),
            ),
    {
        self.get(store, None, None, None, Vec::new(), Some(limit), None)
    }
}

/// The scored entries of a query: each document's similarity to the query
/// embedding, tagged with its position.
pub open spec fn scored(docs: Seq<DocM>, q: Seq<i64>) -> Seq<(i64, usize)> {
    Seq::new(
        docs.len(),
        |i: int| (crate::vector::score_micros(q, docs[i].embedding) as i64, i as usize),
    )
}

/// The ranked prefix a query returns: the scored entries sorted descending
/// (ties in insertion order), truncated to `n`.
pub open spec fn query_top(docs: Seq<DocM>, q: Seq<i64>, n: int) -> Seq<(i64, usize)> {
    crate::rank::sort_pairs(scored(docs, q)).take(
        if n < docs.len() {
            n
        } else {
            docs.len() as int
        },
    )
}

/// The double-nested result shape of `query` for ranked entries `top`.
/// Distances are `1 - similarity`, exact, rendered in millionths; the
/// `embeddings` field is, as in the wire protocol, nested only once.
pub open spec fn query_result_v(docs: Seq<DocM>, top: Seq<(i64, usize)>) -> JsonV {
    JsonV::Obj(
        seq![
            (
                "ids"@,
                JsonV::Arr(
                    seq![
                        JsonV::Arr(
                            Seq::new(top.len(), |k: int| JsonV::Str(docs[top[k].1 as int].id)),
                        ),
                    ],
                ),
            ),
            (
                "documents"@,
                JsonV::Arr(
                    seq![
                        JsonV::Arr(
                            Seq::new(
                                top.len(),
                                |k: int| JsonV::Str(docs[top[k].1 as int].content),
                            ),
                        ),
                    ],
                ),
            ),
            (
                "metadatas"@,
                JsonV::Arr(
                    seq![
                        JsonV::Arr(
                            Seq::new(top.len(), |k: int| docs[top[k].1 as int].metadata),
                        ),
                    ],
                ),
            ),
            (
                "distances"@,
                JsonV::Arr(
                    seq![
                        JsonV::Arr(
                            Seq::new(
                                top.len(),
                                |k: int|
                                    JsonV::Dec(
                                        crate::num::micros_rep(1000000 - top[k].0 as int),
                                    ),
                            ),
                        ),
                    ],
                ),
            ),
            (
                "embeddings"@,
                JsonV::Arr(
                    Seq::new(
                        top.len(),
                        |k: int|
                            JsonV::Arr(
                                Seq::new(
                                    docs[top[k].1 as int].embedding.len(),
                                    |j: int|
                                        JsonV::Int(docs[top[k].1 as int].embedding[j] as int),
                                ),
                            ),
                    ),
                ),
            ),
        ],
    )
}

/// The constant result a query on an absent collection yields.
pub open spec fn query_missing_v() -> JsonV {
    JsonV::Obj(
        seq![
            ("ids"@, JsonV::Arr(seq![JsonV::Arr(Seq::empty())])),
            ("documents"@, JsonV::Arr(seq![JsonV::Arr(Seq::empty())])),
            ("metadatas"@, JsonV::Arr(seq![JsonV::Arr(Seq::empty())])),
            ("distances"@, JsonV::Arr(seq![JsonV::Arr(Seq::empty())])),
            ("embeddings"@, JsonV::Arr(seq![JsonV::Arr(Seq::empty())])),
        ],
    )
}

/// What `query` returns, whole: the missing-collection constant, or the
/// ranked result, which is empty when there is no query text or no
/// document.
pub open spec fn query_v(
    colls: Seq<CollM>,
    name: Seq<char>,
    texts: Seq<Seq<char>>,
    n: int,
) -> JsonV {
    if !has_coll(colls, name) {
        query_missing_v()
    } else {
        let docs = coll_at(colls, name).documents;
        if texts.len() == 0 || docs.len() == 0 {
            query_result_v(docs, Seq::empty())
        } else {
            query_result_v(docs, query_top(docs, crate::embed::embed_spec(texts[0]), n))
        }
    }
}

/// Builds the `query` result for ranked entries `top`.
fn build_query_json(docs: &Vec<Document>, top: &Vec<(i64, usize)>) -> (r: Json)
    requires
        forall|k: int| 0 <= k < top@.len() ==> (#[trigger] top@[k]).1 < docs@.len(),
        forall|k: int|
            0 <= k < top@.len() ==> -1000000 <= (#[trigger] top@[k]).0 <= 1000000,
    ensures
        r.v() == query_result_v(docs_v(docs@), top@),
{
    let n = top.len();
    let mut ids: Vec<Json> = Vec::with_capacity(n);
    let mut contents: Vec<Json> = Vec::with_capacity(n);
    let mut metas: Vec<Json> = Vec::with_capacity(n);
    let mut dists: Vec<Json> = Vec::with_capacity(n);
    let mut embs: Vec<Json> = Vec::with_capacity(n);
    let mut k: usize = 0;
    while k < n
        invariant
            k <= n,
            n == top@.len(),
            forall|j: int| 0 <= j < n ==> (#[trigger] top@[j]).1 < docs@.len(),
            forall|j: int| 0 <= j < n ==> -1000000 <= (#[trigger] top@[j]).0 <= 1000000,
            ids@.len() == k,
            contents@.len() == k,
            metas@.len() == k,
            dists@.len() == k,
            embs@.len() == k,
            forall|j: int|
                0 <= j < k ==> #[trigger] ids@[j].v() == JsonV::Str(
                    docs_v(docs@)[top@[j].1 as int].id,
                ),
            forall|j: int|
                0 <= j < k ==> #[trigger] contents@[j].v() == JsonV::Str(
                    docs_v(docs@)[top@[j].1 as int].content,
                ),
            forall|j: int|
                0 <= j < k ==> #[trigger] metas@[j].v() == docs_v(
                    docs@,
                )[top@[j].1 as int].metadata,
            forall|j: int|
                0 <= j < k ==> #[trigger] dists@[j].v() == JsonV::Dec(
                    crate::num::micros_rep(1000000 - top@[j].0 as int),
                ),
            forall|j: int|
                0 <= j < k ==> #[trigger] embs@[j].v() == JsonV::Arr(
                    Seq::new(
                        docs_v(docs@)[top@[j].1 as int].embedding.len(),
                        |p: int|
                            JsonV::Int(docs_v(docs@)[top@[j].1 as int].embedding[p] as int),
                    ),
                ),
        decreases n - k,
    {
        let (score, pos) = top[k];
        let idj = Json::Str(crate::json::clone_string(&docs[pos].id));
        ids.push(idj);
        let cj = Json::Str(crate::json::clone_string(&docs[pos].content));
        contents.push(cj);
        let mj = docs[pos].metadata.deep_clone();
        metas.push(mj);
        let dj = Json::Dec(crate::num::micros_to_string(1000000 - score));
        dists.push(dj);
        let ev = int_vec_json(&docs[pos].embedding);
        let ghost evv = ev.v();
        embs.push(ev);
        k = k + 1;
        proof {
            assert(embs@[k - 1].v() == evv);
        }
    }
    let ghost top_s = top@;
    let ghost dm = docs_v(docs@);
    let ghost want = query_result_v(dm, top_s);
    let ghost ids_s = ids@;
    let ghost contents_s = contents@;
    let ghost metas_s = metas@;
    let ghost dists_s = dists@;
    let ghost embs_s = embs@;
    let ji = wrap_once(Json::Arr(ids));
    let jd = wrap_once(Json::Arr(contents));
    let jm = wrap_once(Json::Arr(metas));
    let jt = wrap_once(Json::Arr(dists));
    let je = Json::Arr(embs);
    let ghost jiv = ji.v();
    let ghost jdv = jd.v();
    let ghost jmv = jm.v();
    let ghost jtv = jt.v();
    let ghost jev = je.v();
    proof {
        assert forall|j: int| 0 <= j < n implies jiv->Arr_0[0]->Arr_0[j]
            == want->Obj_0[0].1->Arr_0[0]->Arr_0[j] by {
            assert(jiv->Arr_0[0]->Arr_0[j] == ids_s[j].v());
        }
        assert(jiv->Arr_0[0]->Arr_0 =~= want->Obj_0[0].1->Arr_0[0]->Arr_0);
        assert(jiv->Arr_0 =~= want->Obj_0[0].1->Arr_0);
        assert forall|j: int| 0 <= j < n implies jdv->Arr_0[0]->Arr_0[j]
            == want->Obj_0[1].1->Arr_0[0]->Arr_0[j] by {
            assert(jdv->Arr_0[0]->Arr_0[j] == contents_s[j].v());
        }
        assert(jdv->Arr_0[0]->Arr_0 =~= want->Obj_0[1].1->Arr_0[0]->Arr_0);
        assert(jdv->Arr_0 =~= want->Obj_0[1].1->Arr_0);
        assert forall|j: int| 0 <= j < n implies jmv->Arr_0[0]->Arr_0[j]
            == want->Obj_0[2].1->Arr_0[0]->Arr_0[j] by {
            assert(jmv->Arr_0[0]->Arr_0[j] == metas_s[j].v());
        }
        assert(jmv->Arr_0[0]->Arr_0 =~= want->Obj_0[2].1->Arr_0[0]->Arr_0);
        assert(jmv->Arr_0 =~= want->Obj_0[2].1->Arr_0);
        assert forall|j: int| 0 <= j < n implies jtv->Arr_0[0]->Arr_0[j]
            == want->Obj_0[3].1->Arr_0[0]->Arr_0[j] by {
            assert(jtv->Arr_0[0]->Arr_0[j] == dists_s[j].v());
        }
        assert(jtv->Arr_0[0]->Arr_0 =~= want->Obj_0[3].1->Arr_0[0]->Arr_0);
        assert(jtv->Arr_0 =~= want->Obj_0[3].1->Arr_0);
        assert forall|j: int| 0 <= j < n implies jev->Arr_0[j] == want->Obj_0[4].1->Arr_0[j] by {
            assert(jev->Arr_0[j] == embs_s[j].v());
        }
        assert(jev->Arr_0 =~= want->Obj_0[4].1->Arr_0);
    }
    let mut fields: Vec<(String, Json)> = Vec::with_capacity(5);
    fields.push((String::from_str("ids"), ji));
    fields.push((String::from_str("documents"), jd));
    fields.push((String::from_str("metadatas"), jm));
    fields.push((String::from_str("distances"), jt));
    fields.push((String::from_str("embeddings"), je));
    let r = Json::Obj(fields);
    proof {
        assert(r.v()->Obj_0[0] == ("ids"@, jiv));
        assert(r.v()->Obj_0[1] == ("documents"@, jdv));
        assert(r.v()->Obj_0[2] == ("metadatas"@, jmv));
        assert(r.v()->Obj_0[3] == ("distances"@, jtv));
        assert(r.v()->Obj_0[4] == ("embeddings"@, jev));
        assert(r.v()->Obj_0 =~~= want->Obj_0);
        assert(r.v() =~~= want);
    }
    r
}

/// A one-element JSON array around `j`.
fn wrap_once(j: Json) -> (r: Json)
    ensures
        r.v() == JsonV::Arr(seq![j.v()]),
{
    let ghost jv = j.v();
    let mut outer: Vec<Json> = Vec::with_capacity(1);
    outer.push(j);
    let r = Json::Arr(outer);
    proof {
        assert(r.v()->Arr_0 =~= seq![jv]);
    }
    r
}

/// The components of an embedding as a JSON array of integers.
fn int_vec_json(v: &Vec<i64>) -> (r: Json)
    ensures
        r.v() == JsonV::Arr(Seq::new(v@.len(), |j: int| JsonV::Int(v@[j] as int))),
{
    let n = v.len();
    let mut out: Vec<Json> = Vec::with_capacity(n);
    let mut i: usize = 0;
    while i < n
        invariant
            i <= n,
            n == v@.len(),
            out@.len() == i,
            forall|j: int| 0 <= j < i ==> #[trigger] out@[j].v() == JsonV::Int(v@[j] as int),
        decreases n - i,
    {
        out.push(Json::Int(v[i]));
        i = i + 1;
    }
    let ghost out_s = out@;
    let r = Json::Arr(out);
    proof {
        assert forall|j: int| 0 <= j < v@.len() implies r.v()->Arr_0[j] == Seq::new(
            v@.len(),
            |p: int| JsonV::Int(v@[p] as int),
        )[j] by {
            assert(r.v()->Arr_0[j] == out_s[j].v());
        }
        assert(r.v()->Arr_0 =~= Seq::new(v@.len(), |j: int| JsonV::Int(v@[j] as int)));
    }
    r
}

impl Collection {
    /// Ranks the collection's documents by cosine similarity to the first
    /// query text and returns the best `n_results`, in the double-nested
    /// result shape; metadata and document filters are accepted but not
    /// applied, as is `include`. Without a query text, or without documents,
    /// the result arrays are empty; an absent collection yields the
    /// constant empty shape.
    pub fn query(
        &self,
        store: &ChromaClient,
        query_texts: Vec<String>,
        n_results: usize,
        _where_filter: Option<Json>,
        _where_document: Option<Json>,
        _include: Vec<String>,
    ) -> (r: Json)
        requires
            store.wf(),
        ensures
            r.v() == query_v(
                store@.collections,
                self.name@,
                query_texts.deep_view(),
                n_results as int,
            ),
    {
        match store.find_coll(self.name.as_str()) {
            Some(ci) => {
                proof {
                    lemma_coll_idx_is(store@.collections, self.name@, ci as int);
                }
                let docs = &store.collections[ci].documents;
                let ghost dm = docs_v(docs@);
                proof {
                    assert(store@.collections[ci as int].documents == dm);
                    assert(coll_wf(store@.collections[ci as int]));
                    assert forall|j: int| 0 <= j < dm.len() implies crate::vector::emb_ok(
                        (#[trigger] dm[j]).embedding,
                    ) by {
                        assert(doc_wf(store@.collections[ci as int].documents[j]));
                    }
                }
                if query_texts.len() == 0 || docs.len() == 0 {
                    let top: Vec<(i64, usize)> = Vec::new();
                    proof {
                        assert(top@ =~= Seq::<(i64, usize)>::empty());
                    }
                    build_query_json(docs, &top)
                } else {
                    let q = crate::embed::embed(query_texts[0].as_str());
                    proof {
                        assert(query_texts.deep_view()[0] == query_texts@[0]@);
                    }
                    let dn = docs.len();
                    let mut pairs: Vec<(i64, usize)> = Vec::with_capacity(dn);
                    let mut i: usize = 0;
                    while i < dn
                        invariant
                            i <= dn,
                            dn == docs@.len(),
                            query_texts@.len() > 0,
                            q@ == crate::embed::embed_spec(query_texts.deep_view()[0]),
                            crate::vector::emb_ok(q@),
                            forall|j: int|
                                0 <= j < dn ==> crate::vector::emb_ok(
                                    (#[trigger] docs_v(docs@)[j]).embedding,
                                ),
                            pairs@.len() == i,
                            forall|j: int|
                                0 <= j < i ==> #[trigger] pairs@[j] == scored(
                                    docs_v(docs@),
                                    q@,
                                )[j],
                        decreases dn - i,
                    {
                        proof {
                            assert(docs@[i as int]@.embedding == docs_v(docs@)[i as int].embedding);
                        }
                        let sc = crate::vector::score_micros_exec(&q, &docs[i].embedding);
                        pairs.push((sc, i));
                        i = i + 1;
                    }
                    proof {
                        assert(pairs@ =~= scored(dm, q@));
                    }
                    let ranked = crate::rank::sort_scored(&pairs);
                    let m = if n_results < ranked.len() {
                        n_results
                    } else {
                        ranked.len()
                    };
                    let mut top: Vec<(i64, usize)> = Vec::with_capacity(m);
                    let mut k: usize = 0;
                    while k < m
                        invariant
                            k <= m,
                            m <= ranked@.len(),
                            top@.len() == k,
                            forall|j: int| 0 <= j < k ==> #[trigger] top@[j] == ranked@[j],
                        decreases m - k,
                    {
                        let e = ranked[k];
                        top.push(e);
                        k = k + 1;
                    }
                    proof {
                        assert(distinct_scored(dm, q@)) by {
                            assert forall|a: int, b: int|
                                0 <= a < b < scored(dm, q@).len() implies (
                            #[trigger] scored(dm, q@)[a]).1 != (
                            #[trigger] scored(dm, q@)[b]).1 by {}
                        }
                        crate::rank::lemma_sort_pairs(scored(dm, q@));
                        assert(top@ =~= query_top(
                            dm,
                            crate::embed::embed_spec(query_texts.deep_view()[0]),
                            n_results as int,
                        ));
                        assert forall|j: int| 0 <= j < top@.len() implies (
                        #[trigger] top@[j]).1 < docs@.len() && -1000000 <= top@[j].0
                            <= 1000000 by {
                            let w = choose|w: int|
                                0 <= w < scored(dm, q@).len() && crate::rank::sort_pairs(
                                    scored(dm, q@),
                                )[j] == scored(dm, q@)[w];
                            crate::vector::lemma_score_range(q@, dm[w].embedding);
                        }
                    }
                    build_query_json(docs, &top)
                }
            },
            None => {
                let mut fields: Vec<(String, Json)> = Vec::with_capacity(5);
                let e1 = wrap_once(empty_arr());
                let e2 = wrap_once(empty_arr());
                let e3 = wrap_once(empty_arr());
                let e4 = wrap_once(empty_arr());
                let e5 = wrap_once(empty_arr());
                let ghost v1 = e1.v();
                fields.push((String::from_str("ids"), e1));
                fields.push((String::from_str("documents"), e2));
                fields.push((String::from_str("metadatas"), e3));
                fields.push((String::from_str("distances"), e4));
                fields.push((String::from_str("embeddings"), e5));
                let r = Json::Obj(fields);
                proof {
                    assert(r.v()->Obj_0 =~~= query_missing_v()->Obj_0);
                    assert(r.v() =~~= query_missing_v());
                }
                r
            },
        }
    }
}

/// The scored entries of distinct documents occupy distinct positions.
pub open spec fn distinct_scored(docs: Seq<DocM>, q: Seq<i64>) -> bool {
    crate::rank::distinct_positions(scored(docs, q))
}

/// An empty JSON array.
fn empty_arr() -> (r: Json)
    ensures
        r.v() == JsonV::Arr(Seq::empty()),
{
    let r = Json::Arr(Vec::new());
    proof {
        assert(r.v()->Arr_0 =~= Seq::<JsonV>::empty());
    }
    r
}

} // verus!
