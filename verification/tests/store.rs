//! The store and tool layer: counts, idempotence, ordering, shapes, and
//! the validation errors.

use mcp_chroma::json::Json;
use mcp_chroma::store::{Collection, get_client};
use mcp_chroma::tools::{
    AddDocumentsRequest, CreateCollectionRequest, DeleteCollectionRequest, DeleteDocumentsRequest,
    GetCollectionCountRequest, GetCollectionInfoRequest, GetDocumentsRequest,
    ModifyCollectionRequest, PeekCollectionRequest, QueryDocumentsRequest, UpdateDocumentsRequest,
    chroma_add_documents, chroma_create_collection, chroma_delete_collection,
    chroma_delete_documents, chroma_get_collection_count, chroma_get_collection_info,
    chroma_get_documents, chroma_list_collections, chroma_modify_collection,
    chroma_peek_collection, chroma_query_documents, chroma_update_documents,
};

fn s(text: &str) -> String {
    text.to_string()
}

fn js(text: &str) -> Json {
    Json::Str(text.to_string())
}

fn create(store: &mut mcp_chroma::store::ChromaClient, name: &str) {
    let msg = chroma_create_collection(
        store,
        CreateCollectionRequest {
            collection_name: s(name),
            embedding_function_name: None,
            metadata: None,
            space: None,
            ef_construction: None,
            ef_search: None,
            max_neighbors: None,
            num_threads: None,
            batch_size: None,
            sync_threshold: None,
        },
    )
    .expect("create");
    assert_eq!(msg, format!("Created collection: {}", name));
}

fn add(
    store: &mut mcp_chroma::store::ChromaClient,
    name: &str,
    docs: Vec<&str>,
    ids: Option<Vec<&str>>,
) -> Result<String, mcp_chroma::tools::ToolError> {
    chroma_add_documents(
        store,
        AddDocumentsRequest {
            collection_name: s(name),
            documents: docs.into_iter().map(s).collect(),
            metadatas: None,
            ids: ids.map(|v| v.into_iter().map(s).collect()),
        },
    )
}

fn count(store: &mut mcp_chroma::store::ChromaClient, name: &str) -> usize {
    chroma_get_collection_count(
        store,
        GetCollectionCountRequest { collection_name: s(name) },
    )
    .expect("count")
}

#[test]
fn count_tracks_distinct_ids_and_overwrites() {
    let mut store = get_client();
    create(&mut store, "c");
    add(&mut store, "c", vec!["one", "two"], Some(vec!["a", "b"])).expect("add");
    assert_eq!(count(&mut store, "c"), 2);
    // Re-adding an existing id overwrites in place and keeps the count.
    add(&mut store, "c", vec!["one again"], Some(vec!["a"])).expect("add");
    assert_eq!(count(&mut store, "c"), 2);
    add(&mut store, "c", vec!["three"], Some(vec!["d"])).expect("add");
    assert_eq!(count(&mut store, "c"), 3);
}

#[test]
fn count_grows_by_fresh_distinct_ids_in_one_call() {
    let mut store = get_client();
    create(&mut store, "c");
    add(&mut store, "c", vec!["one", "two"], Some(vec!["a", "b"])).expect("add");
    assert_eq!(count(&mut store, "c"), 2);
    // One call mixing an existing id, a fresh id, and that fresh id
    // repeated: only the first occurrence of the fresh id counts.
    add(
        &mut store,
        "c",
        vec!["one again", "three", "three again"],
        Some(vec!["a", "d", "d"]),
    )
    .expect("add");
    assert_eq!(count(&mut store, "c"), 3);
}

#[test]
fn create_twice_resets_contents() {
    let mut store = get_client();
    create(&mut store, "c");
    add(&mut store, "c", vec!["one"], Some(vec!["a"])).expect("add");
    assert_eq!(count(&mut store, "c"), 1);
    create(&mut store, "c");
    assert_eq!(count(&mut store, "c"), 0);
    let names = chroma_list_collections(
        &store,
        mcp_chroma::tools::ListCollectionsRequest { limit: None, offset: None },
    )
    .expect("list");
    assert_eq!(names, vec![s("c")]);
}

#[test]
fn delete_collection_twice_is_no_error() {
    let mut store = get_client();
    create(&mut store, "c");
    let m1 = chroma_delete_collection(
        &mut store,
        DeleteCollectionRequest { collection_name: s("c") },
    )
    .expect("delete");
    assert_eq!(m1, "Successfully deleted collection c");
    let m2 = chroma_delete_collection(
        &mut store,
        DeleteCollectionRequest { collection_name: s("c") },
    )
    .expect("delete again");
    assert_eq!(m2, "Successfully deleted collection c");
}

#[test]
fn get_collection_ensures_absent_collection() {
    let mut store = get_client();
    let coll = store.get_collection("fresh");
    assert_eq!(coll.name, "fresh");
    let names = store.list_collections(None, None);
    assert_eq!(names, vec![s("fresh")]);
    assert_eq!(count(&mut store, "fresh"), 0);
}

#[test]
fn query_on_empty_collection_keeps_nesting() {
    let mut store = get_client();
    create(&mut store, "c");
    let result = chroma_query_documents(
        &mut store,
        QueryDocumentsRequest {
            collection_name: s("c"),
            query_texts: vec![s("anything")],
            n_results: None,
            where_filter: None,
            where_document: None,
            included: None,
        },
    )
    .expect("query");
    assert_eq!(result.get_arr("ids").expect("ids"), &vec![Json::Arr(vec![])]);
    assert_eq!(
        result.get_arr("documents").expect("documents"),
        &vec![Json::Arr(vec![])]
    );
    assert_eq!(
        result.get_arr("metadatas").expect("metadatas"),
        &vec![Json::Arr(vec![])]
    );
    assert_eq!(
        result.get_arr("distances").expect("distances"),
        &vec![Json::Arr(vec![])]
    );
}

#[test]
fn add_with_empty_documents_is_an_error() {
    let mut store = get_client();
    let e = add(&mut store, "c", vec![], None).expect_err("must fail");
    assert_eq!(e.message, "The 'documents' list cannot be empty.");
}

#[test]
fn query_with_empty_texts_is_an_error() {
    let mut store = get_client();
    let e = chroma_query_documents(
        &mut store,
        QueryDocumentsRequest {
            collection_name: s("c"),
            query_texts: vec![],
            n_results: None,
            where_filter: None,
            where_document: None,
            included: None,
        },
    )
    .expect_err("must fail");
    assert_eq!(e.message, "The 'query_texts' list cannot be empty.");
}

#[test]
fn update_requires_some_payload() {
    let mut store = get_client();
    let e = chroma_update_documents(
        &mut store,
        UpdateDocumentsRequest {
            collection_name: s("c"),
            ids: vec![s("a")],
            embeddings: None,
            metadatas: None,
            documents: None,
        },
    )
    .expect_err("must fail");
    assert_eq!(
        e.message,
        "At least one of 'embeddings', 'metadatas', or 'documents' must be provided for update."
    );
    let e2 = chroma_update_documents(
        &mut store,
        UpdateDocumentsRequest {
            collection_name: s("c"),
            ids: vec![],
            embeddings: None,
            metadatas: None,
            documents: None,
        },
    )
    .expect_err("must fail");
    assert_eq!(e2.message, "The 'ids' list cannot be empty.");
}

#[test]
fn update_length_mismatch_names_the_list() {
    let mut store = get_client();
    let e = chroma_update_documents(
        &mut store,
        UpdateDocumentsRequest {
            collection_name: s("c"),
            ids: vec![s("a"), s("b")],
            embeddings: None,
            metadatas: None,
            documents: Some(vec![s("only one")]),
        },
    )
    .expect_err("must fail");
    assert_eq!(
        e.message,
        "Length of 'documents' list must match length of 'ids' list."
    );
    let e2 = chroma_update_documents(
        &mut store,
        UpdateDocumentsRequest {
            collection_name: s("c"),
            ids: vec![s("a"), s("b")],
            embeddings: Some(vec![vec![1000000]]),
            metadatas: None,
            documents: None,
        },
    )
    .expect_err("must fail");
    assert_eq!(
        e2.message,
        "Length of 'embeddings' list must match length of 'ids' list."
    );
    let e3 = chroma_update_documents(
        &mut store,
        UpdateDocumentsRequest {
            collection_name: s("c"),
            ids: vec![s("a"), s("b")],
            embeddings: None,
            metadatas: Some(vec![Json::Null]),
            documents: None,
        },
    )
    .expect_err("must fail");
    assert_eq!(
        e3.message,
        "Length of 'metadatas' list must match length of 'ids' list."
    );
}

#[test]
fn delete_documents_removes_exactly_the_listed_id() {
    let mut store = get_client();
    create(&mut store, "c");
    add(&mut store, "c", vec!["one", "two"], Some(vec!["a", "b"])).expect("add");
    let msg = chroma_delete_documents(
        &mut store,
        DeleteDocumentsRequest { collection_name: s("c"), ids: vec![s("a")] },
    )
    .expect("delete");
    assert_eq!(msg, "Successfully deleted 1 documents from collection 'c'");
    assert_eq!(count(&mut store, "c"), 1);
    let got = chroma_get_documents(
        &mut store,
        GetDocumentsRequest {
            collection_name: s("c"),
            ids: None,
            where_filter: None,
            where_document: None,
            included: None,
            limit: None,
            offset: None,
        },
    )
    .expect("get");
    assert_eq!(got.get_arr("ids").expect("ids"), &vec![js("b")]);
    let e = chroma_delete_documents(
        &mut store,
        DeleteDocumentsRequest { collection_name: s("c"), ids: vec![] },
    )
    .expect_err("must fail");
    assert_eq!(e.message, "The 'ids' list cannot be empty.");
}

#[test]
fn update_content_recomputes_embedding() {
    let mut store = get_client();
    create(&mut store, "c");
    add(&mut store, "c", vec!["aa"], Some(vec!["x"])).expect("add");
    chroma_update_documents(
        &mut store,
        UpdateDocumentsRequest {
            collection_name: s("c"),
            ids: vec![s("x")],
            embeddings: None,
            metadatas: None,
            documents: Some(vec![s("aa bb cc")]),
        },
    )
    .expect("update");
    // The document is again its own nearest neighbor under the new text.
    let result = chroma_query_documents(
        &mut store,
        QueryDocumentsRequest {
            collection_name: s("c"),
            query_texts: vec![s("aa bb cc")],
            n_results: Some(1),
            where_filter: None,
            where_document: None,
            included: None,
        },
    )
    .expect("query");
    let distances = result.get_arr("distances").expect("distances");
    assert_eq!(distances[0], Json::Arr(vec![Json::Dec(s("0.000000"))]));
    let docs = result.get_arr("documents").expect("documents");
    assert_eq!(docs[0], Json::Arr(vec![js("aa bb cc")]));
}

#[test]
fn query_distances_are_sorted_and_exact() {
    let mut store = get_client();
    create(&mut store, "c");
    // Query "aa" against "aa" (identical), "aa bb" (partial), "xxxx" (same
    // direction as "aa": both embed to a single-token vector).
    add(&mut store, "c", vec!["aa bb", "aa", "cc dd ee"], Some(vec!["p", "q", "r"]))
        .expect("add");
    let result = chroma_query_documents(
        &mut store,
        QueryDocumentsRequest {
            collection_name: s("c"),
            query_texts: vec![s("aa")],
            n_results: Some(3),
            where_filter: None,
            where_document: None,
            included: None,
        },
    )
    .expect("query");
    let ids = result.get_arr("ids").expect("ids");
    // "aa" matches itself exactly; one-token query against the two-token
    // documents scores by the first component; ties keep insertion order.
    match &ids[0] {
        Json::Arr(inner) => {
            assert_eq!(inner[0], js("q"));
            assert_eq!(inner.len(), 3);
        },
        other => panic!("ids are not double-nested: {:?}", other),
    }
    let distances = result.get_arr("distances").expect("distances");
    match &distances[0] {
        Json::Arr(inner) => {
            let texts: Vec<&str> = inner
                .iter()
                .map(|d| match d {
                    Json::Dec(t) => t.as_str(),
                    other => panic!("distance is not a decimal: {:?}", other),
                })
                .collect();
            assert_eq!(texts[0], "0.000000");
            let mut sorted = texts.clone();
            sorted.sort();
            assert_eq!(texts, sorted);
        },
        other => panic!("distances are not double-nested: {:?}", other),
    }
}

#[test]
fn query_scales_similarity_exactly() {
    let mut store = get_client();
    create(&mut store, "c");
    // q = embed("aa") = [2,0,...]; d = embed("aa bb") = [2,2,0,...]:
    // dot = 4, norms 4 and 8, ceil(sqrt(32)) = 6, so the similarity is
    // floor(4000000/6) = 666666 millionths and the distance 0.333334.
    add(&mut store, "c", vec!["aa bb"], Some(vec!["d"])).expect("add");
    let result = chroma_query_documents(
        &mut store,
        QueryDocumentsRequest {
            collection_name: s("c"),
            query_texts: vec![s("aa")],
            n_results: None,
            where_filter: None,
            where_document: None,
            included: None,
        },
    )
    .expect("query");
    let distances = result.get_arr("distances").expect("distances");
    assert_eq!(distances[0], Json::Arr(vec![Json::Dec(s("0.333334"))]));
}

#[test]
fn get_and_peek_are_single_nested_and_limited() {
    let mut store = get_client();
    create(&mut store, "c");
    add(&mut store, "c", vec!["one", "two", "three"], None).expect("add");
    // Ids were synthesized as decimal positions.
    let got = chroma_get_documents(
        &mut store,
        GetDocumentsRequest {
            collection_name: s("c"),
            ids: None,
            where_filter: None,
            where_document: None,
            included: None,
            limit: Some(2),
            offset: None,
        },
    )
    .expect("get");
    assert_eq!(got.get_arr("ids").expect("ids"), &vec![js("0"), js("1")]);
    assert_eq!(
        got.get_arr("documents").expect("documents"),
        &vec![js("one"), js("two")]
    );
    let peeked = chroma_peek_collection(
        &mut store,
        PeekCollectionRequest { collection_name: s("c"), limit: 10 },
    )
    .expect("peek");
    assert_eq!(
        peeked.get_arr("ids").expect("ids"),
        &vec![js("0"), js("1"), js("2")]
    );
}

#[test]
fn collection_info_reports_name_count_and_sample() {
    let mut store = get_client();
    create(&mut store, "c");
    add(&mut store, "c", vec!["one", "two", "three", "four"], None).expect("add");
    let info = chroma_get_collection_info(
        &mut store,
        GetCollectionInfoRequest { collection_name: s("c") },
    )
    .expect("info");
    assert_eq!(info.get_str("name").expect("name"), "c");
    assert_eq!(info.get_int("count"), Some(4));
    let sample = info.get("sample_documents").expect("sample");
    assert_eq!(sample.get_arr("ids").expect("ids").len(), 3);
}

#[test]
fn modify_reports_the_changed_aspects() {
    let mut store = get_client();
    create(&mut store, "c");
    let msg = chroma_modify_collection(
        &mut store,
        ModifyCollectionRequest {
            collection_name: s("c"),
            new_name: None,
            new_metadata: Some(Json::Obj(vec![(s("k"), js("v"))])),
            ef_search: None,
            num_threads: None,
            batch_size: None,
            sync_threshold: None,
            resize_factor: None,
        },
    )
    .expect("modify");
    assert_eq!(msg, "Successfully modified collection c: updated metadata");
    let msg2 = chroma_modify_collection(
        &mut store,
        ModifyCollectionRequest {
            collection_name: s("c"),
            new_name: Some(s("renamed")),
            new_metadata: None,
            ef_search: Some(10),
            num_threads: None,
            batch_size: None,
            sync_threshold: None,
            resize_factor: None,
        },
    )
    .expect("modify");
    assert_eq!(msg2, "Successfully modified collection c: updated name and hnsw");
    // The resize factor alone also counts as an hnsw change.
    let msg3 = chroma_modify_collection(
        &mut store,
        ModifyCollectionRequest {
            collection_name: s("c"),
            new_name: None,
            new_metadata: None,
            ef_search: None,
            num_threads: None,
            batch_size: None,
            sync_threshold: None,
            resize_factor: Some(Json::Dec(s("1.2"))),
        },
    )
    .expect("modify");
    assert_eq!(msg3, "Successfully modified collection c: updated hnsw");
    // The collection keeps its key: renaming is not performed.
    let names = store.list_collections(None, None);
    assert_eq!(names, vec![s("c")]);
}

#[test]
fn stored_embeddings_saturate_components() {
    let mut store = get_client();
    create(&mut store, "c");
    let coll = Collection { name: s("c") };
    coll.add(
        &mut store,
        vec![s("given")],
        Some(vec![vec![2000000, -2000000, 500000]]),
        None,
        vec![s("g")],
    );
    let result = coll.query(&store, vec![s("x")], 5, None, None, vec![]);
    let embeddings = result.get_arr("embeddings").expect("embeddings");
    assert_eq!(
        embeddings[0],
        Json::Arr(vec![Json::Int(1000000), Json::Int(-1000000), Json::Int(500000)])
    );
}
