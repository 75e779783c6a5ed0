//! The tool registry: the descriptors of every registered tool, in
//! alphabetical order, and their argument schemas.

use vstd::prelude::*;
use crate::json::{Json, JsonV};
use crate::store::{ChromaClient, StoreV};

verus! {

broadcast use vstd::std_specs::vec::group_vec_axioms, vstd::seq::group_seq_axioms;

/// A tool descriptor: name, human description, and the JSON Schema of its
/// arguments.
#[derive(Debug)]
pub struct ToolDefinition {
    pub name: String,
    pub description: String,
    pub input_schema: Json,
}

/// The model of a descriptor.
#[verifier::ext_equal]
pub struct ToolDefV {
    pub name: Seq<char>,
    pub description: Seq<char>,
    pub input_schema: JsonV,
}

impl View for ToolDefinition {
    type V = ToolDefV;

    open spec fn view(&self) -> ToolDefV {
        ToolDefV {
            name: self.name@,
            description: self.description@,
            input_schema: self.input_schema.v(),
        }
    }
}

/// A scalar property of a schema: its type and description.
pub open spec fn prop_v(t: Seq<char>, d: Seq<char>) -> JsonV {
    JsonV::Obj(seq![("type"@, JsonV::Str(t)), ("description"@, JsonV::Str(d))])
}

/// An array property of a schema: its item type and description.
pub open spec fn arr_prop_v(item_t: Seq<char>, d: Seq<char>) -> JsonV {
    JsonV::Obj(
        seq![
            ("type"@, JsonV::Str("array"@)),
            ("items"@, JsonV::Obj(seq![("type"@, JsonV::Str(item_t))])),
            ("description"@, JsonV::Str(d)),
        ],
    )
}

/// An argument schema: an object schema over the given properties, with the
/// required names listed first when there are any.
pub open spec fn schema_v(required: Seq<Seq<char>>, props: Seq<(Seq<char>, JsonV)>) -> JsonV {
    if required.len() == 0 {
        JsonV::Obj(
            seq![("type"@, JsonV::Str("object"@)), ("properties"@, JsonV::Obj(props))],
        )
    } else {
        JsonV::Obj(
            seq![
                ("type"@, JsonV::Str("object"@)),
                (
                    "required"@,
                    JsonV::Arr(Seq::new(required.len(), |i: int| JsonV::Str(required[i]))),
                ),
                ("properties"@, JsonV::Obj(props)),
            ],
        )
    }
}


/// The argument schema of the `chroma_add_documents` tool.
pub open spec fn schema_0_v() -> JsonV {
    schema_v(seq!["collection_name"@, "documents"@], seq![("collection_name"@, prop_v("string"@, "Name of the collection"@)), ("documents"@, arr_prop_v("string"@, "List of documents to add"@)), ("metadatas"@, arr_prop_v("object"@, "List of metadata objects for documents"@)), ("ids"@, arr_prop_v("string"@, "List of IDs for documents"@))])
}

/// The argument schema of the `chroma_create_collection` tool.
pub open spec fn schema_1_v() -> JsonV {
    schema_v(seq!["collection_name"@], seq![("collection_name"@, prop_v("string"@, "Name of the collection to create"@)), ("metadata"@, prop_v("object"@, "Optional metadata for the collection"@)), ("embedding_function_name"@, prop_v("string"@, "Name of the embedding function to use"@))])
}

/// The argument schema of the `chroma_delete_collection` tool.
pub open spec fn schema_2_v() -> JsonV {
    schema_v(seq!["collection_name"@], seq![("collection_name"@, prop_v("string"@, "Name of the collection to delete"@))])
}

/// The argument schema of the `chroma_delete_documents` tool.
pub open spec fn schema_3_v() -> JsonV {
    schema_v(seq!["collection_name"@, "ids"@], seq![("collection_name"@, prop_v("string"@, "Name of the collection"@)), ("ids"@, arr_prop_v("string"@, "List of document IDs to delete"@))])
}

/// The argument schema of the `chroma_get_collection_count` tool.
pub open spec fn schema_4_v() -> JsonV {
    schema_v(seq!["collection_name"@], seq![("collection_name"@, prop_v("string"@, "Name of the collection"@))])
}

/// The argument schema of the `chroma_get_collection_info` tool.
pub open spec fn schema_5_v() -> JsonV {
    schema_v(seq!["collection_name"@], seq![("collection_name"@, prop_v("string"@, "Name of the collection"@))])
}

/// The argument schema of the `chroma_get_documents` tool.
pub open spec fn schema_6_v() -> JsonV {
    schema_v(seq!["collection_name"@], seq![("collection_name"@, prop_v("string"@, "Name of the collection"@)), ("ids"@, arr_prop_v("string"@, "List of document IDs to get"@)), ("limit"@, prop_v("integer"@, "Maximum number of documents to return"@)), ("offset"@, prop_v("integer"@, "Offset for pagination"@))])
}

/// The argument schema of the `chroma_list_collections` tool.
pub open spec fn schema_7_v() -> JsonV {
    schema_v(seq![], seq![("limit"@, prop_v("integer"@, "Maximum number of collections to return"@)), ("offset"@, prop_v("integer"@, "Offset for pagination"@))])
}

/// The argument schema of the `chroma_modify_collection` tool.
pub open spec fn schema_8_v() -> JsonV {
    schema_v(seq!["collection_name"@], seq![("collection_name"@, prop_v("string"@, "Name of the collection to modify"@)), ("new_name"@, prop_v("string"@, "New name for the collection"@)), ("new_metadata"@, prop_v("object"@, "New metadata for the collection"@))])
}

/// The argument schema of the `chroma_peek_collection` tool.
pub open spec fn schema_9_v() -> JsonV {
    schema_v(seq!["collection_name"@, "limit"@], seq![("collection_name"@, prop_v("string"@, "Name of the collection to peek"@)), ("limit"@, prop_v("integer"@, "Number of documents to return"@))])
}

/// The argument schema of the `chroma_query_documents` tool.
pub open spec fn schema_10_v() -> JsonV {
    schema_v(seq!["collection_name"@, "query_texts"@], seq![("collection_name"@, prop_v("string"@, "Name of the collection"@)), ("query_texts"@, arr_prop_v("string"@, "List of query texts"@)), ("n_results"@, prop_v("integer"@, "Number of results to return per query"@)), ("where_filter"@, prop_v("object"@, "Filter by metadata"@)), ("where_document"@, prop_v("object"@, "Filter by document content"@))])
}

/// The argument schema of the `chroma_update_documents` tool.
pub open spec fn schema_11_v() -> JsonV {
    schema_v(seq!["collection_name"@, "ids"@], seq![("collection_name"@, prop_v("string"@, "Name of the collection"@)), ("ids"@, arr_prop_v("string"@, "List of document IDs to update"@)), ("embeddings"@, arr_prop_v("array"@, "List of embeddings for documents"@)), ("metadatas"@, arr_prop_v("object"@, "List of metadata objects for documents"@)), ("documents"@, arr_prop_v("string"@, "List of new document contents"@))])
}

/// The names of the registered tools, in registry (alphabetical) order.
pub open spec fn tool_names() -> Seq<Seq<char>> {
    seq!["chroma_add_documents"@, "chroma_create_collection"@, "chroma_delete_collection"@, "chroma_delete_documents"@, "chroma_get_collection_count"@, "chroma_get_collection_info"@, "chroma_get_documents"@, "chroma_list_collections"@, "chroma_modify_collection"@, "chroma_peek_collection"@, "chroma_query_documents"@, "chroma_update_documents"@]
}


/// The descriptions of the registered tools, in registry order.
pub open spec fn tool_descriptions() -> Seq<Seq<char>> {
    seq!["Adds documents to a collection"@, "Creates a new collection in ChromaDB"@, "Deletes a collection"@, "Deletes documents from a collection"@, "Counts the number of documents in a collection"@, "Gets metadata about a collection"@, "Gets documents from a collection"@, "Lists all collections in the ChromaDB instance"@, "Modifies collection properties"@, "Shows a sample of documents in a collection"@, "Searches for similar documents in a collection"@, "Updates existing documents in a collection"@]
}


/// The argument schemas of the registered tools, in registry order.
pub open spec fn tool_schemas() -> Seq<JsonV> {
    seq![schema_0_v(), schema_1_v(), schema_2_v(), schema_3_v(), schema_4_v(), schema_5_v(), schema_6_v(), schema_7_v(), schema_8_v(), schema_9_v(), schema_10_v(), schema_11_v()]
}

/// The model of the whole registry.
pub open spec fn registry_v() -> Seq<ToolDefV> {
    Seq::new(
        tool_names().len(),
        |i: int|
            ToolDefV {
                name: tool_names()[i],
                description: tool_descriptions()[i],
                input_schema: tool_schemas()[i],
            },
    )
}


/// Builds a scalar property.
fn eprop(t: &str, d: &str) -> (r: Json)
    ensures
        r.v() == prop_v(t@, d@),
{
    let tj = Json::Str(t.to_owned());
    let ghost tjv = tj.v();
    let dj = Json::Str(d.to_owned());
    let ghost djv = dj.v();
    let mut fields: Vec<(String, Json)> = Vec::with_capacity(2);
    fields.push((String::from_str("type"), tj));
    fields.push((String::from_str("description"), dj));
    let r = Json::Obj(fields);
    proof {
        assert(r.v()->Obj_0.len() == 2);
        assert(r.v()->Obj_0[0] == ("type"@, tjv));
        assert(r.v()->Obj_0[1] == ("description"@, djv));
        assert(r.v()->Obj_0 =~~= prop_v(t@, d@)->Obj_0);
        assert(r.v() =~~= prop_v(t@, d@));
    }
    r
}

/// Builds an array property.
fn earr_prop(item_t: &str, d: &str) -> (r: Json)
    ensures
        r.v() == arr_prop_v(item_t@, d@),
{
    let tj = Json::Str("array".to_owned());
    let ghost tjv = tj.v();
    let itj = Json::Str(item_t.to_owned());
    let ghost itjv = itj.v();
    let mut inner: Vec<(String, Json)> = Vec::with_capacity(1);
    inner.push((String::from_str("type"), itj));
    let items = Json::Obj(inner);
    let ghost items_v = items.v();
    let dj = Json::Str(d.to_owned());
    let ghost djv = dj.v();
    let mut fields: Vec<(String, Json)> = Vec::with_capacity(3);
    fields.push((String::from_str("type"), tj));
    fields.push((String::from_str("items"), items));
    fields.push((String::from_str("description"), dj));
    let r = Json::Obj(fields);
    proof {
        assert(items_v->Obj_0.len() == 1);
        assert(items_v->Obj_0[0] == ("type"@, itjv));
        assert(items_v->Obj_0 =~~= arr_prop_v(item_t@, d@)->Obj_0[1].1->Obj_0);
        assert(items_v =~~= arr_prop_v(item_t@, d@)->Obj_0[1].1);
        assert(r.v()->Obj_0.len() == 3);
        assert(r.v()->Obj_0[0] == ("type"@, tjv));
        assert(r.v()->Obj_0[1] == ("items"@, items_v));
        assert(r.v()->Obj_0[2] == ("description"@, djv));
        assert(r.v()->Obj_0 =~~= arr_prop_v(item_t@, d@)->Obj_0);
        assert(r.v() =~~= arr_prop_v(item_t@, d@));
    }
    r
}

/// Assembles a schema out of its required names and built properties.
fn eschema(required: Vec<String>, props: Vec<(String, Json)>) -> (r: Json)
    ensures
        r.v() == schema_v(
            required.deep_view(),
            Seq::new(props@.len(), |i: int| (props@[i].0@, props@[i].1.v())),
        ),
{
    let ghost props_m = Seq::new(props@.len(), |i: int| (props@[i].0@, props@[i].1.v()));
    let ghost req_m = required.deep_view();
    let nreq = required.len();
    let props_j = Json::Obj(props);
    let ghost props_jv = props_j.v();
    proof {
        assert(props_jv->Obj_0 =~~= props_m);
        assert(props_jv =~~= JsonV::Obj(props_m));
    }
    let tj = Json::Str("object".to_owned());
    let ghost tjv = tj.v();
    if nreq == 0 {
        let mut fields: Vec<(String, Json)> = Vec::with_capacity(2);
        fields.push((String::from_str("type"), tj));
        fields.push((String::from_str("properties"), props_j));
        let r = Json::Obj(fields);
        proof {
            assert(r.v()->Obj_0.len() == 2);
            assert(r.v()->Obj_0[0] == ("type"@, tjv));
            assert(r.v()->Obj_0[1] == ("properties"@, props_jv));
            assert(r.v()->Obj_0 =~~= schema_v(req_m, props_m)->Obj_0);
            assert(r.v() =~~= schema_v(req_m, props_m));
        }
        r
    } else {
        let mut req_items: Vec<Json> = Vec::with_capacity(nreq);
        let mut i: usize = 0;
        while i < nreq
            invariant
                i <= nreq,
                nreq == required.len(),
                req_m == required.deep_view(),
                req_items@.len() == i,
                forall|j: int|
                    0 <= j < i ==> #[trigger] req_items@[j].v() == JsonV::Str(req_m[j]),
            decreases nreq - i,
        {
            let itm = Json::Str(crate::json::clone_string(&required[i]));
            req_items.push(itm);
            proof {
                assert(required.deep_view()[i as int] == required@[i as int]@);
            }
            i = i + 1;
        }
        let ghost req_items_s = req_items@;
        let req_j = Json::Arr(req_items);
        let ghost req_jv = req_j.v();
        proof {
            assert forall|j: int| 0 <= j < nreq implies req_jv->Arr_0[j] == JsonV::Str(
                req_m[j],
            ) by {
                assert(req_jv->Arr_0[j] == req_items_s[j].v());
            }
            assert(req_jv->Arr_0 =~= Seq::new(req_m.len(), |i: int| JsonV::Str(req_m[i])));
        }
        let mut fields: Vec<(String, Json)> = Vec::with_capacity(3);
        fields.push((String::from_str("type"), tj));
        fields.push((String::from_str("required"), req_j));
        fields.push((String::from_str("properties"), props_j));
        let r = Json::Obj(fields);
        proof {
            assert(r.v()->Obj_0.len() == 3);
            assert(r.v()->Obj_0[0] == ("type"@, tjv));
            assert(r.v()->Obj_0[1] == ("required"@, req_jv));
            assert(r.v()->Obj_0[2] == ("properties"@, props_jv));
            assert(r.v()->Obj_0 =~~= schema_v(req_m, props_m)->Obj_0);
            assert(r.v() =~~= schema_v(req_m, props_m));
        }
        r
    }
}


/// Builds the `chroma_add_documents` schema.
fn schema_0() -> (r: Json)
    ensures
        r.v() == schema_0_v(),
{
    let mut req: Vec<String> = Vec::new();
    req.push(String::from_str("collection_name"));
    req.push(String::from_str("documents"));
    let mut props: Vec<(String, Json)> = Vec::new();
    let p0 = eprop("string", "Name of the collection");
    let ghost p0v = p0.v();
    props.push((String::from_str("collection_name"), p0));
    let p1 = earr_prop("string", "List of documents to add");
    let ghost p1v = p1.v();
    props.push((String::from_str("documents"), p1));
    let p2 = earr_prop("object", "List of metadata objects for documents");
    let ghost p2v = p2.v();
    props.push((String::from_str("metadatas"), p2));
    let p3 = earr_prop("string", "List of IDs for documents");
    let ghost p3v = p3.v();
    props.push((String::from_str("ids"), p3));
    let ghost req_m = req.deep_view();
    let ghost props_m = Seq::new(props@.len(), |i: int| (props@[i].0@, props@[i].1.v()));
    proof {
        assert(req_m.len() == 2);
        assert(req_m[0] == req@[0]@);
        assert(req_m[1] == req@[1]@);
        assert(req_m =~~= seq!["collection_name"@, "documents"@]);
        assert(props_m.len() == 4);
        assert(props_m[0] == ("collection_name"@, p0v));
        assert(props_m[1] == ("documents"@, p1v));
        assert(props_m[2] == ("metadatas"@, p2v));
        assert(props_m[3] == ("ids"@, p3v));
        assert(props_m =~~= seq![("collection_name"@, prop_v("string"@, "Name of the collection"@)), ("documents"@, arr_prop_v("string"@, "List of documents to add"@)), ("metadatas"@, arr_prop_v("object"@, "List of metadata objects for documents"@)), ("ids"@, arr_prop_v("string"@, "List of IDs for documents"@))]);
    }
    let r = eschema(req, props);
    proof {
        assert(r.v() == schema_v(req_m, props_m));
        assert(r.v() =~~= schema_0_v());
    }
    r
}

/// Builds the `chroma_create_collection` schema.
fn schema_1() -> (r: Json)
    ensures
        r.v() == schema_1_v(),
{
    let mut req: Vec<String> = Vec::new();
    req.push(String::from_str("collection_name"));
    let mut props: Vec<(String, Json)> = Vec::new();
    let p0 = eprop("string", "Name of the collection to create");
    let ghost p0v = p0.v();
    props.push((String::from_str("collection_name"), p0));
    let p1 = eprop("object", "Optional metadata for the collection");
    let ghost p1v = p1.v();
    props.push((String::from_str("metadata"), p1));
    let p2 = eprop("string", "Name of the embedding function to use");
    let ghost p2v = p2.v();
    props.push((String::from_str("embedding_function_name"), p2));
    let ghost req_m = req.deep_view();
    let ghost props_m = Seq::new(props@.len(), |i: int| (props@[i].0@, props@[i].1.v()));
    proof {
        assert(req_m.len() == 1);
        assert(req_m[0] == req@[0]@);
        assert(req_m =~~= seq!["collection_name"@]);
        assert(props_m.len() == 3);
        assert(props_m[0] == ("collection_name"@, p0v));
        assert(props_m[1] == ("metadata"@, p1v));
        assert(props_m[2] == ("embedding_function_name"@, p2v));
        assert(props_m =~~= seq![("collection_name"@, prop_v("string"@, "Name of the collection to create"@)), ("metadata"@, prop_v("object"@, "Optional metadata for the collection"@)), ("embedding_function_name"@, prop_v("string"@, "Name of the embedding function to use"@))]);
    }
    let r = eschema(req, props);
    proof {
        assert(r.v() == schema_v(req_m, props_m));
        assert(r.v() =~~= schema_1_v());
    }
    r
}

/// Builds the `chroma_delete_collection` schema.
fn schema_2() -> (r: Json)
    ensures
        r.v() == schema_2_v(),
{
    let mut req: Vec<String> = Vec::new();
    req.push(String::from_str("collection_name"));
    let mut props: Vec<(String, Json)> = Vec::new();
    let p0 = eprop("string", "Name of the collection to delete");
    let ghost p0v = p0.v();
    props.push((String::from_str("collection_name"), p0));
    let ghost req_m = req.deep_view();
    let ghost props_m = Seq::new(props@.len(), |i: int| (props@[i].0@, props@[i].1.v()));
    proof {
        assert(req_m.len() == 1);
        assert(req_m[0] == req@[0]@);
        assert(req_m =~~= seq!["collection_name"@]);
        assert(props_m.len() == 1);
        assert(props_m[0] == ("collection_name"@, p0v));
        assert(props_m =~~= seq![("collection_name"@, prop_v("string"@, "Name of the collection to delete"@))]);
    }
    let r = eschema(req, props);
    proof {
        assert(r.v() == schema_v(req_m, props_m));
        assert(r.v() =~~= schema_2_v());
    }
    r
}

/// Builds the `chroma_delete_documents` schema.
fn schema_3() -> (r: Json)
    ensures
        r.v() == schema_3_v(),
{
    let mut req: Vec<String> = Vec::new();
    req.push(String::from_str("collection_name"));
    req.push(String::from_str("ids"));
    let mut props: Vec<(String, Json)> = Vec::new();
    let p0 = eprop("string", "Name of the collection");
    let ghost p0v = p0.v();
    props.push((String::from_str("collection_name"), p0));
    let p1 = earr_prop("string", "List of document IDs to delete");
    let ghost p1v = p1.v();
    props.push((String::from_str("ids"), p1));
    let ghost req_m = req.deep_view();
    let ghost props_m = Seq::new(props@.len(), |i: int| (props@[i].0@, props@[i].1.v()));
    proof {
        assert(req_m.len() == 2);
        assert(req_m[0] == req@[0]@);
        assert(req_m[1] == req@[1]@);
        assert(req_m =~~= seq!["collection_name"@, "ids"@]);
        assert(props_m.len() == 2);
        assert(props_m[0] == ("collection_name"@, p0v));
        assert(props_m[1] == ("ids"@, p1v));
        assert(props_m =~~= seq![("collection_name"@, prop_v("string"@, "Name of the collection"@)), ("ids"@, arr_prop_v("string"@, "List of document IDs to delete"@))]);
    }
    let r = eschema(req, props);
    proof {
        assert(r.v() == schema_v(req_m, props_m));
        assert(r.v() =~~= schema_3_v());
    }
    r
}

/// Builds the `chroma_get_collection_count` schema.
fn schema_4() -> (r: Json)
    ensures
        r.v() == schema_4_v(),
{
    let mut req: Vec<String> = Vec::new();
    req.push(String::from_str("collection_name"));
    let mut props: Vec<(String, Json)> = Vec::new();
    let p0 = eprop("string", "Name of the collection");
    let ghost p0v = p0.v();
    props.push((String::from_str("collection_name"), p0));
    let ghost req_m = req.deep_view();
    let ghost props_m = Seq::new(props@.len(), |i: int| (props@[i].0@, props@[i].1.v()));
    proof {
        assert(req_m.len() == 1);
        assert(req_m[0] == req@[0]@);
        assert(req_m =~~= seq!["collection_name"@]);
        assert(props_m.len() == 1);
        assert(props_m[0] == ("collection_name"@, p0v));
        assert(props_m =~~= seq![("collection_name"@, prop_v("string"@, "Name of the collection"@))]);
    }
    let r = eschema(req, props);
    proof {
        assert(r.v() == schema_v(req_m, props_m));
        assert(r.v() =~~= schema_4_v());
    }
    r
}

/// Builds the `chroma_get_collection_info` schema.
fn schema_5() -> (r: Json)
    ensures
        r.v() == schema_5_v(),
{
    let mut req: Vec<String> = Vec::new();
    req.push(String::from_str("collection_name"));
    let mut props: Vec<(String, Json)> = Vec::new();
    let p0 = eprop("string", "Name of the collection");
    let ghost p0v = p0.v();
    props.push((String::from_str("collection_name"), p0));
    let ghost req_m = req.deep_view();
    let ghost props_m = Seq::new(props@.len(), |i: int| (props@[i].0@, props@[i].1.v()));
    proof {
        assert(req_m.len() == 1);
        assert(req_m[0] == req@[0]@);
        assert(req_m =~~= seq!["collection_name"@]);
        assert(props_m.len() == 1);
        assert(props_m[0] == ("collection_name"@, p0v));
        assert(props_m =~~= seq![("collection_name"@, prop_v("string"@, "Name of the collection"@))]);
    }
    let r = eschema(req, props);
    proof {
        assert(r.v() == schema_v(req_m, props_m));
        assert(r.v() =~~= schema_5_v());
    }
    r
}

/// Builds the `chroma_get_documents` schema.
fn schema_6() -> (r: Json)
    ensures
        r.v() == schema_6_v(),
{
    let mut req: Vec<String> = Vec::new();
    req.push(String::from_str("collection_name"));
    let mut props: Vec<(String, Json)> = Vec::new();
    let p0 = eprop("string", "Name of the collection");
    let ghost p0v = p0.v();
    props.push((String::from_str("collection_name"), p0));
    let p1 = earr_prop("string", "List of document IDs to get");
    let ghost p1v = p1.v();
    props.push((String::from_str("ids"), p1));
    let p2 = eprop("integer", "Maximum number of documents to return");
    let ghost p2v = p2.v();
    props.push((String::from_str("limit"), p2));
    let p3 = eprop("integer", "Offset for pagination");
    let ghost p3v = p3.v();
    props.push((String::from_str("offset"), p3));
    let ghost req_m = req.deep_view();
    let ghost props_m = Seq::new(props@.len(), |i: int| (props@[i].0@, props@[i].1.v()));
    proof {
        assert(req_m.len() == 1);
        assert(req_m[0] == req@[0]@);
        assert(req_m =~~= seq!["collection_name"@]);
        assert(props_m.len() == 4);
        assert(props_m[0] == ("collection_name"@, p0v));
        assert(props_m[1] == ("ids"@, p1v));
        assert(props_m[2] == ("limit"@, p2v));
        assert(props_m[3] == ("offset"@, p3v));
        assert(props_m =~~= seq![("collection_name"@, prop_v("string"@, "Name of the collection"@)), ("ids"@, arr_prop_v("string"@, "List of document IDs to get"@)), ("limit"@, prop_v("integer"@, "Maximum number of documents to return"@)), ("offset"@, prop_v("integer"@, "Offset for pagination"@))]);
    }
    let r = eschema(req, props);
    proof {
        assert(r.v() == schema_v(req_m, props_m));
        assert(r.v() =~~= schema_6_v());
    }
    r
}

/// Builds the `chroma_list_collections` schema.
fn schema_7() -> (r: Json)
    ensures
        r.v() == schema_7_v(),
{
    let mut req: Vec<String> = Vec::new();
    let mut props: Vec<(String, Json)> = Vec::new();
    let p0 = eprop("integer", "Maximum number of collections to return");
    let ghost p0v = p0.v();
    props.push((String::from_str("limit"), p0));
    let p1 = eprop("integer", "Offset for pagination");
    let ghost p1v = p1.v();
    props.push((String::from_str("offset"), p1));
    let ghost req_m = req.deep_view();
    let ghost props_m = Seq::new(props@.len(), |i: int| (props@[i].0@, props@[i].1.v()));
    proof {
        assert(req_m.len() == 0);
        assert(req_m =~~= Seq::<Seq<char>>::empty());
        assert(props_m.len() == 2);
        assert(props_m[0] == ("limit"@, p0v));
        assert(props_m[1] == ("offset"@, p1v));
        assert(props_m =~~= seq![("limit"@, prop_v("integer"@, "Maximum number of collections to return"@)), ("offset"@, prop_v("integer"@, "Offset for pagination"@))]);
    }
    let r = eschema(req, props);
    proof {
        assert(r.v() == schema_v(req_m, props_m));
        assert(r.v() =~~= schema_7_v());
    }
    r
}

/// Builds the `chroma_modify_collection` schema.
fn schema_8() -> (r: Json)
    ensures
        r.v() == schema_8_v(),
{
    let mut req: Vec<String> = Vec::new();
    req.push(String::from_str("collection_name"));
    let mut props: Vec<(String, Json)> = Vec::new();
    let p0 = eprop("string", "Name of the collection to modify");
    let ghost p0v = p0.v();
    props.push((String::from_str("collection_name"), p0));
    let p1 = eprop("string", "New name for the collection");
    let ghost p1v = p1.v();
    props.push((String::from_str("new_name"), p1));
    let p2 = eprop("object", "New metadata for the collection");
    let ghost p2v = p2.v();
    props.push((String::from_str("new_metadata"), p2));
    let ghost req_m = req.deep_view();
    let ghost props_m = Seq::new(props@.len(), |i: int| (props@[i].0@, props@[i].1.v()));
    proof {
        assert(req_m.len() == 1);
        assert(req_m[0] == req@[0]@);
        assert(req_m =~~= seq!["collection_name"@]);
        assert(props_m.len() == 3);
        assert(props_m[0] == ("collection_name"@, p0v));
        assert(props_m[1] == ("new_name"@, p1v));
        assert(props_m[2] == ("new_metadata"@, p2v));
        assert(props_m =~~= seq![("collection_name"@, prop_v("string"@, "Name of the collection to modify"@)), ("new_name"@, prop_v("string"@, "New name for the collection"@)), ("new_metadata"@, prop_v("object"@, "New metadata for the collection"@))]);
    }
    let r = eschema(req, props);
    proof {
        assert(r.v() == schema_v(req_m, props_m));
        assert(r.v() =~~= schema_8_v());
    }
    r
}

/// Builds the `chroma_peek_collection` schema.
fn schema_9() -> (r: Json)
    ensures
        r.v() == schema_9_v(),
{
    let mut req: Vec<String> = Vec::new();
    req.push(String::from_str("collection_name"));
    req.push(String::from_str("limit"));
    let mut props: Vec<(String, Json)> = Vec::new();
    let p0 = eprop("string", "Name of the collection to peek");
    let ghost p0v = p0.v();
    props.push((String::from_str("collection_name"), p0));
    let p1 = eprop("integer", "Number of documents to return");
    let ghost p1v = p1.v();
    props.push((String::from_str("limit"), p1));
    let ghost req_m = req.deep_view();
    let ghost props_m = Seq::new(props@.len(), |i: int| (props@[i].0@, props@[i].1.v()));
    proof {
        assert(req_m.len() == 2);
        assert(req_m[0] == req@[0]@);
        assert(req_m[1] == req@[1]@);
        assert(req_m =~~= seq!["collection_name"@, "limit"@]);
        assert(props_m.len() == 2);
        assert(props_m[0] == ("collection_name"@, p0v));
        assert(props_m[1] == ("limit"@, p1v));
        assert(props_m =~~= seq![("collection_name"@, prop_v("string"@, "Name of the collection to peek"@)), ("limit"@, prop_v("integer"@, "Number of documents to return"@))]);
    }
    let r = eschema(req, props);
    proof {
        assert(r.v() == schema_v(req_m, props_m));
        assert(r.v() =~~= schema_9_v());
    }
    r
}

/// Builds the `chroma_query_documents` schema.
fn schema_10() -> (r: Json)
    ensures
        r.v() == schema_10_v(),
{
    let mut req: Vec<String> = Vec::new();
    req.push(String::from_str("collection_name"));
    req.push(String::from_str("query_texts"));
    let mut props: Vec<(String, Json)> = Vec::new();
    let p0 = eprop("string", "Name of the collection");
    let ghost p0v = p0.v();
    props.push((String::from_str("collection_name"), p0));
    let p1 = earr_prop("string", "List of query texts");
    let ghost p1v = p1.v();
    props.push((String::from_str("query_texts"), p1));
    let p2 = eprop("integer", "Number of results to return per query");
    let ghost p2v = p2.v();
    props.push((String::from_str("n_results"), p2));
    let p3 = eprop("object", "Filter by metadata");
    let ghost p3v = p3.v();
    props.push((String::from_str("where_filter"), p3));
    let p4 = eprop("object", "Filter by document content");
    let ghost p4v = p4.v();
    props.push((String::from_str("where_document"), p4));
    let ghost req_m = req.deep_view();
    let ghost props_m = Seq::new(props@.len(), |i: int| (props@[i].0@, props@[i].1.v()));
    proof {
        assert(req_m.len() == 2);
        assert(req_m[0] == req@[0]@);
        assert(req_m[1] == req@[1]@);
        assert(req_m =~~= seq!["collection_name"@, "query_texts"@]);
        assert(props_m.len() == 5);
        assert(props_m[0] == ("collection_name"@, p0v));
        assert(props_m[1] == ("query_texts"@, p1v));
        assert(props_m[2] == ("n_results"@, p2v));
        assert(props_m[3] == ("where_filter"@, p3v));
        assert(props_m[4] == ("where_document"@, p4v));
        assert(props_m =~~= seq![("collection_name"@, prop_v("string"@, "Name of the collection"@)), ("query_texts"@, arr_prop_v("string"@, "List of query texts"@)), ("n_results"@, prop_v("integer"@, "Number of results to return per query"@)), ("where_filter"@, prop_v("object"@, "Filter by metadata"@)), ("where_document"@, prop_v("object"@, "Filter by document content"@))]);
    }
    let r = eschema(req, props);
    proof {
        assert(r.v() == schema_v(req_m, props_m));
        assert(r.v() =~~= schema_10_v());
    }
    r
}

/// Builds the `chroma_update_documents` schema.
fn schema_11() -> (r: Json)
    ensures
        r.v() == schema_11_v(),
{
    let mut req: Vec<String> = Vec::new();
    req.push(String::from_str("collection_name"));
    req.push(String::from_str("ids"));
    let mut props: Vec<(String, Json)> = Vec::new();
    let p0 = eprop("string", "Name of the collection");
    let ghost p0v = p0.v();
    props.push((String::from_str("collection_name"), p0));
    let p1 = earr_prop("string", "List of document IDs to update");
    let ghost p1v = p1.v();
    props.push((String::from_str("ids"), p1));
    let p2 = earr_prop("array", "List of embeddings for documents");
    let ghost p2v = p2.v();
    props.push((String::from_str("embeddings"), p2));
    let p3 = earr_prop("object", "List of metadata objects for documents");
    let ghost p3v = p3.v();
    props.push((String::from_str("metadatas"), p3));
    let p4 = earr_prop("string", "List of new document contents");
    let ghost p4v = p4.v();
    props.push((String::from_str("documents"), p4));
    let ghost req_m = req.deep_view();
    let ghost props_m = Seq::new(props@.len(), |i: int| (props@[i].0@, props@[i].1.v()));
    proof {
        assert(req_m.len() == 2);
        assert(req_m[0] == req@[0]@);
        assert(req_m[1] == req@[1]@);
        assert(req_m =~~= seq!["collection_name"@, "ids"@]);
        assert(props_m.len() == 5);
        assert(props_m[0] == ("collection_name"@, p0v));
        assert(props_m[1] == ("ids"@, p1v));
        assert(props_m[2] == ("embeddings"@, p2v));
        assert(props_m[3] == ("metadatas"@, p3v));
        assert(props_m[4] == ("documents"@, p4v));
        assert(props_m =~~= seq![("collection_name"@, prop_v("string"@, "Name of the collection"@)), ("ids"@, arr_prop_v("string"@, "List of document IDs to update"@)), ("embeddings"@, arr_prop_v("array"@, "List of embeddings for documents"@)), ("metadatas"@, arr_prop_v("object"@, "List of metadata objects for documents"@)), ("documents"@, arr_prop_v("string"@, "List of new document contents"@))]);
    }
    let r = eschema(req, props);
    proof {
        assert(r.v() == schema_v(req_m, props_m));
        assert(r.v() =~~= schema_11_v());
    }
    r
}

/// The registered tool descriptors, in alphabetical order.
pub fn get_tool_definitions() -> (r: Vec<ToolDefinition>)
    ensures
        r@.len() == registry_v().len(),
        forall|i: int| 0 <= i < r@.len() ==> #[trigger] r@[i]@ == registry_v()[i],
{
    let mut r: Vec<ToolDefinition> = Vec::with_capacity(12);
    let s0 = schema_0();
    r.push(ToolDefinition {
        name: String::from_str("chroma_add_documents"),
        description: String::from_str("Adds documents to a collection"),
        input_schema: s0,
    });
    let s1 = schema_1();
    r.push(ToolDefinition {
        name: String::from_str("chroma_create_collection"),
        description: String::from_str("Creates a new collection in ChromaDB"),
        input_schema: s1,
    });
    let s2 = schema_2();
    r.push(ToolDefinition {
        name: String::from_str("chroma_delete_collection"),
        description: String::from_str("Deletes a collection"),
        input_schema: s2,
    });
    let s3 = schema_3();
    r.push(ToolDefinition {
        name: String::from_str("chroma_delete_documents"),
        description: String::from_str("Deletes documents from a collection"),
        input_schema: s3,
    });
    let s4 = schema_4();
    r.push(ToolDefinition {
        name: String::from_str("chroma_get_collection_count"),
        description: String::from_str("Counts the number of documents in a collection"),
        input_schema: s4,
    });
    let s5 = schema_5();
    r.push(ToolDefinition {
        name: String::from_str("chroma_get_collection_info"),
        description: String::from_str("Gets metadata about a collection"),
        input_schema: s5,
    });
    let s6 = schema_6();
    r.push(ToolDefinition {
        name: String::from_str("chroma_get_documents"),
        description: String::from_str("Gets documents from a collection"),
        input_schema: s6,
    });
    let s7 = schema_7();
    r.push(ToolDefinition {
        name: String::from_str("chroma_list_collections"),
        description: String::from_str("Lists all collections in the ChromaDB instance"),
        input_schema: s7,
    });
    let s8 = schema_8();
    r.push(ToolDefinition {
        name: String::from_str("chroma_modify_collection"),
        description: String::from_str("Modifies collection properties"),
        input_schema: s8,
    });
    let s9 = schema_9();
    r.push(ToolDefinition {
        name: String::from_str("chroma_peek_collection"),
        description: String::from_str("Shows a sample of documents in a collection"),
        input_schema: s9,
    });
    let s10 = schema_10();
    r.push(ToolDefinition {
        name: String::from_str("chroma_query_documents"),
        description: String::from_str("Searches for similar documents in a collection"),
        input_schema: s10,
    });
    let s11 = schema_11();
    r.push(ToolDefinition {
        name: String::from_str("chroma_update_documents"),
        description: String::from_str("Updates existing documents in a collection"),
        input_schema: s11,
    });
    proof {
        assert forall|i: int| 0 <= i < r@.len() implies #[trigger] r@[i]@ == registry_v()[i] by {
            assert(registry_v()[i] == ToolDefV {
                name: tool_names()[i],
                description: tool_descriptions()[i],
                input_schema: tool_schemas()[i],
            });
        }
    }
    r
}

/// The model of optional, borrowed arguments.
pub open spec fn args_v(a: Option<&Json>) -> Option<JsonV> {
    match a {
        Some(j) => Some(j.v()),
        None => None,
    }
}

/// The argument field under `key`, if the arguments are an object holding
/// one.
pub open spec fn a_field(args: Option<JsonV>, key: Seq<char>) -> Option<JsonV> {
    match args {
        Some(a) => crate::json::get_v(a, key),
        None => None,
    }
}

/// The string argument under `key`, if there is one.
pub open spec fn a_str(args: Option<JsonV>, key: Seq<char>) -> Option<Seq<char>> {
    match a_field(args, key) {
        Some(JsonV::Str(s)) => Some(s),
        _ => None,
    }
}

/// The count argument under `key`: a nonnegative integer that fits the
/// platform's sizes.
pub open spec fn a_nat(args: Option<JsonV>, key: Seq<char>) -> Option<int> {
    match a_field(args, key) {
        Some(JsonV::Int(n)) => if 0 <= n <= usize::MAX as int {
            Some(n)
        } else {
            None
        },
        _ => None,
    }
}

/// The array argument under `key`, if there is one.
pub open spec fn a_arr(args: Option<JsonV>, key: Seq<char>) -> Option<Seq<JsonV>> {
    match a_field(args, key) {
        Some(JsonV::Arr(items)) => Some(items),
        _ => None,
    }
}

/// All elements are strings.
pub open spec fn all_strs(s: Seq<JsonV>) -> bool {
    forall|i: int| 0 <= i < s.len() ==> (#[trigger] s[i]) is Str
}

/// The strings of an all-string array.
pub open spec fn strs_of(s: Seq<JsonV>) -> Seq<Seq<char>> {
    Seq::new(s.len(), |i: int| s[i]->Str_0)
}

/// The string-array argument under `key`: present only when every element
/// is a string.
pub open spec fn a_strs(args: Option<JsonV>, key: Seq<char>) -> Option<Seq<Seq<char>>> {
    match a_arr(args, key) {
        Some(items) => if all_strs(items) {
            Some(strs_of(items))
        } else {
            None
        },
        None => None,
    }
}

/// All elements are arrays.
pub open spec fn all_arrs(s: Seq<JsonV>) -> bool {
    forall|i: int| 0 <= i < s.len() ==> (#[trigger] s[i]) is Arr
}

/// One embedding, read componentwise as micros.
pub open spec fn emb_of(items: Seq<JsonV>) -> Seq<i64> {
    Seq::new(items.len(), |i: int| crate::tools::micros_of_num(items[i]))
}

/// The embeddings argument under `key`: an array of arrays of numbers.
pub open spec fn a_embs(args: Option<JsonV>, key: Seq<char>) -> Option<Seq<Seq<i64>>> {
    match a_arr(args, key) {
        Some(items) => if all_arrs(items) {
            Some(Seq::new(items.len(), |i: int| emb_of(items[i]->Arr_0)))
        } else {
            None
        },
        None => None,
    }
}

/// Reads a string argument.
fn d_string(arguments: Option<&Json>, key: &str) -> (r: Option<String>)
    ensures
        match r {
            Some(s) => a_str(args_v(arguments), key@) == Some(s@),
            None => a_str(args_v(arguments), key@) is None,
        },
{
    match arguments {
        Some(j) => match j.get_str(key) {
            Some(s) => Some(crate::json::clone_string(s)),
            None => None,
        },
        None => None,
    }
}

/// Reads a count argument.
fn d_nat(arguments: Option<&Json>, key: &str) -> (r: Option<usize>)
    ensures
        match r {
            Some(n) => a_nat(args_v(arguments), key@) == Some(n as int),
            None => a_nat(args_v(arguments), key@) is None,
        },
{
    match arguments {
        Some(j) => match j.get_int(key) {
            Some(n) => if n >= 0 && (n as u64) <= (usize::MAX as u64) {
                Some(n as usize)
            } else {
                None
            },
            None => None,
        },
        None => None,
    }
}

/// Reads any JSON argument, copied.
fn d_json(arguments: Option<&Json>, key: &str) -> (r: Option<Json>)
    ensures
        match r {
            Some(j) => a_field(args_v(arguments), key@) == Some(j.v()),
            None => a_field(args_v(arguments), key@) is None,
        },
{
    match arguments {
        Some(j) => match j.get(key) {
            Some(f) => Some(f.deep_clone()),
            None => None,
        },
        None => None,
    }
}

/// Reads a string-array argument.
fn d_strings(arguments: Option<&Json>, key: &str) -> (r: Option<Vec<String>>)
    ensures
        match r {
            Some(v) => a_strs(args_v(arguments), key@) == Some(v.deep_view()),
            None => a_strs(args_v(arguments), key@) is None,
        },
{
    match arguments {
        Some(j) => match j.get_arr(key) {
            Some(items) => {
                let ghost m0 = Seq::new(items@.len(), |k: int| items@[k].v());
                proof {
                    assert(a_arr(args_v(arguments), key@)->Some_0 =~= m0);
                    assert(a_arr(args_v(arguments), key@) == Some(m0));
                }
                let n = items.len();
                let mut out: Vec<String> = Vec::with_capacity(n);
                let mut i: usize = 0;
                while i < n
                    invariant
                        i <= n,
                        n == items@.len(),
                        a_strs(args_v(arguments), key@) == (if all_strs(m0) {
                            Some(strs_of(m0))
                        } else {
                            None::<Seq<Seq<char>>>
                        }),
                        m0.len() == n,
                        forall|k: int| 0 <= k < n ==> #[trigger] m0[k] == items@[k].v(),
                        out@.len() == i,
                        forall|k: int| 0 <= k < i ==> (#[trigger] m0[k]) is Str,
                        forall|k: int| 0 <= k < i ==> #[trigger] out@[k]@ == m0[k]->Str_0,
                    decreases n - i,
                {
                    match &items[i] {
                        Json::Str(st) => {
                            let c = crate::json::clone_string(st);
                            out.push(c);
                        },
                        _ => {
                            proof {
                                assert(!(m0[i as int] is Str));
                                assert(!all_strs(m0));
                            }
                            return None;
                        },
                    }
                    i = i + 1;
                }
                proof {
                    assert(all_strs(m0));
                    assert(out.deep_view() =~~= strs_of(m0));
                }
                Some(out)
            },
            None => None,
        },
        None => None,
    }
}

/// Reads an array argument of arbitrary JSON values, copied.
fn d_jsons(arguments: Option<&Json>, key: &str) -> (r: Option<Vec<Json>>)
    ensures
        match r {
            Some(v) => {
                &&& a_arr(args_v(arguments), key@) is Some
                &&& v@.len() == a_arr(args_v(arguments), key@)->Some_0.len()
                &&& forall|k: int|
                    0 <= k < v@.len() ==> #[trigger] v@[k].v() == a_arr(
                        args_v(arguments),
                        key@,
                    )->Some_0[k]
            },
            None => a_arr(args_v(arguments), key@) is None,
        },
{
    match arguments {
        Some(j) => match j.get_arr(key) {
            Some(items) => {
                let n = items.len();
                let mut out: Vec<Json> = Vec::with_capacity(n);
                let mut i: usize = 0;
                while i < n
                    invariant
                        i <= n,
                        n == items@.len(),
                        out@.len() == i,
                        forall|k: int|
                            0 <= k < i ==> #[trigger] out@[k].v() == items@[k].v(),
                    decreases n - i,
                {
                    let c = items[i].deep_clone();
                    out.push(c);
                    i = i + 1;
                }
                Some(out)
            },
            None => None,
        },
        None => None,
    }
}

/// Reads an embeddings argument: an array of arrays of numbers, in micros.
fn d_embs(arguments: Option<&Json>, key: &str) -> (r: Option<Vec<Vec<i64>>>)
    ensures
        match r {
            Some(v) => a_embs(args_v(arguments), key@) == Some(v.deep_view()),
            None => a_embs(args_v(arguments), key@) is None,
        },
{
    match arguments {
        Some(j) => match j.get_arr(key) {
            Some(items) => {
                let ghost m0 = Seq::new(items@.len(), |k: int| items@[k].v());
                proof {
                    assert(a_arr(args_v(arguments), key@)->Some_0 =~= m0);
                    assert(a_arr(args_v(arguments), key@) == Some(m0));
                }
                let n = items.len();
                let mut out: Vec<Vec<i64>> = Vec::with_capacity(n);
                let mut i: usize = 0;
                while i < n
                    invariant
                        i <= n,
                        n == items@.len(),
                        a_embs(args_v(arguments), key@) == (if all_arrs(m0) {
                            Some(Seq::new(m0.len(), |k: int| emb_of(m0[k]->Arr_0)))
                        } else {
                            None::<Seq<Seq<i64>>>
                        }),
                        m0.len() == n,
                        forall|k: int| 0 <= k < n ==> #[trigger] m0[k] == items@[k].v(),
                        out@.len() == i,
                        forall|k: int| 0 <= k < i ==> (#[trigger] m0[k]) is Arr,
                        forall|k: int| 0 <= k < i ==> #[trigger] out@[k]@ == emb_of(m0[k]->Arr_0),
                    decreases n - i,
                {
                    match &items[i] {
                        Json::Arr(comps) => {
                            let cn = comps.len();
                            let mut emb: Vec<i64> = Vec::with_capacity(cn);
                            let mut c: usize = 0;
                            while c < cn
                                invariant
                                    c <= cn,
                                    cn == comps@.len(),
                                    emb@.len() == c,
                                    forall|q: int|
                                        0 <= q < c ==> #[trigger] emb@[q]
                                            == crate::tools::micros_of_num(comps@[q].v()),
                                decreases cn - c,
                            {
                                let m = crate::tools::micros_of_json(&comps[c]);
                                emb.push(m);
                                c = c + 1;
                            }
                            proof {
                                assert(m0[i as int]->Arr_0 =~= Seq::new(
                                    comps@.len(),
                                    |q: int| comps@[q].v(),
                                ));
                                assert(emb@ =~= emb_of(m0[i as int]->Arr_0));
                            }
                            out.push(emb);
                        },
                        _ => {
                            proof {
                                assert(!(m0[i as int] is Arr));
                                assert(!all_arrs(m0));
                            }
                            return None;
                        },
                    }
                    i = i + 1;
                }
                proof {
                    assert(all_arrs(m0));
                    assert(out.deep_view() =~~= Seq::new(m0.len(), |k: int| emb_of(m0[k]->Arr_0)));
                }
                Some(out)
            },
            None => None,
        },
        None => None,
    }
}

/// A small integer argument (the index-tuning knobs), if present with the
/// right type.
pub open spec fn a_i32(args: Option<JsonV>, key: Seq<char>) -> Option<int> {
    match a_field(args, key) {
        Some(JsonV::Int(n)) => if -0x80000000 <= n < 0x80000000 {
            Some(n)
        } else {
            None
        },
        _ => None,
    }
}

/// Reads a small integer argument.
fn d_i32(arguments: Option<&Json>, key: &str) -> (r: Option<i32>)
    ensures
        match r {
            Some(n) => a_i32(args_v(arguments), key@) == Some(n as int),
            None => a_i32(args_v(arguments), key@) is None,
        },
{
    match arguments {
        Some(j) => match j.get_int(key) {
            Some(n) => if -0x80000000i64 <= n && n < 0x80000000i64 {
                Some(n as i32)
            } else {
                None
            },
            None => None,
        },
        None => None,
    }
}

/// What a tool invocation leaves behind: the store afterwards and the raw
/// result or the error message.
#[verifier::ext_equal]
pub struct Outcome {
    pub post: StoreV,
    pub result: Result<JsonV, Seq<char>>,
}

/// A failed invocation: the store untouched, the message returned.
pub open spec fn fail(s: StoreV, msg: Seq<char>) -> Outcome {
    Outcome { post: s, result: Err(msg) }
}

/// The count saturated into an `i64`-valued JSON integer.
pub open spec fn count_v(n: int) -> JsonV {
    JsonV::Int(
        if n > 0x7FFF_FFFF_FFFF_FFFF {
            0x7FFF_FFFF_FFFF_FFFFint
        } else {
            n
        },
    )
}

/// What invoking a tool by name does: the whole tool surface, as one
/// function from store and arguments to store and result.
pub open spec fn invoke_v(s: StoreV, tool: Seq<char>, args: Option<JsonV>) -> Outcome {
    if tool == "chroma_add_documents"@ {
        match (a_str(args, "collection_name"@), a_strs(args, "documents"@)) {
            (Some(nm), Some(docs)) => if docs.len() == 0 {
                fail(s, "The 'documents' list cannot be empty."@)
            } else {
                Outcome {
                    post: crate::tools::add_effect(
                        crate::tools::ensure_v(s, nm),
                        nm,
                        docs,
                        None,
                        a_arr(args, "metadatas"@),
                        match a_strs(args, "ids"@) {
                            Some(v) => v,
                            None => Seq::new(docs.len(), |i: int| crate::num::dec_rep(i as nat)),
                        },
                    ),
                    result: Ok(
                        JsonV::Str(
                            "Successfully added "@ + crate::num::dec_rep(docs.len())
                                + " documents to collection "@ + nm,
                        ),
                    ),
                }
            },
            (None, _) => fail(s, "Missing required parameter: collection_name"@),
            (Some(_), None) => fail(s, "Missing required parameter: documents"@),
        }
    } else if tool == "chroma_create_collection"@ {
        match a_str(args, "collection_name"@) {
            Some(nm) => Outcome {
                post: crate::tools::create_effect(s, nm, a_field(args, "metadata"@)),
                result: Ok(JsonV::Str("Created collection: "@ + nm)),
            },
            None => fail(s, "Missing required parameter: collection_name"@),
        }
    } else if tool == "chroma_delete_collection"@ {
        match a_str(args, "collection_name"@) {
            Some(nm) => Outcome {
                post: crate::tools::drop_effect(s, nm),
                result: Ok(JsonV::Str("Successfully deleted collection "@ + nm)),
            },
            None => fail(s, "Missing required parameter: collection_name"@),
        }
    } else if tool == "chroma_delete_documents"@ {
        match (a_str(args, "collection_name"@), a_strs(args, "ids"@)) {
            (Some(nm), Some(ids)) => if ids.len() == 0 {
                fail(s, "The 'ids' list cannot be empty."@)
            } else {
                Outcome {
                    post: crate::tools::del_effect(crate::tools::ensure_v(s, nm), nm, ids),
                    result: Ok(
                        JsonV::Str(
                            "Successfully deleted "@ + crate::num::dec_rep(ids.len())
                                + " documents from collection '"@ + nm + "'"@,
                        ),
                    ),
                }
            },
            (None, _) => fail(s, "Missing required parameter: collection_name"@),
            (Some(_), None) => fail(s, "Missing required parameter: ids"@),
        }
    } else if tool == "chroma_get_collection_count"@ {
        match a_str(args, "collection_name"@) {
            Some(nm) => {
                let post = crate::tools::ensure_v(s, nm);
                Outcome {
                    post,
                    result: Ok(
                        count_v(crate::store::docs_of(post.collections, nm).len() as int),
                    ),
                }
            },
            None => fail(s, "Missing required parameter: collection_name"@),
        }
    } else if tool == "chroma_get_collection_info"@ {
        match a_str(args, "collection_name"@) {
            Some(nm) => {
                let post = crate::tools::ensure_v(s, nm);
                Outcome { post, result: Ok(crate::tools::info_v(post, nm)) }
            },
            None => fail(s, "Missing required parameter: collection_name"@),
        }
    } else if tool == "chroma_get_documents"@ {
        match a_str(args, "collection_name"@) {
            Some(nm) => {
                let post = crate::tools::ensure_v(s, nm);
                let docs = crate::store::docs_of(post.collections, nm);
                let m = match a_nat(args, "limit"@) {
                    Some(l) => if l < docs.len() {
                        l
                    } else {
                        docs.len() as int
                    },
                    None => docs.len() as int,
                };
                Outcome { post, result: Ok(crate::store::get_result_v(docs, m)) }
            },
            None => fail(s, "Missing required parameter: collection_name"@),
        }
    } else if tool == "chroma_list_collections"@ {
        Outcome {
            post: s,
            result: Ok(
                JsonV::Arr(
                    Seq::new(
                        s.collections.len(),
                        |i: int| JsonV::Str(s.collections[i].name),
                    ),
                ),
            ),
        }
    } else if tool == "chroma_modify_collection"@ {
        match a_str(args, "collection_name"@) {
            Some(nm) => Outcome {
                post: crate::tools::modify_effect(
                    crate::tools::ensure_v(s, nm),
                    nm,
                    a_field(args, "new_metadata"@),
                ),
                result: Ok(
                    JsonV::Str(
                        "Successfully modified collection "@ + nm + ": updated "@
                            + crate::tools::aspects_text(
                            a_str(args, "new_name"@) is Some,
                            a_field(args, "new_metadata"@) is Some,
                            a_i32(args, "ef_search"@) is Some || a_i32(args, "num_threads"@)
                                is Some || a_i32(args, "batch_size"@) is Some || a_i32(
                                args,
                                "sync_threshold"@,
                            ) is Some || a_field(args, "resize_factor"@) is Some,
                        ),
                    ),
                ),
            },
            None => fail(s, "Missing required parameter: collection_name"@),
        }
    } else if tool == "chroma_peek_collection"@ {
        match (a_str(args, "collection_name"@), a_nat(args, "limit"@)) {
            (Some(nm), Some(lim)) => {
                let post = crate::tools::ensure_v(s, nm);
                let docs = crate::store::docs_of(post.collections, nm);
                Outcome {
                    post,
                    result: Ok(
                        crate::store::get_result_v(
                            docs,
                            if lim < docs.len() {
                                lim
                            } else {
                                docs.len() as int
                            },
                        ),
                    ),
                }
            },
            (None, _) => fail(s, "Missing required parameter: collection_name"@),
            (Some(_), None) => fail(s, "Missing required parameter: limit"@),
        }
    } else if tool == "chroma_query_documents"@ {
        match (a_str(args, "collection_name"@), a_strs(args, "query_texts"@)) {
            (Some(nm), Some(texts)) => if texts.len() == 0 {
                fail(s, "The 'query_texts' list cannot be empty."@)
            } else {
                let post = crate::tools::ensure_v(s, nm);
                Outcome {
                    post,
                    result: Ok(
                        crate::store::query_v(
                            post.collections,
                            nm,
                            texts,
                            match a_nat(args, "n_results"@) {
                                Some(n) => n,
                                None => 5,
                            },
                        ),
                    ),
                }
            },
            (None, _) => fail(s, "Missing required parameter: collection_name"@),
            (Some(_), None) => fail(s, "Missing required parameter: query_texts"@),
        }
    } else if tool == "chroma_update_documents"@ {
        match (a_str(args, "collection_name"@), a_strs(args, "ids"@)) {
            (Some(nm), Some(ids)) => {
                let embs = a_embs(args, "embeddings"@);
                let metas = a_arr(args, "metadatas"@);
                let docs = a_strs(args, "documents"@);
                if ids.len() == 0 {
                    fail(s, "The 'ids' list cannot be empty."@)
                } else if embs is None && metas is None && docs is None {
                    fail(
                        s,
                        "At least one of 'embeddings', 'metadatas', or 'documents' must be provided for update."@,
                    )
                } else if embs matches Some(e) && e.len() != ids.len() {
                    fail(s, "Length of 'embeddings' list must match length of 'ids' list."@)
                } else if metas matches Some(m) && m.len() != ids.len() {
                    fail(s, "Length of 'metadatas' list must match length of 'ids' list."@)
                } else if docs matches Some(d) && d.len() != ids.len() {
                    fail(s, "Length of 'documents' list must match length of 'ids' list."@)
                } else {
                    Outcome {
                        post: crate::tools::upd_effect(
                            crate::tools::ensure_v(s, nm),
                            nm,
                            ids,
                            metas,
                            docs,
                            embs,
                        ),
                        result: Ok(
                            JsonV::Str(
                                "Successfully updated "@ + crate::num::dec_rep(ids.len())
                                    + " documents in collection '"@ + nm + "'"@,
                            ),
                        ),
                    }
                }
            },
            (None, _) => fail(s, "Missing required parameter: collection_name"@),
            (Some(_), None) => fail(s, "Missing required parameter: ids"@),
        }
    } else {
        fail(s, "Tool '"@ + tool + "' not found"@)
    }
}

/// Invokes a registered tool by name: decodes the arguments, runs the tool,
/// and returns its raw result. The whole behavior is
/// [`invoke_v`] of the prior store.
pub fn invoke_tool(store: &mut ChromaClient, name: &str, arguments: Option<&Json>) -> (r:
    Result<Json, crate::tools::ToolError>)
    requires
        old(store).wf(),
    ensures
        final(store).wf(),
        final(store)@ == invoke_v(old(store)@, name@, args_v(arguments)).post,
        r is Ok <==> invoke_v(old(store)@, name@, args_v(arguments)).result is Ok,
        r matches Ok(j) ==> invoke_v(old(store)@, name@, args_v(arguments)).result == Ok::<
            JsonV,
            Seq<char>,
        >(j.v()),
        r matches Err(e) ==> invoke_v(old(store)@, name@, args_v(arguments)).result == Err::<
            JsonV,
            Seq<char>,
        >(e.v()),
{
    let ghost pre = store@;
    let ghost want = invoke_v(pre, name@, args_v(arguments));
    if crate::text::str_eq(name, "chroma_add_documents") {
        match (d_string(arguments, "collection_name"), d_strings(arguments, "documents")) {
            (Some(nm), Some(docs)) => {
                let metadatas = d_jsons(arguments, "metadatas");
                let ids = d_strings(arguments, "ids");
                let ghost docs_m = docs.deep_view();
                let req = crate::tools::AddDocumentsRequest {
                    collection_name: nm,
                    documents: docs,
                    metadatas,
                    ids,
                };
                let ghost req_snapshot = req;
                match crate::tools::chroma_add_documents(store, req) {
                    Ok(msg) => {
                        proof {
                            assert(crate::store::metas_v(req_snapshot.metadatas) =~~= a_arr(
                                args_v(arguments),
                                "metadatas"@,
                            ));
                            assert(crate::tools::add_ids(
                                req_snapshot.ids,
                                docs_m.len() as int,
                            ) =~~= (match a_strs(args_v(arguments), "ids"@) {
                                Some(v) => v,
                                None => Seq::new(
                                    docs_m.len(),
                                    |i: int| crate::num::dec_rep(i as nat),
                                ),
                            }));
                            assert(store@ =~~= want.post);
                            assert(msg@ =~= want.result->Ok_0->Str_0);
                        }
                        Ok(Json::Str(msg))
                    },
                    Err(e) => {
                        proof {
                            assert(e.v() =~= want.result->Err_0);
                        }
                        Err(e)
                    },
                }
            },
            (None, _) => Err(
                crate::tools::tool_error("Missing required parameter: collection_name"),
            ),
            (Some(_), None) => Err(
                crate::tools::tool_error("Missing required parameter: documents"),
            ),
        }
    } else if crate::text::str_eq(name, "chroma_create_collection") {
        match d_string(arguments, "collection_name") {
            Some(nm) => {
                let metadata = d_json(arguments, "metadata");
                let ghost meta_m = crate::store::opt_v(metadata);
                let req = crate::tools::CreateCollectionRequest {
                    collection_name: nm,
                    embedding_function_name: None,
                    metadata,
                    space: None,
                    ef_construction: None,
                    ef_search: None,
                    max_neighbors: None,
                    num_threads: None,
                    batch_size: None,
                    sync_threshold: None,
                };
                match crate::tools::chroma_create_collection(store, req) {
                    Ok(msg) => {
                        proof {
                            assert(meta_m == a_field(args_v(arguments), "metadata"@));
                            assert(store@ =~~= want.post);
                        }
                        Ok(Json::Str(msg))
                    },
                    Err(e) => Err(e),
                }
            },
            None => Err(
                crate::tools::tool_error("Missing required parameter: collection_name"),
            ),
        }
    } else if crate::text::str_eq(name, "chroma_delete_collection") {
        match d_string(arguments, "collection_name") {
            Some(nm) => {
                let req = crate::tools::DeleteCollectionRequest { collection_name: nm };
                match crate::tools::chroma_delete_collection(store, req) {
                    Ok(msg) => {
                        proof {
                            assert(store@ =~~= want.post);
                        }
                        Ok(Json::Str(msg))
                    },
                    Err(e) => Err(e),
                }
            },
            None => Err(
                crate::tools::tool_error("Missing required parameter: collection_name"),
            ),
        }
    } else if crate::text::str_eq(name, "chroma_delete_documents") {
        match (d_string(arguments, "collection_name"), d_strings(arguments, "ids")) {
            (Some(nm), Some(ids)) => {
                let req = crate::tools::DeleteDocumentsRequest { collection_name: nm, ids };
                match crate::tools::chroma_delete_documents(store, req) {
                    Ok(msg) => {
                        proof {
                            assert(store@ =~~= want.post);
                            assert(msg@ =~= want.result->Ok_0->Str_0);
                        }
                        Ok(Json::Str(msg))
                    },
                    Err(e) => Err(e),
                }
            },
            (None, _) => Err(
                crate::tools::tool_error("Missing required parameter: collection_name"),
            ),
            (Some(_), None) => Err(crate::tools::tool_error("Missing required parameter: ids")),
        }
    } else if crate::text::str_eq(name, "chroma_get_collection_count") {
        match d_string(arguments, "collection_name") {
            Some(nm) => {
                let req = crate::tools::GetCollectionCountRequest { collection_name: nm };
                match crate::tools::chroma_get_collection_count(store, req) {
                    Ok(count) => {
                        let count64 = count as u64;
                        let cj: i64 = if count64 > 0x7FFF_FFFF_FFFF_FFFFu64 {
                            0x7FFF_FFFF_FFFF_FFFFi64
                        } else {
                            count64 as i64
                        };
                        proof {
                            assert(store@ =~~= want.post);
                            assert(Json::Int(cj).v() == want.result->Ok_0);
                        }
                        Ok(Json::Int(cj))
                    },
                    Err(e) => Err(e),
                }
            },
            None => Err(
                crate::tools::tool_error("Missing required parameter: collection_name"),
            ),
        }
    } else if crate::text::str_eq(name, "chroma_get_collection_info") {
        match d_string(arguments, "collection_name") {
            Some(nm) => {
                let req = crate::tools::GetCollectionInfoRequest { collection_name: nm };
                match crate::tools::chroma_get_collection_info(store, req) {
                    Ok(j) => {
                        proof {
                            assert(store@ =~~= want.post);
                        }
                        Ok(j)
                    },
                    Err(e) => Err(e),
                }
            },
            None => Err(
                crate::tools::tool_error("Missing required parameter: collection_name"),
            ),
        }
    } else if crate::text::str_eq(name, "chroma_get_documents") {
        match d_string(arguments, "collection_name") {
            Some(nm) => {
                let limit = d_nat(arguments, "limit");
                let req = crate::tools::GetDocumentsRequest {
                    collection_name: nm,
                    ids: None,
                    where_filter: None,
                    where_document: None,
                    included: None,
                    limit,
                    offset: None,
                };
                match crate::tools::chroma_get_documents(store, req) {
                    Ok(j) => {
                        proof {
                            assert(store@ =~~= want.post);
                            assert(j.v() == want.result->Ok_0);
                        }
                        Ok(j)
                    },
                    Err(e) => Err(e),
                }
            },
            None => Err(
                crate::tools::tool_error("Missing required parameter: collection_name"),
            ),
        }
    } else if crate::text::str_eq(name, "chroma_list_collections") {
        let limit = d_nat(arguments, "limit");
        let offset = d_nat(arguments, "offset");
        let req = crate::tools::ListCollectionsRequest { limit, offset };
        match crate::tools::chroma_list_collections(store, req) {
            Ok(names) => {
                let n = names.len();
                let ghost names_s = names@;
                let mut items: Vec<Json> = Vec::with_capacity(n);
                let mut i: usize = 0;
                while i < n
                    invariant
                        i <= n,
                        n == names@.len(),
                        names_s == names@,
                        items@.len() == i,
                        forall|k: int|
                            0 <= k < i ==> #[trigger] items@[k].v() == JsonV::Str(names@[k]@),
                    decreases n - i,
                {
                    let one = Json::Str(crate::json::clone_string(&names[i]));
                    items.push(one);
                    i = i + 1;
                }
                let ghost items_s = items@;
                let r = Json::Arr(items);
                proof {
                    assert forall|k: int| 0 <= k < n implies r.v()->Arr_0[k]
                        == want.result->Ok_0->Arr_0[k] by {
                        assert(r.v()->Arr_0[k] == items_s[k].v());
                        assert(items_s[k].v() == JsonV::Str(names_s[k]@));
                    }
                    assert(r.v()->Arr_0 =~= want.result->Ok_0->Arr_0);
                    assert(r.v() =~~= want.result->Ok_0);
                    assert(store@ =~~= want.post);
                }
                Ok(r)
            },
            Err(e) => Err(e),
        }
    } else if crate::text::str_eq(name, "chroma_modify_collection") {
        match d_string(arguments, "collection_name") {
            Some(nm) => {
                let new_name = d_string(arguments, "new_name");
                let new_metadata = d_json(arguments, "new_metadata");
                let ef_search = d_i32(arguments, "ef_search");
                let num_threads = d_i32(arguments, "num_threads");
                let batch_size = d_i32(arguments, "batch_size");
                let sync_threshold = d_i32(arguments, "sync_threshold");
                let resize_factor = d_json(arguments, "resize_factor");
                let ghost meta_m = crate::store::opt_v(new_metadata);
                let req = crate::tools::ModifyCollectionRequest {
                    collection_name: nm,
                    new_name,
                    new_metadata,
                    ef_search,
                    num_threads,
                    batch_size,
                    sync_threshold,
                    resize_factor,
                };
                match crate::tools::chroma_modify_collection(store, req) {
                    Ok(msg) => {
                        proof {
                            assert(meta_m == a_field(args_v(arguments), "new_metadata"@));
                            assert(store@ =~~= want.post);
                            assert(msg@ =~= want.result->Ok_0->Str_0);
                        }
                        Ok(Json::Str(msg))
                    },
                    Err(e) => Err(e),
                }
            },
            None => Err(
                crate::tools::tool_error("Missing required parameter: collection_name"),
            ),
        }
    } else if crate::text::str_eq(name, "chroma_peek_collection") {
        match (d_string(arguments, "collection_name"), d_nat(arguments, "limit")) {
            (Some(nm), Some(limit)) => {
                let req = crate::tools::PeekCollectionRequest { collection_name: nm, limit };
                match crate::tools::chroma_peek_collection(store, req) {
                    Ok(j) => {
                        proof {
                            assert(store@ =~~= want.post);
                            assert(j.v() == want.result->Ok_0);
                        }
                        Ok(j)
                    },
                    Err(e) => Err(e),
                }
            },
            (None, _) => Err(
                crate::tools::tool_error("Missing required parameter: collection_name"),
            ),
            (Some(_), None) => Err(
                crate::tools::tool_error("Missing required parameter: limit"),
            ),
        }
    } else if crate::text::str_eq(name, "chroma_query_documents") {
        match (d_string(arguments, "collection_name"), d_strings(arguments, "query_texts")) {
            (Some(nm), Some(texts)) => {
                let n_results = d_nat(arguments, "n_results");
                let req = crate::tools::QueryDocumentsRequest {
                    collection_name: nm,
                    query_texts: texts,
                    n_results,
                    where_filter: None,
                    where_document: None,
                    included: None,
                };
                match crate::tools::chroma_query_documents(store, req) {
                    Ok(j) => {
                        proof {
                            assert(store@ =~~= want.post);
                            assert(j.v() == want.result->Ok_0);
                        }
                        Ok(j)
                    },
                    Err(e) => Err(e),
                }
            },
            (None, _) => Err(
                crate::tools::tool_error("Missing required parameter: collection_name"),
            ),
            (Some(_), None) => Err(
                crate::tools::tool_error("Missing required parameter: query_texts"),
            ),
        }
    } else if crate::text::str_eq(name, "chroma_update_documents") {
        match (d_string(arguments, "collection_name"), d_strings(arguments, "ids")) {
            (Some(nm), Some(ids)) => {
                let embeddings = d_embs(arguments, "embeddings");
                let metadatas = d_jsons(arguments, "metadatas");
                let documents = d_strings(arguments, "documents");
                let ghost embs_m = crate::store::embs_v(embeddings);
                let ghost metas_m = crate::store::metas_v(metadatas);
                let ghost docs_m = crate::store::opt_deep(documents);
                let req = crate::tools::UpdateDocumentsRequest {
                    collection_name: nm,
                    ids,
                    embeddings,
                    metadatas,
                    documents,
                };
                proof {
                    assert(embs_m =~~= (match a_embs(args_v(arguments), "embeddings"@) {
                        Some(e) => Some(e),
                        None => None::<Seq<Seq<i64>>>,
                    }));
                    assert(metas_m =~~= (match a_arr(args_v(arguments), "metadatas"@) {
                        Some(m) => Some(m),
                        None => None::<Seq<JsonV>>,
                    }));
                    assert(docs_m =~~= (match a_strs(args_v(arguments), "documents"@) {
                        Some(d) => Some(d),
                        None => None::<Seq<Seq<char>>>,
                    }));
                }
                match crate::tools::chroma_update_documents(store, req) {
                    Ok(msg) => {
                        proof {
                            assert(store@ =~~= want.post);
                            assert(msg@ =~= want.result->Ok_0->Str_0);
                        }
                        Ok(Json::Str(msg))
                    },
                    Err(e) => {
                        proof {
                            assert(e.v() =~= want.result->Err_0);
                        }
                        Err(e)
                    },
                }
            },
            (None, _) => Err(
                crate::tools::tool_error("Missing required parameter: collection_name"),
            ),
            (Some(_), None) => Err(crate::tools::tool_error("Missing required parameter: ids")),
        }
    } else {
        let msg = crate::tools::cat(
            crate::tools::cat(String::from_str("Tool '"), name),
            "' not found",
        );
        proof {
            assert(msg@ =~= "Tool '"@ + name@ + "' not found"@);
        }
        Err(crate::tools::ToolError { message: msg })
    }
}

} // verus!
