//! Wire-level behavior of the dispatcher: envelopes, error codes, and the
//! protocol meta-methods.

use mcp_chroma::json::Json;
use mcp_chroma::rpc::handle_request;
use mcp_chroma::store::get_client;

fn s(text: &str) -> Json {
    Json::Str(text.to_string())
}

fn obj(fields: Vec<(&str, Json)>) -> Json {
    Json::Obj(fields.into_iter().map(|(k, v)| (k.to_string(), v)).collect())
}

fn request(method: &str, id: Json) -> Json {
    obj(vec![("jsonrpc", s("2.0")), ("method", s(method)), ("id", id)])
}

fn error_code(resp: &Json) -> i64 {
    resp.get("error").expect("error member").get_int("code").expect("code member")
}

#[test]
fn initialize_reports_protocol_version() {
    let mut store = get_client();
    let req = request("initialize", Json::Int(1));
    let resp = handle_request(&mut store, Some(&req)).expect("a response");
    assert_eq!(resp.get("id"), Some(&Json::Int(1)));
    let result = resp.get("result").expect("result member");
    assert_eq!(
        result.get_str("protocolVersion").expect("protocolVersion"),
        "2024-11-05"
    );
    let caps = result.get("capabilities").expect("capabilities");
    match caps.get("tools") {
        Some(Json::Obj(fields)) => assert!(!fields.is_empty()),
        other => panic!("tools capability missing or not an object: {:?}", other),
    }
}

#[test]
fn tools_list_contains_fixed_names() {
    let mut store = get_client();
    let req = request("tools/list", Json::Int(2));
    let resp = handle_request(&mut store, Some(&req)).expect("a response");
    let result = resp.get("result").expect("result member");
    let tools = result.get_arr("tools").expect("tools array");
    let names: Vec<&str> = tools
        .iter()
        .map(|t| t.get_str("name").expect("name").as_str())
        .collect();
    for required in [
        "chroma_list_collections",
        "chroma_create_collection",
        "chroma_add_documents",
        "chroma_query_documents",
        "chroma_delete_collection",
    ] {
        assert!(names.contains(&required), "missing tool {}", required);
    }
    for t in tools {
        assert!(t.get_str("name").is_some());
        assert!(t.get_str("description").is_some());
        assert!(t.get("inputSchema").is_some());
    }
}

#[test]
fn malformed_body_yields_parse_error() {
    let mut store = get_client();
    let resp = handle_request(&mut store, None).expect("a response");
    assert_eq!(error_code(&resp), -32700);
    assert_eq!(resp.get("id"), Some(&Json::Null));
}

#[test]
fn wrong_version_yields_invalid_request() {
    let mut store = get_client();
    let req = obj(vec![
        ("jsonrpc", s("1.0")),
        ("method", s("ping")),
        ("id", Json::Int(7)),
    ]);
    let resp = handle_request(&mut store, Some(&req)).expect("a response");
    assert_eq!(error_code(&resp), -32600);
    assert_eq!(resp.get("id"), Some(&Json::Int(7)));
}

#[test]
fn unknown_method_yields_method_not_found() {
    let mut store = get_client();
    let req = request("does_not_exist", s("x"));
    let resp = handle_request(&mut store, Some(&req)).expect("a response");
    assert_eq!(error_code(&resp), -32601);
    assert_eq!(resp.get("id"), Some(&s("x")));
}

#[test]
fn notification_gets_no_response() {
    let mut store = get_client();
    let req = obj(vec![("jsonrpc", s("2.0")), ("method", s("initialize"))]);
    assert!(handle_request(&mut store, Some(&req)).is_none());
}

#[test]
fn notification_still_takes_effect_on_the_store() {
    let mut store = get_client();
    let args = obj(vec![("collection_name", s("noted"))]);
    let notice = obj(vec![
        ("jsonrpc", s("2.0")),
        ("method", s("chroma_create_collection")),
        ("params", args),
    ]);
    assert!(handle_request(&mut store, Some(&notice)).is_none());
    let list = request("chroma_list_collections", Json::Int(3));
    let resp = handle_request(&mut store, Some(&list)).expect("a response");
    match resp.get("result") {
        Some(Json::Arr(names)) => assert!(names.contains(&s("noted"))),
        other => panic!("collection list missing or not an array: {:?}", other),
    }
}

#[test]
fn tools_call_wraps_tool_errors() {
    let mut store = get_client();
    let params = obj(vec![
        ("name", s("chroma_add_documents")),
        (
            "arguments",
            obj(vec![("collection_name", s("c")), ("documents", Json::Arr(vec![]))]),
        ),
    ]);
    let req = obj(vec![
        ("jsonrpc", s("2.0")),
        ("method", s("tools/call")),
        ("params", params),
        ("id", Json::Int(9)),
    ]);
    let resp = handle_request(&mut store, Some(&req)).expect("a response");
    let result = resp.get("result").expect("success envelope");
    assert_eq!(result.get("isError"), Some(&Json::Bool(true)));
    let content = result.get_arr("content").expect("content");
    let text = content[0].get_str("text").expect("text");
    assert_eq!(text, "Error: The 'documents' list cannot be empty.");
}

#[test]
fn tools_call_without_name_is_invalid_params() {
    let mut store = get_client();
    let req = obj(vec![
        ("jsonrpc", s("2.0")),
        ("method", s("tools/call")),
        ("params", obj(vec![])),
        ("id", Json::Int(3)),
    ]);
    let resp = handle_request(&mut store, Some(&req)).expect("a response");
    assert_eq!(error_code(&resp), -32602);
}

#[test]
fn server_info_lists_methods() {
    let mut store = get_client();
    let req = request("server/info", Json::Int(4));
    let resp = handle_request(&mut store, Some(&req)).expect("a response");
    let result = resp.get("result").expect("result");
    assert_eq!(result.get("total_services"), Some(&Json::Int(12)));
    let methods = result.get_arr("methods").expect("methods");
    assert_eq!(methods[0], s("initialize"));
    assert_eq!(methods[3], s("server/info"));
    assert_eq!(methods.len(), 16);
}

#[test]
fn end_to_end_query_finds_nearest() {
    let mut store = get_client();
    let create = obj(vec![
        ("jsonrpc", s("2.0")),
        ("method", s("chroma_create_collection")),
        ("params", obj(vec![("collection_name", s("c"))])),
        ("id", Json::Int(1)),
    ]);
    handle_request(&mut store, Some(&create)).expect("a response");
    let add = obj(vec![
        ("jsonrpc", s("2.0")),
        ("method", s("chroma_add_documents")),
        (
            "params",
            obj(vec![
                ("collection_name", s("c")),
                (
                    "documents",
                    Json::Arr(vec![s("hello world"), s("goodbye cruel world")]),
                ),
                ("ids", Json::Arr(vec![s("a"), s("b")])),
            ]),
        ),
        ("id", Json::Int(2)),
    ]);
    let add_resp = handle_request(&mut store, Some(&add)).expect("a response");
    assert_eq!(
        add_resp.get("result"),
        Some(&s("Successfully added 2 documents to collection c"))
    );
    let query = obj(vec![
        ("jsonrpc", s("2.0")),
        ("method", s("chroma_query_documents")),
        (
            "params",
            obj(vec![
                ("collection_name", s("c")),
                ("query_texts", Json::Arr(vec![s("hello world")])),
                ("n_results", Json::Int(1)),
            ]),
        ),
        ("id", Json::Int(3)),
    ]);
    let resp = handle_request(&mut store, Some(&query)).expect("a response");
    let result = resp.get("result").expect("result");
    let ids = result.get_arr("ids").expect("ids");
    assert_eq!(ids.len(), 1);
    assert_eq!(ids[0], Json::Arr(vec![s("a")]));
    let distances = result.get_arr("distances").expect("distances");
    assert_eq!(distances[0], Json::Arr(vec![Json::Dec("0.000000".to_string())]));
}

#[test]
fn direct_tool_call_maps_argument_errors() {
    let mut store = get_client();
    let req = obj(vec![
        ("jsonrpc", s("2.0")),
        ("method", s("chroma_delete_documents")),
        (
            "params",
            obj(vec![("collection_name", s("c")), ("ids", Json::Arr(vec![]))]),
        ),
        ("id", Json::Int(5)),
    ]);
    let resp = handle_request(&mut store, Some(&req)).expect("a response");
    assert_eq!(error_code(&resp), -32602);
    let msg = resp.get("error").unwrap().get_str("message").unwrap();
    assert_eq!(msg, "The 'ids' list cannot be empty.");
}

#[test]
fn missing_required_parameter_is_reported() {
    let mut store = get_client();
    let req = obj(vec![
        ("jsonrpc", s("2.0")),
        ("method", s("chroma_create_collection")),
        ("params", obj(vec![])),
        ("id", Json::Int(6)),
    ]);
    let resp = handle_request(&mut store, Some(&req)).expect("a response");
    assert_eq!(error_code(&resp), -32602);
    let msg = resp.get("error").unwrap().get_str("message").unwrap();
    assert_eq!(msg, "Missing required parameter: collection_name");
}

#[test]
fn update_with_json_number_embeddings_stores_micros() {
    let mut store = get_client();
    let create = obj(vec![
        ("jsonrpc", s("2.0")),
        ("method", s("chroma_create_collection")),
        ("params", obj(vec![("collection_name", s("c"))])),
        ("id", Json::Int(1)),
    ]);
    handle_request(&mut store, Some(&create));
    let add = obj(vec![
        ("jsonrpc", s("2.0")),
        ("method", s("chroma_add_documents")),
        (
            "params",
            obj(vec![
                ("collection_name", s("c")),
                ("documents", Json::Arr(vec![s("doc")])),
                ("ids", Json::Arr(vec![s("x")])),
            ]),
        ),
        ("id", Json::Int(2)),
    ]);
    handle_request(&mut store, Some(&add));
    // Components arrive as JSON numbers: decimals parse to millionths,
    // exponent forms move the point, anything of a unit or more saturates.
    let emb = Json::Arr(vec![
        Json::Dec("0.5".to_string()),
        Json::Dec("-0.253906".to_string()),
        Json::Int(3),
        Json::Dec("1.2e-7".to_string()),
        Json::Dec("2.5e-1".to_string()),
        Json::Dec("-1e-3".to_string()),
        Json::Dec("5e2".to_string()),
    ]);
    let update = obj(vec![
        ("jsonrpc", s("2.0")),
        ("method", s("chroma_update_documents")),
        (
            "params",
            obj(vec![
                ("collection_name", s("c")),
                ("ids", Json::Arr(vec![s("x")])),
                ("embeddings", Json::Arr(vec![emb])),
            ]),
        ),
        ("id", Json::Int(3)),
    ]);
    let resp = handle_request(&mut store, Some(&update)).expect("a response");
    assert_eq!(
        resp.get("result"),
        Some(&s("Successfully updated 1 documents in collection 'c'"))
    );
    let query = obj(vec![
        ("jsonrpc", s("2.0")),
        ("method", s("chroma_query_documents")),
        (
            "params",
            obj(vec![
                ("collection_name", s("c")),
                ("query_texts", Json::Arr(vec![s("q")])),
            ]),
        ),
        ("id", Json::Int(4)),
    ]);
    let qresp = handle_request(&mut store, Some(&query)).expect("a response");
    let embeddings = qresp.get("result").unwrap().get_arr("embeddings").unwrap();
    assert_eq!(
        embeddings[0],
        Json::Arr(vec![
            Json::Int(500000),
            Json::Int(-253906),
            Json::Int(1000000),
            Json::Int(0),
            Json::Int(250000),
            Json::Int(-1000),
            Json::Int(1000000),
        ])
    );
}
