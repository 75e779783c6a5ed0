//! The JSON-RPC 2.0 dispatcher: envelope validation, method routing, and
//! response assembly.
//!
//! A request body that failed to parse is answered with the parse-error
//! envelope (id null). Every parsed body has its version and method
//! checked and the method routed — the protocol meta-methods, then the
//! registered tools by name. A body without an `id` member is a
//! notification: it is routed all the same, its effects on the store are
//! kept, and only the response is withheld. Every other body gets exactly
//! one response.

use vstd::prelude::*;
use crate::json::{Json, JsonV, get_v};
use crate::store::{ChromaClient, StoreV};
use crate::registry::{args_v, invoke_v, registry_v, tool_names};

verus! {

broadcast use vstd::std_specs::vec::group_vec_axioms, vstd::seq::group_seq_axioms;

/// A success envelope.
pub open spec fn resp_ok_v(result: JsonV, id: JsonV) -> JsonV {
    JsonV::Obj(
        seq![("jsonrpc"@, JsonV::Str("2.0"@)), ("result"@, result), ("id"@, id)],
    )
}

/// An error envelope; the code is carried as an integer.
pub open spec fn resp_err_v(code: int, message: Seq<char>, id: JsonV) -> JsonV {
    JsonV::Obj(
        seq![
            ("jsonrpc"@, JsonV::Str("2.0"@)),
            (
                "error"@,
                JsonV::Obj(
                    seq![("code"@, JsonV::Int(code)), ("message"@, JsonV::Str(message))],
                ),
            ),
            ("id"@, id),
        ],
    )
}

/// One tool descriptor as the wire shows it.
pub open spec fn tool_def_obj_v(d: crate::registry::ToolDefV) -> JsonV {
    JsonV::Obj(
        seq![
            ("name"@, JsonV::Str(d.name)),
            ("description"@, JsonV::Str(d.description)),
            ("inputSchema"@, d.input_schema),
        ],
    )
}

/// The `initialize` result: protocol version, capabilities (the tools by
/// name), server identity and instructions.
pub open spec fn init_result_v() -> JsonV {
    JsonV::Obj(
        seq![
            ("protocolVersion"@, JsonV::Str("2024-11-05"@)),
            (
                "capabilities"@,
                JsonV::Obj(
                    seq![
                        (
                            "tools"@,
                            JsonV::Obj(
                                Seq::new(
                                    registry_v().len(),
                                    |i: int|
                                        (
                                            registry_v()[i].name,
                                            tool_def_obj_v(registry_v()[i]),
                                        ),
                                ),
                            ),
                        ),
                        ("resources"@, JsonV::Obj(Seq::empty())),
                        ("prompts"@, JsonV::Obj(Seq::empty())),
                    ],
                ),
            ),
            (
                "serverInfo"@,
                JsonV::Obj(
                    seq![
                        ("name"@, JsonV::Str("mcp-rust-server"@)),
                        ("version"@, JsonV::Str("1.0.0"@)),
                    ],
                ),
            ),
            ("instructions"@, JsonV::Str("MCP Rust Server with 12 available services."@)),
        ],
    )
}

/// The `tools/list` result.
pub open spec fn tools_list_v() -> JsonV {
    JsonV::Obj(
        seq![
            (
                "tools"@,
                JsonV::Arr(
                    Seq::new(registry_v().len(), |i: int| tool_def_obj_v(registry_v()[i])),
                ),
            ),
        ],
    )
}

/// The `server/info` result.
pub open spec fn server_info_v() -> JsonV {
    JsonV::Obj(
        seq![
            ("name"@, JsonV::Str("MCP Rust Services Framework"@)),
            ("version"@, JsonV::Str("1.0.0"@)),
            ("protocol"@, JsonV::Str("JSON-RPC 2.0"@)),
            ("total_services"@, JsonV::Int(registry_v().len() as int)),
            (
                "services"@,
                JsonV::Obj(
                    Seq::new(
                        registry_v().len(),
                        |i: int| (registry_v()[i].name, JsonV::Str(registry_v()[i].description)),
                    ),
                ),
            ),
            (
                "methods"@,
                JsonV::Arr(
                    seq![
                        JsonV::Str("initialize"@),
                        JsonV::Str("tools/list"@),
                        JsonV::Str("tools/call"@),
                        JsonV::Str("server/info"@),
                    ] + Seq::new(tool_names().len(), |i: int| JsonV::Str(tool_names()[i])),
                ),
            ),
        ],
    )
}

/// The `tools/call` content envelope around a tool outcome: pretty result
/// text on success, the error message (prefixed) on failure.
pub open spec fn content_envelope_v(outcome: Result<JsonV, Seq<char>>) -> JsonV {
    let text = match outcome {
        Ok(res) => crate::pretty::pretty_v(res, 0),
        Err(msg) => "Error: "@ + msg,
    };
    JsonV::Obj(
        seq![
            (
                "content"@,
                JsonV::Arr(
                    seq![
                        JsonV::Obj(
                            seq![("type"@, JsonV::Str("text"@)), ("text"@, JsonV::Str(text))],
                        ),
                    ],
                ),
            ),
            ("isError"@, JsonV::Bool(outcome is Err)),
        ],
    )
}

/// Whether a method name is one of the registered tools.
pub open spec fn is_tool_name(m: Seq<char>) -> bool {
    exists|i: int| 0 <= i < tool_names().len() && tool_names()[i] == m
}

/// What dispatching one body does to the store and what it answers.
#[verifier::ext_equal]
pub struct DispatchOut {
    pub post: StoreV,
    pub response: Option<JsonV>,
}

/// The whole dispatcher, as a function of the store and the (possibly
/// unparseable) request body. A notification (no `id` member) is routed
/// like any other request — the store moves the same way — but the
/// response is withheld.
pub open spec fn dispatch_v(s: StoreV, body: Option<JsonV>) -> DispatchOut {
    match body {
        None => DispatchOut {
            post: s,
            response: Some(resp_err_v(-32700, "Parse error"@, JsonV::Null)),
        },
        Some(req) => match get_v(req, "id"@) {
            None => DispatchOut {
                post: dispatch_req_v(s, req, JsonV::Null).post,
                response: None,
            },
            Some(id) => dispatch_req_v(s, req, id),
        },
    }
}

/// Dispatch of a parsed, identified request.
pub open spec fn dispatch_req_v(s: StoreV, req: JsonV, id: JsonV) -> DispatchOut {
    if get_v(req, "jsonrpc"@) != Some(JsonV::Str("2.0"@)) {
        DispatchOut {
            post: s,
            response: Some(
                resp_err_v(-32600, "Invalid JSON-RPC version. Expected '2.0'"@, id),
            ),
        }
    } else {
        match get_v(req, "method"@) {
            Some(JsonV::Str(m)) => dispatch_method_v(s, req, m, id),
            _ => DispatchOut {
                post: s,
                response: Some(resp_err_v(-32600, "Invalid Request"@, id)),
            },
        }
    }
}

/// Routing of a validated request by method name.
pub open spec fn dispatch_method_v(s: StoreV, req: JsonV, m: Seq<char>, id: JsonV) -> DispatchOut {
    if m == "initialize"@ {
        DispatchOut { post: s, response: Some(resp_ok_v(init_result_v(), id)) }
    } else if m == "tools/list"@ {
        DispatchOut { post: s, response: Some(resp_ok_v(tools_list_v(), id)) }
    } else if m == "tools/call"@ {
        match get_v(req, "params"@) {
            Some(params) => match get_v(params, "name"@) {
                Some(JsonV::Str(tool)) => {
                    let o = invoke_v(s, tool, get_v(params, "arguments"@));
                    DispatchOut {
                        post: o.post,
                        response: Some(resp_ok_v(content_envelope_v(o.result), id)),
                    }
                },
                _ => DispatchOut {
                    post: s,
                    response: Some(resp_err_v(-32602, "Invalid params"@, id)),
                },
            },
            None => DispatchOut {
                post: s,
                response: Some(resp_err_v(-32602, "Invalid params"@, id)),
            },
        }
    } else if m == "server/info"@ {
        DispatchOut { post: s, response: Some(resp_ok_v(server_info_v(), id)) }
    } else if is_tool_name(m) {
        let o = invoke_v(s, m, get_v(req, "params"@));
        match o.result {
            Ok(res) => DispatchOut { post: o.post, response: Some(resp_ok_v(res, id)) },
            Err(msg) => DispatchOut { post: o.post, response: Some(resp_err_v(-32602, msg, id)) },
        }
    } else {
        DispatchOut {
            post: s,
            response: Some(resp_err_v(-32601, "Method '"@ + m + "' not found"@, id)),
        }
    }
}

/// Builds a success envelope.
fn resp_ok(result: Json, id: Json) -> (r: Json)
    ensures
        r.v() == resp_ok_v(result.v(), id.v()),
{
    let ghost rv = result.v();
    let ghost idv = id.v();
    let ver = Json::Str(String::from_str("2.0"));
    let ghost verv = ver.v();
    let mut fields: Vec<(String, Json)> = Vec::with_capacity(3);
    fields.push((String::from_str("jsonrpc"), ver));
    fields.push((String::from_str("result"), result));
    fields.push((String::from_str("id"), id));
    let r = Json::Obj(fields);
    proof {
        assert(r.v()->Obj_0.len() == 3);
        assert(r.v()->Obj_0[0] == ("jsonrpc"@, verv));
        assert(r.v()->Obj_0[1] == ("result"@, rv));
        assert(r.v()->Obj_0[2] == ("id"@, idv));
        assert(r.v()->Obj_0 =~~= resp_ok_v(rv, idv)->Obj_0);
        assert(r.v() =~~= resp_ok_v(rv, idv));
    }
    r
}

/// Builds an error envelope.
fn resp_err(code: i64, message: String, id: Json) -> (r: Json)
    ensures
        r.v() == resp_err_v(code as int, message@, id.v()),
{
    let ghost mv = message@;
    let ghost idv = id.v();
    let cj = Json::Int(code);
    let ghost cjv = cj.v();
    let mj = Json::Str(message);
    let ghost mjv = mj.v();
    let mut err_fields: Vec<(String, Json)> = Vec::with_capacity(2);
    err_fields.push((String::from_str("code"), cj));
    err_fields.push((String::from_str("message"), mj));
    let err = Json::Obj(err_fields);
    let ghost errv = err.v();
    proof {
        assert(errv->Obj_0.len() == 2);
        assert(errv->Obj_0[0] == ("code"@, cjv));
        assert(errv->Obj_0[1] == ("message"@, mjv));
        assert(errv->Obj_0 =~~= resp_err_v(code as int, mv, idv)->Obj_0[1].1->Obj_0);
        assert(errv =~~= resp_err_v(code as int, mv, idv)->Obj_0[1].1);
    }
    let ver = Json::Str(String::from_str("2.0"));
    let ghost verv = ver.v();
    let mut fields: Vec<(String, Json)> = Vec::with_capacity(3);
    fields.push((String::from_str("jsonrpc"), ver));
    fields.push((String::from_str("error"), err));
    fields.push((String::from_str("id"), id));
    let r = Json::Obj(fields);
    proof {
        assert(r.v()->Obj_0.len() == 3);
        assert(r.v()->Obj_0[0] == ("jsonrpc"@, verv));
        assert(r.v()->Obj_0[1] == ("error"@, errv));
        assert(r.v()->Obj_0[2] == ("id"@, idv));
        assert(r.v()->Obj_0 =~~= resp_err_v(code as int, mv, idv)->Obj_0);
        assert(r.v() =~~= resp_err_v(code as int, mv, idv));
    }
    r
}

/// One tool descriptor as a JSON object.
fn tool_def_json(d: &crate::registry::ToolDefinition) -> (r: Json)
    ensures
        r.v() == tool_def_obj_v(d@),
{
    let nj = Json::Str(crate::json::clone_string(&d.name));
    let ghost njv = nj.v();
    let dj = Json::Str(crate::json::clone_string(&d.description));
    let ghost djv = dj.v();
    let sj = d.input_schema.deep_clone();
    let ghost sjv = sj.v();
    let mut fields: Vec<(String, Json)> = Vec::with_capacity(3);
    fields.push((String::from_str("name"), nj));
    fields.push((String::from_str("description"), dj));
    fields.push((String::from_str("inputSchema"), sj));
    let r = Json::Obj(fields);
    proof {
        assert(r.v()->Obj_0.len() == 3);
        assert(r.v()->Obj_0[0] == ("name"@, njv));
        assert(r.v()->Obj_0[1] == ("description"@, djv));
        assert(r.v()->Obj_0[2] == ("inputSchema"@, sjv));
        assert(r.v()->Obj_0 =~~= tool_def_obj_v(d@)->Obj_0);
        assert(r.v() =~~= tool_def_obj_v(d@));
    }
    r
}

/// Builds the `initialize` result.
fn init_result() -> (r: Json)
    ensures
        r.v() == init_result_v(),
{
    let defs = crate::registry::get_tool_definitions();
    let n = defs.len();
    let mut tool_fields: Vec<(String, Json)> = Vec::with_capacity(n);
    let mut i: usize = 0;
    while i < n
        invariant
            i <= n,
            n == defs@.len(),
            n == registry_v().len(),
            forall|k: int| 0 <= k < n ==> #[trigger] defs@[k]@ == registry_v()[k],
            tool_fields@.len() == i,
            forall|k: int|
                0 <= k < i ==> #[trigger] tool_fields@[k].0@ == registry_v()[k].name
                    && tool_fields@[k].1.v() == tool_def_obj_v(registry_v()[k]),
        decreases n - i,
    {
        let nm = crate::json::clone_string(&defs[i].name);
        let dj = tool_def_json(&defs[i]);
        tool_fields.push((nm, dj));
        i = i + 1;
    }
    let ghost tf_s = tool_fields@;
    let tools_obj = Json::Obj(tool_fields);
    let ghost tools_v = tools_obj.v();
    proof {
        assert forall|k: int| 0 <= k < n implies tools_v->Obj_0[k] == (
            registry_v()[k].name,
            tool_def_obj_v(registry_v()[k]),
        ) by {
            assert(tools_v->Obj_0[k] == (tf_s[k].0@, tf_s[k].1.v()));
        }
        assert(tools_v->Obj_0 =~~= init_result_v()->Obj_0[1].1->Obj_0[0].1->Obj_0);
    }
    let resources = crate::json::empty_obj();
    let prompts = crate::json::empty_obj();
    let mut cap_fields: Vec<(String, Json)> = Vec::with_capacity(3);
    cap_fields.push((String::from_str("tools"), tools_obj));
    cap_fields.push((String::from_str("resources"), resources));
    cap_fields.push((String::from_str("prompts"), prompts));
    let caps = Json::Obj(cap_fields);
    let ghost caps_v = caps.v();
    proof {
        assert(caps_v->Obj_0.len() == 3);
        assert(caps_v->Obj_0[0] == ("tools"@, tools_v));
        assert(caps_v->Obj_0[1] == ("resources"@, JsonV::Obj(Seq::empty())));
        assert(caps_v->Obj_0[2] == ("prompts"@, JsonV::Obj(Seq::empty())));
        assert(caps_v->Obj_0 =~~= init_result_v()->Obj_0[1].1->Obj_0);
        assert(caps_v =~~= init_result_v()->Obj_0[1].1);
    }
    let sname = Json::Str(String::from_str("mcp-rust-server"));
    let ghost snv = sname.v();
    let sver = Json::Str(String::from_str("1.0.0"));
    let ghost svv = sver.v();
    let mut si_fields: Vec<(String, Json)> = Vec::with_capacity(2);
    si_fields.push((String::from_str("name"), sname));
    si_fields.push((String::from_str("version"), sver));
    let server_info = Json::Obj(si_fields);
    let ghost si_v = server_info.v();
    proof {
        assert(si_v->Obj_0.len() == 2);
        assert(si_v->Obj_0[0] == ("name"@, snv));
        assert(si_v->Obj_0[1] == ("version"@, svv));
        assert(si_v->Obj_0 =~~= init_result_v()->Obj_0[2].1->Obj_0);
        assert(si_v =~~= init_result_v()->Obj_0[2].1);
    }
    let pv = Json::Str(String::from_str("2024-11-05"));
    let ghost pvv = pv.v();
    let instr = Json::Str(String::from_str("MCP Rust Server with 12 available services."));
    let ghost instr_v = instr.v();
    let mut fields: Vec<(String, Json)> = Vec::with_capacity(4);
    fields.push((String::from_str("protocolVersion"), pv));
    fields.push((String::from_str("capabilities"), caps));
    fields.push((String::from_str("serverInfo"), server_info));
    fields.push((String::from_str("instructions"), instr));
    let r = Json::Obj(fields);
    proof {
        assert(r.v()->Obj_0.len() == 4);
        assert(r.v()->Obj_0[0] == ("protocolVersion"@, pvv));
        assert(r.v()->Obj_0[1] == ("capabilities"@, caps_v));
        assert(r.v()->Obj_0[2] == ("serverInfo"@, si_v));
        assert(r.v()->Obj_0[3] == ("instructions"@, instr_v));
        assert(r.v()->Obj_0 =~~= init_result_v()->Obj_0);
        assert(r.v() =~~= init_result_v());
    }
    r
}

/// Builds the `tools/list` result.
fn tools_list_result() -> (r: Json)
    ensures
        r.v() == tools_list_v(),
{
    let defs = crate::registry::get_tool_definitions();
    let n = defs.len();
    let mut items: Vec<Json> = Vec::with_capacity(n);
    let mut i: usize = 0;
    while i < n
        invariant
            i <= n,
            n == defs@.len(),
            n == registry_v().len(),
            forall|k: int| 0 <= k < n ==> #[trigger] defs@[k]@ == registry_v()[k],
            items@.len() == i,
            forall|k: int|
                0 <= k < i ==> #[trigger] items@[k].v() == tool_def_obj_v(registry_v()[k]),
        decreases n - i,
    {
        let dj = tool_def_json(&defs[i]);
        items.push(dj);
        i = i + 1;
    }
    let ghost items_s = items@;
    let arr = Json::Arr(items);
    let ghost arr_v = arr.v();
    proof {
        assert forall|k: int| 0 <= k < n implies arr_v->Arr_0[k] == tool_def_obj_v(
            registry_v()[k],
        ) by {
            assert(arr_v->Arr_0[k] == items_s[k].v());
        }
        assert(arr_v->Arr_0 =~~= tools_list_v()->Obj_0[0].1->Arr_0);
        assert(arr_v =~~= tools_list_v()->Obj_0[0].1);
    }
    let mut fields: Vec<(String, Json)> = Vec::with_capacity(1);
    fields.push((String::from_str("tools"), arr));
    let r = Json::Obj(fields);
    proof {
        assert(r.v()->Obj_0.len() == 1);
        assert(r.v()->Obj_0[0] == ("tools"@, arr_v));
        assert(r.v()->Obj_0 =~~= tools_list_v()->Obj_0);
        assert(r.v() =~~= tools_list_v());
    }
    r
}

/// Builds the `server/info` result.
fn server_info_result() -> (r: Json)
    ensures
        r.v() == server_info_v(),
{
    let defs = crate::registry::get_tool_definitions();
    let n = defs.len();
    let mut svc_fields: Vec<(String, Json)> = Vec::with_capacity(n);
    let mut methods: Vec<Json> = Vec::with_capacity(n + 4);
    methods.push(Json::Str(String::from_str("initialize")));
    methods.push(Json::Str(String::from_str("tools/list")));
    methods.push(Json::Str(String::from_str("tools/call")));
    methods.push(Json::Str(String::from_str("server/info")));
    proof {
        assert(methods@[0].v() == JsonV::Str("initialize"@));
        assert(methods@[1].v() == JsonV::Str("tools/list"@));
        assert(methods@[2].v() == JsonV::Str("tools/call"@));
        assert(methods@[3].v() == JsonV::Str("server/info"@));
    }
    let mut i: usize = 0;
    while i < n
        invariant
            i <= n,
            n == defs@.len(),
            n == registry_v().len(),
            forall|k: int| 0 <= k < n ==> #[trigger] defs@[k]@ == registry_v()[k],
            svc_fields@.len() == i,
            forall|k: int|
                0 <= k < i ==> #[trigger] svc_fields@[k].0@ == registry_v()[k].name
                    && svc_fields@[k].1.v() == JsonV::Str(registry_v()[k].description),
            methods@.len() == i + 4,
            methods@[0].v() == JsonV::Str("initialize"@),
            methods@[1].v() == JsonV::Str("tools/list"@),
            methods@[2].v() == JsonV::Str("tools/call"@),
            methods@[3].v() == JsonV::Str("server/info"@),
            forall|k: int|
                0 <= k < i ==> #[trigger] methods@[k + 4].v() == JsonV::Str(
                    registry_v()[k].name,
                ),
        decreases n - i,
    {
        let nm = crate::json::clone_string(&defs[i].name);
        let dsc = Json::Str(crate::json::clone_string(&defs[i].description));
        let ghost nmv = nm@;
        let ghost dscv = dsc.v();
        svc_fields.push((nm, dsc));
        let mname = Json::Str(crate::json::clone_string(&defs[i].name));
        let ghost mnv = mname.v();
        methods.push(mname);
        i = i + 1;
        proof {
            assert(svc_fields@[i - 1].0@ == nmv);
            assert(svc_fields@[i - 1].1.v() == dscv);
            assert(methods@[i + 3].v() == mnv);
            assert(defs@[i - 1]@ == registry_v()[i - 1]);
        }
    }
    let ghost svc_s = svc_fields@;
    let services = Json::Obj(svc_fields);
    let ghost services_v = services.v();
    let ghost methods_s = methods@;
    let methods_arr = Json::Arr(methods);
    let ghost methods_v = methods_arr.v();
    proof {
        assert forall|k: int| 0 <= k < n implies services_v->Obj_0[k] == (
            registry_v()[k].name,
            JsonV::Str(registry_v()[k].description),
        ) by {
            assert(services_v->Obj_0[k] == (svc_s[k].0@, svc_s[k].1.v()));
        }
        assert(services_v->Obj_0 =~~= server_info_v()->Obj_0[4].1->Obj_0);
        assert(services_v =~~= server_info_v()->Obj_0[4].1);
        assert forall|k: int| 0 <= k < n + 4 implies methods_v->Arr_0[k]
            == server_info_v()->Obj_0[5].1->Arr_0[k] by {
            assert(methods_v->Arr_0[k] == methods_s[k].v());
            if k >= 4 {
                assert(methods_s[(k - 4) + 4].v() == JsonV::Str(registry_v()[k - 4].name));
                assert(tool_names()[k - 4] == registry_v()[k - 4].name);
            }
        }
        assert(methods_v->Arr_0 =~~= server_info_v()->Obj_0[5].1->Arr_0);
        assert(methods_v =~~= server_info_v()->Obj_0[5].1);
    }
    let j0 = Json::Str(String::from_str("MCP Rust Services Framework"));
    let ghost j0v = j0.v();
    let j1 = Json::Str(String::from_str("1.0.0"));
    let ghost j1v = j1.v();
    let j2 = Json::Str(String::from_str("JSON-RPC 2.0"));
    let ghost j2v = j2.v();
    let j3 = Json::Int(12);
    let ghost j3v = j3.v();
    let mut fields: Vec<(String, Json)> = Vec::with_capacity(6);
    fields.push((String::from_str("name"), j0));
    fields.push((String::from_str("version"), j1));
    fields.push((String::from_str("protocol"), j2));
    fields.push((String::from_str("total_services"), j3));
    fields.push((String::from_str("services"), services));
    fields.push((String::from_str("methods"), methods_arr));
    let r = Json::Obj(fields);
    proof {
        assert(r.v()->Obj_0.len() == 6);
        assert(r.v()->Obj_0[0] == ("name"@, j0v));
        assert(r.v()->Obj_0[1] == ("version"@, j1v));
        assert(r.v()->Obj_0[2] == ("protocol"@, j2v));
        assert(r.v()->Obj_0[3] == ("total_services"@, j3v));
        assert(r.v()->Obj_0[4] == ("services"@, services_v));
        assert(r.v()->Obj_0[5] == ("methods"@, methods_v));
        assert(r.v()->Obj_0 =~~= server_info_v()->Obj_0);
        assert(r.v() =~~= server_info_v());
    }
    r
}

/// The names of the registered tools, executable.
fn tool_names_exec() -> (r: Vec<String>)
    ensures
        r@.len() == tool_names().len(),
        forall|i: int| 0 <= i < r@.len() ==> #[trigger] r@[i]@ == tool_names()[i],
{
    let mut r: Vec<String> = Vec::with_capacity(12);
    r.push(String::from_str("chroma_add_documents"));
    r.push(String::from_str("chroma_create_collection"));
    r.push(String::from_str("chroma_delete_collection"));
    r.push(String::from_str("chroma_delete_documents"));
    r.push(String::from_str("chroma_get_collection_count"));
    r.push(String::from_str("chroma_get_collection_info"));
    r.push(String::from_str("chroma_get_documents"));
    r.push(String::from_str("chroma_list_collections"));
    r.push(String::from_str("chroma_modify_collection"));
    r.push(String::from_str("chroma_peek_collection"));
    r.push(String::from_str("chroma_query_documents"));
    r.push(String::from_str("chroma_update_documents"));
    r
}

/// Whether the method names a registered tool.
fn is_tool(m: &str) -> (r: bool)
    ensures
        r == is_tool_name(m@),
{
    let names = tool_names_exec();
    let n = names.len();
    let mut i: usize = 0;
    while i < n
        invariant
            i <= n,
            n == names@.len(),
            n == tool_names().len(),
            forall|k: int| 0 <= k < n ==> #[trigger] names@[k]@ == tool_names()[k],
            forall|k: int| 0 <= k < i ==> #[trigger] tool_names()[k] != m@,
        decreases n - i,
    {
        if crate::text::str_eq(names[i].as_str(), m) {
            return true;
        }
        i = i + 1;
    }
    false
}

/// Builds the `tools/call` content envelope.
fn content_envelope(outcome: Result<Json, crate::tools::ToolError>) -> (r: Json)
    ensures
        r.v() == content_envelope_v(
            match outcome {
                Ok(j) => Ok(j.v()),
                Err(e) => Err(e.v()),
            },
        ),
{
    let ghost oc = (match outcome {
        Ok(ref j) => Ok::<JsonV, Seq<char>>(j.v()),
        Err(ref e) => Err::<JsonV, Seq<char>>(e.v()),
    });
    let is_err = outcome.is_err();
    let text: String = match outcome {
        Ok(j) => crate::pretty::to_pretty_string(&j),
        Err(e) => crate::tools::cat(String::from_str("Error: "), e.message.as_str()),
    };
    let tj = Json::Str(String::from_str("text"));
    let ghost tjv = tj.v();
    let xj = Json::Str(text);
    let ghost xjv = xj.v();
    let mut item_fields: Vec<(String, Json)> = Vec::with_capacity(2);
    item_fields.push((String::from_str("type"), tj));
    item_fields.push((String::from_str("text"), xj));
    let item = Json::Obj(item_fields);
    let ghost item_v = item.v();
    proof {
        assert(item_v->Obj_0.len() == 2);
        assert(item_v->Obj_0[0] == ("type"@, tjv));
        assert(item_v->Obj_0[1] == ("text"@, xjv));
        assert(item_v->Obj_0 =~~= content_envelope_v(oc)->Obj_0[0].1->Arr_0[0]->Obj_0);
        assert(item_v =~~= content_envelope_v(oc)->Obj_0[0].1->Arr_0[0]);
    }
    let mut arr_items: Vec<Json> = Vec::with_capacity(1);
    arr_items.push(item);
    let content = Json::Arr(arr_items);
    let ghost content_v = content.v();
    proof {
        assert(content_v->Arr_0.len() == 1);
        assert(content_v->Arr_0[0] == item_v);
        assert(content_v->Arr_0 =~~= content_envelope_v(oc)->Obj_0[0].1->Arr_0);
        assert(content_v =~~= content_envelope_v(oc)->Obj_0[0].1);
    }
    let ej = Json::Bool(is_err);
    let ghost ejv = ej.v();
    let mut fields: Vec<(String, Json)> = Vec::with_capacity(2);
    fields.push((String::from_str("content"), content));
    fields.push((String::from_str("isError"), ej));
    let r = Json::Obj(fields);
    proof {
        assert(r.v()->Obj_0.len() == 2);
        assert(r.v()->Obj_0[0] == ("content"@, content_v));
        assert(r.v()->Obj_0[1] == ("isError"@, ejv));
        assert(r.v()->Obj_0 =~~= content_envelope_v(oc)->Obj_0);
        assert(r.v() =~~= content_envelope_v(oc));
    }
    r
}

/// Routes one parsed request under the id it will be answered with:
/// exactly what [`dispatch_req_v`] prescribes.
fn dispatch_parsed(store: &mut ChromaClient, req: &Json, id: Json) -> (r: Json)
    requires
        old(store).wf(),
    ensures
        final(store).wf(),
        final(store)@ == dispatch_req_v(old(store)@, req.v(), id.v()).post,
        dispatch_req_v(old(store)@, req.v(), id.v()).response == Some(r.v()),
{
    let ghost pre = store@;
    let ghost want = dispatch_req_v(pre, req.v(), id.v());
    let version_ok: bool = match req.get("jsonrpc") {
        Some(v) => match v {
            Json::Str(vs) => crate::text::str_eq(vs.as_str(), "2.0"),
            _ => false,
        },
        None => false,
    };
    if !version_ok {
        return resp_err(
            -32600,
            String::from_str("Invalid JSON-RPC version. Expected '2.0'"),
            id,
        );
    }
    let method: String = match req.get("method") {
        Some(mv) => match mv {
            Json::Str(ms) => crate::json::clone_string(ms),
            _ => {
                return resp_err(-32600, String::from_str("Invalid Request"), id);
            },
        },
        None => {
            return resp_err(-32600, String::from_str("Invalid Request"), id);
        },
    };
    if crate::text::str_eq(method.as_str(), "initialize") {
        let res = init_result();
        resp_ok(res, id)
    } else if crate::text::str_eq(method.as_str(), "tools/list") {
        let res = tools_list_result();
        resp_ok(res, id)
    } else if crate::text::str_eq(method.as_str(), "tools/call") {
        match req.get("params") {
            Some(params) => match params.get_str("name") {
                Some(tool_name) => {
                    let tool = crate::json::clone_string(tool_name);
                    let arguments = params.get("arguments");
                    let outcome = crate::registry::invoke_tool(store, tool.as_str(), arguments);
                    let env = content_envelope(outcome);
                    resp_ok(env, id)
                },
                None => resp_err(-32602, String::from_str("Invalid params"), id),
            },
            None => resp_err(-32602, String::from_str("Invalid params"), id),
        }
    } else if crate::text::str_eq(method.as_str(), "server/info") {
        let res = server_info_result();
        resp_ok(res, id)
    } else if is_tool(method.as_str()) {
        let arguments = req.get("params");
        match crate::registry::invoke_tool(store, method.as_str(), arguments) {
            Ok(res) => resp_ok(res, id),
            Err(e) => resp_err(-32602, e.message, id),
        }
    } else {
        let msg = crate::tools::cat(
            crate::tools::cat(String::from_str("Method '"), method.as_str()),
            "' not found",
        );
        proof {
            assert(msg@ =~= "Method '"@ + method@ + "' not found"@);
        }
        resp_err(-32601, msg, id)
    }
}

/// Handles one request body: the parse-error envelope for an unreadable
/// body, and otherwise exactly what [`dispatch_v`] prescribes — a
/// notification is routed and takes effect on the store, but is answered
/// with nothing.
pub fn handle_request(store: &mut ChromaClient, body: Option<&Json>) -> (r: Option<Json>)
    requires
        old(store).wf(),
    ensures
        final(store).wf(),
        final(store)@ == dispatch_v(old(store)@, args_v(body)).post,
        r is Some <==> dispatch_v(old(store)@, args_v(body)).response is Some,
        r matches Some(j) ==> dispatch_v(old(store)@, args_v(body)).response == Some(j.v()),
{
    match body {
        None => Some(resp_err(-32700, String::from_str("Parse error"), Json::Null)),
        Some(req) => match req.get("id") {
            Some(idref) => {
                let id = idref.deep_clone();
                Some(dispatch_parsed(store, req, id))
            },
            None => {
                dispatch_parsed(store, req, Json::Null);
                None
            },
        },
    }
}

} // verus!
