//! Requests, their answers, and what becomes of a connection.

use forgetty::ids::{PaneId, Uuid};
use forgetty::pty::size::PtySize;
use forgetty::ratio::Ratio;
use forgetty::session::events::SessionEvent;
use forgetty::session::layout::PaneTreeLayout;
use forgetty::session::manager::SessionManager;
use forgetty::socket::answers::Io;
use forgetty::socket::framing::{read_frame, MAX_FRAME_SIZE};
use forgetty::socket::handlers::{dispatch, effect_of, requested_cwd, Effect};
use forgetty::socket::json::{array, object, object1, object2, text, Json, JsonFloat};
use forgetty::socket::methods::{method_of, Method};
use forgetty::socket::protocol::{
    Request, Response, INTERNAL_ERROR, INVALID_PARAMS, INVALID_REQUEST, METHOD_NOT_FOUND,
    PARSE_ERROR,
};
use forgetty::socket::server::{
    connection_step, default_socket_path, frame_step, layout_notification, layout_step,
    output_step, replay_step, request_line, ConnGuard, Ending, LayoutStep, Step, StreamInput,
    StreamStep,
};
use forgetty::sync::endpoint::SyncState;
use forgetty::sync::registry::{DeviceEntry, DeviceRegistry};
use serde_json::Value;

// ---------------------------------------------------------------------------
// Between text and values
// ---------------------------------------------------------------------------

fn to_json(v: &Value) -> Json {
    match v {
        Value::Null => Json::Null,
        Value::Bool(b) => Json::Bool(*b),
        Value::Number(n) => {
            if let Some(u) = n.as_u64() {
                Json::Unsigned(u)
            } else if let Some(i) = n.as_i64() {
                Json::Negative(i)
            } else {
                let f = n.as_f64().unwrap();
                Json::Float(JsonFloat {
                    bits: f.to_bits(),
                    single: Ratio { bits: (f as f32).to_bits() },
                })
            }
        }
        Value::String(s) => Json::Text(s.clone()),
        Value::Array(items) => Json::Array(items.iter().map(to_json).collect()),
        Value::Object(fields) => {
            Json::Object(fields.iter().map(|(k, v)| (k.clone(), to_json(v))).collect())
        }
    }
}

fn to_value(j: &Json) -> Value {
    match j {
        Json::Null => Value::Null,
        Json::Bool(b) => Value::Bool(*b),
        Json::Unsigned(n) => Value::from(*n),
        Json::Negative(n) => Value::from(*n),
        Json::Float(f) => Value::from(f64::from_bits(f.bits)),
        Json::Single(r) => Value::from(f32::from_bits(r.bits)),
        Json::Text(s) => Value::String(s.clone()),
        Json::Array(items) => Value::Array(items.iter().map(to_value).collect()),
        Json::Object(fields) => {
            Value::Object(fields.iter().map(|(k, v)| (k.clone(), to_value(v))).collect())
        }
    }
}

/// What is read of a request's text.
fn read(input: &str) -> Result<Request, String> {
    let value: Value = serde_json::from_str(input).map_err(|e| e.to_string())?;
    let field = |name: &str| value.get(name).and_then(|v| v.as_str()).map(|s| s.to_string());
    Ok(Request {
        jsonrpc: field("jsonrpc").ok_or("missing field `jsonrpc`")?,
        method: field("method").ok_or("missing field `method`")?,
        params: value.get("params").map(to_json).unwrap_or(Json::Null),
        id: match value.get("id") {
            None | Some(Value::Null) => None,
            Some(v) => Some(to_json(v)),
        },
    })
}

/// The line that a response is sent as.
fn written(r: &Response) -> String {
    let mut fields = serde_json::Map::new();
    fields.insert("jsonrpc".to_string(), Value::String(r.jsonrpc.clone()));
    if let Some(result) = &r.result {
        fields.insert("result".to_string(), to_value(result));
    }
    if let Some(e) = &r.error {
        let mut error = serde_json::Map::new();
        error.insert("code".to_string(), Value::from(e.code));
        error.insert("message".to_string(), Value::String(e.message.clone()));
        fields.insert("error".to_string(), Value::Object(error));
    }
    fields.insert("id".to_string(), r.id.as_ref().map(to_value).unwrap_or(Value::Null));
    serde_json::to_string(&Value::Object(fields)).unwrap()
}

fn one() -> Option<Json> {
    Some(Json::Unsigned(1))
}

fn request(method: &str, params: Json) -> Request {
    Request { jsonrpc: "2.0".to_string(), method: method.to_string(), params, id: one() }
}

fn make_request(method: &str) -> Request {
    request(method, Json::Null)
}

fn fields(f: Vec<(&str, Json)>) -> Json {
    object(f.into_iter().map(|(k, v)| (k.to_string(), v)).collect())
}

fn io() -> Io {
    Io {
        pane_id: PaneId::new(),
        tab_id: Uuid::new_v4(),
        workspace_id: Uuid::new_v4(),
        spawned: Ok(Some(4242)),
        done: Ok(()),
        cwd_is_dir: false,
        home: None,
    }
}

/// The answer where everything the request needs goes well.
fn answer(req: &Request, sm: &mut SessionManager) -> Response {
    dispatch(req, sm, &mut None, io())
}

fn code(r: &Response) -> i32 {
    assert!(r.result.is_none());
    r.error.as_ref().unwrap().code
}

fn words(r: &Response) -> String {
    r.error.as_ref().unwrap().message.clone()
}

fn result(r: Response) -> Json {
    assert!(r.error.is_none());
    r.result.unwrap()
}

fn create_pane(sm: &mut SessionManager) -> PaneId {
    let size = PtySize { rows: 24, cols: 80, pixel_width: 0, pixel_height: 0 };
    sm.create_pane(PaneId::new(), Uuid::new_v4(), Ok(Some(7)), size, None, None)
        .expect("create pane")
}

const NIL: &str = "00000000-0000-0000-0000-000000000000";

// ---------------------------------------------------------------------------
// Requests and responses
// ---------------------------------------------------------------------------

#[test]
fn parse_valid_request() {
    let input = r#"{"jsonrpc":"2.0","method":"list_tabs","params":{},"id":1}"#;
    let req = Request::parse(read(input)).unwrap();
    assert_eq!(req.method, "list_tabs");
    assert_eq!(req.id, one());
}

#[test]
fn parse_request_without_params() {
    let input = r#"{"jsonrpc":"2.0","method":"list_tabs","id":1}"#;
    let req = Request::parse(read(input)).unwrap();
    assert_eq!(req.params, Json::Null);
}

#[test]
fn parse_notification_no_id() {
    let input = r#"{"jsonrpc":"2.0","method":"new_tab"}"#;
    let req = Request::parse(read(input)).unwrap();
    assert!(req.id.is_none());
}

#[test]
fn parse_invalid_json() {
    let input = r#"{not valid json"#;
    let err = Request::parse(read(input)).unwrap_err();
    assert_eq!(err.error.unwrap().code, PARSE_ERROR);
}

#[test]
fn parse_wrong_version() {
    let input = r#"{"jsonrpc":"1.0","method":"list_tabs","id":1}"#;
    let err = Request::parse(read(input)).unwrap_err();
    assert_eq!(err.error.unwrap().code, INVALID_REQUEST);
}

#[test]
fn parse_empty_method() {
    let input = r#"{"jsonrpc":"2.0","method":"","id":1}"#;
    let err = Request::parse(read(input)).unwrap_err();
    assert_eq!(err.error.unwrap().code, INVALID_REQUEST);
}

#[test]
fn refused_requests_are_answered_in_words() {
    let err = Request::parse(Err("bad".to_string())).unwrap_err();
    assert_eq!(words(&err), "Parse error: bad");
    assert_eq!(err.id, None);
    let err = Request::parse(read(r#"{"jsonrpc":"1","method":"m","id":"x"}"#)).unwrap_err();
    assert_eq!(words(&err), "Invalid JSON-RPC version, expected \"2.0\"");
    assert_eq!(err.id, Some(text("x")));
    let err = Request::parse(read(r#"{"jsonrpc":"2.0","method":"","id":3}"#)).unwrap_err();
    assert_eq!(words(&err), "Method must not be empty");
    assert_eq!(err.id, Some(Json::Unsigned(3)));
}

#[test]
fn response_success_serialization() {
    let resp = Response::success(one(), object1("tabs", array(Vec::new())));
    let json = written(&resp);
    assert!(json.contains("\"result\""));
    assert!(!json.contains("\"error\""));
}

#[test]
fn response_error_serialization() {
    let resp = Response::error(one(), METHOD_NOT_FOUND, "not found".to_string());
    let json = written(&resp);
    assert!(!json.contains("\"result\""));
    assert!(json.contains("\"error\""));
    assert!(json.contains("-32601"));
}

// ---------------------------------------------------------------------------
// Handlers
// ---------------------------------------------------------------------------

#[test]
fn dispatch_list_tabs_empty() {
    let mut sm = SessionManager::new();
    let resp = answer(&make_request("list_tabs"), &mut sm);
    assert!(resp.result.is_some());
    assert!(resp.error.is_none());
    let tabs = resp.result.unwrap().items_at("tabs").unwrap().len();
    assert_eq!(tabs, 0);
}

#[test]
fn dispatch_focus_tab_missing_tab_id_returns_invalid_params() {
    let mut sm = SessionManager::new();
    let resp = answer(&make_request("focus_tab"), &mut sm);
    assert_eq!(code(&resp), INVALID_PARAMS);
}

#[test]
fn dispatch_focus_tab_unknown_uuid_returns_invalid_params() {
    let mut sm = SessionManager::new();
    let resp = answer(&request("focus_tab", object1("tab_id", text(NIL))), &mut sm);
    assert_eq!(code(&resp), INVALID_PARAMS);
}

#[test]
fn dispatch_focus_tab_real_tab_succeeds() {
    let mut sm = SessionManager::new();
    let new_resp = answer(&request("new_tab", fields(vec![])), &mut sm);
    assert!(new_resp.result.is_some(), "new_tab should succeed");
    let tab_id = new_resp.result.unwrap().text_at("tab_id").unwrap().to_string();

    let mut focus_req = request("focus_tab", object1("tab_id", text(&tab_id)));
    focus_req.id = Some(Json::Unsigned(2));
    let resp = answer(&focus_req, &mut sm);
    assert!(resp.result.is_some());
    assert_eq!(resp.result.unwrap().bool_at("ok"), Some(true));

    let tab_uuid = Uuid::parse_str(&tab_id).unwrap();
    sm.close_tab(tab_uuid).ok();
}

#[test]
fn dispatch_split_pane_missing_pane_id_returns_invalid_params() {
    let mut sm = SessionManager::new();
    let req = request("split_pane", object1("direction", text("horizontal")));
    assert_eq!(code(&answer(&req, &mut sm)), INVALID_PARAMS);
}

#[test]
fn dispatch_split_pane_invalid_direction_returns_invalid_params() {
    let mut sm = SessionManager::new();
    let new_resp = answer(&request("new_tab", fields(vec![])), &mut sm);
    let pane_id = new_resp.result.unwrap().text_at("pane_id").unwrap().to_string();

    let mut req = request(
        "split_pane",
        object2("pane_id", text(&pane_id), "direction", text("diagonal")),
    );
    req.id = Some(Json::Unsigned(2));
    let resp = answer(&req, &mut sm);
    assert_eq!(code(&resp), INVALID_PARAMS);
}

#[test]
fn dispatch_unknown_method() {
    let mut sm = SessionManager::new();
    let resp = answer(&make_request("nonexistent"), &mut sm);
    assert_eq!(code(&resp), METHOD_NOT_FOUND);
}

#[test]
fn dispatch_preserves_request_id() {
    let mut sm = SessionManager::new();
    let mut req = make_request("list_tabs");
    req.id = Some(text("abc-123"));
    let resp = answer(&req, &mut sm);
    assert_eq!(resp.id, Some(text("abc-123")));
}

#[test]
fn send_input_missing_pane_id_returns_invalid_params() {
    let mut sm = SessionManager::new();
    let req = request("send_input", object1("data", text("dGVzdAo=")));
    assert_eq!(code(&answer(&req, &mut sm)), INVALID_PARAMS);
}

#[test]
fn send_input_invalid_uuid_returns_invalid_params() {
    let mut sm = SessionManager::new();
    let req = request(
        "send_input",
        object2("pane_id", text("not-a-uuid"), "data", text("dGVzdAo=")),
    );
    assert_eq!(code(&answer(&req, &mut sm)), INVALID_PARAMS);
}

#[test]
fn send_input_nonexistent_pane_returns_invalid_params() {
    let mut sm = SessionManager::new();
    let req = request("send_input", object2("pane_id", text(NIL), "data", text("dGVzdAo=")));
    assert_eq!(code(&answer(&req, &mut sm)), INVALID_PARAMS);
}

#[test]
fn send_input_invalid_base64_returns_invalid_params() {
    let mut sm = SessionManager::new();
    // A pane that is there, so that its id passes.
    let id = create_pane(&mut sm);
    let req = request(
        "send_input",
        object2("pane_id", text(&id.to_text()), "data", text("!!!notbase64!!!")),
    );
    assert_eq!(effect_of(&req, &sm, &None, false), Effect::Nothing);
    assert_eq!(code(&answer(&req, &mut sm)), INVALID_PARAMS);
    sm.close_pane(id).ok();
}

#[test]
fn get_pane_info_nonexistent_pane_returns_invalid_params() {
    let mut sm = SessionManager::new();
    let req = request("get_pane_info", object1("pane_id", text(NIL)));
    assert_eq!(code(&answer(&req, &mut sm)), INVALID_PARAMS);
}

#[test]
fn close_tab_nonexistent_pane_returns_invalid_params() {
    let mut sm = SessionManager::new();
    let req = request("close_tab", object1("pane_id", text(NIL)));
    assert_eq!(code(&answer(&req, &mut sm)), INVALID_PARAMS);
}

#[test]
fn close_tab_missing_params_returns_invalid_params() {
    let mut sm = SessionManager::new();
    let resp = answer(&make_request("close_tab"), &mut sm);
    assert_eq!(code(&resp), INVALID_PARAMS);
}

#[test]
fn dispatch_get_layout_empty() {
    let mut sm = SessionManager::new();
    let resp = answer(&make_request("get_layout"), &mut sm);
    assert!(resp.result.is_some());
    assert!(resp.error.is_none());
    let result = resp.result.unwrap();
    // One workspace, without tabs.
    let workspaces = result.items_at("workspaces").unwrap();
    assert_eq!(workspaces.len(), 1);
    assert_eq!(workspaces[0].text_at("name"), Some("Default"));
    assert_eq!(workspaces[0].items_at("tabs").unwrap().len(), 0);
}

#[test]
fn dispatch_new_tab_returns_tab_id_and_pane_id() {
    let mut sm = SessionManager::new();
    let resp = answer(&request("new_tab", fields(vec![])), &mut sm);
    assert!(resp.result.is_some());
    let result = resp.result.unwrap();
    assert!(result.text_at("tab_id").is_some(), "tab_id must be present");
    assert!(result.text_at("pane_id").is_some(), "pane_id must be present");

    let tab_uuid = Uuid::parse_str(result.text_at("tab_id").unwrap()).unwrap();
    sm.close_tab(tab_uuid).ok();
}

#[test]
fn dispatch_move_tab_missing_params_returns_invalid_params() {
    let mut sm = SessionManager::new();
    // There is no new_index.
    let req = request("move_tab", object1("tab_id", text(NIL)));
    assert_eq!(code(&answer(&req, &mut sm)), INVALID_PARAMS);
}

#[test]
fn dispatch_delete_workspace_missing_idx_returns_invalid_params() {
    let mut sm = SessionManager::new();
    let req = request("delete_workspace", fields(vec![]));
    assert_eq!(code(&answer(&req, &mut sm)), INVALID_PARAMS);
}

#[test]
fn dispatch_delete_workspace_last_workspace_rejected() {
    let mut sm = SessionManager::new();
    let req = request("delete_workspace", object1("workspace_idx", Json::Unsigned(0)));
    let resp = answer(&req, &mut sm);
    assert!(resp.error.is_some(), "last-workspace delete must error");
    let err = resp.error.unwrap();
    assert_eq!(err.code, INTERNAL_ERROR);
    assert!(
        err.message.contains("last remaining workspace"),
        "error message must surface the bounds reason; got: {}",
        err.message
    );
    assert_eq!(sm.layout().workspaces.len(), 1);
}

#[test]
fn dispatch_delete_workspace_out_of_bounds_returns_error() {
    let mut sm = SessionManager::new();
    sm.create_workspace("Second");
    let req = request("delete_workspace", object1("workspace_idx", Json::Unsigned(99)));
    let resp = answer(&req, &mut sm);
    assert!(resp.error.is_some(), "out-of-range delete must error");
    assert_eq!(resp.error.unwrap().code, INTERNAL_ERROR);
    assert_eq!(sm.layout().workspaces.len(), 2, "workspace list must be untouched");
}

#[test]
fn dispatch_delete_workspace_success() {
    let mut sm = SessionManager::new();
    let (_, ws_idx) = sm.create_workspace("DropMe");
    assert_eq!(sm.layout().workspaces.len(), 2);

    let req =
        request("delete_workspace", object1("workspace_idx", Json::Unsigned(ws_idx as u64)));
    let resp = answer(&req, &mut sm);
    assert!(resp.result.is_some(), "successful delete must return a result");
    let result = resp.result.unwrap();
    assert_eq!(result.bool_at("ok"), Some(true));
    assert_eq!(sm.layout().workspaces.len(), 1);
}

// ---------------------------------------------------------------------------
// What a request needs before it is answered
// ---------------------------------------------------------------------------

#[test]
fn input_is_decoded_before_it_is_written() {
    let mut sm = SessionManager::new();
    let id = create_pane(&mut sm);
    let req = request(
        "send_input",
        object2("pane_id", text(&id.to_text()), "data", text("dGVzdAo=")),
    );
    assert_eq!(
        effect_of(&req, &sm, &None, false),
        Effect::Write { pane_id: id, data: b"test\n".to_vec() }
    );
    assert_eq!(result(answer(&req, &mut sm)), object1("ok", Json::Bool(true)));
    let mut failed = io();
    failed.done = Err("broken pipe".to_string());
    let resp = dispatch(&req, &mut sm, &mut None, failed);
    assert_eq!(code(&resp), INTERNAL_ERROR);
    assert!(words(&resp).contains("broken pipe"));
}

#[test]
fn a_new_tab_starts_a_process() {
    let sm = SessionManager::new();
    let req = request(
        "new_tab",
        fields(vec![
            ("rows", Json::Unsigned(30)),
            ("cols", Json::Unsigned(65536 + 100)),
            ("cwd", text("/srv")),
            ("command", array(vec![text("top"), text("-b")])),
        ]),
    );
    assert_eq!(requested_cwd(&req), Some("/srv".to_string()));
    let size = PtySize { rows: 30, cols: 100, pixel_width: 0, pixel_height: 0 };
    let command = Some(vec!["top".to_string(), "-b".to_string()]);
    match effect_of(&req, &sm, &None, true) {
        Effect::Spawn { size: s, cwd, command: c } => {
            assert_eq!(s, size);
            assert_eq!(cwd, Some("/srv".to_string()));
            assert_eq!(c, command);
        }
        other => panic!("expected a process to start, got {:?}", other),
    }
    match effect_of(&req, &sm, &None, false) {
        Effect::Spawn { cwd, .. } => assert_eq!(cwd, None),
        other => panic!("expected a process to start, got {:?}", other),
    }
    // In a workspace that is not there nothing is started.
    let req = request("new_tab", object1("workspace_idx", Json::Unsigned(9)));
    assert_eq!(effect_of(&req, &sm, &None, false), Effect::Nothing);
}

#[test]
fn panes_that_come_and_go_are_announced() {
    let mut sm = SessionManager::new();
    let mut told = 0;
    // What was announced stays, and what is new comes behind it.
    let first = io();
    let (a, tab) = (first.pane_id, first.tab_id);
    result(dispatch(&make_request("new_tab"), &mut sm, &mut None, first));
    let second = io();
    let b = second.pane_id;
    let split = request(
        "split_pane",
        object2("pane_id", text(&a.to_text()), "direction", text("horizontal")),
    );
    result(dispatch(&split, &mut sm, &mut None, second));
    let close = request("close_tab", object1("tab_id", text(&tab.to_text())));
    result(answer(&close, &mut sm));
    let events = sm.take_events();
    for (i, pane) in [(0, a), (2, b)] {
        assert_eq!(events[i], SessionEvent::PaneCreated { pane_id: pane });
        told += 1;
    }
    for pane in [a, b] {
        assert!(events.contains(&SessionEvent::PaneClosed { pane_id: pane }));
        told += 1;
    }
    // Beside them the tab, the split and the end of the tab.
    assert_eq!(events.len(), told + 3);
}

#[test]
fn a_failed_start_is_answered_and_changes_nothing() {
    let mut sm = SessionManager::new();
    let mut failed = io();
    failed.spawned = Err("no pty".to_string());
    let resp = dispatch(&make_request("new_tab"), &mut sm, &mut None, failed);
    assert_eq!(code(&resp), INTERNAL_ERROR);
    assert!(words(&resp).contains("no pty"));
    assert_eq!(sm.layout().workspaces[0].tabs.len(), 0);
    assert!(sm.take_events().is_empty());
}

#[test]
fn a_split_goes_by_its_direction_and_ratio() {
    let mut sm = SessionManager::new();
    let a = create_pane(&mut sm);
    let req = request(
        "split_pane",
        object2("pane_id", text(&a.to_text()), "direction", text("vertical")),
    );
    let reply = result(answer(&req, &mut sm));
    let b = PaneId(Uuid::parse_str(reply.text_at("pane_id").unwrap()).unwrap());
    let update = array(vec![fields(vec![
        ("pane_id", text(&a.to_text())),
        ("ratio", to_json(&Value::from(0.25))),
    ])]);
    let resp = answer(&request("update_split_ratios", object1("ratios", update)), &mut sm);
    assert!(resp.error.is_none(), "{:?}", resp);
    assert_eq!(
        sm.layout().workspaces[0].tabs[0].pane_tree,
        PaneTreeLayout::Split {
            direction: "vertical".to_string(),
            ratio: Ratio { bits: 0.25f32.to_bits() },
            first: Box::new(PaneTreeLayout::Leaf { pane_id: a }),
            second: Box::new(PaneTreeLayout::Leaf { pane_id: b }),
        }
    );
    let shown = result(answer(&make_request("get_layout"), &mut sm));
    let line = serde_json::to_string(&to_value(&shown)).unwrap();
    assert!(line.contains("\"ratio\":0.25"), "{}", line);
    // A closed pane leaves the tree to its sibling.
    let resp = answer(&request("close_pane", object1("pane_id", text(&b.to_text()))), &mut sm);
    assert!(resp.error.is_none());
    assert_eq!(
        sm.layout().workspaces[0].tabs[0].pane_tree,
        PaneTreeLayout::Leaf { pane_id: a }
    );
}

#[test]
fn workspaces_are_made_named_and_chosen() {
    let mut sm = SessionManager::new();
    let resp = answer(&request("create_workspace", object1("name", text("Work"))), &mut sm);
    assert!(resp.error.is_none(), "{:?}", resp);
    assert_eq!(sm.layout().workspaces[1].name, "Work");
    let req = request(
        "rename_workspace",
        object2("workspace_idx", Json::Unsigned(1), "name", text("Play")),
    );
    assert!(answer(&req, &mut sm).error.is_none());
    assert_eq!(sm.layout().workspaces[1].name, "Play");
    let req = request("set_active_workspace", object1("workspace_idx", Json::Unsigned(1)));
    assert!(answer(&req, &mut sm).error.is_none());
    assert_eq!(sm.layout().active_workspace, 1);
}

#[test]
fn pins_are_set_and_read() {
    let mut sm = SessionManager::new();
    let resp = answer(&make_request("get_pinned"), &mut sm);
    assert_eq!(result(resp).bool_at("pinned"), Some(false));
    let resp = answer(&request("set_pinned", object1("pinned", Json::Bool(true))), &mut sm);
    assert!(resp.error.is_none());
    let resp = answer(&make_request("get_pinned"), &mut sm);
    assert_eq!(result(resp).bool_at("pinned"), Some(true));
}

#[test]
fn a_refused_request_changes_nothing() {
    let mut sm = SessionManager::new();
    create_pane(&mut sm);
    sm.take_events();
    let layout = sm.layout();
    for method in [
        "close_tab", "focus_tab", "split_pane", "move_tab", "close_pane", "send_input",
        "resize_pane", "send_sigint", "rename_workspace", "delete_workspace",
        "set_active_workspace", "nonexistent",
    ] {
        let resp = answer(&make_request(method), &mut sm);
        assert!(resp.error.is_some(), "{} was not refused", method);
        assert_eq!(resp.id, one());
        assert_eq!(sm.layout(), layout, "{} changed the layout", method);
        assert!(sm.take_events().is_empty(), "{} was announced", method);
    }
}

#[test]
fn every_method_has_a_name() {
    assert_eq!(method_of("list_tabs"), Method::ListTabs);
    assert_eq!(method_of("send_sigint"), Method::SendSigint);
    assert_eq!(method_of("LIST_TABS"), method_of("nothing of the kind"));
}

// ---------------------------------------------------------------------------
// Devices
// ---------------------------------------------------------------------------

fn device(id: &str) -> DeviceEntry {
    DeviceEntry {
        device_id: id.to_string(),
        name: "phone".to_string(),
        paired_at: "2026-01-02T03:04:05Z".to_string(),
        last_seen: None,
    }
}

#[test]
fn devices_are_listed_and_revoked() {
    let mut sm = SessionManager::new();
    let registry = DeviceRegistry::from_entries(vec![device("d1"), device("d2")]);
    let mut sync = Some(SyncState::new("node".to_string(), registry, false));
    let listed = result(dispatch(&make_request("list_devices"), &mut sm, &mut sync, io()));
    let devices = listed.items_at("devices").unwrap();
    assert_eq!(devices.len(), 2);
    assert_eq!(devices[0].text_at("device_id"), Some("d1"));

    let req = request("revoke_device", object1("device_id", text("d1")));
    match effect_of(&req, &sm, &sync, false) {
        Effect::StoreDevices { devices } => assert_eq!(devices, vec![device("d2")]),
        other => panic!("expected devices to be stored, got {:?}", other),
    }
    let resp = dispatch(&req, &mut sm, &mut sync, io());
    assert!(resp.error.is_none(), "{:?}", resp);
    assert!(!sync.as_ref().unwrap().registry.is_authorized("d1"));
    assert!(sync.as_ref().unwrap().registry.is_authorized("d2"));

    // Without an endpoint there is nothing to ask.
    let resp = answer(&make_request("list_devices"), &mut sm);
    assert!(resp.error.is_some());
}

#[test]
fn pairing_is_enabled_for_a_while() {
    let mut sm = SessionManager::new();
    let mut sync =
        Some(SyncState::new("node".to_string(), DeviceRegistry::from_entries(Vec::new()), false));
    let resp = dispatch(&make_request("enable_pairing"), &mut sm, &mut sync, io());
    assert!(resp.error.is_none(), "{:?}", resp);
    let state = sync.as_mut().unwrap();
    assert!(state.allow_pairing);
    assert!(state.take_timer().is_some());
    state.pairing_window_over();
    assert!(!state.allow_pairing);

    let shown = result(dispatch(&make_request("get_pairing_info"), &mut sm, &mut sync, io()));
    assert_eq!(shown.text_at("node_id"), Some("node"));
    assert!(shown.text_at("machine").is_some());
    let png = shown.text_at("qr_png_base64").or(shown.text_at("qr_png"));
    assert!(png.is_some(), "{:?}", shown);
    // A PNG file starts with a byte above the ASCII range, then its name.
    assert!(png.unwrap().starts_with("iVBORw0KGgo"));
}

// ---------------------------------------------------------------------------
// Connections
// ---------------------------------------------------------------------------

#[test]
fn default_socket_path_with_xdg() {
    let path = default_socket_path(Some("/run/user/1000".to_string()));
    assert!(path.ends_with("forgetty.sock"));
    assert_eq!(path, "/run/user/1000/forgetty.sock");
    let path = default_socket_path(None);
    assert!(path.ends_with("forgetty.sock"));
    assert_eq!(path, "/tmp/forgetty.sock");
}

/// The answer to `is_attached` with this many connections open.
fn attached(connections: ConnGuard) -> bool {
    let sm = SessionManager::new();
    let req = make_request("is_attached");
    match connection_step(&req, &sm, connections.count) {
        Step::Reply(r) => {
            result(r).bool_at("attached").expect("attached field present")
        }
        other => panic!("expected a reply, got {:?}", other),
    }
}

#[test]
fn is_attached_false_when_probe_is_sole_client() {
    let none = ConnGuard { count: 0 };
    let attached = attached(ConnGuard::new(none));
    assert!(!attached, "expected attached=false with single probe client");
}

#[test]
fn is_attached_true_when_another_client_holds_socket() {
    let none = ConnGuard { count: 0 };
    let held = ConnGuard::new(none);
    let probed = ConnGuard::new(held);
    assert!(attached(probed), "expected attached=true when another client holds the socket");
    let after = ConnGuard::new(ConnGuard::end(ConnGuard::end(probed)));
    assert!(!attached(after), "expected attached=false after held connection dropped");
}

#[test]
fn bytes_from_a_subscriber_are_dropped() {
    let pane_id = PaneId::new();
    assert_eq!(output_step(pane_id, &StreamInput::ClientBytes), StreamStep::Wait);
    let event = SessionEvent::PtyOutput { pane_id, data: vec![7] };
    assert_eq!(
        output_step(pane_id, &StreamInput::Event(event)),
        StreamStep::Send(vec![0, 0, 0, 1, 7])
    );
    assert_eq!(output_step(pane_id, &StreamInput::ClientClosed), StreamStep::End);
}

#[test]
fn is_attached_flips_false_after_idle_subscribe_output_client_disconnects() {
    let mut sm = SessionManager::new();
    let pane_id = create_pane(&mut sm);
    let open = ConnGuard::new(ConnGuard { count: 0 });
    let req = request("subscribe_output", object1("pane_id", text(&pane_id.to_text())));
    match connection_step(&req, &sm, open.count) {
        Step::StreamOutput { ack, pane_id: streamed } => {
            let ack_line = written(&ack);
            assert!(ack_line.contains("\"ok\":true"), "ack = {ack_line}");
            assert_eq!(streamed, pane_id);
        }
        other => panic!("expected a stream, got {:?}", other),
    }
    // The client goes while the pane is silent: the stream ends, and with it
    // the connection.
    assert_eq!(output_step(pane_id, &StreamInput::ClientClosed), StreamStep::End);
    let probe = ConnGuard::new(ConnGuard::end(open));
    assert!(
        !attached(probe),
        "expected attached=false after idle subscribe_output client dropped (ConnGuard must have released)"
    );
    sm.close_pane(pane_id).ok();
}

#[test]
fn subscribe_output_streams_binary_frames() {
    let mut sm = SessionManager::new();
    let pane_id = create_pane(&mut sm);
    sm.create_byte_log_for(pane_id, 0, &[]);
    sm.process_pane_bytes(pane_id, b"$ ", None, true).unwrap();
    sm.take_events();

    let req = request("subscribe_output", object1("pane_id", text(&pane_id.to_text())));
    let ack = match connection_step(&req, &sm, 1) {
        Step::StreamOutput { ack, .. } => ack,
        other => panic!("expected a stream, got {:?}", other),
    };
    let ack: Value = serde_json::from_str(&written(&ack)).expect("ack JSON");
    assert_eq!(ack.get("result").and_then(|v| v.get("ok")).and_then(|v| v.as_bool()), Some(true));
    assert!(ack.get("error").is_none());

    let mut wire: Vec<u8> = Vec::new();
    if let StreamStep::Send(bytes) = replay_step(&sm, pane_id) {
        wire.extend_from_slice(&bytes);
    }

    let marker = b"v2003_binary_marker";
    let mut send = Vec::new();
    send.extend_from_slice(b"printf '%s' ");
    send.extend_from_slice(marker);
    send.extend_from_slice(b"\n");
    sm.write_pty(pane_id, Ok(())).expect("write_pty");
    // The terminal echoes what was typed, then the command puts it out.
    sm.process_pane_bytes(pane_id, &send, None, true).unwrap();
    sm.process_pane_bytes(pane_id, marker, None, true).unwrap();
    for event in sm.take_events() {
        if let StreamStep::Send(bytes) = output_step(pane_id, &StreamInput::Event(event)) {
            wire.extend_from_slice(&bytes);
        }
    }

    let mut collected: Vec<u8> = Vec::new();
    let mut rest: &[u8] = &wire;
    while !rest.is_empty() {
        let mut payload = Vec::new();
        let n = read_frame(rest, &mut payload).expect("frame payload");
        assert!(payload.len() <= MAX_FRAME_SIZE, "length {} exceeds cap", payload.len());
        collected.extend_from_slice(&payload);
        rest = &rest[n..];
    }
    let found = collected.windows(marker.len()).position(|w| w == marker);
    assert!(found.is_some(), "marker {:?} not found in {} streamed bytes", marker, collected.len());
    assert!(
        !collected.windows(17).any(|w| w == b"\"method\":\"output\""),
        "stream must not contain JSON `method: output` envelopes"
    );
    // What was there before, then what came, without a gap or an overlap.
    let mut all = b"$ ".to_vec();
    all.extend_from_slice(&send);
    all.extend_from_slice(marker);
    assert_eq!(collected, all);
    sm.close_pane(pane_id).ok();
}

#[test]
fn server_round_trip() {
    let mut sm = SessionManager::new();
    let line = r#"{"jsonrpc":"2.0","method":"list_tabs","id":1}"#.to_string() + "\n";
    let input = request_line(&line).unwrap();
    let req = Request::parse(read(&input)).unwrap();
    assert_eq!(connection_step(&req, &sm, 1), Step::Dispatch);
    let response = written(&answer(&req, &mut sm));
    let resp: Value = serde_json::from_str(response.trim()).unwrap();
    assert!(resp.get("result").is_some());
    assert!(resp.get("error").is_none());
    assert_eq!(resp.get("id"), Some(&Value::from(1)));

    let input = request_line("{bad json\n").unwrap();
    let refused = Request::parse(read(&input)).unwrap_err();
    let resp: Value = serde_json::from_str(&written(&refused)).unwrap();
    let error = resp.get("error").unwrap();
    assert_eq!(error.get("code"), Some(&Value::from(PARSE_ERROR)));
}

#[test]
fn blank_lines_are_no_requests() {
    assert_eq!(request_line("  \r\n"), None);
    assert_eq!(request_line("\t{} \n"), Some("{}".to_string()));
}

#[test]
fn connections_end_as_asked() {
    let sm = SessionManager::new();
    let ending = |method: &str| match connection_step(&make_request(method), &sm, 1) {
        Step::End { ending, .. } => ending,
        other => panic!("expected an end, got {:?}", other),
    };
    let save = ending("shutdown_save");
    assert_eq!((save.flush, save.save, save.trash, save.exit), (true, true, false, true));
    let clean = ending("shutdown_clean");
    assert_eq!((clean.save, clean.trash, clean.exit), (true, true, true));
    let now = ending("shutdown");
    assert_eq!((now.save, now.trash, now.exit), (false, false, true));
    let away: Ending = ending("disconnect");
    assert!(!away.exit);
    let req = request("subscribe_output", object1("pane_id", text(NIL)));
    match connection_step(&req, &sm, 1) {
        Step::ReplyAndClose(r) => assert_eq!(code(&r), INVALID_PARAMS),
        other => panic!("expected a refusal, got {:?}", other),
    }
}

#[test]
fn all_that_is_kept_of_a_pane_fits_a_frame() {
    let mut sm = SessionManager::new();
    let pane = create_pane(&mut sm);
    sm.create_byte_log_for(pane, 0, &[]);
    assert_eq!(replay_step(&sm, pane), StreamStep::Wait);
    let (ring, _) = sm.byte_log_sizes();
    sm.process_pane_bytes(pane, &vec![7; ring + 3], None, true).unwrap();
    match replay_step(&sm, pane) {
        StreamStep::Send(bytes) => assert_eq!(bytes.len(), 4 + ring),
        other => panic!("expected a frame, got {:?}", other),
    }
}

#[test]
fn other_panes_and_events_are_not_streamed() {
    let (a, b) = (PaneId::new(), PaneId::new());
    let output = |pane_id: PaneId, data: &[u8]| {
        StreamInput::Event(SessionEvent::PtyOutput { pane_id, data: data.to_vec() })
    };
    assert_eq!(output_step(a, &output(a, b"x")), StreamStep::Send(vec![0, 0, 0, 1, b'x']));
    assert_eq!(output_step(a, &output(b, b"x")), StreamStep::Wait);
    assert_eq!(output_step(a, &output(a, b"")), StreamStep::Wait);
    assert_eq!(output_step(a, &StreamInput::Lagged), StreamStep::Wait);
    assert_eq!(output_step(a, &StreamInput::Closed), StreamStep::End);
    let closed = StreamInput::Event(SessionEvent::PaneClosed { pane_id: a });
    assert_eq!(output_step(a, &closed), StreamStep::End);
    assert_eq!(frame_step(b""), StreamStep::Wait);
    assert_eq!(frame_step(&vec![0u8; MAX_FRAME_SIZE + 1]), StreamStep::End);
}

#[test]
fn layout_changes_are_notified() {
    let event = SessionEvent::TabMoved { workspace_idx: 0, tab_id: Uuid { value: 0 }, new_index: 2 };
    let n = layout_notification(&event).unwrap();
    assert_eq!(n.text_at("jsonrpc"), Some("2.0"));
    assert_eq!(n.text_at("method"), Some("tab_moved"));
    let params = n.get("params").unwrap();
    assert_eq!(params.unsigned_at("new_index"), Some(2));
    assert_eq!(params.text_at("tab_id"), Some(NIL));
    assert_eq!(layout_step(&StreamInput::Event(event)), LayoutStep::Send(n));
    let output =
        StreamInput::Event(SessionEvent::PtyOutput { pane_id: PaneId::new(), data: vec![1] });
    assert_eq!(layout_step(&output), LayoutStep::Wait);
    assert_eq!(layout_step(&StreamInput::ClientClosed), LayoutStep::End);
    assert_eq!(layout_step(&StreamInput::ClientBytes), LayoutStep::End);
}
