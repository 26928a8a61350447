use gleam_lsp::backend::{LspError, NoopSourceTree, SourceTree};
use gleam_lsp::dispatch::{write_fallback, write_parse_error, write_response, FALLBACK_REQUEST_ID};
use gleam_lsp::parse_transport_message;
use gleam_lsp::rpc::{Incoming, Registry, Route};
use jsonrpc_core::{Id, Params};
use serde_json::Value;

type Handler = fn(Params) -> Result<Value, jsonrpc_core::Error>;

const HOVER_TEXT: &str = "# Hello\nThis is something";

fn hover(_: Params) -> Result<Value, jsonrpc_core::Error> {
    let response = lsp_types::Hover {
        contents: lsp_types::HoverContents::Markup(lsp_types::MarkupContent {
            kind: lsp_types::MarkupKind::Markdown,
            value: HOVER_TEXT.to_string(),
        }),
        range: None,
    };
    serde_json::to_value(&response).map_err(|_| jsonrpc_core::Error::internal_error())
}

fn first_body(out: &[u8]) -> Value {
    let frame = parse_transport_message(out).unwrap();
    assert_eq!(frame.consumed, out.len());
    serde_json::from_str(&frame.body).unwrap()
}

#[test]
fn later_registration_replaces_earlier() {
    let mut registry: Registry<u32> = Registry::new();
    registry.register_request("textDocument/hover", 1);
    registry.register_request("initialize", 2);
    registry.register_request("textDocument/hover", 3);
    assert_eq!(registry.request_handler("textDocument/hover"), Some(3));
    assert_eq!(registry.request_handler("initialize"), Some(2));
    assert_eq!(registry.notification_handler("textDocument/hover"), None);
    let text = "{\"jsonrpc\":\"2.0\",\"id\":5,\"method\":\"textDocument/hover\",\"params\":{}}";
    match registry.route_message(text) {
        Route::Invoke { handler, id, .. } => {
            assert_eq!(handler, 3);
            assert_eq!(id, Id::Num(5));
        }
        _ => panic!("expected the request to reach its handler"),
    }
}

#[test]
fn notifications_and_requests_are_separate_tables() {
    let mut registry: Registry<u32> = Registry::new();
    registry.register_notification("initialized", 7);
    assert_eq!(registry.notification_handler("initialized"), Some(7));
    assert_eq!(registry.request_handler("initialized"), None);
}

#[test]
fn decoding_tells_calls_apart() {
    let mut registry: Registry<u32> = Registry::new();
    registry.register_request("m", 1);
    registry.register_notification("n", 2);
    match registry.route_message("{\"jsonrpc\":\"2.0\",\"id\":\"a\",\"method\":\"m\"}") {
        Route::Invoke { handler, id, params } => {
            assert_eq!(handler, 1);
            assert_eq!(id, Id::Str("a".to_string()));
            assert_eq!(params, Params::None);
        }
        _ => panic!("expected a request"),
    }
    match registry.route_message("{\"jsonrpc\":\"2.0\",\"method\":\"n\",\"params\":[1]}") {
        Route::Notify { handler, params } => {
            assert_eq!(handler, 2);
            assert_eq!(params, Params::Array(vec![Value::from(1)]));
        }
        _ => panic!("expected a notification"),
    }
    assert!(matches!(registry.route_message("{\"id\":4}"), Route::Malformed { id: Id::Num(4) }));
    assert!(matches!(registry.route_message("{not json"), Route::Ignore));
}

#[test]
fn dispatch_takes_decoded_messages() {
    let mut registry: Registry<u32> = Registry::new();
    registry.register_request("m", 1);
    let incoming = Incoming::Request { id: Id::Num(8), method: "m".to_string(), params: Params::None };
    assert!(matches!(registry.dispatch(incoming), Route::Invoke { handler: 1, id: Id::Num(8), .. }));
    let incoming = Incoming::Request { id: Id::Num(8), method: "x".to_string(), params: Params::None };
    assert!(matches!(registry.dispatch(incoming), Route::Unhandled { .. }));
    let incoming = Incoming::Notification { method: "m".to_string(), params: Params::None };
    assert!(matches!(registry.dispatch(incoming), Route::Ignore));
    assert!(matches!(registry.dispatch(Incoming::Unparsable), Route::Ignore));
}

#[test]
fn dispatch_miss_sends_only_the_fallback_request() {
    let mut registry: Registry<u32> = Registry::new();
    registry.register_request("textDocument/hover", 1);
    let text = "{\"jsonrpc\":\"2.0\",\"id\":7,\"method\":\"textDocument/doesNotExist\",\"params\":{}}";
    let mut out = Vec::new();
    match registry.route_message(text) {
        Route::Unhandled { method } => {
            assert_eq!(method, "textDocument/doesNotExist");
            write_fallback(&mut out);
        }
        _ => panic!("expected a dispatch miss"),
    }
    let body = first_body(&out);
    assert_eq!(body["method"], "window/showMessageRequest");
    assert_eq!(body["id"], Value::from(FALLBACK_REQUEST_ID as u64));
    assert_ne!(body["id"], Value::from(7));
    assert_eq!(body["params"]["type"], Value::from(2));
    assert_eq!(body["params"]["message"], "Can't Handle this message");
    assert_eq!(body["params"]["actions"][0]["title"], "OK");
    assert!(body.get("result").is_none());
}

#[test]
fn notification_never_responds() {
    let mut registry: Registry<u32> = Registry::new();
    registry.register_notification("initialized", 9);
    let route = registry.route_message("{\"jsonrpc\":\"2.0\",\"method\":\"initialized\",\"params\":{}}");
    assert!(matches!(route, Route::Notify { handler: 9, .. }));
    let empty: Registry<u32> = Registry::new();
    let route = empty.route_message("{\"jsonrpc\":\"2.0\",\"method\":\"initialized\",\"params\":{}}");
    assert!(matches!(route, Route::Ignore));
}

#[test]
fn text_that_is_not_json_is_dropped() {
    let registry: Registry<u32> = Registry::new();
    assert!(matches!(registry.route_message("]]"), Route::Ignore));
}

#[test]
fn non_call_without_id_is_dropped() {
    let registry: Registry<u32> = Registry::new();
    assert!(matches!(registry.route_message("{\"foo\":1}"), Route::Ignore));
    assert!(matches!(registry.dispatch(Incoming::Invalid { id: Id::Null }), Route::Ignore));
}

#[test]
fn non_call_gets_parse_error_under_its_id() {
    let registry: Registry<u32> = Registry::new();
    let mut out = Vec::new();
    match registry.route_message("{\"id\":3}") {
        Route::Malformed { id } => write_parse_error(id, &mut out),
        _ => panic!("expected a malformed message"),
    }
    let body = first_body(&out);
    assert_eq!(body["id"], Value::from(3));
    assert_eq!(body["error"]["code"], Value::from(-32700));
    assert_eq!(body["error"]["message"], "Parse error");
    assert!(body.get("result").is_none());
}

#[test]
fn hover_round_trip() {
    let mut registry: Registry<Handler> = Registry::new();
    registry.register_request("textDocument/hover", hover);
    let mut input = Vec::new();
    gleam_lsp::write_transport_message(
        "{\"jsonrpc\":\"2.0\",\"id\":1,\"method\":\"textDocument/hover\",\"params\":{}}",
        &mut input,
    );
    let frame = parse_transport_message(&input).unwrap();
    let mut out = Vec::new();
    match registry.route_message(&frame.body) {
        Route::Invoke { handler, id, params } => write_response(id, handler(params), &mut out),
        _ => panic!("expected the hover handler"),
    }
    let body = first_body(&out);
    assert_eq!(body["jsonrpc"], "2.0");
    assert_eq!(body["id"], Value::from(1));
    assert_eq!(body["result"]["contents"]["kind"], "markdown");
    assert_eq!(body["result"]["contents"]["value"], HOVER_TEXT);
}

#[test]
fn handler_error_becomes_error_response() {
    let mut out = Vec::new();
    let err = jsonrpc_core::Error::method_not_found();
    write_response(Id::Str("q".to_string()), Err(err), &mut out);
    let body = first_body(&out);
    assert_eq!(body["id"], "q");
    assert_eq!(body["error"]["code"], Value::from(-32601));
    assert!(body.get("result").is_none());
}

#[test]
fn noop_backend_accepts_everything() {
    let tree = NoopSourceTree {};
    assert_eq!(tree.insert(), Ok::<(), LspError>(()));
    assert_eq!(tree.update(), Ok::<(), LspError>(()));
    assert_eq!(tree.symbol(), Ok::<(), LspError>(()));
}
