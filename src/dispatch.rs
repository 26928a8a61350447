//! The outgoing side of the dispatch loop: framed responses to requests, and
//! the fallback request that tells the peer a method has no handler.
use crate::codec::{frame, method_call_body, write_method_message, write_transport_message};
use vstd::prelude::*;
use vstd::string::StringExecFns;
use vstd::utf8::encode_utf8;

verus! {

#[verifier::external_type_specification]
#[verifier::external_body]
pub struct ExValue(serde_json::Value);

/// An error object: a code, a message and optional data, all public fields.
#[verifier::external_type_specification]
pub struct ExRpcError(jsonrpc_core::Error);

/// The error codes of JSON-RPC, all public variants.
#[verifier::external_type_specification]
pub struct ExErrorCode(jsonrpc_core::ErrorCode);

/// The protocol version; its one variant is `V2`.
#[verifier::external_type_specification]
pub struct ExVersion(jsonrpc_core::Version);

/// Relies on `jsonrpc_core::Error::parse_error`, which is `Error::new` of
/// `ErrorCode::ParseError`: that code, its description `Parse error`, and no
/// data.
pub assume_specification[ jsonrpc_core::Error::parse_error ]() -> (r: jsonrpc_core::Error)
    ensures
        r.code == jsonrpc_core::ErrorCode::ParseError,
        r.message@ == "Parse error"@,
        r.data is None,
;

/// The identifier of every fallback request that the server sends.
pub const FALLBACK_REQUEST_ID: usize = 1000;

/// The method of the fallback request: `window/showMessageRequest`.
pub open spec fn fallback_method() -> Seq<char> {
    seq![
        'w', 'i', 'n', 'd', 'o', 'w', '/', 's', 'h', 'o', 'w', 'M', 'e', 's', 's', 'a', 'g', 'e',
        'R', 'e', 'q', 'u', 'e', 's', 't',
    ]
}

/// How serious a message shown to the user is.
#[derive(Clone, Copy, Debug, PartialEq, Eq, Structural)]
pub enum Severity {
    Error,
    Warning,
    Info,
    Log,
}

/// The titles of a list of message actions, where there is a list.
pub open spec fn titles(actions: Option<Vec<String>>) -> Option<Seq<Seq<char>>> {
    match actions {
        Some(v) => Some(v@.map_values(|a: String| a@)),
        None => None,
    }
}

/// The JSON text of a `ShowMessageRequestParams` with this severity, text
/// and action titles.
pub uninterp spec fn show_message_params(
    severity: Severity,
    message: Seq<char>,
    actions: Option<Seq<Seq<char>>>,
) -> Seq<char>;

/// Relies on `serde_json::to_string` of an `lsp_types::ShowMessageRequestParams`
/// (a `MessageType`, a string, and `MessageActionItem`s holding one string
/// each); the text depends on those values alone. Serialising them cannot
/// fail: `to_string` fails only where a `Serialize` impl fails or a map has
/// keys that are not strings.
#[verifier::external_body]
fn show_message_request_params(
    severity: Severity,
    message: &str,
    actions: Option<Vec<String>>,
) -> (r: Option<String>)
    ensures
        r is Some,
        r matches Some(t) ==> t@ == show_message_params(severity, message@, titles(actions)),
{
    let typ = match severity {
        Severity::Error => lsp_types::MessageType::Error,
        Severity::Warning => lsp_types::MessageType::Warning,
        Severity::Info => lsp_types::MessageType::Info,
        Severity::Log => lsp_types::MessageType::Log,
    };
    let actions = actions.map(|v| v.into_iter().map(|title| lsp_types::MessageActionItem { title }).collect());
    let params = lsp_types::ShowMessageRequestParams { typ, message: message.to_string(), actions };
    serde_json::to_string(&params).ok()
}

/// The JSON text of the response that `jsonrpc_core::Output::from` builds
/// from an outcome, an identifier and a protocol version.
pub uninterp spec fn response_text(
    id: jsonrpc_core::Id,
    outcome: Result<serde_json::Value, jsonrpc_core::Error>,
    version: Option<jsonrpc_core::Version>,
) -> Seq<char>;

/// Relies on `serde_json::to_string` of the response that
/// `jsonrpc_core::Output::from` builds from an outcome, an identifier and a
/// version; the text depends on those values alone. The response holds
/// strings, numbers, JSON values and string-keyed maps, so serialising it
/// cannot fail: `to_string` fails only where a `Serialize` impl fails or a
/// map has keys that are not strings.
#[verifier::external_body]
fn encode_output(
    id: jsonrpc_core::Id,
    outcome: Result<serde_json::Value, jsonrpc_core::Error>,
    version: Option<jsonrpc_core::Version>,
) -> (r: Option<String>)
    ensures
        r is Some,
        r matches Some(t) ==> t@ == response_text(id, outcome, version),
{
    serde_json::to_string(&jsonrpc_core::Output::from(outcome, id, version)).ok()
}

/// Frames and appends the JSON-RPC 2.0 response to request `id` that carries
/// `outcome`: a success with its result, or a failure with its error.
pub fn write_response(
    id: jsonrpc_core::Id,
    outcome: Result<serde_json::Value, jsonrpc_core::Error>,
    out: &mut Vec<u8>,
)
    ensures
        final(out)@ == old(out)@ + frame(
            encode_utf8(response_text(id, outcome, Some(jsonrpc_core::Version::V2))),
        ),
{
    if let Some(text) = encode_output(id, outcome, Some(jsonrpc_core::Version::V2)) {
        write_transport_message(text.as_str(), out);
    }
}

/// Frames and appends a parse-error response under `id`.
pub fn write_parse_error(id: jsonrpc_core::Id, out: &mut Vec<u8>)
    ensures
        exists|e: jsonrpc_core::Error|
            e.code == jsonrpc_core::ErrorCode::ParseError && e.data is None && final(out)@
                == old(out)@ + frame(
                encode_utf8(response_text(id, Err(e), Some(jsonrpc_core::Version::V2))),
            ),
{
    let e = jsonrpc_core::Error::parse_error();
    let ghost g = e;
    write_response(id, Err(e), out);
    assert(g.code == jsonrpc_core::ErrorCode::ParseError && g.data is None);
}

/// The text of the fallback request.
pub open spec fn fallback_text() -> Seq<char> {
    seq![
        'C', 'a', 'n', '\'', 't', ' ', 'H', 'a', 'n', 'd', 'l', 'e', ' ', 't', 'h', 'i', 's', ' ',
        'm', 'e', 's', 's', 'a', 'g', 'e',
    ]
}

/// The title of the fallback request's one action.
pub open spec fn fallback_action() -> Seq<char> {
    seq!['O', 'K']
}

/// The framed fallback request: `window/showMessageRequest` under the
/// reserved identifier, with a warning and a single acknowledging action.
pub open spec fn fallback_frame() -> Seq<u8> {
    frame(
        method_call_body(
            encode_utf8(fallback_method()),
            FALLBACK_REQUEST_ID as nat,
            encode_utf8(
                show_message_params(
                    Severity::Warning,
                    fallback_text(),
                    Some(seq![fallback_action()]),
                ),
            ),
        ),
    )
}

/// Appends the fallback request that tells the peer that a request it sent
/// has no handler.
pub fn write_fallback(out: &mut Vec<u8>)
    ensures
        final(out)@ == old(out)@ + fallback_frame(),
{
    let method = "window/showMessageRequest";
    let text = "Can't Handle this message";
    let action = "OK";
    proof {
        reveal_strlit("window/showMessageRequest");
        reveal_strlit("Can't Handle this message");
        reveal_strlit("OK");
    }
    assert(method@ =~= fallback_method());
    assert(text@ =~= fallback_text());
    let mut actions: Vec<String> = Vec::new();
    actions.push(String::from_str(action));
    assert(action@ =~= fallback_action());
    assert(actions@.len() == 1 && actions@[0]@ == fallback_action());
    assert(actions@.map_values(|a: String| a@) =~= seq![fallback_action()]);
    if let Some(params) = show_message_request_params(Severity::Warning, text, Some(actions)) {
        write_method_message(method, FALLBACK_REQUEST_ID, params.as_str(), out);
    }
}

} // verus!
