//! A minimal language-server endpoint: the transport framing of LSP messages,
//! a registry of JSON-RPC handlers, and the decisions of the dispatch loop.
pub mod backend;
pub mod codec;
pub mod dispatch;
pub mod rpc;

pub use codec::{parse_transport_message, write_method_message, write_transport_message};
