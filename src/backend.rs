//! The backend capability: the operations that request handlers may call on
//! the source-analysis backend, and a backend that does nothing.
use vstd::prelude::*;

verus! {

/// The kinds of failure that the server knows of.
#[derive(Clone, Copy, Debug, PartialEq, Eq, Structural)]
pub enum LspError {
    /// A frame could not be read.
    Framing,
    /// A frame's body is not a JSON-RPC message.
    Decode,
    /// A request names a method with no handler.
    DispatchMiss,
    /// A handler or the backend reported a failure.
    Handler,
    /// A message could not be written.
    Transport,
}

/// A source-tree backend that request handlers can call.
pub trait SourceTree<E> {
    fn insert(&self) -> Result<(), E>;

    fn update(&self) -> Result<(), E>;

    fn symbol(&self) -> Result<(), E>;
}

/// A backend that accepts every operation and does nothing.
pub struct NoopSourceTree {}

impl SourceTree<LspError> for NoopSourceTree {
    fn insert(&self) -> (r: Result<(), LspError>)
        ensures
            r == Ok::<(), LspError>(()),
    {
        Ok(())
    }

    fn update(&self) -> (r: Result<(), LspError>)
        ensures
            r == Ok::<(), LspError>(()),
    {
        Ok(())
    }

    fn symbol(&self) -> (r: Result<(), LspError>)
        ensures
            r == Ok::<(), LspError>(()),
    {
        Ok(())
    }
}

} // verus!
