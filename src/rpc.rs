//! The RPC registry: JSON-RPC method names mapped to handlers, and the
//! routing of one decoded message to the handler that serves it.
use vstd::prelude::*;

verus! {

/// A request identifier: `Null`, `Num(u64)` or `Str(String)`, all of whose
/// variants are public, so verified code reads and compares it.
#[verifier::external_type_specification]
pub struct ExId(jsonrpc_core::Id);

#[verifier::external_type_specification]
#[verifier::external_body]
pub struct ExParams(jsonrpc_core::Params);

/// One incoming JSON-RPC message, as decoded from the body of a frame.
pub enum Incoming {
    /// A call that carries an identifier and expects a response.
    Request { id: jsonrpc_core::Id, method: String, params: jsonrpc_core::Params },
    /// A call without an identifier; it never gets a response.
    Notification { method: String, params: jsonrpc_core::Params },
    /// Valid JSON that is not a call, with its identifier (`Null` where none
    /// was given).
    Invalid { id: jsonrpc_core::Id },
    /// Text that is not JSON.
    Unparsable,
}

/// What kind of message a text decodes to, the method it names, and its
/// identifier.
pub enum CallShape {
    Request(Seq<char>, jsonrpc_core::Id),
    Notification(Seq<char>),
    Invalid(jsonrpc_core::Id),
    Unparsable,
}

impl Incoming {
    pub open spec fn shape(self) -> CallShape {
        match self {
            Incoming::Request { id, method, .. } => CallShape::Request(method@, id),
            Incoming::Notification { method, .. } => CallShape::Notification(method@),
            Incoming::Invalid { id } => CallShape::Invalid(id),
            Incoming::Unparsable => CallShape::Unparsable,
        }
    }
}

/// The kind of message, and its method, that JSON-RPC decoding finds in a text.
pub uninterp spec fn decoded_call(text: Seq<char>) -> CallShape;

/// Relies on `serde_json::from_str` reading a `jsonrpc_core::Call`: a method
/// call, a notification, or an invalid call with its id; what it finds
/// depends on the text alone.
#[verifier::external_body]
fn decode_call(text: &str) -> (r: Incoming)
    ensures
        r.shape() == decoded_call(text@),
{
    match serde_json::from_str::<jsonrpc_core::Call>(text) {
        Ok(jsonrpc_core::Call::MethodCall(c)) => {
            Incoming::Request { id: c.id, method: c.method, params: c.params }
        },
        Ok(jsonrpc_core::Call::Notification(n)) => {
            Incoming::Notification { method: n.method, params: n.params }
        },
        Ok(jsonrpc_core::Call::Invalid { id }) => Incoming::Invalid { id },
        Err(_) => Incoming::Unparsable,
    }
}

/// Where one incoming message goes.
pub enum Route<H> {
    /// Call this request handler and send its outcome back under `id`.
    Invoke { handler: H, id: jsonrpc_core::Id, params: jsonrpc_core::Params },
    /// Call this notification handler; nothing is sent back.
    Notify { handler: H, params: jsonrpc_core::Params },
    /// A request for a method with no handler: the peer gets the fallback
    /// message instead of a response.
    Unhandled { method: String },
    /// Valid JSON that is not a call but carries an identifier: answered with
    /// a parse error under `id`.
    Malformed { id: jsonrpc_core::Id },
    /// Nothing to do.
    Ignore,
}

/// The handlers of a table whose entries were registered in order: a later
/// entry for a name replaces an earlier one.
pub open spec fn table_map<H>(t: Seq<(String, H)>) -> Map<Seq<char>, H>
    decreases t.len(),
{
    if t.len() == 0 {
        Map::empty()
    } else {
        table_map(t.drop_last()).insert(t.last().0@, t.last().1)
    }
}

proof fn lemma_table_map_prefix<H>(t: Seq<(String, H)>, i: int, m: Seq<char>)
    requires
        0 <= i <= t.len(),
        forall|j: int| i <= j < t.len() ==> t[j].0@ != m,
    ensures
        table_map(t).get(m) == table_map(t.subrange(0, i)).get(m),
    decreases t.len() - i,
{
    if i < t.len() {
        assert(t.drop_last() =~= t.subrange(0, t.len() - 1));
        lemma_table_map_prefix(t.drop_last(), i, m);
        assert(t.drop_last().subrange(0, i) =~= t.subrange(0, i));
    } else {
        assert(t.subrange(0, i) =~= t);
    }
}

/// Whether two texts are the same.
fn same_text(a: &str, b: &str) -> (r: bool)
    ensures
        r == (a@ == b@),
{
    let x = a.as_bytes();
    let y = b.as_bytes();
    assert(x@ == vstd::utf8::encode_utf8(a@));
    assert(y@ == vstd::utf8::encode_utf8(b@));
    proof {
        vstd::utf8::encode_utf8_decode_utf8(a@);
        vstd::utf8::encode_utf8_decode_utf8(b@);
    }
    if x.len() != y.len() {
        return false;
    }
    let mut i: usize = 0;
    while i < x.len()
        invariant
            x@.len() == y@.len(),
            0 <= i <= x@.len(),
            forall|k: int| 0 <= k < i ==> x@[k] == y@[k],
            x@ == vstd::utf8::encode_utf8(a@),
            y@ == vstd::utf8::encode_utf8(b@),
        decreases x@.len() - i,
    {
        if x[i] != y[i] {
            assert(x@ != y@);
            return false;
        }
        i = i + 1;
    }
    assert(x@ =~= y@);
    true
}

/// Finds the handler for `method` in a table.
fn find_handler<H: Copy>(t: &Vec<(String, H)>, method: &str) -> (r: Option<H>)
    ensures
        r == table_map(t@).get(method@),
{
    let mut i: usize = t.len();
    while i > 0
        invariant
            0 <= i <= t@.len(),
            forall|j: int| i <= j < t@.len() ==> t@[j].0@ != method@,
        decreases i,
    {
        if same_text(t[i - 1].0.as_str(), method) {
            proof {
                lemma_table_map_prefix(t@, i as int, method@);
                assert(t@.subrange(0, i as int).drop_last() =~= t@.subrange(0, i - 1));
            }
            return Some(t[i - 1].1);
        }
        i = i - 1;
    }
    proof {
        lemma_table_map_prefix(t@, 0, method@);
    }
    None
}

/// Method names mapped to handlers, one table for requests and one for
/// notifications. Unlike `jsonrpc_core::IoHandler`, which answers a request
/// for an unknown method itself with a method-not-found error, a lookup here
/// reports the miss to its caller, which sends the fallback request instead.
pub struct Registry<H> {
    requests: Vec<(String, H)>,
    notifications: Vec<(String, H)>,
}

impl<H: Copy> Registry<H> {
    /// The request handlers, by method name.
    pub closed spec fn requests(&self) -> Map<Seq<char>, H> {
        table_map(self.requests@)
    }

    /// The notification handlers, by method name.
    pub closed spec fn notifications(&self) -> Map<Seq<char>, H> {
        table_map(self.notifications@)
    }

    /// A registry with no handlers.
    pub fn new() -> (r: Self)
        ensures
            r.requests() == Map::<Seq<char>, H>::empty(),
            r.notifications() == Map::<Seq<char>, H>::empty(),
    {
        Registry { requests: Vec::new(), notifications: Vec::new() }
    }

    /// Registers `handler` for requests to `method`, replacing any earlier one.
    pub fn register_request(&mut self, method: &str, handler: H)
        ensures
            final(self).requests() == old(self).requests().insert(method@, handler),
            final(self).notifications() == old(self).notifications(),
    {
        self.requests.push((method.to_string(), handler));
        assert(self.requests@.drop_last() =~= old(self).requests@);
    }

    /// Registers `handler` for notifications of `method`, replacing any
    /// earlier one.
    pub fn register_notification(&mut self, method: &str, handler: H)
        ensures
            final(self).notifications() == old(self).notifications().insert(method@, handler),
            final(self).requests() == old(self).requests(),
    {
        self.notifications.push((method.to_string(), handler));
        assert(self.notifications@.drop_last() =~= old(self).notifications@);
    }

    /// The handler for requests to `method`, if any.
    pub fn request_handler(&self, method: &str) -> (r: Option<H>)
        ensures
            r == self.requests().get(method@),
    {
        find_handler(&self.requests, method)
    }

    /// The handler for notifications of `method`, if any.
    pub fn notification_handler(&self, method: &str) -> (r: Option<H>)
        ensures
            r == self.notifications().get(method@),
    {
        find_handler(&self.notifications, method)
    }

    /// The route of a decoded message. A request goes to its handler with its
    /// identifier, or is unhandled; a notification goes to its handler or is
    /// dropped; a non-call is answered under its identifier, or dropped where
    /// it has none; text that is not JSON is dropped.
    pub fn dispatch(&self, incoming: Incoming) -> (r: Route<H>)
        ensures
            match incoming {
                Incoming::Request { id, method, params } => match self.requests().get(method@) {
                    Some(h) => r == (Route::Invoke { handler: h, id, params }),
                    None => r matches Route::Unhandled { method: m } && m@ == method@,
                },
                Incoming::Notification { method, params } => match self.notifications().get(
                    method@,
                ) {
                    Some(h) => r == (Route::Notify { handler: h, params }),
                    None => r is Ignore,
                },
                Incoming::Invalid { id } => if id == jsonrpc_core::Id::Null {
                    r is Ignore
                } else {
                    r == Route::<H>::Malformed { id }
                },
                Incoming::Unparsable => r is Ignore,
            },
    {
        match incoming {
            Incoming::Request { id, method, params } => match self.request_handler(method.as_str()) {
                Some(handler) => Route::Invoke { handler, id, params },
                None => Route::Unhandled { method },
            },
            Incoming::Notification { method, params } => match self.notification_handler(
                method.as_str(),
            ) {
                Some(handler) => Route::Notify { handler, params },
                None => Route::Ignore,
            },
            Incoming::Invalid { id } => match id {
                jsonrpc_core::Id::Null => Route::Ignore,
                _ => Route::Malformed { id },
            },
            Incoming::Unparsable => Route::Ignore,
        }
    }

    /// Decodes the body of a frame and routes it.
    pub fn route_message(&self, text: &str) -> (r: Route<H>)
        ensures
            match decoded_call(text@) {
                CallShape::Request(m, i) => match self.requests().get(m) {
                    Some(h) => r matches Route::Invoke { handler, id, .. } && handler == h && id == i,
                    None => r matches Route::Unhandled { method } && method@ == m,
                },
                CallShape::Notification(m) => match self.notifications().get(m) {
                    Some(h) => r matches Route::Notify { handler, .. } && handler == h,
                    None => r is Ignore,
                },
                CallShape::Invalid(i) => if i == jsonrpc_core::Id::Null {
                    r is Ignore
                } else {
                    r matches Route::Malformed { id } && id == i
                },
                CallShape::Unparsable => r is Ignore,
            },
    {
        self.dispatch(decode_call(text))
    }
}

/// Registering a second handler under a method name leaves only the second
/// one in the table.
pub proof fn lemma_last_registration_wins<H>(
    table: Map<Seq<char>, H>,
    method: Seq<char>,
    first: H,
    second: H,
)
    ensures
        table.insert(method, first).insert(method, second) == table.insert(method, second),
        table.insert(method, first).insert(method, second).get(method) == Some(second),
{
    assert(table.insert(method, first).insert(method, second) =~= table.insert(method, second));
}

} // verus!
