use vstd::prelude::*;

verus! {

/// What the realtime monitor connects to and watches.
pub struct MonitorArguments {
    /// The WebSocket endpoint.
    pub endpoint: String,
    /// Bearer token.
    pub token: String,
    /// Notebooks to subscribe to.
    pub notebooks: Vec<String>,
}

/// A message that the monitor sends to the realtime server.
pub enum ClientMessage {
    Authenticate { op_id: String, token: String },
    Subscribe { op_id: String, notebook_id: String },
    DebugRequest { op_id: String },
}

/// The text that `{:?}` writes for a string: quoted, with escapes.
pub uninterp spec fn debug_text_of(s: Seq<char>) -> Seq<char>;

/// Relies on `str`'s `Debug` formatting.
#[verifier::external_body]
fn debug_text(s: &str) -> (r: String)
    ensures
        r@ == debug_text_of(s@),
{
    format!("{:?}", s)
}

/// The operation id of the subscription to `notebook`.
pub open spec fn subscribe_op_id(notebook: Seq<char>) -> Seq<char> {
    seq!['s', 'u', 'b', '_'] + debug_text_of(notebook)
}

pub open spec fn auth_op_id() -> Seq<char> {
    seq!['a', 'u', 't', 'h']
}

pub open spec fn debug_op_id() -> Seq<char> {
    seq!['d', 'e', 'b', 'u', 'g', '_', 'r', 'e', 'q', 'u', 'e', 's', 't']
}

/// Whether `m` subscribes to `notebook`.
pub open spec fn subscribes(m: ClientMessage, notebook: Seq<char>) -> bool {
    match m {
        ClientMessage::Subscribe { op_id, notebook_id } => notebook_id@ == notebook && op_id@ == subscribe_op_id(
            notebook,
        ),
        _ => false,
    }
}

/// The messages the monitor sends, in order: authentication with the
/// token first, one subscription per notebook, then a debug request.
pub fn monitor_messages(args: &MonitorArguments) -> (r: Vec<ClientMessage>)
    ensures
        r@.len() == args.notebooks@.len() + 2,
        match r@[0] {
            ClientMessage::Authenticate { op_id, token } => op_id@ == auth_op_id() && token@ == args.token@,
            _ => false,
        },
        forall|k: int| 0 <= k < args.notebooks@.len() ==> subscribes(#[trigger] r@[k + 1], args.notebooks@[k]@),
        match r@[r@.len() - 1] {
            ClientMessage::DebugRequest { op_id } => op_id@ == debug_op_id(),
            _ => false,
        },
{
    let mut out: Vec<ClientMessage> = Vec::new();
    let auth = vec!['a', 'u', 't', 'h'];
    assert(auth@ =~= auth_op_id());
    out.push(ClientMessage::Authenticate { op_id: crate::text::string_of(&auth), token: args.token.clone() });
    let n = args.notebooks.len();
    let mut k: usize = 0;
    while k < n
        invariant
            n == args.notebooks@.len(),
            k <= n,
            out@.len() == k + 1,
            match out@[0] {
                ClientMessage::Authenticate { op_id, token } => op_id@ == auth_op_id() && token@ == args.token@,
                _ => false,
            },
            forall|j: int| 0 <= j < k ==> subscribes(#[trigger] out@[j + 1], args.notebooks@[j]@),
        decreases n - k,
    {
        let notebook = &args.notebooks[k];
        let mut op_id = vec!['s', 'u', 'b', '_'];
        let quoted = crate::text::chars_of(debug_text(notebook.as_str()).as_str());
        crate::text::push_all(&mut op_id, &quoted);
        assert(op_id@ =~= subscribe_op_id(notebook@));
        out.push(ClientMessage::Subscribe { op_id: crate::text::string_of(&op_id), notebook_id: notebook.clone() });
        k = k + 1;
    }
    let dbg = vec!['d', 'e', 'b', 'u', 'g', '_', 'r', 'e', 'q', 'u', 'e', 's', 't'];
    assert(dbg@ =~= debug_op_id());
    out.push(ClientMessage::DebugRequest { op_id: crate::text::string_of(&dbg) });
    out
}

} // verus!
