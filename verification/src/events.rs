//! What the WebSocket sends, and how a connection reacts to what arrives
//! on the broadcast channel.

use vstd::prelude::*;
use crate::corpus::WorkbookDto;

verus! {

/// One message on the socket.
pub enum WsEvent {
    /// Sent once, on connect.
    Hello { dir: String, redact_values: bool, workbooks: Vec<WorkbookDto> },
    /// The corpus changed on disk: workbooks added, removed, and rewritten
    /// under the same hash, with the listing as it now stands.
    Corpus {
        added: Vec<String>,
        removed: Vec<String>,
        changed: Vec<String>,
        workbooks: Vec<WorkbookDto>,
    },
    /// A line of progress from an index job.
    Log { line: String },
    /// An index job finished, one way or the other.
    IndexDone { path: String, ok: bool, error: Option<String> },
}

/// What a connection's subscription yields.
pub enum Received {
    /// An event to pass on.
    Event,
    /// The connection fell behind and missed `skipped` events.
    Lagged { skipped: u64 },
    /// The channel closed.
    Closed,
    /// The browser went away.
    ClientGone,
}

/// What the connection does about it.
pub enum SocketAction {
    /// Send the event.
    Forward,
    /// Tell the browser it missed events and should refetch the world.
    ReportLagged { skipped: u64 },
    /// Close the socket.
    Close,
}

/// A slow consumer missed events, not the connection: it is told so and
/// kept; only a closed channel or a departed browser ends it.
pub fn socket_step(received: &Received) -> (r: SocketAction)
    ensures
        match *received {
            Received::Event => r == SocketAction::Forward,
            Received::Lagged { skipped } => r == SocketAction::ReportLagged { skipped },
            Received::Closed => r == SocketAction::Close,
            Received::ClientGone => r == SocketAction::Close,
        },
{
    match received {
        Received::Event => SocketAction::Forward,
        Received::Lagged { skipped } => SocketAction::ReportLagged { skipped: *skipped },
        Received::Closed => SocketAction::Close,
        Received::ClientGone => SocketAction::Close,
    }
}

/// Whether the socket stays open after the action: a failed send of an
/// event ends it, a failed lag notice does not.
pub fn stays_open(action: &SocketAction, sent: bool) -> (r: bool)
    ensures
        match *action {
            SocketAction::Forward => r == sent,
            SocketAction::ReportLagged { .. } => r,
            SocketAction::Close => !r,
        },
{
    match action {
        SocketAction::Forward => sent,
        SocketAction::ReportLagged { .. } => true,
        SocketAction::Close => false,
    }
}

} // verus!
