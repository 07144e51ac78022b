//! The browser's event feed (`/ws`): what to do with each thing that
//! happens on the connection.  The socket and the buses are the caller's.
use vstd::prelude::*;

verus! {

/// Something that happened while the feed is open.
#[derive(Debug, Clone, Copy, PartialEq, Eq, Structural)]
pub enum FeedInput {
    /// An event arrived on one of the buses (server, tasks, MCP activity).
    BusEvent,
    /// The feed fell behind a bus and missed events.
    BusLagged,
    /// A bus was closed.
    BusClosed,
    /// The browser sent a ping.
    ClientPing,
    /// The browser closed the connection, or it ended.
    ClientClosed,
    /// Reading from the browser failed.
    ClientError,
    /// The browser sent anything else.
    ClientOther,
}

/// What the feed does about it.
#[derive(Debug, Clone, Copy, PartialEq, Eq, Structural)]
pub enum FeedAction {
    /// Send the event to the browser as a frame.
    Forward,
    /// Answer the ping with a pong carrying the same data.
    Pong,
    /// Carry on (a lag is logged).
    Skip,
    /// Say goodbye and close.
    Close,
}

pub open spec fn feed_action_s(input: FeedInput) -> FeedAction {
    match input {
        FeedInput::BusEvent => FeedAction::Forward,
        FeedInput::BusLagged => FeedAction::Skip,
        FeedInput::BusClosed => FeedAction::Close,
        FeedInput::ClientPing => FeedAction::Pong,
        FeedInput::ClientClosed => FeedAction::Close,
        FeedInput::ClientError => FeedAction::Close,
        FeedInput::ClientOther => FeedAction::Skip,
    }
}

/// Events are forwarded, pings answered, lags and other browser messages
/// skipped; a closed bus, a closed connection or a read error end the feed.
pub fn feed_action(input: FeedInput) -> (r: FeedAction)
    ensures
        r == feed_action_s(input),
{
    match input {
        FeedInput::BusEvent => FeedAction::Forward,
        FeedInput::BusLagged => FeedAction::Skip,
        FeedInput::BusClosed => FeedAction::Close,
        FeedInput::ClientPing => FeedAction::Pong,
        FeedInput::ClientClosed => FeedAction::Close,
        FeedInput::ClientError => FeedAction::Close,
        FeedInput::ClientOther => FeedAction::Skip,
    }
}

} // verus!
