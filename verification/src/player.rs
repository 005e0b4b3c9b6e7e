//! The rules of the connections to the music player daemon: what to report
//! when it announces a change, what to report on connecting, and which
//! failed requests to send again.
use vstd::prelude::*;

use crate::event::{AppEvent, Event};
use crate::text::concat;

verus! {

/// The parts of the daemon's state whose changes it announces.
#[derive(Debug, Clone, Copy, PartialEq, Eq, Structural)]
pub enum Change {
    Player,
    Queue,
    Playlist,
    Database,
    Options,
    Mixer,
    /// Any other part (outputs, stickers, messages and the like).
    Other,
}

/// What the listener reads from the daemon and reports.
#[derive(Debug, Clone, Copy, PartialEq, Eq, Structural)]
pub enum Report {
    Status,
    Database,
    NowPlaying,
    Queue,
    Playlists,
}

/// What a change calls for: the song now playing when the player changes,
/// the queue, the playlists or the library when they change, and the
/// status when the options or the volume change; nothing for the rest.
pub open spec fn spec_report_for(c: Change) -> Option<Report> {
    match c {
        Change::Player => Some(Report::NowPlaying),
        Change::Queue => Some(Report::Queue),
        Change::Playlist => Some(Report::Playlists),
        Change::Database => Some(Report::Database),
        Change::Options => Some(Report::Status),
        Change::Mixer => Some(Report::Status),
        Change::Other => None,
    }
}

/// What a change calls for.
pub fn report_for(c: Change) -> (r: Option<Report>)
    ensures
        r == spec_report_for(c),
{
    match c {
        Change::Player => Some(Report::NowPlaying),
        Change::Queue => Some(Report::Queue),
        Change::Playlist => Some(Report::Playlists),
        Change::Database => Some(Report::Database),
        Change::Options => Some(Report::Status),
        Change::Mixer => Some(Report::Status),
        Change::Other => None,
    }
}

/// What the listener reports as soon as it is connected, in order.
pub fn on_connect() -> (r: Vec<Report>)
    ensures
        r@ == seq![Report::Status, Report::Database, Report::NowPlaying, Report::Queue, Report::Playlists],
{
    let r = vec![Report::Status, Report::Database, Report::NowPlaying, Report::Queue, Report::Playlists];
    assert(r@ =~= seq![Report::Status, Report::Database, Report::NowPlaying, Report::Queue, Report::Playlists]);
    r
}

/// A message from the listener, as an error event.
pub fn listener_message(msg: &str) -> (e: Event)
    ensures
        e matches Event::ToApp(AppEvent::Error(m)) && m@ == "Mpd Listener Thread: "@ + msg@,
{
    Event::ToApp(AppEvent::Error(concat("Mpd Listener Thread: ", msg)))
}

/// How a request to the daemon failed.
#[derive(Debug, Clone, Copy, PartialEq, Eq, Structural)]
pub enum Failure {
    /// The reply could not be read as key and value.
    BadPair,
    /// The connection was closed under the request.
    BrokenPipe,
    /// Anything else.
    Other,
}

/// Whether a failed request is sent again on a new connection: only when
/// the connection dropped under it; other failures are reported.
pub open spec fn spec_retry(f: Failure) -> bool {
    f == Failure::BadPair || f == Failure::BrokenPipe
}

/// Whether a failed request is sent again on a new connection.
pub fn retry(f: Failure) -> (r: bool)
    ensures
        r == spec_retry(f),
{
    match f {
        Failure::BadPair => true,
        Failure::BrokenPipe => true,
        Failure::Other => false,
    }
}

} // verus!
