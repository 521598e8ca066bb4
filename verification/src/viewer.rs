//! The viewer client's decisions.
//!
//! The thin viewer keeps one connection to the controller, renders the
//! last payload it was sent, and serves it again to a freshly attached
//! browser.  The connection, the socket and the local web server live
//! outside; here stand the frame-handling decisions: what a received
//! frame means, what to cache, and when the browser-side heartbeat gives
//! up.

use vstd::prelude::*;

use crate::ids::UuidVal;
use crate::protocol::pending_message;

verus! {

/// Seconds between browser-side heartbeat pings.
pub const VIEWER_HEARTBEAT_INTERVAL_SECS: u64 = 5;

/// Seconds of silence after which the browser client is disconnected.
pub const VIEWER_CLIENT_TIMEOUT_SECS: u64 = 10;

/// A frame from the controller to the viewer.
pub enum SastaResponse {
    Display(DisplayData),
    Name(String),
    Pending(bool),
}

/// One media item as the viewer renders it.
pub enum DisplayData {
    Website { data: WebsiteData },
    Text { data: WebsiteData },
    Image { data: WebsiteData },
}

/// The single content field of a rendered item.
pub struct WebsiteData {
    pub content: String,
}

/// What the viewer pushes to its attached browser.
pub enum ClientPayload {
    Display(DisplayData),
    Disconnected,
    Hash(String),
}

/// What to push and cache for one controller frame: a name is only
/// logged, a pending notice becomes a text item naming the UUID, and a
/// media item passes through.
pub fn payload_for_response(resp: SastaResponse, uuid: &UuidVal) -> (r: Option<ClientPayload>)
    ensures
        match resp {
            SastaResponse::Name(_) => r is None,
            SastaResponse::Pending(_) => r matches Some(p) && (p matches ClientPayload::Display(d)
                && d matches DisplayData::Text { data } && data.content@
                == "Pending connection to Sasta with uuid "@ + crate::ids::spec_uuid_chars(
                uuid.bits,
            )),
            SastaResponse::Display(d) => r == Some(ClientPayload::Display(d)),
        },
{
    match resp {
        SastaResponse::Name(_) => None,
        SastaResponse::Pending(_) => Some(
            ClientPayload::Display(
                DisplayData::Text { data: WebsiteData { content: pending_message(uuid) } },
            ),
        ),
        SastaResponse::Display(d) => Some(ClientPayload::Display(d)),
    }
}

/// A frame arriving on the viewer's controller socket, after transport
/// decoding.
pub enum ViewerFrame {
    /// A text frame whose parse is handed in by the caller.
    Text(Option<SastaResponse>),
    Ping,
    Other,
    ReceiveError,
    Timeout,
}

/// What the viewer's read loop does with one frame.
pub enum ViewerReadStep {
    /// Hand the parsed payload to the renderer.
    Deliver(SastaResponse),
    /// Ignore the frame and read on.
    KeepReading,
    /// Give the connection up and reconnect.
    Reconnect,
}

/// The read loop's reaction: parsed text is delivered, pings and
/// irrelevant frames are ignored, an error or twenty seconds of silence
/// give the connection up.
pub fn viewer_read_step(frame: ViewerFrame) -> (r: ViewerReadStep)
    ensures
        match frame {
            ViewerFrame::Text(p) => match p {
                Some(resp) => r == ViewerReadStep::Deliver(resp),
                None => r is KeepReading,
            },
            ViewerFrame::Ping => r is KeepReading,
            ViewerFrame::Other => r is KeepReading,
            ViewerFrame::ReceiveError => r is Reconnect,
            ViewerFrame::Timeout => r is Reconnect,
        },
{
    match frame {
        ViewerFrame::Text(p) => match p {
            Some(resp) => ViewerReadStep::Deliver(resp),
            None => ViewerReadStep::KeepReading,
        },
        ViewerFrame::Ping => ViewerReadStep::KeepReading,
        ViewerFrame::Other => ViewerReadStep::KeepReading,
        ViewerFrame::ReceiveError => ViewerReadStep::Reconnect,
        ViewerFrame::Timeout => ViewerReadStep::Reconnect,
    }
}

/// The browser-side socket's heartbeat state: when the peer last showed
/// life, in seconds.
pub struct Websocket {
    pub heart_beat: u64,
}

/// A frame on the browser-side socket.
pub enum BrowserFrame {
    Ping,
    Pong,
    Text(String),
    Other,
}

/// What the browser-side handler does with a frame.
pub enum BrowserAction {
    /// Answer a ping with a pong.
    SendPong,
    /// Echo the text back.
    EchoText(String),
    /// Nothing to send.
    Ignore,
}

impl Websocket {
    /// A fresh browser-side socket, alive as of `now`.
    pub fn new(now: u64) -> (r: Websocket)
        ensures
            r.heart_beat == now,
    {
        Websocket { heart_beat: now }
    }

    /// Whether the client heartbeat timeout has been reached.
    pub fn timed_out(&self, now: u64) -> (r: bool)
        ensures
            r == (now > self.heart_beat + VIEWER_CLIENT_TIMEOUT_SECS),
    {
        if now <= VIEWER_CLIENT_TIMEOUT_SECS {
            false
        } else {
            now - VIEWER_CLIENT_TIMEOUT_SECS > self.heart_beat
        }
    }

    /// Handle one browser frame: a ping refreshes the heartbeat and is
    /// answered, a pong refreshes it silently, text is echoed.
    pub fn handle(&mut self, frame: BrowserFrame, now: u64) -> (r: BrowserAction)
        ensures
            match frame {
                BrowserFrame::Ping => final(self).heart_beat == now && r is SendPong,
                BrowserFrame::Pong => final(self).heart_beat == now && r is Ignore,
                BrowserFrame::Text(t) => *final(self) == *old(self) && r
                    == BrowserAction::EchoText(t),
                BrowserFrame::Other => *final(self) == *old(self) && r is Ignore,
            },
    {
        match frame {
            BrowserFrame::Ping => {
                self.heart_beat = now;
                BrowserAction::SendPong
            },
            BrowserFrame::Pong => {
                self.heart_beat = now;
                BrowserAction::Ignore
            },
            BrowserFrame::Text(t) => BrowserAction::EchoText(t),
            BrowserFrame::Other => BrowserAction::Ignore,
        }
    }
}

} // verus!
