//! The per-connection state machine.
//!
//! Each viewer connection runs a send loop: it resolves the display's
//! effective playlist, pushes one item at a time, sleeps the item's
//! duration, and restarts the cycle when a relevant catalog change
//! arrives.  The machine here takes the events (a bus change, a deadline
//! reached) and the catalog snapshot, and decides the next state and the
//! frames to send; the task around it owns the socket, the timers and the
//! bus subscription.  The heartbeat task's decisions stand at the end.

use vstd::prelude::*;

use crate::catalog::{Change, Content, PlaylistItem, TextData};
use crate::ids::UuidVal;
use crate::protocol::{DisplayPayload, WebsitePayload};

verus! {

/// Seconds between heartbeat pings.
pub const HEARTBEAT_INTERVAL_SECS: u64 = 8;

/// Seconds the heartbeat waits for the peer's pong.
pub const PONG_TIMEOUT_SECS: u64 = 5;

/// An item's configured duration in seconds.
pub open spec fn spec_item_duration(it: PlaylistItem) -> u64 {
    match it {
        PlaylistItem::Website { name, settings } => settings.duration,
        PlaylistItem::Text { name, settings } => settings.duration,
        PlaylistItem::Image { name, settings } => settings.duration,
        PlaylistItem::BackgroundAudio { name, settings } => settings.duration,
    }
}

/// The wire payload of an item: its single content string under the
/// item's kind.
pub open spec fn spec_item_payload(it: PlaylistItem) -> DisplayPayload {
    match it {
        PlaylistItem::Website { name, settings } => DisplayPayload::Website(
            WebsitePayload { content: settings.url },
        ),
        PlaylistItem::Text { name, settings } => DisplayPayload::Text(
            WebsitePayload { content: settings.text },
        ),
        PlaylistItem::Image { name, settings } => DisplayPayload::Image(
            WebsitePayload { content: settings.src },
        ),
        PlaylistItem::BackgroundAudio { name, settings } => DisplayPayload::Image(
            WebsitePayload { content: settings.src },
        ),
    }
}

/// How long to sleep after sending an item: its duration, or effectively
/// forever for an indefinite item (duration zero).
pub open spec fn spec_sleep_secs(d: u64) -> u64 {
    if d == 0 {
        u64::MAX / 10
    } else {
        d
    }
}

/// The item's dispatch path exists (background audio is declared but its
/// dispatch is not implemented).
pub open spec fn item_supported(it: PlaylistItem) -> bool {
    !(it is BackgroundAudio)
}

/// Every item of every playlist in the catalog has a dispatch path.
pub open spec fn content_items_supported(c: Content) -> bool {
    forall|j: int, i: int|
        0 <= j < c.playlists@.len() && 0 <= i < (#[trigger] c.playlists@[j]).1.items@.len()
            ==> item_supported(#[trigger] c.playlists@[j].1.items@[i])
}

/// The wire payload and duration of one item.
pub fn item_payload(item: &PlaylistItem) -> (r: (DisplayPayload, u64))
    requires
        item_supported(*item),
    ensures
        r.0 == spec_item_payload(*item),
        r.1 == spec_item_duration(*item),
{
    match item {
        PlaylistItem::Website { name, settings } => (
            DisplayPayload::Website(WebsitePayload { content: settings.url.clone() }),
            settings.duration,
        ),
        PlaylistItem::Text { name, settings } => (
            DisplayPayload::Text(WebsitePayload { content: settings.text.clone() }),
            settings.duration,
        ),
        PlaylistItem::Image { name, settings } => (
            DisplayPayload::Image(WebsitePayload { content: settings.src.clone() }),
            settings.duration,
        ),
        PlaylistItem::BackgroundAudio { name, settings } => (
            DisplayPayload::Image(WebsitePayload { content: settings.src.clone() }),
            settings.duration,
        ),
    }
}

/// How long to sleep after sending an item of the given duration.
pub fn sleep_deadline_secs(duration: u64) -> (r: u64)
    ensures
        r == spec_sleep_secs(duration),
{
    if duration == 0 {
        u64::MAX / 10
    } else {
        duration
    }
}

/// `items` is `source` when it has any item, else the single pending
/// placeholder (an indefinite text item).
pub open spec fn effective_of(items: Seq<PlaylistItem>, source: Seq<PlaylistItem>) -> bool {
    if source.len() > 0 {
        items == source
    } else {
        items.len() == 1 && (items[0] matches PlaylistItem::Text { name, settings } && name@
            == "pending"@ && settings.text@ == "No Playlist added"@ && settings.duration == 0)
    }
}

/// The items a cycle iterates: the playlist's own, or, when it is empty,
/// a single placeholder text naming the missing playlist.
pub fn effective_items(items: Vec<PlaylistItem>) -> (r: Vec<PlaylistItem>)
    ensures
        effective_of(r@, items@),
        r@.len() > 0,
        (forall|i: int| 0 <= i < items@.len() ==> item_supported(#[trigger] items@[i]))
            ==> forall|i: int| 0 <= i < r@.len() ==> item_supported(#[trigger] r@[i]),
{
    if items.len() > 0 {
        items
    } else {
        let mut r: Vec<PlaylistItem> = Vec::new();
        r.push(
            PlaylistItem::Text {
                name: "pending".to_owned(),
                settings: TextData { text: "No Playlist added".to_owned(), duration: 0 },
            },
        );
        r
    }
}

/// Whether a bus message ends the pending wait: a display change naming
/// this connection's display.
pub fn change_wakes_pending(change: &Change, uuid: UuidVal) -> (r: bool)
    ensures
        r == (change matches Change::Display(v) && v@.contains(uuid)),
{
    match change {
        Change::Display(v) => crate::catalog::uuids_contain(v, uuid),
        _ => false,
    }
}

/// Whether a bus message restarts the send cycle: a display change naming
/// this display, a playlist change naming this cycle's playlist, or a
/// schedule change naming this cycle's schedule.  Rules changes
/// (`ScheduleInput`) never restart a cycle.
pub fn change_restarts_cycle(
    change: &Change,
    uuid: UuidVal,
    schedule_uuid: &Option<UuidVal>,
    playlist_uuid: UuidVal,
) -> (r: bool)
    ensures
        r == ((change matches Change::Display(v) && v@.contains(uuid)) || (
        change matches Change::Playlist(v) && v@.contains(playlist_uuid)) || (
        change matches Change::Schedule(v) && schedule_uuid matches Some(su) && v@.contains(*su))),
{
    match change {
        Change::Display(v) => crate::catalog::uuids_contain(v, uuid),
        Change::Playlist(v) => crate::catalog::uuids_contain(v, playlist_uuid),
        Change::Schedule(v) => match schedule_uuid {
            Some(su) => crate::catalog::uuids_contain(v, *su),
            None => false,
        },
        Change::ScheduleInput(_) => false,
    }
}

/// What arrived on the socket while the heartbeat waited for a pong.
pub enum HeartbeatFrame {
    Pong,
    CloseFrame,
    Other,
    ReceiveError,
}

/// What the heartbeat does next.
pub enum HeartbeatStep {
    /// The pong arrived; the connection lives for another interval.
    Healthy,
    /// Tear the connection down.
    Exit,
    /// An irrelevant frame; keep waiting within the same window.
    KeepWaiting,
}

/// The heartbeat's reaction to one received frame: a pong ends the
/// interval healthy, a close frame or a receive error tears down, any
/// other frame is ignored.
pub fn heartbeat_on_frame(frame: &HeartbeatFrame) -> (r: HeartbeatStep)
    ensures
        r == match frame {
            HeartbeatFrame::Pong => HeartbeatStep::Healthy,
            HeartbeatFrame::CloseFrame => HeartbeatStep::Exit,
            HeartbeatFrame::Other => HeartbeatStep::KeepWaiting,
            HeartbeatFrame::ReceiveError => HeartbeatStep::Exit,
        },
{
    match frame {
        HeartbeatFrame::Pong => HeartbeatStep::Healthy,
        HeartbeatFrame::CloseFrame => HeartbeatStep::Exit,
        HeartbeatFrame::Other => HeartbeatStep::KeepWaiting,
        HeartbeatFrame::ReceiveError => HeartbeatStep::Exit,
    }
}

/// A pong window that elapses without a pong tears the connection down.
pub fn heartbeat_on_timeout() -> (r: HeartbeatStep)
    ensures
        r is Exit,
{
    HeartbeatStep::Exit
}

/// Where a connection stands.
pub enum ConnPhase {
    /// The display is not yet defined on the server.
    Pending,
    /// Iterating a playlist snapshot: the cycle's schedule and playlist
    /// keys, the items, and the index of the item on screen.
    Cycling { schedule: Option<UuidVal>, playlist: UuidVal, items: Vec<PlaylistItem>, idx: usize },
    /// Torn down.
    Closed,
}

/// One viewer connection after its hello.
pub struct Connection {
    pub uuid: UuidVal,
    pub htmx: bool,
    pub phase: ConnPhase,
}

/// What the connection asks its task to do, in order.
pub enum ConnAction {
    /// Send the pending payload.
    SendPending,
    /// Send the welcome frame carrying the display's name.
    SendWelcome { name: String },
    /// Send one item and then sleep for the given seconds.
    SendItem { payload: DisplayPayload, sleep_secs: u64 },
    /// Block until the next bus message.
    WaitForChange,
    /// The message was irrelevant; go on sleeping toward the deadline.
    KeepSleeping,
    /// Referential breakage: close the connection with an error.
    CloseError,
}

/// What woke the connection's task.
pub enum ConnEvent {
    /// The connection was just established (hello received).
    Start,
    /// A bus message arrived.
    BusChange(Change),
    /// The current item's sleep ran out.
    Deadline,
}

/// The cycle entered (or the close decided) once the display's playlist
/// is resolved: appended to `acts` after `pre` entries.
pub open spec fn begins_cycle(
    c: Content,
    uuid: UuidVal,
    post: Connection,
    acts: Seq<ConnAction>,
    pre: int,
) -> bool {
    match c.spec_display_route(uuid) {
        None => post.phase is Closed && acts.len() == pre + 1 && acts.last() is CloseError,
        Some(route) => match c.spec_playlist(route.1) {
            None => post.phase is Closed && acts.len() == pre + 1 && acts.last() is CloseError,
            Some(p) => {
                &&& post.phase matches ConnPhase::Cycling { schedule, playlist, items, idx }
                    && schedule == route.0 && playlist == route.1 && idx == 0 && effective_of(
                    items@,
                    p.items@,
                ) && acts.len() == pre + 1 && (acts.last() matches ConnAction::SendItem {
                    payload,
                    sleep_secs,
                } && payload == spec_item_payload(items@[0]) && sleep_secs == spec_sleep_secs(
                    spec_item_duration(items@[0]),
                ))
            },
        },
    }
}

/// Every item of a playlist stored in a supported catalog has a dispatch
/// path.
proof fn lemma_playlist_supported(c: Content, u: UuidVal)
    requires
        content_items_supported(c),
        c.spec_playlist(u) is Some,
    ensures
        forall|i: int|
            0 <= i < c.spec_playlist(u)->0.items@.len() ==> item_supported(
                #[trigger] c.spec_playlist(u)->0.items@[i],
            ),
{
    crate::assoc::lemma_assoc_get_characterizes(c.playlists@, u);
    let j = choose|j: int|
        0 <= j < c.playlists@.len() && #[trigger] c.playlists@[j].0 == u && Some(
            c.playlists@[j].1,
        ) == crate::assoc::spec_assoc_get(c.playlists@, u);
    assert forall|i: int|
        0 <= i < c.spec_playlist(u)->0.items@.len() implies item_supported(
        #[trigger] c.spec_playlist(u)->0.items@[i],
    ) by {
        assert(item_supported(c.playlists@[j].1.items@[i]));
    }
}

impl Connection {
    /// A cycling phase holds a nonempty snapshot, an index into it, and
    /// only items with a dispatch path.
    pub open spec fn wf(&self) -> bool {
        self.phase matches ConnPhase::Cycling { items, idx, .. } ==> (idx < items@.len() && (
        forall|i: int| 0 <= i < items@.len() ==> item_supported(#[trigger] items@[i])))
    }

    /// A fresh connection for the display the hello named.
    pub fn connect(uuid: UuidVal, htmx: bool) -> (r: Connection)
        ensures
            r.uuid == uuid,
            r.htmx == htmx,
            r.phase is Pending,
            r.wf(),
    {
        Connection { uuid, htmx, phase: ConnPhase::Pending }
    }

    /// Resolve the display's playlist and enter (or re-enter) the cycle,
    /// appending the item to send; close on referential breakage.
    fn resolve_cycle(&mut self, content: &Content, acts: &mut Vec<ConnAction>)
        requires
            content.wf(),
            content_items_supported(*content),
        ensures
            final(self).uuid == old(self).uuid,
            final(self).htmx == old(self).htmx,
            final(self).wf(),
            final(acts)@.len() == old(acts)@.len() + 1,
            forall|i: int| 0 <= i < old(acts)@.len() ==> final(acts)@[i] == old(acts)@[i],
            begins_cycle(
                *content,
                old(self).uuid,
                *final(self),
                final(acts)@,
                old(acts)@.len() as int,
            ),
    {
        let route = match content.get_display_uuids(&self.uuid) {
            Some(r) => r,
            None => {
                self.phase = ConnPhase::Closed;
                acts.push(ConnAction::CloseError);
                return;
            },
        };
        let items = match content.get_display_playlist_items(&self.uuid) {
            Some(v) => v,
            None => {
                self.phase = ConnPhase::Closed;
                acts.push(ConnAction::CloseError);
                return;
            },
        };
        let ghost source = items@;
        proof {
            lemma_playlist_supported(*content, route.1);
        }
        let items = effective_items(items);
        let (payload, duration) = item_payload(&items[0]);
        let sleep_secs = sleep_deadline_secs(duration);
        self.phase = ConnPhase::Cycling {
            schedule: route.0,
            playlist: route.1,
            items,
            idx: 0,
        };
        acts.push(ConnAction::SendItem { payload, sleep_secs });
    }

    /// React to one event against the current catalog: decide the frames
    /// to send and the next phase.
    pub fn step(&mut self, event: &ConnEvent, content: &Content) -> (acts: Vec<ConnAction>)
        requires
            old(self).wf(),
            content.wf(),
            content_items_supported(*content),
        ensures
            final(self).uuid == old(self).uuid,
            final(self).htmx == old(self).htmx,
            final(self).wf(),
            old(self).phase is Closed ==> *final(self) == *old(self) && acts@.len() == 0,
            old(self).phase is Pending ==> {
                let rechecks = (event is Start) || (event matches ConnEvent::BusChange(c)
                    && c matches Change::Display(v) && v@.contains(old(self).uuid));
                if rechecks {
                    match content.spec_display(old(self).uuid) {
                        None => final(self).phase is Pending && acts@.len() == 2 && acts@[0]
                            is SendPending && acts@[1] is WaitForChange,
                        Some(d) => acts@.len() == 2 && (acts@[0]
                            matches ConnAction::SendWelcome { name } && name == d.name)
                            && begins_cycle(*content, old(self).uuid, *final(self), acts@, 1),
                    }
                } else {
                    final(self).phase is Pending && acts@.len() == 1 && acts@[0] is WaitForChange
                }
            },
            old(self).phase matches ConnPhase::Cycling { schedule, playlist, items, idx }
                ==> match event {
                ConnEvent::Deadline => {
                    &&& final(self).phase matches ConnPhase::Cycling {
                        schedule: s2,
                        playlist: p2,
                        items: it2,
                        idx: i2,
                    } && s2 == schedule && p2 == playlist && it2@ == items@ && i2 == ((idx
                        + 1) as int % items@.len() as int)
                    &&& acts@.len() == 1
                    &&& (acts@[0] matches ConnAction::SendItem { payload, sleep_secs } && payload
                        == spec_item_payload(items@[(idx + 1) as int % items@.len() as int])
                        && sleep_secs == spec_sleep_secs(
                        spec_item_duration(items@[(idx + 1) as int % items@.len() as int]),
                    ))
                },
                ConnEvent::BusChange(c) => {
                    let restarts = ((c matches Change::Display(v) && v@.contains(old(self).uuid))
                        || (c matches Change::Playlist(v) && v@.contains(playlist)) || (
                    c matches Change::Schedule(v) && schedule matches Some(su) && v@.contains(su)));
                    if restarts {
                        begins_cycle(*content, old(self).uuid, *final(self), acts@, 0)
                    } else {
                        *final(self) == *old(self) && acts@.len() == 1 && acts@[0] is KeepSleeping
                    }
                },
                ConnEvent::Start => begins_cycle(*content, old(self).uuid, *final(self), acts@, 0),
            },
    {
        let mut acts: Vec<ConnAction> = Vec::new();
        match &self.phase {
            ConnPhase::Closed => {},
            ConnPhase::Pending => {
                let rechecks = match event {
                    ConnEvent::Start => true,
                    ConnEvent::BusChange(c) => change_wakes_pending(c, self.uuid),
                    ConnEvent::Deadline => false,
                };
                if !rechecks {
                    acts.push(ConnAction::WaitForChange);
                } else {
                    match crate::assoc::assoc_find(&content.displays, self.uuid) {
                        None => {
                            proof {
                                crate::assoc::lemma_assoc_get_none(content.displays@, self.uuid);
                            }
                            acts.push(ConnAction::SendPending);
                            acts.push(ConnAction::WaitForChange);
                        },
                        Some(di) => {
                            proof {
                                crate::assoc::lemma_assoc_get_first(
                                    content.displays@,
                                    self.uuid,
                                    di as int,
                                );
                            }
                            let name = content.displays[di].1.name.clone();
                            acts.push(ConnAction::SendWelcome { name });
                            self.resolve_cycle(content, &mut acts);
                        },
                    }
                }
            },
            ConnPhase::Cycling { schedule, playlist, items, idx } => {
                match event {
                    ConnEvent::Deadline => {
                        let n = items.len();
                        let next: usize = if *idx + 1 < n {
                            *idx + 1
                        } else {
                            0
                        };
                        proof {
                            let ii = *idx as int;
                            let nn = items@.len() as int;
                            assert((ii + 1) % nn == if ii + 1 < nn {
                                ii + 1
                            } else {
                                0
                            }) by (nonlinear_arith)
                                requires
                                    0 <= ii < nn,
                            ;
                        }
                        let (payload, duration) = item_payload(&items[next]);
                        let sleep_secs = sleep_deadline_secs(duration);
                        acts.push(ConnAction::SendItem { payload, sleep_secs });
                        let (s2, p2) = (*schedule, *playlist);
                        let items2 = crate::catalog::copy_items(items);
                        self.phase = ConnPhase::Cycling {
                            schedule: s2,
                            playlist: p2,
                            items: items2,
                            idx: next,
                        };
                    },
                    ConnEvent::BusChange(c) => {
                        if change_restarts_cycle(c, self.uuid, schedule, *playlist) {
                            self.resolve_cycle(content, &mut acts);
                        } else {
                            acts.push(ConnAction::KeepSleeping);
                        }
                    },
                    ConnEvent::Start => {
                        self.resolve_cycle(content, &mut acts);
                    },
                }
            },
        }
        acts
    }
}

} // verus!
