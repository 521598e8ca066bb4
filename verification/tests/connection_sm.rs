use sasta::catalog::{Change, Content, DisplayMaterial, PlaylistItem, TextData, WebsiteData};
use sasta::connection::{
    ConnAction, ConnEvent, ConnPhase, Connection, HeartbeatFrame, HeartbeatStep,
    heartbeat_on_frame, heartbeat_on_timeout, sleep_deadline_secs,
};
use sasta::ids::UuidVal;
use sasta::protocol::DisplayPayload;

fn u(n: u128) -> UuidVal {
    UuidVal::from_u128(n)
}

fn text_item(name: &str, text: &str, duration: u64) -> PlaylistItem {
    PlaylistItem::Text {
        name: name.to_string(),
        settings: TextData { text: text.to_string(), duration },
    }
}

fn web_item(name: &str, url: &str, duration: u64) -> PlaylistItem {
    PlaylistItem::Website {
        name: name.to_string(),
        settings: WebsiteData { url: url.to_string(), duration },
    }
}

fn payload_content(p: &DisplayPayload) -> &str {
    match p {
        DisplayPayload::Website(w) => &w.content,
        DisplayPayload::Text(w) => &w.content,
        DisplayPayload::Image(w) => &w.content,
    }
}

#[test]
fn pending_display_gets_welcome_after_creation() {
    // A viewer presents an unknown UUID: the server sends a pending
    // payload and waits.  Once the admin creates the display, the next
    // relevant change leads to a welcome and the first item.
    let mut content = Content::empty();
    content.create_playlist(u(10), "pl".to_string());
    content.update_playlist(u(10), "pl".to_string(), vec![web_item("it", "https://a", 60)]);

    let mut conn = Connection::connect(u(30), false);
    let acts = conn.step(&ConnEvent::Start, &content);
    assert_eq!(acts.len(), 2);
    assert!(matches!(acts[0], ConnAction::SendPending));
    assert!(matches!(acts[1], ConnAction::WaitForChange));
    assert!(matches!(conn.phase, ConnPhase::Pending));

    // An unrelated change keeps the connection waiting.
    let acts = conn.step(&ConnEvent::BusChange(Change::Playlist(vec![u(10)])), &content);
    assert_eq!(acts.len(), 1);
    assert!(matches!(acts[0], ConnAction::WaitForChange));

    // The admin creates the display; the display change wakes the wait.
    let change = content.create_display(
        u(30),
        "lobby screen".to_string(),
        DisplayMaterial::Playlist(u(10)),
    );
    let acts = conn.step(&ConnEvent::BusChange(change), &content);
    assert_eq!(acts.len(), 2);
    match &acts[0] {
        ConnAction::SendWelcome { name } => assert_eq!(name, "lobby screen"),
        _ => panic!("expected a welcome"),
    }
    match &acts[1] {
        ConnAction::SendItem { payload, sleep_secs } => {
            assert_eq!(payload_content(payload), "https://a");
            assert_eq!(*sleep_secs, 60);
        },
        _ => panic!("expected the first item"),
    }
}

#[test]
fn mid_item_playlist_edit_restarts_cycle() {
    // The viewer sleeps on item 2 of a five-item playlist; an update to
    // that playlist restarts the cycle at item 1 of the new content.
    let mut content = Content::empty();
    let items: Vec<PlaylistItem> =
        (0..5).map(|i| web_item("it", &format!("https://old/{i}"), 60)).collect();
    content.create_playlist(u(10), "pl".to_string());
    content.update_playlist(u(10), "pl".to_string(), items);
    content.create_display(u(30), "screen".to_string(), DisplayMaterial::Playlist(u(10)));

    let mut conn = Connection::connect(u(30), false);
    conn.step(&ConnEvent::Start, &content);
    let acts = conn.step(&ConnEvent::Deadline, &content);
    match &acts[0] {
        ConnAction::SendItem { payload, .. } => {
            assert_eq!(payload_content(payload), "https://old/1")
        },
        _ => panic!("expected the second item"),
    }

    let change = content.update_playlist(
        u(10),
        "pl".to_string(),
        vec![web_item("it", "https://new/0", 60), web_item("it", "https://new/1", 60)],
    );
    let acts = conn.step(&ConnEvent::BusChange(change), &content);
    assert_eq!(acts.len(), 1);
    match &acts[0] {
        ConnAction::SendItem { payload, .. } => {
            assert_eq!(payload_content(payload), "https://new/0")
        },
        _ => panic!("expected a restart at the new first item"),
    }
}

#[test]
fn indefinite_item_sleeps_until_a_change() {
    // An item with duration zero sleeps effectively forever; only a
    // relevant change produces another send.
    let mut content = Content::empty();
    content.create_playlist(u(10), "pl".to_string());
    content.update_playlist(u(10), "pl".to_string(), vec![text_item("hold", "hold this", 0)]);
    content.create_display(u(30), "screen".to_string(), DisplayMaterial::Playlist(u(10)));

    let mut conn = Connection::connect(u(30), false);
    let acts = conn.step(&ConnEvent::Start, &content);
    match &acts[1] {
        ConnAction::SendItem { sleep_secs, .. } => assert_eq!(*sleep_secs, u64::MAX / 10),
        _ => panic!("expected the item"),
    }

    // An unrelated change only keeps sleeping.
    let acts = conn.step(&ConnEvent::BusChange(Change::Playlist(vec![u(99)])), &content);
    assert_eq!(acts.len(), 1);
    assert!(matches!(acts[0], ConnAction::KeepSleeping));

    // A display change naming this connection restarts the cycle.
    let acts = conn.step(&ConnEvent::BusChange(Change::Display(vec![u(30)])), &content);
    assert_eq!(acts.len(), 1);
    assert!(matches!(acts[0], ConnAction::SendItem { .. }));
}

#[test]
fn empty_playlist_substitutes_placeholder() {
    let mut content = Content::empty();
    content.create_playlist(u(10), "pl".to_string());
    content.create_display(u(30), "screen".to_string(), DisplayMaterial::Playlist(u(10)));

    let mut conn = Connection::connect(u(30), false);
    let acts = conn.step(&ConnEvent::Start, &content);
    match &acts[1] {
        ConnAction::SendItem { payload, sleep_secs } => {
            assert_eq!(payload_content(payload), "No Playlist added");
            assert_eq!(*sleep_secs, u64::MAX / 10);
        },
        _ => panic!("expected the placeholder item"),
    }
}

#[test]
fn referential_breakage_closes_connection() {
    let mut content = Content::empty();
    content.create_display(u(30), "screen".to_string(), DisplayMaterial::Schedule(u(20)));

    let mut conn = Connection::connect(u(30), false);
    let acts = conn.step(&ConnEvent::Start, &content);
    assert_eq!(acts.len(), 2);
    assert!(matches!(acts[1], ConnAction::CloseError));
    assert!(matches!(conn.phase, ConnPhase::Closed));
    // A closed connection reacts to nothing.
    let acts = conn.step(&ConnEvent::Deadline, &content);
    assert_eq!(acts.len(), 0);
}

#[test]
fn cycle_wraps_to_first_item() {
    let mut content = Content::empty();
    content.create_playlist(u(10), "pl".to_string());
    content.update_playlist(
        u(10),
        "pl".to_string(),
        vec![web_item("a", "https://a", 1), web_item("b", "https://b", 2)],
    );
    content.create_display(u(30), "screen".to_string(), DisplayMaterial::Playlist(u(10)));

    let mut conn = Connection::connect(u(30), false);
    conn.step(&ConnEvent::Start, &content);
    let acts = conn.step(&ConnEvent::Deadline, &content);
    match &acts[0] {
        ConnAction::SendItem { payload, sleep_secs } => {
            assert_eq!(payload_content(payload), "https://b");
            assert_eq!(*sleep_secs, 2);
        },
        _ => panic!("expected the second item"),
    }
    let acts = conn.step(&ConnEvent::Deadline, &content);
    match &acts[0] {
        ConnAction::SendItem { payload, sleep_secs } => {
            assert_eq!(payload_content(payload), "https://a");
            assert_eq!(*sleep_secs, 1);
        },
        _ => panic!("expected the wrap to the first item"),
    }
}

#[test]
fn schedule_input_changes_do_not_restart() {
    let mut content = Content::empty();
    content.create_playlist(u(10), "pl".to_string());
    content.update_playlist(u(10), "pl".to_string(), vec![web_item("a", "https://a", 9)]);
    content.create_schedule(u(20), "sch".to_string(), u(10));
    content.create_display(u(30), "screen".to_string(), DisplayMaterial::Schedule(u(20)));

    let mut conn = Connection::connect(u(30), false);
    conn.step(&ConnEvent::Start, &content);

    let acts = conn.step(&ConnEvent::BusChange(Change::ScheduleInput(vec![u(20)])), &content);
    assert!(matches!(acts[0], ConnAction::KeepSleeping));

    let acts = conn.step(&ConnEvent::BusChange(Change::Schedule(vec![u(20)])), &content);
    assert!(matches!(acts[0], ConnAction::SendItem { .. }));
}

#[test]
fn heartbeat_reactions() {
    assert!(matches!(heartbeat_on_frame(&HeartbeatFrame::Pong), HeartbeatStep::Healthy));
    assert!(matches!(heartbeat_on_frame(&HeartbeatFrame::CloseFrame), HeartbeatStep::Exit));
    assert!(matches!(heartbeat_on_frame(&HeartbeatFrame::Other), HeartbeatStep::KeepWaiting));
    assert!(matches!(heartbeat_on_frame(&HeartbeatFrame::ReceiveError), HeartbeatStep::Exit));
    assert!(matches!(heartbeat_on_timeout(), HeartbeatStep::Exit));
}

#[test]
fn sleep_deadline_is_duration_or_effectively_forever() {
    assert_eq!(sleep_deadline_secs(60), 60);
    assert_eq!(sleep_deadline_secs(0), u64::MAX / 10);
}
