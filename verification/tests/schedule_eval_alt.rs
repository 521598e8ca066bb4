use chrono::TimeZone;
use chrono::Utc;

use sasta::ids::UuidVal;
use sasta::schedule::{Moment, Schedule, ScheduledPlaylistInput};

fn uuid(s: &str) -> UuidVal {
    UuidVal::from_u128(uuid::Uuid::parse_str(s).unwrap().as_u128())
}

fn ts(y: i32, mo: u32, d: u32, h: u32, mi: u32, s: u32) -> i64 {
    Utc.with_ymd_and_hms(y, mo, d, h, mi, s).unwrap().timestamp()
}

fn rule(playlist: UuidVal, start: &str, end: &str) -> ScheduledPlaylistInput {
    ScheduledPlaylistInput { playlist, start: start.to_string(), end: end.to_string() }
}

#[test]
fn schedule_test_next_schedule() {
    let scheduled_uuid = uuid("8626f6e1-df7c-48d9-83c8-d7845b774ecd");
    let scheduled2_uuid = uuid("d125a360-4e41-45d5-b6c7-ea471c542510");
    let default_uuid = uuid("25cd63df-1f10-4c3f-afdb-58156ca47ebd");
    let schedules = vec![
        rule(scheduled_uuid, "0 0 10 * * * *", "0 0 14 * * * *"),
        rule(scheduled2_uuid, "0 0 11 * * * *", "0 0 15 * * * *"),
    ];
    let schedule = Schedule::new("test".to_string(), schedules, default_uuid).unwrap();

    assert_eq!(
        Moment { time: ts(2023, 4, 18, 10, 0, 0), playlist: scheduled_uuid },
        schedule.next_schedule(ts(2023, 4, 18, 9, 59, 59)).unwrap()
    );

    let first_schedule_end = Moment { time: ts(2023, 4, 18, 14, 0, 0), playlist: scheduled2_uuid };

    assert_eq!(first_schedule_end, schedule.next_schedule(ts(2023, 4, 18, 10, 0, 0)).unwrap());
    assert_eq!(first_schedule_end, schedule.next_schedule(ts(2023, 4, 18, 10, 0, 1)).unwrap());

    assert_eq!(first_schedule_end, schedule.next_schedule(ts(2023, 4, 18, 10, 59, 59)).unwrap());
    assert_eq!(first_schedule_end, schedule.next_schedule(ts(2023, 4, 18, 11, 0, 0)).unwrap());
    assert_eq!(first_schedule_end, schedule.next_schedule(ts(2023, 4, 18, 11, 0, 1)).unwrap());
}

#[test]
fn schedule_test_next_schedule_specific_date() {
    let scheduled_uuid = uuid("8626f6e1-df7c-48d9-83c8-d7845b774ecd");
    let scheduled2_uuid = uuid("d125a360-4e41-45d5-b6c7-ea471c542510");
    let default_uuid = uuid("25cd63df-1f10-4c3f-afdb-58156ca47ebd");
    let schedules = vec![
        rule(scheduled_uuid, "0 0 10 18 4 * 2023", "0 0 14 18 4 * 2023"),
        rule(scheduled2_uuid, "0 0 11 18 4 * 2023", "0 0 15 18 4 * 2023"),
    ];
    let schedule = Schedule::new("test".to_string(), schedules, default_uuid).unwrap();

    assert_eq!(
        Moment { time: ts(2023, 4, 18, 10, 0, 0), playlist: scheduled_uuid },
        schedule.next_schedule(ts(2023, 4, 18, 9, 59, 59)).unwrap()
    );

    let first_schedule_end =
        Some(Moment { time: ts(2023, 4, 18, 14, 0, 0), playlist: scheduled2_uuid });

    assert_eq!(first_schedule_end, schedule.next_schedule(ts(2023, 4, 18, 10, 0, 0)));
    assert_eq!(first_schedule_end, schedule.next_schedule(ts(2023, 4, 18, 10, 0, 1)));

    assert_eq!(first_schedule_end, schedule.next_schedule(ts(2023, 4, 18, 10, 59, 59)));
    assert_eq!(first_schedule_end, schedule.next_schedule(ts(2023, 4, 18, 11, 0, 0)));
    assert_eq!(first_schedule_end, schedule.next_schedule(ts(2023, 4, 18, 11, 0, 1)));

    let second_schedule_end =
        Some(Moment { time: ts(2023, 4, 18, 15, 0, 0), playlist: default_uuid });

    assert_eq!(first_schedule_end, schedule.next_schedule(ts(2023, 4, 18, 13, 59, 59)));
    assert_eq!(second_schedule_end, schedule.next_schedule(ts(2023, 4, 18, 14, 0, 0)));
    assert_eq!(second_schedule_end, schedule.next_schedule(ts(2023, 4, 18, 14, 0, 1)));

    assert_eq!(second_schedule_end, schedule.next_schedule(ts(2023, 4, 18, 14, 59, 59)));
    assert_eq!(None, schedule.next_schedule(ts(2023, 4, 18, 15, 0, 0)));
    assert_eq!(None, schedule.next_schedule(ts(2023, 4, 18, 15, 0, 1)));
}

#[test]
fn schedule_test_current_playlist_specific_date() {
    let scheduled_uuid = uuid("8626f6e1-df7c-48d9-83c8-d7845b774ecd");
    let default_uuid = uuid("25cd63df-1f10-4c3f-afdb-58156ca47ebd");
    let schedules = vec![rule(scheduled_uuid, "0 0 10 18 4 * 2023", "0 0 14 18 4 * 2023")];
    let schedule = Schedule::new("test".to_string(), schedules, default_uuid).unwrap();

    assert_eq!(default_uuid, schedule.current_playlist(ts(2023, 4, 18, 9, 59, 59)));
    assert_eq!(scheduled_uuid, schedule.current_playlist(ts(2023, 4, 18, 10, 0, 0)));
    assert_eq!(scheduled_uuid, schedule.current_playlist(ts(2023, 4, 18, 10, 0, 1)));

    assert_eq!(scheduled_uuid, schedule.current_playlist(ts(2023, 4, 18, 13, 59, 59)));
    assert_eq!(default_uuid, schedule.current_playlist(ts(2023, 4, 18, 14, 0, 0)));
    assert_eq!(default_uuid, schedule.current_playlist(ts(2023, 4, 18, 14, 0, 1)));
}

#[test]
fn schedule_test_current_playlist() {
    let scheduled_uuid = uuid("8626f6e1-df7c-48d9-83c8-d7845b774ecd");
    let default_uuid = uuid("25cd63df-1f10-4c3f-afdb-58156ca47ebd");
    let playlist = vec![rule(scheduled_uuid, "0 0 10 * * * *", "0 0 14 * * * *")];
    let schedule = Schedule::new("test".to_string(), playlist, default_uuid).unwrap();

    assert_eq!(default_uuid, schedule.current_playlist(ts(2023, 4, 18, 9, 59, 59)));
    assert_eq!(scheduled_uuid, schedule.current_playlist(ts(2023, 4, 18, 10, 0, 0)));
    assert_eq!(scheduled_uuid, schedule.current_playlist(ts(2023, 4, 18, 10, 0, 1)));

    assert_eq!(scheduled_uuid, schedule.current_playlist(ts(2023, 4, 18, 13, 59, 59)));
    assert_eq!(default_uuid, schedule.current_playlist(ts(2023, 4, 18, 14, 0, 0)));
    assert_eq!(default_uuid, schedule.current_playlist(ts(2023, 4, 18, 14, 0, 1)));
}

#[test]
fn schedule_test_current_playlist_smooth_transition() {
    let scheduled_uuid = uuid("8626f6e1-df7c-48d9-83c8-d7845b774ecd");
    let scheduled2_uuid = uuid("d125a360-4e41-45d5-b6c7-ea471c542510");
    let default_uuid = uuid("25cd63df-1f10-4c3f-afdb-58156ca47ebd");
    let mut playlist = vec![
        rule(scheduled_uuid, "0 0 10 * * * *", "0 0 14 * * * *"),
        rule(scheduled2_uuid, "0 0 14 * * * *", "0 0 18 * * * *"),
    ];
    let schedule = Schedule::new("test".to_string(), playlist.clone(), default_uuid).unwrap();

    assert_eq!(scheduled_uuid, schedule.current_playlist(ts(2023, 4, 18, 13, 59, 59)));
    assert_eq!(scheduled2_uuid, schedule.current_playlist(ts(2023, 4, 18, 14, 0, 0)));
    assert_eq!(scheduled2_uuid, schedule.current_playlist(ts(2023, 4, 18, 14, 0, 1)));

    playlist.reverse();
    let schedule = Schedule::new("test".to_string(), playlist, default_uuid).unwrap();

    assert_eq!(scheduled_uuid, schedule.current_playlist(ts(2023, 4, 18, 13, 59, 59)));
    assert_eq!(scheduled2_uuid, schedule.current_playlist(ts(2023, 4, 18, 14, 0, 0)));
    assert_eq!(scheduled2_uuid, schedule.current_playlist(ts(2023, 4, 18, 14, 0, 1)));
}
