use chrono::TimeZone;
use chrono::Utc;

use sasta::ids::UuidVal;
use sasta::schedule::{Moment, Schedule, ScheduledPlaylistInput};

fn uuid(s: &str) -> UuidVal {
    UuidVal::from_u128(uuid::Uuid::parse_str(s).unwrap().as_u128())
}

fn ts(y: i32, mo: u32, d: u32, h: u32, mi: u32, s: u32) -> i64 {
    Utc.with_ymd_and_hms(y, mo, d, h, mi, s).unwrap().timestamp()
}

fn rule(playlist: UuidVal, start: &str, end: &str) -> ScheduledPlaylistInput {
    ScheduledPlaylistInput { playlist, start: start.to_string(), end: end.to_string() }
}

#[test]
fn test_next_schedule_many_schedules_with_wildcards() {
    let scheduled_uuid = uuid("8626f6e1-df7c-48d9-83c8-d7845b774ecd");
    let scheduled2_uuid = uuid("d125a360-4e41-45d5-b6c7-ea471c542510");
    let scheduled3_uuid = uuid("05cb41ee-463d-41ca-870b-606a54f45d59");
    let scheduled4_uuid = uuid("cc3c59da-5499-4b64-98c7-ca0501163479");
    let default_uuid = uuid("25cd63df-1f10-4c3f-afdb-58156ca47ebd");
    let schedules = vec![
        rule(scheduled_uuid, "* * 10 * * * *", "0 * 14 * * * *"),
        rule(scheduled2_uuid, "* 0 11 * * * *", "0 * 15 * * * *"),
        rule(scheduled3_uuid, "* * 12 * * * *", "* 0 16 * * * *"),
        rule(scheduled4_uuid, "0 * 13 * * * *", "* 0 17 * * * *"),
    ];
    let schedule = Schedule::new("test".to_string(), schedules, default_uuid).unwrap();

    let first_schedule_start =
        Moment { time: ts(2023, 4, 18, 10, 0, 0), playlist: scheduled_uuid };
    let first_schedule_end = Moment { time: ts(2023, 4, 18, 14, 0, 0), playlist: scheduled2_uuid };

    assert_eq!(
        first_schedule_start,
        schedule.next_schedule(ts(2023, 4, 18, 9, 59, 59)).unwrap()
    );
    assert_eq!(first_schedule_end, schedule.next_schedule(ts(2023, 4, 18, 10, 0, 0)).unwrap());
    assert_eq!(first_schedule_end, schedule.next_schedule(ts(2023, 4, 18, 10, 0, 1)).unwrap());

    let second_schedule_end = Moment { time: ts(2023, 4, 18, 15, 0, 0), playlist: scheduled3_uuid };

    assert_eq!(first_schedule_end, schedule.next_schedule(ts(2023, 4, 18, 13, 59, 59)).unwrap());
    assert_eq!(second_schedule_end, schedule.next_schedule(ts(2023, 4, 18, 14, 0, 0)).unwrap());
    assert_eq!(second_schedule_end, schedule.next_schedule(ts(2023, 4, 18, 14, 0, 1)).unwrap());

    let forth_schedule_end = Moment { time: ts(2023, 4, 18, 17, 0, 0), playlist: default_uuid };
    let first_schedule_start_next_day =
        Moment { time: ts(2023, 4, 19, 10, 0, 0), playlist: scheduled_uuid };

    assert_eq!(forth_schedule_end, schedule.next_schedule(ts(2023, 4, 18, 16, 59, 59)).unwrap());
    assert_eq!(
        first_schedule_start_next_day,
        schedule.next_schedule(ts(2023, 4, 18, 17, 0, 0)).unwrap()
    );
    assert_eq!(
        first_schedule_start_next_day,
        schedule.next_schedule(ts(2023, 4, 18, 17, 0, 1)).unwrap()
    );
}

#[test]
fn test_next_schedule_priority() {
    let scheduled_uuid = uuid("8626f6e1-df7c-48d9-83c8-d7845b774ecd");
    let scheduled2_uuid = uuid("d125a360-4e41-45d5-b6c7-ea471c542510");
    let default_uuid = uuid("25cd63df-1f10-4c3f-afdb-58156ca47ebd");
    let schedules = vec![
        rule(scheduled_uuid, "0 0 10 * * * *", "0 0 14 * * * *"),
        rule(scheduled2_uuid, "0 0 10 * * * *", "0 0 14 * * * *"),
    ];
    let schedule = Schedule::new("test".to_string(), schedules, default_uuid).unwrap();

    assert_eq!(
        Moment { time: ts(2023, 4, 18, 10, 0, 0), playlist: scheduled_uuid },
        schedule.next_schedule(ts(2023, 4, 18, 9, 59, 59)).unwrap()
    );

    let first_schedule_end = Moment { time: ts(2023, 4, 18, 14, 0, 0), playlist: default_uuid };

    assert_eq!(first_schedule_end, schedule.next_schedule(ts(2023, 4, 18, 10, 0, 0)).unwrap());
    assert_eq!(first_schedule_end, schedule.next_schedule(ts(2023, 4, 18, 10, 0, 1)).unwrap());
}

#[test]
fn test_next_schedule() {
    let scheduled_uuid = uuid("8626f6e1-df7c-48d9-83c8-d7845b774ecd");
    let scheduled2_uuid = uuid("d125a360-4e41-45d5-b6c7-ea471c542510");
    let default_uuid = uuid("25cd63df-1f10-4c3f-afdb-58156ca47ebd");
    let schedules = vec![
        rule(scheduled_uuid, "0 0 10 * * * *", "0 0 14 * * * *"),
        rule(scheduled2_uuid, "0 0 11 * * * *", "0 0 15 * * * *"),
    ];
    let schedule = Schedule::new("test".to_string(), schedules, default_uuid).unwrap();

    assert_eq!(
        Moment { time: ts(2023, 4, 18, 10, 0, 0), playlist: scheduled_uuid },
        schedule.next_schedule(ts(2023, 4, 18, 9, 59, 59)).unwrap()
    );

    let first_schedule_end = Moment { time: ts(2023, 4, 18, 14, 0, 0), playlist: scheduled2_uuid };

    assert_eq!(first_schedule_end, schedule.next_schedule(ts(2023, 4, 18, 10, 0, 0)).unwrap());
    assert_eq!(first_schedule_end, schedule.next_schedule(ts(2023, 4, 18, 10, 0, 1)).unwrap());

    assert_eq!(first_schedule_end, schedule.next_schedule(ts(2023, 4, 18, 10, 59, 59)).unwrap());
    assert_eq!(first_schedule_end, schedule.next_schedule(ts(2023, 4, 18, 11, 0, 0)).unwrap());
    assert_eq!(first_schedule_end, schedule.next_schedule(ts(2023, 4, 18, 11, 0, 1)).unwrap());

    let second_schedule_end = Moment { time: ts(2023, 4, 18, 15, 0, 0), playlist: default_uuid };

    assert_eq!(first_schedule_end, schedule.next_schedule(ts(2023, 4, 18, 13, 59, 59)).unwrap());
    assert_eq!(second_schedule_end, schedule.next_schedule(ts(2023, 4, 18, 14, 0, 0)).unwrap());
    assert_eq!(second_schedule_end, schedule.next_schedule(ts(2023, 4, 18, 14, 0, 1)).unwrap());

    let first_schedule_start = Moment { time: ts(2023, 4, 19, 10, 0, 0), playlist: scheduled_uuid };

    assert_eq!(second_schedule_end, schedule.next_schedule(ts(2023, 4, 18, 14, 59, 59)).unwrap());
    assert_eq!(first_schedule_start, schedule.next_schedule(ts(2023, 4, 18, 15, 0, 0)).unwrap());
    assert_eq!(first_schedule_start, schedule.next_schedule(ts(2023, 4, 18, 15, 0, 1)).unwrap());
}

#[test]
fn test_next_schedule_specific_date() {
    let scheduled_uuid = uuid("8626f6e1-df7c-48d9-83c8-d7845b774ecd");
    let scheduled2_uuid = uuid("d125a360-4e41-45d5-b6c7-ea471c542510");
    let default_uuid = uuid("25cd63df-1f10-4c3f-afdb-58156ca47ebd");
    let schedules = vec![
        rule(scheduled_uuid, "0 0 10 18 4 * 2023", "0 0 14 18 4 * 2023"),
        rule(scheduled2_uuid, "0 0 11 18 4 * 2023", "0 0 15 18 4 * 2023"),
    ];
    let schedule = Schedule::new("test".to_string(), schedules, default_uuid).unwrap();

    assert_eq!(
        Moment { time: ts(2023, 4, 18, 10, 0, 0), playlist: scheduled_uuid },
        schedule.next_schedule(ts(2023, 4, 18, 9, 59, 59)).unwrap()
    );

    let first_schedule_end =
        Some(Moment { time: ts(2023, 4, 18, 14, 0, 0), playlist: scheduled2_uuid });

    assert_eq!(first_schedule_end, schedule.next_schedule(ts(2023, 4, 18, 10, 0, 0)));
    assert_eq!(first_schedule_end, schedule.next_schedule(ts(2023, 4, 18, 10, 0, 1)));

    assert_eq!(first_schedule_end, schedule.next_schedule(ts(2023, 4, 18, 10, 59, 59)));
    assert_eq!(first_schedule_end, schedule.next_schedule(ts(2023, 4, 18, 11, 0, 0)));
    assert_eq!(first_schedule_end, schedule.next_schedule(ts(2023, 4, 18, 11, 0, 1)));

    let second_schedule_end =
        Some(Moment { time: ts(2023, 4, 18, 15, 0, 0), playlist: default_uuid });

    assert_eq!(first_schedule_end, schedule.next_schedule(ts(2023, 4, 18, 13, 59, 59)));
    assert_eq!(second_schedule_end, schedule.next_schedule(ts(2023, 4, 18, 14, 0, 0)));
    assert_eq!(second_schedule_end, schedule.next_schedule(ts(2023, 4, 18, 14, 0, 1)));

    assert_eq!(second_schedule_end, schedule.next_schedule(ts(2023, 4, 18, 14, 59, 59)));
    assert_eq!(None, schedule.next_schedule(ts(2023, 4, 18, 15, 0, 0)));
    assert_eq!(None, schedule.next_schedule(ts(2023, 4, 18, 15, 0, 1)));
}

#[test]
fn test_current_playlist_specific_date() {
    let scheduled_uuid = uuid("8626f6e1-df7c-48d9-83c8-d7845b774ecd");
    let default_uuid = uuid("25cd63df-1f10-4c3f-afdb-58156ca47ebd");
    let playlist = vec![rule(scheduled_uuid, "0 0 10 18 4 * 2023", "0 0 14 18 4 * 2023")];
    let schedule = Schedule::new("test".to_string(), playlist, default_uuid).unwrap();

    assert_eq!(default_uuid, schedule.current_playlist(ts(2023, 4, 18, 9, 59, 59)));
    assert_eq!(scheduled_uuid, schedule.current_playlist(ts(2023, 4, 18, 10, 0, 0)));
    assert_eq!(scheduled_uuid, schedule.current_playlist(ts(2023, 4, 18, 10, 0, 1)));

    assert_eq!(scheduled_uuid, schedule.current_playlist(ts(2023, 4, 18, 13, 59, 59)));
    assert_eq!(default_uuid, schedule.current_playlist(ts(2023, 4, 18, 14, 0, 0)));
    assert_eq!(default_uuid, schedule.current_playlist(ts(2023, 4, 18, 14, 0, 1)));
}

#[test]
fn test_next_after_past_date_next_year() {
    let scheduled_uuid = uuid("8626f6e1-df7c-48d9-83c8-d7845b774ecd");
    let default_uuid = uuid("25cd63df-1f10-4c3f-afdb-58156ca47ebd");
    let playlist = vec![rule(scheduled_uuid, "0 0 10 * * * 2025/1", "0 0 11 * * * 2025/1")];
    let schedule = Schedule::new("test".to_string(), playlist, default_uuid).unwrap();

    assert_eq!(default_uuid, schedule.current_playlist(ts(2024, 8, 8, 13, 42, 00)));
    assert_eq!(scheduled_uuid, schedule.current_playlist(ts(2025, 1, 1, 10, 42, 00)));

    assert_eq!(scheduled_uuid, schedule.current_playlist(ts(2025, 1, 1, 10, 0, 0)));
    assert_eq!(
        Some(Moment { time: ts(2025, 1, 1, 10, 0, 0), playlist: scheduled_uuid }),
        schedule.next_schedule(ts(2024, 8, 8, 13, 42, 00))
    );
}

#[test]
fn test_current_playlist() {
    let scheduled_uuid = uuid("8626f6e1-df7c-48d9-83c8-d7845b774ecd");
    let default_uuid = uuid("25cd63df-1f10-4c3f-afdb-58156ca47ebd");
    let playlist = vec![rule(scheduled_uuid, "0 * 10 * * * *", "0 0 14 * * * *")];
    let schedule = Schedule::new("test".to_string(), playlist, default_uuid).unwrap();

    assert_eq!(default_uuid, schedule.current_playlist(ts(2023, 4, 18, 9, 59, 59)));
    assert_eq!(scheduled_uuid, schedule.current_playlist(ts(2023, 4, 18, 10, 0, 0)));
    assert_eq!(scheduled_uuid, schedule.current_playlist(ts(2023, 4, 18, 10, 0, 1)));

    assert_eq!(scheduled_uuid, schedule.current_playlist(ts(2023, 4, 18, 13, 59, 59)));
    assert_eq!(default_uuid, schedule.current_playlist(ts(2023, 4, 18, 14, 0, 0)));
    assert_eq!(default_uuid, schedule.current_playlist(ts(2023, 4, 18, 14, 0, 1)));
}

#[test]
fn test_invalid_date() {
    let scheduled_uuid = uuid("8626f6e1-df7c-48d9-83c8-d7845b774ecd");
    let default_uuid = uuid("25cd63df-1f10-4c3f-afdb-58156ca47ebd");
    let playlist = vec![rule(scheduled_uuid, "0 * 10 32 10 * *", "0 0 14 32 10 * *")];
    assert!(Schedule::new("test".into(), playlist, default_uuid).is_err());
}

#[test]
fn test_current_playlist_smooth_transition() {
    let scheduled_uuid = uuid("8626f6e1-df7c-48d9-83c8-d7845b774ecd");
    let scheduled2_uuid = uuid("d125a360-4e41-45d5-b6c7-ea471c542510");
    let default_uuid = uuid("25cd63df-1f10-4c3f-afdb-58156ca47ebd");
    let mut playlist = vec![
        rule(scheduled_uuid, "0 0 10 * * * *", "0 0 14 * * * *"),
        rule(scheduled2_uuid, "0 0 14 * * * *", "0 0 18 * * * *"),
    ];
    let schedule = Schedule::new("test".to_string(), playlist.clone(), default_uuid).unwrap();

    assert_eq!(scheduled_uuid, schedule.current_playlist(ts(2023, 4, 18, 13, 59, 59)));
    assert_eq!(scheduled2_uuid, schedule.current_playlist(ts(2023, 4, 18, 14, 0, 0)));
    assert_eq!(scheduled2_uuid, schedule.current_playlist(ts(2023, 4, 18, 14, 0, 1)));

    playlist.reverse();
    let schedule = Schedule::new("test".to_string(), playlist, default_uuid).unwrap();

    assert_eq!(scheduled_uuid, schedule.current_playlist(ts(2023, 4, 18, 13, 59, 59)));
    assert_eq!(scheduled2_uuid, schedule.current_playlist(ts(2023, 4, 18, 14, 0, 0)));
    assert_eq!(scheduled2_uuid, schedule.current_playlist(ts(2023, 4, 18, 14, 0, 1)));
}

#[test]
fn hour_boundary_transition() {
    let a = uuid("8626f6e1-df7c-48d9-83c8-d7845b774ecd");
    let f = uuid("25cd63df-1f10-4c3f-afdb-58156ca47ebd");
    let schedule = Schedule::new(
        "test".to_string(),
        vec![rule(a, "0 0 10 * * * *", "0 0 14 * * * *")],
        f,
    )
    .unwrap();

    assert_eq!(f, schedule.current_playlist(ts(2023, 4, 18, 9, 59, 59)));
    let m = schedule.next_schedule(ts(2023, 4, 18, 9, 59, 59)).unwrap();
    assert_eq!(ts(2023, 4, 18, 10, 0, 0), m.time);
    assert_eq!(a, m.playlist);

    assert_eq!(a, schedule.current_playlist(ts(2023, 4, 18, 10, 0, 0)));
    let m = schedule.next_schedule(ts(2023, 4, 18, 10, 0, 0)).unwrap();
    assert_eq!(ts(2023, 4, 18, 14, 0, 0), m.time);
    assert_eq!(f, m.playlist);
}

#[test]
fn current_playlist_is_always_a_known_playlist() {
    let a = uuid("8626f6e1-df7c-48d9-83c8-d7845b774ecd");
    let b = uuid("d125a360-4e41-45d5-b6c7-ea471c542510");
    let f = uuid("25cd63df-1f10-4c3f-afdb-58156ca47ebd");
    let schedule = Schedule::new(
        "test".to_string(),
        vec![
            rule(a, "0 0 10 * * * *", "0 0 14 * * * *"),
            rule(b, "0 0 12 * * * *", "0 0 16 * * * *"),
        ],
        f,
    )
    .unwrap();
    let known = schedule.all_playlists();
    for hour in 0..24 {
        let p = schedule.current_playlist(ts(2023, 4, 18, hour, 30, 0));
        assert!(known.contains(&p));
    }
}

#[test]
fn next_moment_carries_playlist_active_at_its_time() {
    let a = uuid("8626f6e1-df7c-48d9-83c8-d7845b774ecd");
    let b = uuid("d125a360-4e41-45d5-b6c7-ea471c542510");
    let f = uuid("25cd63df-1f10-4c3f-afdb-58156ca47ebd");
    let schedule = Schedule::new(
        "test".to_string(),
        vec![
            rule(a, "0 0 10 * * * *", "0 0 14 * * * *"),
            rule(b, "0 0 12 * * * *", "0 0 16 * * * *"),
        ],
        f,
    )
    .unwrap();
    let mut t = ts(2023, 4, 18, 0, 0, 0);
    for _ in 0..5 {
        let m = schedule.next_schedule(t).unwrap();
        assert!(m.time > t);
        assert_eq!(m.playlist, schedule.current_playlist(m.time));
        assert_ne!(m.playlist, schedule.current_playlist(t));
        assert_eq!(
            schedule.current_playlist(t),
            schedule.current_playlist(m.time - 1)
        );
        t = m.time;
    }
}

#[test]
fn duplicated_schedule_evaluates_the_same() {
    let a = uuid("8626f6e1-df7c-48d9-83c8-d7845b774ecd");
    let f = uuid("25cd63df-1f10-4c3f-afdb-58156ca47ebd");
    let schedule = Schedule::new(
        "test".to_string(),
        vec![rule(a, "0 0 10 * * * *", "0 0 14 * * * *")],
        f,
    )
    .unwrap();
    let copy = schedule.duplicate();
    for t in [
        ts(2023, 4, 18, 9, 59, 59),
        ts(2023, 4, 18, 10, 0, 0),
        ts(2023, 4, 18, 13, 59, 59),
        ts(2023, 4, 18, 14, 0, 0),
    ] {
        assert_eq!(schedule.current_playlist(t), copy.current_playlist(t));
        assert_eq!(schedule.next_schedule(t), copy.next_schedule(t));
    }
}
