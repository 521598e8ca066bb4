//! Admin-surface validation.
//!
//! The REST handlers accept or reject catalog mutations: names must stay
//! unique within an entity type, keys must not collide on create,
//! entities with dependants cannot be deleted, and a schedule must not
//! name one playlist twice.  Each rejection carries an integer code per
//! endpoint; the decisions and mutations stand here, the HTTP dressing
//! around them does not.

use vstd::prelude::*;

use crate::catalog::{Change, Content, DisplayMaterial, PlaylistItem};
use crate::ids::UuidVal;
use crate::schedule::{ScheduledPlaylistInput, cron_valid_inputs};
use crate::strutil;

verus! {

/// A rejected mutation: the endpoint's error code and its message.
#[derive(Debug)]
pub struct ApiError {
    pub code: u8,
    pub message: String,
}

/// Some display other than `exclude` already has the name.
pub open spec fn display_name_used(c: Content, name: Seq<char>, exclude: Option<UuidVal>) -> bool {
    exists|i: int|
        0 <= i < c.displays@.len() && (#[trigger] c.displays@[i]).1.name@ == name && match exclude {
            Some(u) => c.displays@[i].0 != u,
            None => true,
        }
}

/// Some playlist other than `exclude` already has the name.
pub open spec fn playlist_name_used(c: Content, name: Seq<char>, exclude: Option<UuidVal>) -> bool {
    exists|i: int|
        0 <= i < c.playlists@.len() && (#[trigger] c.playlists@[i]).1.name@ == name && match exclude {
            Some(u) => c.playlists@[i].0 != u,
            None => true,
        }
}

/// Some schedule other than `exclude` already has the name.
pub open spec fn schedule_name_used(c: Content, name: Seq<char>, exclude: Option<UuidVal>) -> bool {
    exists|i: int|
        0 <= i < c.schedules@.len() && (#[trigger] c.schedules@[i]).1.name@ == name && match exclude {
            Some(u) => c.schedules@[i].0 != u,
            None => true,
        }
}

/// A playlist key occurs twice across the fallback and the rules.
pub open spec fn duplicate_playlists(fallback: UuidVal, rules: Seq<ScheduledPlaylistInput>) -> bool {
    (exists|i: int| 0 <= i < rules.len() && (#[trigger] rules[i]).playlist == fallback) || (
    exists|i: int, j: int|
        0 <= i < j < rules.len() && (#[trigger] rules[i]).playlist == (
        #[trigger] rules[j]).playlist)
}

/// Some schedule mentions the playlist, as a rule's target or fallback.
pub open spec fn playlist_in_use(c: Content, u: UuidVal) -> bool {
    exists|i: int|
        0 <= i < c.schedules@.len() && ((#[trigger] c.schedules@[i]).1.fallback == u || exists|
            k: int,
        | 0 <= k < c.schedules@[i].1.rules@.len() && (#[trigger] c.schedules@[i].1.rules@[k]).playlist
            == u)
}

/// Some display shows the schedule.
pub open spec fn schedule_in_use(c: Content, u: UuidVal) -> bool {
    exists|i: int|
        0 <= i < c.displays@.len() && (#[trigger] c.displays@[i]).1.display_material
            == DisplayMaterial::Schedule(u)
}

fn display_name_taken(c: &Content, name: &String, exclude: Option<UuidVal>) -> (r: bool)
    ensures
        r == display_name_used(*c, name@, exclude),
{
    let mut i: usize = 0;
    while i < c.displays.len()
        invariant
            i <= c.displays@.len(),
            forall|j: int|
                0 <= j < i ==> !((#[trigger] c.displays@[j]).1.name@ == name@ && match exclude {
                    Some(u) => c.displays@[j].0 != u,
                    None => true,
                }),
        decreases c.displays@.len() - i,
    {
        if c.displays[i].1.name == *name {
            match exclude {
                Some(u) => {
                    if c.displays[i].0 != u {
                        return true;
                    }
                },
                None => {
                    return true;
                },
            }
        }
        i = i + 1;
    }
    false
}

fn playlist_name_taken(c: &Content, name: &String, exclude: Option<UuidVal>) -> (r: bool)
    ensures
        r == playlist_name_used(*c, name@, exclude),
{
    let mut i: usize = 0;
    while i < c.playlists.len()
        invariant
            i <= c.playlists@.len(),
            forall|j: int|
                0 <= j < i ==> !((#[trigger] c.playlists@[j]).1.name@ == name@ && match exclude {
                    Some(u) => c.playlists@[j].0 != u,
                    None => true,
                }),
        decreases c.playlists@.len() - i,
    {
        if c.playlists[i].1.name == *name {
            match exclude {
                Some(u) => {
                    if c.playlists[i].0 != u {
                        return true;
                    }
                },
                None => {
                    return true;
                },
            }
        }
        i = i + 1;
    }
    false
}

fn schedule_name_taken(c: &Content, name: &String, exclude: Option<UuidVal>) -> (r: bool)
    ensures
        r == schedule_name_used(*c, name@, exclude),
{
    let mut i: usize = 0;
    while i < c.schedules.len()
        invariant
            i <= c.schedules@.len(),
            forall|j: int|
                0 <= j < i ==> !((#[trigger] c.schedules@[j]).1.name@ == name@ && match exclude {
                    Some(u) => c.schedules@[j].0 != u,
                    None => true,
                }),
        decreases c.schedules@.len() - i,
    {
        if c.schedules[i].1.name == *name {
            match exclude {
                Some(u) => {
                    if c.schedules[i].0 != u {
                        return true;
                    }
                },
                None => {
                    return true;
                },
            }
        }
        i = i + 1;
    }
    false
}

fn err_msg(prefix: &str, middle: &String, suffix: &str) -> (r: ApiError)
    ensures
        r.code == 0,
{
    let mut m = prefix.to_owned();
    strutil::push_str(&mut m, middle.as_str());
    strutil::push_str(&mut m, suffix);
    ApiError { code: 0, message: m }
}

/// Create a display.  Rejected with code 1 when the name is in use and
/// code 2 when the given key is; otherwise the display is stored under
/// the given key, or under `fresh` when none was given.
pub fn api_create_display(
    content: &mut Content,
    uuid: Option<UuidVal>,
    name: String,
    display_material: DisplayMaterial,
    fresh: UuidVal,
) -> (r: Result<(UuidVal, Change), ApiError>)
    requires
        old(content).wf(),
    ensures
        final(content).wf(),
        r is Err <==> (display_name_used(*old(content), name@, None) || (uuid matches Some(u)
            && old(content).spec_display(u) is Some)),
        r matches Err(e) ==> *final(content) == *old(content) && e.code == (
        if display_name_used(*old(content), name@, None) {
            1u8
        } else {
            2u8
        }),
        r matches Ok((u, c)) ==> {
            &&& u == (match uuid {
                Some(w) => w,
                None => fresh,
            })
            &&& final(content).spec_display(u) matches Some(d) && d.name == name
                && d.display_material == display_material
            &&& (forall|w: UuidVal|
                w != u ==> final(content).spec_display(w) == old(content).spec_display(w))
            &&& final(content).playlists@ == old(content).playlists@
            &&& final(content).schedules@ == old(content).schedules@
            &&& c matches Change::Display(v) && v@.len() == 1 && v@[0] == u
        },
{
    if display_name_taken(content, &name, None) {
        let mut e = err_msg(
            "Avoid using the name ",
            &name,
            " as it is already used by another display",
        );
        e.code = 1;
        return Err(e);
    }
    if let Some(u) = uuid {
        match crate::assoc::assoc_find(&content.displays, u) {
            Some(i) => {
                proof {
                    crate::assoc::lemma_assoc_get_first(content.displays@, u, i as int);
                }
                let mut e = err_msg(
                    "Avoid using the Uuid ",
                    &name,
                    " as it is already used by another display",
                );
                e.code = 2;
                return Err(e);
            },
            None => {
                proof {
                    crate::assoc::lemma_assoc_get_none(content.displays@, u);
                }
            },
        }
    }
    let u = match uuid {
        Some(w) => w,
        None => fresh,
    };
    let c = content.create_display(u, name, display_material);
    Ok((u, c))
}

/// Create an empty playlist under the `fresh` key.  Rejected with code 1
/// when the name is in use.
pub fn api_create_playlist(content: &mut Content, name: String, fresh: UuidVal) -> (r: Result<
    (UuidVal, Change),
    ApiError,
>)
    requires
        old(content).wf(),
    ensures
        final(content).wf(),
        r is Err <==> playlist_name_used(*old(content), name@, None),
        r matches Err(e) ==> *final(content) == *old(content) && e.code == 1,
        r matches Ok((u, c)) ==> {
            &&& u == fresh
            &&& final(content).spec_playlist(u) matches Some(p) && p.name == name && p.items@.len()
                == 0
            &&& (forall|w: UuidVal|
                w != u ==> final(content).spec_playlist(w) == old(content).spec_playlist(w))
            &&& final(content).displays@ == old(content).displays@
            &&& final(content).schedules@ == old(content).schedules@
            &&& c matches Change::Playlist(v) && v@.len() == 1 && v@[0] == u
        },
{
    if playlist_name_taken(content, &name, None) {
        let mut e = err_msg(
            "Avoid using the name ",
            &name,
            " as it is already used by another Playlist",
        );
        e.code = 1;
        return Err(e);
    }
    let c = content.create_playlist(fresh, name);
    Ok((fresh, c))
}

/// Create a schedule without rules under the `fresh` key.  Rejected with
/// code 1 when the name is in use.
pub fn api_create_schedule(
    content: &mut Content,
    name: String,
    playlist: UuidVal,
    fresh: UuidVal,
) -> (r: Result<(UuidVal, Change), ApiError>)
    requires
        old(content).wf(),
    ensures
        final(content).wf(),
        r is Err <==> schedule_name_used(*old(content), name@, None),
        r matches Err(e) ==> *final(content) == *old(content) && e.code == 1,
        r matches Ok((u, c)) ==> {
            &&& u == fresh
            &&& final(content).spec_schedule(u) matches Some(s) && s.name == name && s.playlist
                == playlist && s.fallback == playlist && s.rules@.len() == 0
            &&& (forall|w: UuidVal|
                w != u ==> final(content).spec_schedule(w) == old(content).spec_schedule(w))
            &&& final(content).displays@ == old(content).displays@
            &&& final(content).playlists@ == old(content).playlists@
            &&& c matches Change::Schedule(v) && v@.len() == 1 && v@[0] == u
        },
{
    if schedule_name_taken(content, &name, None) {
        let mut e = err_msg(
            "Avoid using the name ",
            &name,
            " as it is already used by another Schedule",
        );
        e.code = 1;
        return Err(e);
    }
    let c = content.create_schedule(fresh, name, playlist);
    Ok((fresh, c))
}

/// Replace a display.  Rejected with code 1 when no display has the key
/// and code 2 when another display has the name.
pub fn api_update_display(
    content: &mut Content,
    uuid: UuidVal,
    name: String,
    display_material: DisplayMaterial,
) -> (r: Result<Change, ApiError>)
    requires
        old(content).wf(),
    ensures
        final(content).wf(),
        r is Err <==> (old(content).spec_display(uuid) is None || display_name_used(
            *old(content),
            name@,
            Some(uuid),
        )),
        r matches Err(e) ==> *final(content) == *old(content) && e.code == (
        if old(content).spec_display(uuid) is None {
            1u8
        } else {
            2u8
        }),
        r matches Ok(c) ==> {
            &&& final(content).spec_display(uuid) matches Some(d) && d.name == name
                && d.display_material == display_material
            &&& (forall|w: UuidVal|
                w != uuid ==> final(content).spec_display(w) == old(content).spec_display(w))
            &&& final(content).playlists@ == old(content).playlists@
            &&& final(content).schedules@ == old(content).schedules@
            &&& c matches Change::Display(v) && v@.len() == 1 && v@[0] == uuid
        },
{
    match crate::assoc::assoc_find(&content.displays, uuid) {
        Some(i) => {
            proof {
                crate::assoc::lemma_assoc_get_first(content.displays@, uuid, i as int);
            }
        },
        None => {
            proof {
                crate::assoc::lemma_assoc_get_none(content.displays@, uuid);
            }
            let u = uuid.to_text();
            let mut e = err_msg("No Display with the Uuid ", &u, " was found");
            e.code = 1;
            return Err(e);
        },
    }
    if display_name_taken(content, &name, Some(uuid)) {
        let mut e = err_msg(
            "Avoid using the name ",
            &name,
            " as it is already used by another display",
        );
        e.code = 2;
        return Err(e);
    }
    Ok(content.update_display(uuid, name, display_material))
}

/// Replace a playlist.  Rejected with code 1 when no playlist has the
/// key and code 2 when another playlist has the name.
pub fn api_update_playlist(
    content: &mut Content,
    uuid: UuidVal,
    name: String,
    items: Vec<PlaylistItem>,
) -> (r: Result<Change, ApiError>)
    requires
        old(content).wf(),
    ensures
        final(content).wf(),
        r is Err <==> (old(content).spec_playlist(uuid) is None || playlist_name_used(
            *old(content),
            name@,
            Some(uuid),
        )),
        r matches Err(e) ==> *final(content) == *old(content) && e.code == (
        if old(content).spec_playlist(uuid) is None {
            1u8
        } else {
            2u8
        }),
        r matches Ok(c) ==> {
            &&& final(content).spec_playlist(uuid) == Some((crate::catalog::Playlist { name, items }))
            &&& (forall|w: UuidVal|
                w != uuid ==> final(content).spec_playlist(w) == old(content).spec_playlist(w))
            &&& final(content).displays@ == old(content).displays@
            &&& final(content).schedules@ == old(content).schedules@
            &&& c matches Change::Playlist(v) && v@.len() == 1 && v@[0] == uuid
        },
{
    match crate::assoc::assoc_find(&content.playlists, uuid) {
        Some(i) => {
            proof {
                crate::assoc::lemma_assoc_get_first(content.playlists@, uuid, i as int);
            }
        },
        None => {
            proof {
                crate::assoc::lemma_assoc_get_none(content.playlists@, uuid);
            }
            let u = uuid.to_text();
            let mut e = err_msg("No Playlist with the Uuid ", &u, " was found");
            e.code = 1;
            return Err(e);
        },
    }
    if playlist_name_taken(content, &name, Some(uuid)) {
        let mut e = err_msg(
            "Avoid using the name ",
            &name,
            " as it is already used by another Playlist",
        );
        e.code = 2;
        return Err(e);
    }
    Ok(content.update_playlist(uuid, name, items))
}

fn rules_have_duplicates(playlist: UuidVal, scheduled: &Vec<ScheduledPlaylistInput>) -> (r: bool)
    ensures
        r == duplicate_playlists(playlist, scheduled@),
{
    let mut i: usize = 0;
    while i < scheduled.len()
        invariant
            i <= scheduled@.len(),
            forall|j: int| 0 <= j < i ==> (#[trigger] scheduled@[j]).playlist != playlist,
            forall|j: int, k: int|
                0 <= j < k < i ==> (#[trigger] scheduled@[j]).playlist != (
                #[trigger] scheduled@[k]).playlist,
        decreases scheduled@.len() - i,
    {
        if scheduled[i].playlist == playlist {
            return true;
        }
        let mut j: usize = 0;
        while j < i
            invariant
                j <= i < scheduled@.len(),
                forall|k: int|
                    0 <= k < j ==> (#[trigger] scheduled@[k]).playlist
                        != scheduled@[i as int].playlist,
            decreases i - j,
        {
            if scheduled[j].playlist == scheduled[i].playlist {
                return true;
            }
            j = j + 1;
        }
        i = i + 1;
    }
    false
}

/// Replace a schedule from admin input.  Rejected with code 1 when no
/// schedule has the key, code 2 when another schedule has the name, code
/// 3 when a playlist is named twice across fallback and rules, and code
/// 4 when a cron expression does not parse.
pub fn api_update_schedule(
    content: &mut Content,
    uuid: UuidVal,
    name: String,
    playlist: UuidVal,
    scheduled: Option<Vec<ScheduledPlaylistInput>>,
) -> (r: Result<Change, ApiError>)
    requires
        old(content).wf(),
    ensures
        final(content).wf(),
        r is Err <==> (old(content).spec_schedule(uuid) is None || schedule_name_used(
            *old(content),
            name@,
            Some(uuid),
        ) || (scheduled matches Some(v) && duplicate_playlists(playlist, v@)) || !cron_valid_inputs(
            (match scheduled {
                Some(v) => v@,
                None => Seq::empty(),
            }),
        )),
        r matches Err(e) ==> *final(content) == *old(content) && e.code == (
        if old(content).spec_schedule(uuid) is None {
            1u8
        } else if schedule_name_used(*old(content), name@, Some(uuid)) {
            2u8
        } else if (scheduled matches Some(v) && duplicate_playlists(playlist, v@)) {
            3u8
        } else {
            4u8
        }),
        r matches Ok(c) ==> {
            &&& final(content).spec_schedule(uuid) matches Some(s) && s.name == name && s.playlist
                == playlist && s.fallback == playlist && s.rules@.len() == (match scheduled {
                Some(v) => v@.len(),
                None => 0,
            }) && (scheduled matches Some(v) ==> (forall|i: int|
                0 <= i < v@.len() ==> (#[trigger] s.rules@[i]).start@ == v@[i].start@
                    && s.rules@[i].end@ == v@[i].end@ && s.rules@[i].playlist == v@[i].playlist))
            &&& (forall|w: UuidVal|
                w != uuid ==> final(content).spec_schedule(w) == old(content).spec_schedule(w))
            &&& final(content).displays@ == old(content).displays@
            &&& final(content).playlists@ == old(content).playlists@
            &&& c matches Change::ScheduleInput(v) && v@.len() == 1 && v@[0] == uuid
        },
{
    match crate::assoc::assoc_find(&content.schedules, uuid) {
        Some(i) => {
            proof {
                crate::assoc::lemma_assoc_get_first(content.schedules@, uuid, i as int);
            }
        },
        None => {
            proof {
                crate::assoc::lemma_assoc_get_none(content.schedules@, uuid);
            }
            let u = uuid.to_text();
            let mut e = err_msg("No Schedule with the Uuid ", &u, " was found");
            e.code = 1;
            return Err(e);
        },
    }
    if schedule_name_taken(content, &name, Some(uuid)) {
        let mut e = err_msg(
            "Avoid using the name ",
            &name,
            " as it is already used by another Schedule",
        );
        e.code = 2;
        return Err(e);
    }
    if let Some(v) = &scheduled {
        if rules_have_duplicates(playlist, v) {
            let mut e = ApiError {
                code: 3,
                message:
                    "Must not use the same Playlist more than once in a Schedule to avoid server meltdown".to_owned(),
            };
            return Err(e);
        }
    }
    let rules = match scheduled {
        Some(v) => v,
        None => Vec::new(),
    };
    match content.update_schedule(uuid, name, playlist, rules) {
        Ok(c) => Ok(c),
        Err(m) => Err(ApiError { code: 4, message: m }),
    }
}

/// Delete a display.  Rejected with code 1 when no display has the key.
pub fn api_delete_display(content: &mut Content, uuid: UuidVal) -> (r: Result<Change, ApiError>)
    requires
        old(content).wf(),
    ensures
        final(content).wf(),
        r is Err <==> old(content).spec_display(uuid) is None,
        r matches Err(e) ==> *final(content) == *old(content) && e.code == 1,
        r matches Ok(c) ==> {
            &&& final(content).spec_display(uuid) is None
            &&& (forall|w: UuidVal|
                w != uuid ==> final(content).spec_display(w) == old(content).spec_display(w))
            &&& final(content).playlists@ == old(content).playlists@
            &&& final(content).schedules@ == old(content).schedules@
            &&& c matches Change::Display(v) && v@.len() == 1 && v@[0] == uuid
        },
{
    match crate::assoc::assoc_find(&content.displays, uuid) {
        Some(i) => {
            proof {
                crate::assoc::lemma_assoc_get_first(content.displays@, uuid, i as int);
            }
        },
        None => {
            proof {
                crate::assoc::lemma_assoc_get_none(content.displays@, uuid);
            }
            let u = uuid.to_text();
            let mut e = err_msg("No Display with the Uuid ", &u, " was found");
            e.code = 1;
            return Err(e);
        },
    }
    Ok(content.delete_display(uuid))
}

fn playlist_dependants(content: &Content, uuid: UuidVal) -> (r: bool)
    ensures
        r == playlist_in_use(*content, uuid),
{
    let mut i: usize = 0;
    while i < content.schedules.len()
        invariant
            i <= content.schedules@.len(),
            forall|j: int|
                0 <= j < i ==> !((#[trigger] content.schedules@[j]).1.fallback == uuid || exists|
                    k: int,
                |
                    0 <= k < content.schedules@[j].1.rules@.len() && (
                    #[trigger] content.schedules@[j].1.rules@[k]).playlist == uuid),
        decreases content.schedules@.len() - i,
    {
        let s = &content.schedules[i].1;
        if s.fallback == uuid {
            return true;
        }
        let mut k: usize = 0;
        while k < s.rules.len()
            invariant
                k <= s.rules@.len(),
                s == &content.schedules@[i as int].1,
                i < content.schedules@.len(),
                forall|m: int|
                    0 <= m < k ==> (#[trigger] content.schedules@[i as int].1.rules@[m]).playlist
                        != uuid,
            decreases s.rules@.len() - k,
        {
            if s.rules[k].playlist == uuid {
                return true;
            }
            k = k + 1;
        }
        i = i + 1;
    }
    false
}

/// Delete a playlist.  Rejected with code 1 when a schedule still
/// mentions it and code 2 when no playlist has the key.
pub fn api_delete_playlist(content: &mut Content, uuid: UuidVal) -> (r: Result<Change, ApiError>)
    requires
        old(content).wf(),
    ensures
        final(content).wf(),
        r is Err <==> (playlist_in_use(*old(content), uuid) || old(content).spec_playlist(uuid)
            is None),
        r matches Err(e) ==> *final(content) == *old(content) && e.code == (
        if playlist_in_use(*old(content), uuid) {
            1u8
        } else {
            2u8
        }),
        r matches Ok(c) ==> {
            &&& final(content).spec_playlist(uuid) is None
            &&& (forall|w: UuidVal|
                w != uuid ==> final(content).spec_playlist(w) == old(content).spec_playlist(w))
            &&& final(content).displays@ == old(content).displays@
            &&& final(content).schedules@ == old(content).schedules@
            &&& c matches Change::Playlist(v) && v@.len() == 1 && v@[0] == uuid
        },
{
    if playlist_dependants(content, uuid) {
        let u = uuid.to_text();
        let mut e = err_msg(
            "Unable to delete playlist since Schedules depend on it (",
            &u,
            ")",
        );
        e.code = 1;
        return Err(e);
    }
    match crate::assoc::assoc_find(&content.playlists, uuid) {
        Some(i) => {
            proof {
                crate::assoc::lemma_assoc_get_first(content.playlists@, uuid, i as int);
            }
        },
        None => {
            proof {
                crate::assoc::lemma_assoc_get_none(content.playlists@, uuid);
            }
            let u = uuid.to_text();
            let mut e = err_msg("No Playlist with the Uuid ", &u, " was found");
            e.code = 2;
            return Err(e);
        },
    }
    Ok(content.delete_playlist(uuid))
}

fn schedule_dependants(content: &Content, uuid: UuidVal) -> (r: bool)
    ensures
        r == schedule_in_use(*content, uuid),
{
    let mut i: usize = 0;
    while i < content.displays.len()
        invariant
            i <= content.displays@.len(),
            forall|j: int|
                0 <= j < i ==> (#[trigger] content.displays@[j]).1.display_material
                    != DisplayMaterial::Schedule(uuid),
        decreases content.displays@.len() - i,
    {
        match &content.displays[i].1.display_material {
            DisplayMaterial::Schedule(su) => {
                if *su == uuid {
                    return true;
                }
            },
            DisplayMaterial::Playlist(_) => {},
        }
        i = i + 1;
    }
    false
}

/// Delete a schedule.  Rejected with code 1 when a display still shows
/// it and code 2 when no schedule has the key.
pub fn api_delete_schedule(content: &mut Content, uuid: UuidVal) -> (r: Result<Change, ApiError>)
    requires
        old(content).wf(),
    ensures
        final(content).wf(),
        r is Err <==> (schedule_in_use(*old(content), uuid) || old(content).spec_schedule(uuid)
            is None),
        r matches Err(e) ==> *final(content) == *old(content) && e.code == (
        if schedule_in_use(*old(content), uuid) {
            1u8
        } else {
            2u8
        }),
        r matches Ok(c) ==> {
            &&& final(content).spec_schedule(uuid) is None
            &&& (forall|w: UuidVal|
                w != uuid ==> final(content).spec_schedule(w) == old(content).spec_schedule(w))
            &&& final(content).displays@ == old(content).displays@
            &&& final(content).playlists@ == old(content).playlists@
            &&& c matches Change::Schedule(v) && v@.len() == 1 && v@[0] == uuid
        },
{
    if schedule_dependants(content, uuid) {
        let u = uuid.to_text();
        let mut e = err_msg(
            "Unable to delete playlist since Displays depend on it (",
            &u,
            ")",
        );
        e.code = 1;
        return Err(e);
    }
    match crate::assoc::assoc_find(&content.schedules, uuid) {
        Some(i) => {
            proof {
                crate::assoc::lemma_assoc_get_first(content.schedules@, uuid, i as int);
            }
        },
        None => {
            proof {
                crate::assoc::lemma_assoc_get_none(content.schedules@, uuid);
            }
            let u = uuid.to_text();
            let mut e = err_msg("No Schedule with the Uuid ", &u, " was found");
            e.code = 2;
            return Err(e);
        },
    }
    Ok(content.delete_schedule(uuid))
}

} // verus!
