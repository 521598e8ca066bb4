//! The catalog: displays, playlists and their items, and the keyed state
//! that the admin surface mutates.
//!
//! `Content` is the in-memory authoritative state.  Every mutation applies
//! a full replacement of the named entity and reports the `Change` value
//! to publish on the fan-out bus; persistence and the bus itself live
//! outside the library.

use vstd::prelude::*;

use crate::assoc::{
    assoc_find, keys_unique, lemma_assoc_get_first, lemma_assoc_get_none, lemma_assoc_push,
    lemma_assoc_remove, lemma_assoc_update, spec_assoc_get,
};
use crate::ids::UuidVal;
use crate::schedule::{Schedule, ScheduledPlaylistInput, cron_valid_inputs};

verus! {

/// A physical screen: its name and what it shows.
#[derive(Debug)]
pub struct Display {
    pub name: String,
    pub display_material: DisplayMaterial,
}

/// What a display shows: a schedule to resolve, or a playlist directly.
#[derive(Debug)]
pub enum DisplayMaterial {
    Schedule(UuidVal),
    Playlist(UuidVal),
}

/// An ordered sequence of timed media items.
#[derive(Debug)]
pub struct Playlist {
    pub name: String,
    pub items: Vec<PlaylistItem>,
}

/// One media item with its display duration in seconds; duration `0`
/// means indefinite.
#[derive(Debug)]
#[allow(inconsistent_fields)]
pub enum PlaylistItem {
    Website { name: String, settings: WebsiteData },
    Text { name: String, settings: TextData },
    Image { name: String, settings: ImageData },
    BackgroundAudio { name: String, settings: ImageData },
}

#[derive(Debug)]
pub struct WebsiteData {
    pub url: String,
    pub duration: u64,
}

#[derive(Debug)]
pub struct TextData {
    pub text: String,
    pub duration: u64,
}

#[derive(Debug)]
pub struct ImageData {
    pub src: String,
    pub duration: u64,
}

/// A typed notification that some catalog subset has mutated, carrying
/// the keys touched.
#[derive(Debug, Clone)]
pub enum Change {
    Display(Vec<UuidVal>),
    Playlist(Vec<UuidVal>),
    /// The admin changed a schedule's rules; its active playlist has not
    /// been re-resolved yet.
    ScheduleInput(Vec<UuidVal>),
    /// Sent once the scheduler has resolved the named schedules' active
    /// playlists.
    Schedule(Vec<UuidVal>),
}

/// Whether a key list contains a key.
pub fn uuids_contain(v: &Vec<UuidVal>, u: UuidVal) -> (r: bool)
    ensures
        r == v@.contains(u),
{
    let mut i: usize = 0;
    while i < v.len()
        invariant
            i <= v@.len(),
            forall|j: int| 0 <= j < i ==> v@[j] != u,
        decreases v@.len() - i,
    {
        if v[i] == u {
            return true;
        }
        i = i + 1;
    }
    false
}

impl PlaylistItem {
    /// An equal copy of the item.
    pub fn duplicate(&self) -> (r: PlaylistItem)
        ensures
            r == *self,
    {
        match self {
            PlaylistItem::Website { name, settings } => PlaylistItem::Website {
                name: name.clone(),
                settings: WebsiteData { url: settings.url.clone(), duration: settings.duration },
            },
            PlaylistItem::Text { name, settings } => PlaylistItem::Text {
                name: name.clone(),
                settings: TextData { text: settings.text.clone(), duration: settings.duration },
            },
            PlaylistItem::Image { name, settings } => PlaylistItem::Image {
                name: name.clone(),
                settings: ImageData { src: settings.src.clone(), duration: settings.duration },
            },
            PlaylistItem::BackgroundAudio { name, settings } => PlaylistItem::BackgroundAudio {
                name: name.clone(),
                settings: ImageData { src: settings.src.clone(), duration: settings.duration },
            },
        }
    }
}

/// An equal copy of a playlist's items.
pub fn copy_items(items: &Vec<PlaylistItem>) -> (r: Vec<PlaylistItem>)
    ensures
        r@ == items@,
{
    let mut r: Vec<PlaylistItem> = Vec::new();
    let mut i: usize = 0;
    while i < items.len()
        invariant
            i <= items@.len(),
            r@.len() == i,
            forall|j: int| 0 <= j < i ==> r@[j] == items@[j],
        decreases items@.len() - i,
    {
        r.push(items[i].duplicate());
        i = i + 1;
    }
    proof {
        assert(r@ =~= items@);
    }
    r
}

/// The in-memory catalog state: three entity tables with distinct keys.
pub struct Content {
    pub displays: Vec<(UuidVal, Display)>,
    pub playlists: Vec<(UuidVal, Playlist)>,
    pub schedules: Vec<(UuidVal, Schedule)>,
}

impl Content {
    /// Keys are pairwise distinct in each table.
    pub open spec fn wf(&self) -> bool {
        keys_unique(self.displays@) && keys_unique(self.playlists@) && keys_unique(
            self.schedules@,
        )
    }

    /// The display stored under a key.
    pub open spec fn spec_display(&self, u: UuidVal) -> Option<Display> {
        spec_assoc_get(self.displays@, u)
    }

    /// The playlist stored under a key.
    pub open spec fn spec_playlist(&self, u: UuidVal) -> Option<Playlist> {
        spec_assoc_get(self.playlists@, u)
    }

    /// The schedule stored under a key.
    pub open spec fn spec_schedule(&self, u: UuidVal) -> Option<Schedule> {
        spec_assoc_get(self.schedules@, u)
    }

    /// The keys a display resolves through: its schedule (if any) and the
    /// playlist it currently shows.  `None` when the display is missing
    /// or its schedule reference dangles.
    pub open spec fn spec_display_route(&self, u: UuidVal) -> Option<(Option<UuidVal>, UuidVal)> {
        match self.spec_display(u) {
            None => None,
            Some(d) => match d.display_material {
                DisplayMaterial::Playlist(pu) => Some((None, pu)),
                DisplayMaterial::Schedule(su) => match self.spec_schedule(su) {
                    None => None,
                    Some(s) => Some((Some(su), s.playlist)),
                },
            },
        }
    }

    /// The empty catalog.
    pub fn empty() -> (r: Content)
        ensures
            r.wf(),
            r.displays@.len() == 0,
            r.playlists@.len() == 0,
            r.schedules@.len() == 0,
    {
        Content { displays: Vec::new(), playlists: Vec::new(), schedules: Vec::new() }
    }

    /// Create a new display, overriding an existing display with the same
    /// key.
    pub fn create_display(
        &mut self,
        uuid: UuidVal,
        name: String,
        display_material: DisplayMaterial,
    ) -> (c: Change)
        requires
            old(self).wf(),
        ensures
            final(self).wf(),
            final(self).spec_display(uuid) == Some((Display { name, display_material })),
            forall|w: UuidVal|
                w != uuid ==> final(self).spec_display(w) == old(self).spec_display(w),
            final(self).playlists@ == old(self).playlists@,
            final(self).schedules@ == old(self).schedules@,
            c matches Change::Display(v) && v@.len() == 1 && v@[0] == uuid,
    {
        let d = Display { name, display_material };
        match assoc_find(&self.displays, uuid) {
            Some(i) => {
                self.displays[i] = (uuid, d);
                proof {
                    assert forall|w: UuidVal| true implies spec_assoc_get(
                        self.displays@,
                        w,
                    ) == if w == uuid {
                        Some(self.displays@[i as int].1)
                    } else {
                        spec_assoc_get(old(self).displays@, w)
                    } by {
                        lemma_assoc_update(
                            old(self).displays@,
                            i as int,
                            uuid,
                            self.displays@[i as int].1,
                            w,
                        );
                    }
                }
            },
            None => {
                self.displays.push((uuid, d));
                proof {
                    assert forall|w: UuidVal| true implies spec_assoc_get(
                        self.displays@,
                        w,
                    ) == if w == uuid {
                        Some(self.displays@[self.displays@.len() - 1].1)
                    } else {
                        spec_assoc_get(old(self).displays@, w)
                    } by {
                        lemma_assoc_push(
                            old(self).displays@,
                            uuid,
                            self.displays@[self.displays@.len() - 1].1,
                            w,
                        );
                    }
                }
            },
        }
        let mut keys: Vec<UuidVal> = Vec::new();
        keys.push(uuid);
        Change::Display(keys)
    }

    /// Create a new, empty playlist, overriding an existing playlist with
    /// the same key.
    pub fn create_playlist(&mut self, uuid: UuidVal, name: String) -> (c: Change)
        requires
            old(self).wf(),
        ensures
            final(self).wf(),
            final(self).spec_playlist(uuid) matches Some(p) && p.name == name && p.items@.len()
                == 0,
            forall|w: UuidVal|
                w != uuid ==> final(self).spec_playlist(w) == old(self).spec_playlist(w),
            final(self).displays@ == old(self).displays@,
            final(self).schedules@ == old(self).schedules@,
            c matches Change::Playlist(v) && v@.len() == 1 && v@[0] == uuid,
    {
        let p = Playlist { name, items: Vec::new() };
        match assoc_find(&self.playlists, uuid) {
            Some(i) => {
                self.playlists[i] = (uuid, p);
                proof {
                    assert forall|w: UuidVal| true implies spec_assoc_get(
                        self.playlists@,
                        w,
                    ) == if w == uuid {
                        Some(self.playlists@[i as int].1)
                    } else {
                        spec_assoc_get(old(self).playlists@, w)
                    } by {
                        lemma_assoc_update(
                            old(self).playlists@,
                            i as int,
                            uuid,
                            self.playlists@[i as int].1,
                            w,
                        );
                    }
                }
            },
            None => {
                self.playlists.push((uuid, p));
                proof {
                    assert forall|w: UuidVal| true implies spec_assoc_get(
                        self.playlists@,
                        w,
                    ) == if w == uuid {
                        Some(self.playlists@[self.playlists@.len() - 1].1)
                    } else {
                        spec_assoc_get(old(self).playlists@, w)
                    } by {
                        lemma_assoc_push(
                            old(self).playlists@,
                            uuid,
                            self.playlists@[self.playlists@.len() - 1].1,
                            w,
                        );
                    }
                }
            },
        }
        let mut keys: Vec<UuidVal> = Vec::new();
        keys.push(uuid);
        Change::Playlist(keys)
    }

    /// Create a new schedule without rules, overriding an existing
    /// schedule with the same key.
    pub fn create_schedule(&mut self, uuid: UuidVal, name: String, playlist: UuidVal) -> (c:
        Change)
        requires
            old(self).wf(),
        ensures
            final(self).wf(),
            final(self).spec_schedule(uuid) matches Some(s) && s.name == name && s.playlist
                == playlist && s.fallback == playlist && s.rules@.len() == 0,
            forall|w: UuidVal|
                w != uuid ==> final(self).spec_schedule(w) == old(self).spec_schedule(w),
            final(self).displays@ == old(self).displays@,
            final(self).playlists@ == old(self).playlists@,
            c matches Change::Schedule(v) && v@.len() == 1 && v@[0] == uuid,
    {
        let s = match Schedule::new(name, Vec::new(), playlist) {
            Ok(s) => s,
            Err(_) => {
                proof {
                    assert(false);
                }
                vstd::pervasive::unreached()
            },
        };
        match assoc_find(&self.schedules, uuid) {
            Some(i) => {
                self.schedules[i] = (uuid, s);
                proof {
                    assert forall|w: UuidVal| true implies spec_assoc_get(
                        self.schedules@,
                        w,
                    ) == if w == uuid {
                        Some(self.schedules@[i as int].1)
                    } else {
                        spec_assoc_get(old(self).schedules@, w)
                    } by {
                        lemma_assoc_update(
                            old(self).schedules@,
                            i as int,
                            uuid,
                            self.schedules@[i as int].1,
                            w,
                        );
                    }
                }
            },
            None => {
                self.schedules.push((uuid, s));
                proof {
                    assert forall|w: UuidVal| true implies spec_assoc_get(
                        self.schedules@,
                        w,
                    ) == if w == uuid {
                        Some(self.schedules@[self.schedules@.len() - 1].1)
                    } else {
                        spec_assoc_get(old(self).schedules@, w)
                    } by {
                        lemma_assoc_push(
                            old(self).schedules@,
                            uuid,
                            self.schedules@[self.schedules@.len() - 1].1,
                            w,
                        );
                    }
                }
            },
        }
        let mut keys: Vec<UuidVal> = Vec::new();
        keys.push(uuid);
        Change::Schedule(keys)
    }

    /// Replace the display with the given key; does nothing when no such
    /// display exists.
    pub fn update_display(
        &mut self,
        uuid: UuidVal,
        name: String,
        display_material: DisplayMaterial,
    ) -> (c: Change)
        requires
            old(self).wf(),
        ensures
            final(self).wf(),
            old(self).spec_display(uuid) is Some ==> final(self).spec_display(uuid) == Some(
                (Display { name, display_material }),
            ),
            old(self).spec_display(uuid) is None ==> final(self).displays@ == old(
                self,
            ).displays@,
            forall|w: UuidVal|
                w != uuid ==> final(self).spec_display(w) == old(self).spec_display(w),
            final(self).playlists@ == old(self).playlists@,
            final(self).schedules@ == old(self).schedules@,
            c matches Change::Display(v) && v@.len() == 1 && v@[0] == uuid,
    {
        match assoc_find(&self.displays, uuid) {
            Some(i) => {
                proof {
                    lemma_assoc_get_first(self.displays@, uuid, i as int);
                }
                self.displays[i] = (uuid, Display { name, display_material });
                proof {
                    assert forall|w: UuidVal| true implies spec_assoc_get(
                        self.displays@,
                        w,
                    ) == if w == uuid {
                        Some(self.displays@[i as int].1)
                    } else {
                        spec_assoc_get(old(self).displays@, w)
                    } by {
                        lemma_assoc_update(
                            old(self).displays@,
                            i as int,
                            uuid,
                            self.displays@[i as int].1,
                            w,
                        );
                    }
                }
            },
            None => {
                proof {
                    lemma_assoc_get_none(self.displays@, uuid);
                }
            },
        }
        let mut keys: Vec<UuidVal> = Vec::new();
        keys.push(uuid);
        Change::Display(keys)
    }

    /// Replace the playlist with the given key; does nothing when no such
    /// playlist exists.
    pub fn update_playlist(&mut self, uuid: UuidVal, name: String, items: Vec<PlaylistItem>) -> (c:
        Change)
        requires
            old(self).wf(),
        ensures
            final(self).wf(),
            old(self).spec_playlist(uuid) is Some ==> final(self).spec_playlist(uuid) == Some(
                (Playlist { name, items }),
            ),
            old(self).spec_playlist(uuid) is None ==> final(self).playlists@ == old(
                self,
            ).playlists@,
            forall|w: UuidVal|
                w != uuid ==> final(self).spec_playlist(w) == old(self).spec_playlist(w),
            final(self).displays@ == old(self).displays@,
            final(self).schedules@ == old(self).schedules@,
            c matches Change::Playlist(v) && v@.len() == 1 && v@[0] == uuid,
    {
        match assoc_find(&self.playlists, uuid) {
            Some(i) => {
                proof {
                    lemma_assoc_get_first(self.playlists@, uuid, i as int);
                }
                self.playlists[i] = (uuid, Playlist { name, items });
                proof {
                    assert forall|w: UuidVal| true implies spec_assoc_get(
                        self.playlists@,
                        w,
                    ) == if w == uuid {
                        Some(self.playlists@[i as int].1)
                    } else {
                        spec_assoc_get(old(self).playlists@, w)
                    } by {
                        lemma_assoc_update(
                            old(self).playlists@,
                            i as int,
                            uuid,
                            self.playlists@[i as int].1,
                            w,
                        );
                    }
                }
            },
            None => {
                proof {
                    lemma_assoc_get_none(self.playlists@, uuid);
                }
            },
        }
        let mut keys: Vec<UuidVal> = Vec::new();
        keys.push(uuid);
        Change::Playlist(keys)
    }

    /// Replace the schedule with the given key from admin input; does
    /// nothing when no such schedule exists.  Fails, leaving the catalog
    /// unchanged, exactly when one of the rules' cron expressions does
    /// not parse.
    pub fn update_schedule(
        &mut self,
        uuid: UuidVal,
        name: String,
        playlist: UuidVal,
        schedules: Vec<ScheduledPlaylistInput>,
    ) -> (r: Result<Change, String>)
        requires
            old(self).wf(),
        ensures
            final(self).wf(),
            r is Ok <==> cron_valid_inputs(schedules@),
            r is Err ==> *final(self) == *old(self),
            r is Ok ==> {
                &&& (old(self).spec_schedule(uuid) is Some ==> (final(self).spec_schedule(uuid)
                    matches Some(s) && s.name == name && s.playlist == playlist && s.fallback
                    == playlist && s.rules@.len() == schedules@.len() && (forall|i: int|
                    0 <= i < schedules@.len() ==> (#[trigger] s.rules@[i]).start@
                        == schedules@[i].start@ && s.rules@[i].end@ == schedules@[i].end@
                        && s.rules@[i].playlist == schedules@[i].playlist)))
                &&& (old(self).spec_schedule(uuid) is None ==> final(self).schedules@ == old(
                    self,
                ).schedules@)
                &&& (forall|w: UuidVal|
                    w != uuid ==> final(self).spec_schedule(w) == old(self).spec_schedule(w))
                &&& final(self).displays@ == old(self).displays@
                &&& final(self).playlists@ == old(self).playlists@
            },
            r matches Ok(c) ==> c matches Change::ScheduleInput(v) && v@.len() == 1 && v@[0]
                == uuid,
    {
        let s = match Schedule::new(name, schedules, playlist) {
            Ok(s) => s,
            Err(e) => {
                return Err(e);
            },
        };
        match assoc_find(&self.schedules, uuid) {
            Some(i) => {
                proof {
                    lemma_assoc_get_first(self.schedules@, uuid, i as int);
                }
                self.schedules[i] = (uuid, s);
                proof {
                    assert forall|w: UuidVal| true implies spec_assoc_get(
                        self.schedules@,
                        w,
                    ) == if w == uuid {
                        Some(self.schedules@[i as int].1)
                    } else {
                        spec_assoc_get(old(self).schedules@, w)
                    } by {
                        lemma_assoc_update(
                            old(self).schedules@,
                            i as int,
                            uuid,
                            self.schedules@[i as int].1,
                            w,
                        );
                    }
                }
            },
            None => {
                proof {
                    lemma_assoc_get_none(self.schedules@, uuid);
                }
            },
        }
        let mut keys: Vec<UuidVal> = Vec::new();
        keys.push(uuid);
        Ok(Change::ScheduleInput(keys))
    }

    /// Delete the display with the given key; a missing key is a no-op.
    pub fn delete_display(&mut self, uuid: UuidVal) -> (c: Change)
        requires
            old(self).wf(),
        ensures
            final(self).wf(),
            final(self).spec_display(uuid) is None,
            forall|w: UuidVal|
                w != uuid ==> final(self).spec_display(w) == old(self).spec_display(w),
            final(self).playlists@ == old(self).playlists@,
            final(self).schedules@ == old(self).schedules@,
            c matches Change::Display(v) && v@.len() == 1 && v@[0] == uuid,
    {
        match assoc_find(&self.displays, uuid) {
            Some(i) => {
                self.displays.remove(i);
                proof {
                    assert forall|w: UuidVal| true implies spec_assoc_get(
                        self.displays@,
                        w,
                    ) == if w == uuid {
                        None::<Display>
                    } else {
                        spec_assoc_get(old(self).displays@, w)
                    } by {
                        lemma_assoc_remove(old(self).displays@, i as int, w);
                    }
                }
            },
            None => {
                proof {
                    lemma_assoc_get_none(self.displays@, uuid);
                }
            },
        }
        let mut keys: Vec<UuidVal> = Vec::new();
        keys.push(uuid);
        Change::Display(keys)
    }

    /// Delete the playlist with the given key; a missing key is a no-op.
    pub fn delete_playlist(&mut self, uuid: UuidVal) -> (c: Change)
        requires
            old(self).wf(),
        ensures
            final(self).wf(),
            final(self).spec_playlist(uuid) is None,
            forall|w: UuidVal|
                w != uuid ==> final(self).spec_playlist(w) == old(self).spec_playlist(w),
            final(self).displays@ == old(self).displays@,
            final(self).schedules@ == old(self).schedules@,
            c matches Change::Playlist(v) && v@.len() == 1 && v@[0] == uuid,
    {
        match assoc_find(&self.playlists, uuid) {
            Some(i) => {
                self.playlists.remove(i);
                proof {
                    assert forall|w: UuidVal| true implies spec_assoc_get(
                        self.playlists@,
                        w,
                    ) == if w == uuid {
                        None::<Playlist>
                    } else {
                        spec_assoc_get(old(self).playlists@, w)
                    } by {
                        lemma_assoc_remove(old(self).playlists@, i as int, w);
                    }
                }
            },
            None => {
                proof {
                    lemma_assoc_get_none(self.playlists@, uuid);
                }
            },
        }
        let mut keys: Vec<UuidVal> = Vec::new();
        keys.push(uuid);
        Change::Playlist(keys)
    }

    /// Delete the schedule with the given key; a missing key is a no-op.
    pub fn delete_schedule(&mut self, uuid: UuidVal) -> (c: Change)
        requires
            old(self).wf(),
        ensures
            final(self).wf(),
            final(self).spec_schedule(uuid) is None,
            forall|w: UuidVal|
                w != uuid ==> final(self).spec_schedule(w) == old(self).spec_schedule(w),
            final(self).displays@ == old(self).displays@,
            final(self).playlists@ == old(self).playlists@,
            c matches Change::Schedule(v) && v@.len() == 1 && v@[0] == uuid,
    {
        match assoc_find(&self.schedules, uuid) {
            Some(i) => {
                self.schedules.remove(i);
                proof {
                    assert forall|w: UuidVal| true implies spec_assoc_get(
                        self.schedules@,
                        w,
                    ) == if w == uuid {
                        None::<Schedule>
                    } else {
                        spec_assoc_get(old(self).schedules@, w)
                    } by {
                        lemma_assoc_remove(old(self).schedules@, i as int, w);
                    }
                }
            },
            None => {
                proof {
                    lemma_assoc_get_none(self.schedules@, uuid);
                }
            },
        }
        let mut keys: Vec<UuidVal> = Vec::new();
        keys.push(uuid);
        Change::Schedule(keys)
    }

    /// The schedule and playlist keys a display resolves through: the
    /// schedule's key and its active playlist, or no schedule and the
    /// directly assigned playlist.
    pub fn get_display_uuids(&self, display: &UuidVal) -> (r: Option<(Option<UuidVal>, UuidVal)>)
        requires
            self.wf(),
        ensures
            r == self.spec_display_route(*display),
    {
        let di = match assoc_find(&self.displays, *display) {
            Some(i) => i,
            None => {
                proof {
                    lemma_assoc_get_none(self.displays@, *display);
                }
                return None;
            },
        };
        proof {
            lemma_assoc_get_first(self.displays@, *display, di as int);
        }
        match &self.displays[di].1.display_material {
            DisplayMaterial::Playlist(pu) => Some((None, *pu)),
            DisplayMaterial::Schedule(su) => {
                match assoc_find(&self.schedules, *su) {
                    Some(si) => {
                        proof {
                            lemma_assoc_get_first(self.schedules@, *su, si as int);
                        }
                        Some((Some(*su), self.schedules[si].1.playlist))
                    },
                    None => {
                        proof {
                            lemma_assoc_get_none(self.schedules@, *su);
                        }
                        None
                    },
                }
            },
        }
    }

    /// The items of the playlist a display currently resolves to: the
    /// active playlist of its schedule, or its directly assigned
    /// playlist.  `None` when any link of the chain is missing.
    pub fn get_display_playlist_items(&self, display: &UuidVal) -> (r: Option<Vec<PlaylistItem>>)
        requires
            self.wf(),
        ensures
            (match self.spec_display_route(*display) {
                None => r is None,
                Some(route) => match self.spec_playlist(route.1) {
                    None => r is None,
                    Some(p) => r matches Some(v) && v@ == p.items@,
                },
            }),
    {
        let di = match assoc_find(&self.displays, *display) {
            Some(i) => i,
            None => {
                proof {
                    lemma_assoc_get_none(self.displays@, *display);
                }
                return None;
            },
        };
        proof {
            lemma_assoc_get_first(self.displays@, *display, di as int);
        }
        let playlist_uuid: UuidVal = match &self.displays[di].1.display_material {
            DisplayMaterial::Playlist(pu) => *pu,
            DisplayMaterial::Schedule(su) => {
                match assoc_find(&self.schedules, *su) {
                    Some(si) => {
                        proof {
                            lemma_assoc_get_first(self.schedules@, *su, si as int);
                        }
                        self.schedules[si].1.playlist
                    },
                    None => {
                        proof {
                            lemma_assoc_get_none(self.schedules@, *su);
                        }
                        return None;
                    },
                }
            },
        };
        match assoc_find(&self.playlists, playlist_uuid) {
            Some(pi) => {
                proof {
                    lemma_assoc_get_first(self.playlists@, playlist_uuid, pi as int);
                }
                Some(copy_items(&self.playlists[pi].1.items))
            },
            None => {
                proof {
                    lemma_assoc_get_none(self.playlists@, playlist_uuid);
                }
                None
            },
        }
    }

    /// Write the resolved active playlist of each named schedule, in one
    /// batch, and report one `Schedule` change covering them all.
    pub fn update_schedule_active_playlist(&mut self, updates: &Vec<(UuidVal, UuidVal)>) -> (c:
        Change)
        requires
            old(self).wf(),
            forall|i: int, j: int|
                0 <= i < j < updates@.len() ==> updates@[i].0 != updates@[j].0,
        ensures
            final(self).wf(),
            forall|i: int|
                0 <= i < updates@.len() ==> (match old(self).spec_schedule(
                    (#[trigger] updates@[i]).0,
                ) {
                    Some(s) => final(self).spec_schedule(updates@[i].0) == Some(
                        (Schedule {
                            name: s.name,
                            playlist: updates@[i].1,
                            fallback: s.fallback,
                            rules: s.rules,
                        }),
                    ),
                    None => final(self).spec_schedule(updates@[i].0) is None,
                }),
            forall|w: UuidVal|
                (forall|i: int| 0 <= i < updates@.len() ==> (#[trigger] updates@[i]).0 != w)
                    ==> final(self).spec_schedule(w) == old(self).spec_schedule(w),
            final(self).displays@ == old(self).displays@,
            final(self).playlists@ == old(self).playlists@,
            c matches Change::Schedule(v) && v@.len() == updates@.len() && (forall|i: int|
                0 <= i < updates@.len() ==> v@[i] == (#[trigger] updates@[i]).0),
    {
        let mut idx: usize = 0;
        let mut keys: Vec<UuidVal> = Vec::new();
        while idx < updates.len()
            invariant
                old(self).wf(),
                self.wf(),
                idx <= updates@.len(),
                forall|i: int, j: int|
                    0 <= i < j < updates@.len() ==> updates@[i].0 != updates@[j].0,
                keys@.len() == idx,
                forall|i: int| 0 <= i < idx ==> keys@[i] == (#[trigger] updates@[i]).0,
                forall|i: int|
                    0 <= i < idx ==> (match old(self).spec_schedule((#[trigger] updates@[i]).0) {
                        Some(s) => self.spec_schedule(updates@[i].0) == Some(
                            (Schedule {
                                name: s.name,
                                playlist: updates@[i].1,
                                fallback: s.fallback,
                                rules: s.rules,
                            }),
                        ),
                        None => self.spec_schedule(updates@[i].0) is None,
                    }),
                forall|w: UuidVal|
                    (forall|i: int| 0 <= i < idx ==> (#[trigger] updates@[i]).0 != w)
                        ==> self.spec_schedule(w) == old(self).spec_schedule(w),
                self.displays@ == old(self).displays@,
                self.playlists@ == old(self).playlists@,
            decreases updates@.len() - idx,
        {
            let (u, p) = updates[idx];
            let ghost prev = *self;
            match assoc_find(&self.schedules, u) {
                Some(i) => {
                    proof {
                        lemma_assoc_get_first(self.schedules@, u, i as int);
                    }
                    self.schedules[i].1.playlist = p;
                    proof {
                        assert forall|w: UuidVal| true implies spec_assoc_get(
                            self.schedules@,
                            w,
                        ) == if w == u {
                            Some(self.schedules@[i as int].1)
                        } else {
                            spec_assoc_get(prev.schedules@, w)
                        } by {
                            lemma_assoc_update(
                                prev.schedules@,
                                i as int,
                                u,
                                self.schedules@[i as int].1,
                                w,
                            );
                        }
                    }
                },
                None => {
                    proof {
                        lemma_assoc_get_none(self.schedules@, u);
                    }
                },
            }
            keys.push(u);
            idx = idx + 1;
        }
        Change::Schedule(keys)
    }
}

} // verus!
