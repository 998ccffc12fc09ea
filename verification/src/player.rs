use vstd::prelude::*;

use crate::catalog::{
    group_tracks, grouped_by_artist_and_album, law_grouping_keeps_every_track, law_numbering_is_positional, library_tracks, numbered,
    renumber_library, same_shape, ArtistGroup, TrackInfo,
};
use crate::paths::{compare_keys, key_view, path_key, same_path, spec_path_components};
use crate::text::Order;
use crate::time::{Duration, Instant};

verus! {

/// Volume in hundredths of full scale: 0 is silent, 100 is full volume.
pub const FULL_VOLUME: u32 = 100;

/// The volume restored by unmuting when no earlier volume is known.
pub const DEFAULT_UNMUTE_VOLUME: u32 = 50;

/// Change of volume for one step up or down, in hundredths.
pub const VOLUME_STEP: i64 = 5;

/// Within this many seconds of a track's start, "previous" goes to the
/// previous track; later it restarts the current one.
pub const RESTART_THRESHOLD_SECS: u64 = 3;

/// The state of the player: the library, the flat playlist, what is playing
/// and the volume. The audio output itself is driven by the caller, which
/// reports what happened to it.
pub struct Player {
    pub artists: Vec<ArtistGroup>,
    pub flat_playlist: Vec<TrackInfo>,
    pub current_track_index: Option<usize>,
    pub is_paused: bool,
    pub track_start_time: Option<Instant>,
    pub elapsed_paused_duration: Duration,
    pub pause_start_time: Option<Instant>,
    /// Volume in hundredths, from 0 to 100.
    pub volume: u32,
    /// The last volume above zero, restored when unmuting.
    pub previous_volume: Option<u32>,
}

/// What to do after a request to skip to another track.
pub enum SkipPlan {
    /// Nothing to play; the state stays as it is.
    Stay,
    /// Restart the current track (see `Player::restart_track`).
    Restart,
    /// Try to play these playlist positions in order, stopping at the first
    /// that plays; when none plays, call `Player::end_search`.
    Attempt(Vec<usize>),
}

/// What a play/pause request asks of the player.
#[derive(Debug, Clone, Copy, PartialEq, Eq, Structural)]
pub enum Transport {
    Nothing,
    TogglePause,
    PlayFirst,
}

/// What the desktop media controls are told about playback.
#[derive(Debug, Clone, Copy, PartialEq, Eq, Structural)]
pub enum MediaStatus {
    Stopped,
    Playing { progress: Duration },
    Paused { progress: Duration },
}

/// `v` clamped to the volume range.
pub open spec fn clamp_volume(v: int) -> int {
    if v < 0 {
        0
    } else if v > 100 {
        100
    } else {
        v
    }
}

/// Volume and remembered volume after setting the volume to `hundredths`.
pub open spec fn set_volume_spec(previous: Option<u32>, hundredths: int) -> (u32, Option<u32>) {
    let v = clamp_volume(hundredths) as u32;
    (v, if v > 0 { Some(v) } else { previous })
}

/// Volume and remembered volume after toggling mute.
pub open spec fn toggle_mute_spec(volume: u32, previous: Option<u32>) -> (u32, Option<u32>) {
    if volume > 0 {
        (0, Some(volume))
    } else {
        let restore: int = match previous {
            Some(v) => if v > 0 { v as int } else { 50 },
            None => 50,
        };
        set_volume_spec(previous, restore)
    }
}

/// Muting and unmuting gives back the volume that was set.
pub proof fn law_mute_then_unmute_restores_volume(volume: u32, previous: Option<u32>)
    requires
        0 < volume <= 100,
    ensures
        ({
            let (v1, p1) = toggle_mute_spec(volume, previous);
            &&& v1 == 0
            &&& toggle_mute_spec(v1, p1) == (volume, Some(volume))
        }),
{
}

/// Every way of changing the volume keeps it between 0 and 100.
pub proof fn law_volume_stays_in_range(volume: u32, previous: Option<u32>, hundredths: int)
    requires
        volume <= 100,
    ensures
        set_volume_spec(previous, hundredths).0 <= 100,
        toggle_mute_spec(volume, previous).0 <= 100,
        set_volume_spec(previous, volume + 5).0 <= 100,
        set_volume_spec(previous, volume - 5).0 <= 100,
{
}

/// The position of the first track whose path is `path` as a path (equal
/// components, see `spec_path_components`).
pub open spec fn first_with_path(s: Seq<TrackInfo>, path: Seq<char>, r: Option<usize>) -> bool {
    match r {
        Some(i) => i < s.len() && same_path(s[i as int].path@, path) && forall|j: int|
            0 <= j < i ==> !same_path((#[trigger] s[j]).path@, path),
        None => forall|j: int| 0 <= j < s.len() ==> !same_path((#[trigger] s[j]).path@, path),
    }
}

impl Player {
    /// The flat playlist is the library's tracks, artist after artist and
    /// album after album, each numbered by its position in the playlist.
    pub open spec fn playlist_matches_library(&self) -> bool {
        &&& self.flat_playlist@ == library_tracks(self.artists@)
        &&& forall|i: int| 0 <= i < self.flat_playlist@.len() ==> (#[trigger] self.flat_playlist@[i]).flat_index == i
    }

    /// The track at the current index, when the index is in the playlist.
    pub open spec fn current_track_spec(&self) -> Option<TrackInfo> {
        match self.current_track_index {
            Some(i) => if i < self.flat_playlist@.len() {
                Some(self.flat_playlist@[i as int])
            } else {
                None
            },
            None => None,
        }
    }

    /// Time the current track has played, in nanoseconds, at `now`: the time
    /// since it started (up to the pause, while paused), less the time spent
    /// paused before, and at most the track's length when that is known.
    pub open spec fn elapsed_spec(&self, now: Instant) -> nat {
        match self.track_start_time {
            Some(start) => {
                let end = match self.pause_start_time {
                    Some(p) => p@,
                    None => now@,
                };
                let total: int = if start@ <= end { end - start@ } else { 0 };
                let elapsed: int = if self.elapsed_paused_duration@ <= total {
                    total - self.elapsed_paused_duration@
                } else {
                    0
                };
                match self.current_track_spec() {
                    Some(t) => if t.duration@ > 0 && t.duration@ < elapsed {
                        t.duration@
                    } else {
                        elapsed as nat
                    },
                    None => elapsed as nat,
                }
            },
            None => 0,
        }
    }

    /// An empty library, nothing playing, full volume.
    pub fn new() -> (p: Player)
        ensures
            p.artists@.len() == 0,
            p.flat_playlist@.len() == 0,
            p.current_track_index is None,
            !p.is_paused,
            p.track_start_time is None,
            p.elapsed_paused_duration@ == 0,
            p.pause_start_time is None,
            p.volume == 100,
            p.previous_volume == Some(100u32),
    {
        Player {
            artists: Vec::new(),
            flat_playlist: Vec::new(),
            current_track_index: None,
            is_paused: false,
            track_start_time: None,
            elapsed_paused_duration: Duration::zero(),
            pause_start_time: None,
            volume: FULL_VOLUME,
            previous_volume: Some(FULL_VOLUME),
        }
    }

    /// Sets the volume to `hundredths` clamped to 0..=100; a volume above
    /// zero is also remembered for unmuting.
    pub fn set_volume(&mut self, hundredths: i64)
        ensures
            (final(self).volume, final(self).previous_volume) == set_volume_spec(old(self).previous_volume, hundredths as int),
            final(self).artists == old(self).artists,
            final(self).flat_playlist == old(self).flat_playlist,
            final(self).current_track_index == old(self).current_track_index,
            final(self).is_paused == old(self).is_paused,
            final(self).track_start_time == old(self).track_start_time,
            final(self).elapsed_paused_duration == old(self).elapsed_paused_duration,
            final(self).pause_start_time == old(self).pause_start_time,
    {
        let v: u32 = if hundredths < 0 {
            0
        } else if hundredths > 100 {
            FULL_VOLUME
        } else {
            hundredths as u32
        };
        self.volume = v;
        if v > 0 {
            self.previous_volume = Some(v);
        }
    }

    /// Mutes, remembering the volume; or, when muted, restores the
    /// remembered volume (half volume when none above zero is remembered).
    pub fn toggle_mute(&mut self)
        ensures
            (final(self).volume, final(self).previous_volume) == toggle_mute_spec(old(self).volume, old(self).previous_volume),
            final(self).artists == old(self).artists,
            final(self).flat_playlist == old(self).flat_playlist,
            final(self).current_track_index == old(self).current_track_index,
            final(self).is_paused == old(self).is_paused,
            final(self).track_start_time == old(self).track_start_time,
            final(self).elapsed_paused_duration == old(self).elapsed_paused_duration,
            final(self).pause_start_time == old(self).pause_start_time,
    {
        if self.volume > 0 {
            self.previous_volume = Some(self.volume);
            self.volume = 0;
        } else {
            let restore = match self.previous_volume {
                Some(v) => v,
                None => DEFAULT_UNMUTE_VOLUME,
            };
            let target: u32 = if restore > 0 { restore } else { DEFAULT_UNMUTE_VOLUME };
            let target: i64 = if target > FULL_VOLUME { 100 } else { target as i64 };
            self.set_volume(target);
        }
    }

    /// Raises the volume by one step.
    pub fn volume_up(&mut self)
        ensures
            (final(self).volume, final(self).previous_volume) == set_volume_spec(old(self).previous_volume, old(self).volume + 5),
            final(self).artists == old(self).artists,
            final(self).flat_playlist == old(self).flat_playlist,
            final(self).current_track_index == old(self).current_track_index,
            final(self).is_paused == old(self).is_paused,
            final(self).track_start_time == old(self).track_start_time,
            final(self).elapsed_paused_duration == old(self).elapsed_paused_duration,
            final(self).pause_start_time == old(self).pause_start_time,
    {
        self.set_volume(self.volume as i64 + VOLUME_STEP);
    }

    /// Lowers the volume by one step.
    pub fn volume_down(&mut self)
        ensures
            (final(self).volume, final(self).previous_volume) == set_volume_spec(old(self).previous_volume, old(self).volume - 5),
            final(self).artists == old(self).artists,
            final(self).flat_playlist == old(self).flat_playlist,
            final(self).current_track_index == old(self).current_track_index,
            final(self).is_paused == old(self).is_paused,
            final(self).track_start_time == old(self).track_start_time,
            final(self).elapsed_paused_duration == old(self).elapsed_paused_duration,
            final(self).pause_start_time == old(self).pause_start_time,
    {
        self.set_volume(self.volume as i64 - VOLUME_STEP);
    }
}


impl Player {
    /// Stops playback: nothing is current, nothing is paused, no times kept.
    pub fn stop(&mut self)
        ensures
            final(self).current_track_index is None,
            !final(self).is_paused,
            final(self).track_start_time is None,
            final(self).elapsed_paused_duration@ == 0,
            final(self).pause_start_time is None,
            final(self).artists == old(self).artists,
            final(self).flat_playlist == old(self).flat_playlist,
            final(self).volume == old(self).volume,
            final(self).previous_volume == old(self).previous_volume,
    {
        self.current_track_index = None;
        self.is_paused = false;
        self.track_start_time = None;
        self.elapsed_paused_duration = Duration::zero();
        self.pause_start_time = None;
    }

    /// The current track, when the current index is in the playlist.
    pub fn current_track(&self) -> (t: Option<&TrackInfo>)
        ensures
            match self.current_track_spec() {
                Some(c) => t matches Some(r) && *r == c,
                None => t is None,
            },
    {
        match self.current_track_index {
            Some(i) => if i < self.flat_playlist.len() {
                Some(&self.flat_playlist[i])
            } else {
                None
            },
            None => None,
        }
    }

    /// Recomputes the flat playlist from the library: every track, artist
    /// after artist and album after album, each numbered by its position.
    pub fn rebuild_flat_playlist(&mut self)
        ensures
            same_shape(old(self).artists@, final(self).artists@),
            library_tracks(final(self).artists@) == numbered(library_tracks(old(self).artists@), 0),
            final(self).flat_playlist@ == numbered(library_tracks(old(self).artists@), 0),
            final(self).playlist_matches_library(),
            final(self).current_track_index == old(self).current_track_index,
            final(self).is_paused == old(self).is_paused,
            final(self).track_start_time == old(self).track_start_time,
            final(self).elapsed_paused_duration == old(self).elapsed_paused_duration,
            final(self).pause_start_time == old(self).pause_start_time,
            final(self).volume == old(self).volume,
            final(self).previous_volume == old(self).previous_volume,
    {
        let (artists, flat) = renumber_library(&self.artists);
        self.artists = artists;
        self.flat_playlist = flat;
        proof {
            assert(self.flat_playlist@.len() == self.flat_playlist.len());
            law_numbering_is_positional(library_tracks(old(self).artists@));
        }
    }

    /// Installs a grouped library: the flat playlist is rebuilt from it, and
    /// the track that was current stays current at its new position when its
    /// path is still in the playlist; otherwise nothing is current.
    pub fn install_library(&mut self, artists: &Vec<ArtistGroup>)
        ensures
            same_shape(artists@, final(self).artists@),
            library_tracks(final(self).artists@) == numbered(library_tracks(artists@), 0),
            final(self).flat_playlist@ == numbered(library_tracks(artists@), 0),
            final(self).playlist_matches_library(),
            match old(self).current_track_spec() {
                Some(t) => first_with_path(final(self).flat_playlist@, t.path@, final(self).current_track_index),
                None => final(self).current_track_index is None,
            },
            final(self).is_paused == old(self).is_paused,
            final(self).track_start_time == old(self).track_start_time,
            final(self).elapsed_paused_duration == old(self).elapsed_paused_duration,
            final(self).pause_start_time == old(self).pause_start_time,
            final(self).volume == old(self).volume,
            final(self).previous_volume == old(self).previous_volume,
    {
        let playing: Option<String> = match self.current_track() {
            Some(t) => Some(t.path.clone()),
            None => None,
        };
        let (groups, flat) = renumber_library(artists);
        self.artists = groups;
        self.flat_playlist = flat;
        proof {
            assert(self.flat_playlist@.len() == self.flat_playlist.len());
            law_numbering_is_positional(library_tracks(artists@));
        }
        match playing {
            Some(path) => {
                self.current_track_index = position_of_path(&self.flat_playlist, &path);
            },
            None => {
                self.current_track_index = None;
            },
        }
    }

    /// Replaces the library by `tracks` grouped by artist and album (see
    /// `group_tracks`), keeping the current track current when its path is
    /// still in the library.
    pub fn load_tracks(&mut self, tracks: &Vec<TrackInfo>)
        ensures
            exists|groups: Seq<ArtistGroup>| {
                &&& grouped_by_artist_and_album(tracks@, groups)
                &&& library_tracks(groups).to_multiset() == tracks@.to_multiset()
                &&& same_shape(groups, final(self).artists@)
                &&& library_tracks(final(self).artists@) == numbered(library_tracks(groups), 0)
                &&& final(self).flat_playlist@ == numbered(library_tracks(groups), 0)
            },
            final(self).playlist_matches_library(),
            match old(self).current_track_spec() {
                Some(t) => first_with_path(final(self).flat_playlist@, t.path@, final(self).current_track_index),
                None => final(self).current_track_index is None,
            },
            final(self).is_paused == old(self).is_paused,
            final(self).track_start_time == old(self).track_start_time,
            final(self).elapsed_paused_duration == old(self).elapsed_paused_duration,
            final(self).pause_start_time == old(self).pause_start_time,
            final(self).volume == old(self).volume,
            final(self).previous_volume == old(self).previous_volume,
    {
        let groups = group_tracks(tracks);
        proof {
            law_grouping_keeps_every_track(tracks@, groups@);
        }
        self.install_library(&groups);
    }
}

/// The position of the first track whose path is `path` as a path.
pub fn position_of_path(tracks: &Vec<TrackInfo>, path: &String) -> (r: Option<usize>)
    ensures
        first_with_path(tracks@, path@, r),
{
    let wanted = path_key(path.as_str());
    for i in 0..tracks.len()
        invariant
            key_view(wanted@) == spec_path_components(path@),
            forall|j: int| 0 <= j < i ==> !same_path((#[trigger] tracks@[j]).path@, path@),
    {
        let k = path_key(tracks[i].path.as_str());
        if compare_keys(&k, &wanted) == Order::Equal {
            return Some(i);
        }
    }
    None
}


pub(crate) proof fn lemma_mod_succ(x: int, n: int)
    requires
        n > 0,
        x >= 0,
    ensures
        ((x % n) + 1) % n == (x + 1) % n,
        0 <= x % n < n,
{
    vstd::arithmetic::div_mod::lemma_add_mod_noop(x, 1, n);
    vstd::arithmetic::div_mod::lemma_add_mod_noop(x % n, 1, n);
    vstd::arithmetic::div_mod::lemma_mod_twice(x, n);
    vstd::arithmetic::div_mod::lemma_mod_bound(x, n);
}

/// The positions that "next" tries, in order: every position once, starting
/// after the current one (or at the start when nothing is current).
pub open spec fn next_order(current: Option<usize>, n: nat, k: int) -> int {
    let start: int = match current {
        Some(c) => (c + 1) % (n as int),
        None => 0,
    };
    (start + k) % (n as int)
}

/// The positions that "previous" tries, in order: every position once,
/// going backwards from `first` and wrapping to the end.
pub open spec fn previous_order(first: int, n: nat, k: int) -> int {
    (first - k) % (n as int)
}

/// The first position "previous" tries.
pub open spec fn previous_first(current: Option<usize>, n: nat) -> int {
    let c: int = match current {
        Some(c) => c as int,
        None => 0,
    };
    if c == 0 { n - 1 } else { c - 1 }
}

impl Player {
    /// A copy of the track at `index`, when there is one.
    pub fn play_index(&self, index: usize) -> (t: Option<TrackInfo>)
        ensures
            index < self.flat_playlist@.len() ==> t == Some(self.flat_playlist@[index as int]),
            index >= self.flat_playlist@.len() ==> t is None,
    {
        if index < self.flat_playlist.len() {
            Some(self.flat_playlist[index].duplicate())
        } else {
            None
        }
    }

    /// Records that `track` started playing at `now`.
    pub fn begin_track(&mut self, track: &TrackInfo, now: Instant)
        ensures
            final(self).current_track_index == Some(track.flat_index),
            !final(self).is_paused,
            final(self).track_start_time == Some(now),
            final(self).elapsed_paused_duration@ == 0,
            final(self).pause_start_time is None,
            final(self).artists == old(self).artists,
            final(self).flat_playlist == old(self).flat_playlist,
            final(self).volume == old(self).volume,
            final(self).previous_volume == old(self).previous_volume,
    {
        self.current_track_index = Some(track.flat_index);
        self.is_paused = false;
        self.track_start_time = Some(now);
        self.elapsed_paused_duration = Duration::zero();
        self.pause_start_time = None;
    }

    /// Where a seek to `target` lands: `None` when nothing is current,
    /// otherwise `target`, limited to the track's length when that is known.
    pub fn seek_target(&self, target: Duration) -> (pos: Option<Duration>)
        ensures
            match self.current_track_spec() {
                Some(t) => pos matches Some(p) && p@ == if t.duration@ > 0 && t.duration@ < target@ {
                    t.duration@
                } else {
                    target@
                },
                None => pos is None,
            },
    {
        match self.current_track() {
            Some(track) => {
                if !track.duration.is_zero() {
                    Some(target.min(track.duration))
                } else {
                    Some(target)
                }
            },
            None => None,
        }
    }

    /// Records that playback was moved to `position` at `now`: the track now
    /// counts as started `position` before `now` (or at `now` when that would
    /// precede the clock's origin), with no pause time, and a pause in
    /// progress restarts at `now`.
    pub fn seek_applied(&mut self, position: Duration, now: Instant)
        ensures
            final(self).track_start_time matches Some(t) && t@ == if position@ <= now@ {
                now@ - position@
            } else {
                now@ as int
            },
            final(self).elapsed_paused_duration@ == 0,
            final(self).pause_start_time == if old(self).is_paused { Some(now) } else { None },
            final(self).current_track_index == old(self).current_track_index,
            final(self).is_paused == old(self).is_paused,
            final(self).artists == old(self).artists,
            final(self).flat_playlist == old(self).flat_playlist,
            final(self).volume == old(self).volume,
            final(self).previous_volume == old(self).previous_volume,
    {
        let start = match now.checked_sub(position) {
            Some(t) => t,
            None => now,
        };
        self.track_start_time = Some(start);
        self.elapsed_paused_duration = Duration::zero();
        if self.is_paused {
            self.pause_start_time = Some(now);
        } else {
            self.pause_start_time = None;
        }
    }

    /// Where restarting the current track seeks to: the start, when a track
    /// is current.
    pub fn restart_track(&self) -> (pos: Option<Duration>)
        ensures
            self.current_track_index is None ==> pos is None,
            self.current_track_index is Some ==> match self.current_track_spec() {
                Some(_) => pos matches Some(p) && p@ == 0,
                None => pos is None,
            },
    {
        if self.current_track_index.is_some() {
            self.seek_target(Duration::zero())
        } else {
            None
        }
    }

    /// Pauses or resumes at `now`, following whether the output is paused
    /// (`output_paused`). Resuming adds the time since the pause began to the
    /// paused time. Returns true when playback resumes, false when it pauses.
    pub fn toggle_pause(&mut self, output_paused: bool, now: Instant) -> (resumed: bool)
        requires
            output_paused ==> match old(self).pause_start_time {
                Some(p) => old(self).elapsed_paused_duration@ + (if p@ <= now@ { now@ - p@ } else { 0 })
                    <= crate::time::max_duration_nanos(),
                None => true,
            },
        ensures
            resumed == output_paused,
            resumed ==> {
                &&& !final(self).is_paused
                &&& final(self).pause_start_time is None
                &&& final(self).elapsed_paused_duration@ == old(self).elapsed_paused_duration@ + match old(self).pause_start_time {
                    Some(p) => if p@ <= now@ { now@ - p@ } else { 0 },
                    None => 0,
                }
            },
            !resumed ==> {
                &&& final(self).is_paused
                &&& final(self).pause_start_time == Some(now)
                &&& final(self).elapsed_paused_duration == old(self).elapsed_paused_duration
            },
            final(self).current_track_index == old(self).current_track_index,
            final(self).track_start_time == old(self).track_start_time,
            final(self).artists == old(self).artists,
            final(self).flat_playlist == old(self).flat_playlist,
            final(self).volume == old(self).volume,
            final(self).previous_volume == old(self).previous_volume,
    {
        if output_paused {
            if let Some(pause_start) = self.pause_start_time {
                let paused_for = now.saturating_duration_since(pause_start);
                match self.elapsed_paused_duration.checked_add(paused_for) {
                    Some(d) => {
                        self.elapsed_paused_duration = d;
                    },
                    None => {},
                }
                self.pause_start_time = None;
            }
            self.is_paused = false;
            true
        } else {
            self.pause_start_time = Some(now);
            self.is_paused = true;
            false
        }
    }

    /// How long the current track has played at `now` (see `elapsed_spec`).
    pub fn current_elapsed_duration(&self, now: Instant) -> (d: Duration)
        ensures
            d@ == self.elapsed_spec(now),
    {
        match self.track_start_time {
            Some(start) => {
                let total = match self.pause_start_time {
                    Some(p) => p.saturating_duration_since(start),
                    None => now.saturating_duration_since(start),
                };
                let elapsed = total.saturating_sub(self.elapsed_paused_duration);
                match self.current_track() {
                    Some(track) => {
                        if !track.duration.is_zero() {
                            elapsed.min(track.duration)
                        } else {
                            elapsed
                        }
                    },
                    None => elapsed,
                }
            },
            None => Duration::zero(),
        }
    }

    /// The plan for "next": nothing when the playlist is empty, otherwise
    /// every position once, starting after the current one.
    pub fn next(&self) -> (plan: SkipPlan)
        ensures
            self.flat_playlist@.len() == 0 ==> plan is Stay,
            self.flat_playlist@.len() > 0 ==> (plan matches SkipPlan::Attempt(v) && v@.len() == self.flat_playlist@.len()
                && forall|k: int| 0 <= k < v@.len() ==> #[trigger] v@[k] as int == next_order(
                    self.current_track_index,
                    self.flat_playlist@.len(),
                    k,
                )),
    {
        let n = self.flat_playlist.len();
        if n == 0 {
            return SkipPlan::Stay;
        }
        let start: usize = match self.current_track_index {
            Some(c) => (c % n + 1) % n,
            None => 0,
        };
        proof {
            if let Some(c) = self.current_track_index {
                lemma_mod_succ(c as int, n as int);
            }
            vstd::arithmetic::div_mod::lemma_small_mod(start as nat, n as nat);
        }
        let mut order: Vec<usize> = Vec::new();
        let mut target = start;
        for k in 0..n
            invariant
                n == self.flat_playlist@.len(),
                n > 0,
                start < n,
                start as int == next_order(self.current_track_index, n as nat, 0),
                target as int == (start + k) % (n as int),
                order@.len() == k,
                forall|j: int| 0 <= j < k ==> #[trigger] order@[j] as int == (start + j) % (n as int),
        {
            order.push(target);
            proof {
                lemma_mod_succ(start + k, n as int);
            }
            target = (target + 1) % n;
        }
        proof {
            assert forall|k: int| 0 <= k < order@.len() implies #[trigger] order@[k] as int == next_order(
                self.current_track_index,
                n as nat,
                k,
            ) by {
                vstd::arithmetic::div_mod::lemma_small_mod(start as nat, n as nat);
            }
        }
        SkipPlan::Attempt(order)
    }
}


proof fn lemma_mod_pred(x: int, n: int)
    requires
        n > 0,
    ensures
        x % n == 0 ==> (x - 1) % n == n - 1,
        x % n > 0 ==> (x - 1) % n == x % n - 1,
        0 <= x % n < n,
{
    vstd::arithmetic::div_mod::lemma_fundamental_div_mod(x, n);
    vstd::arithmetic::div_mod::lemma_mod_bound(x, n);
    let q = x / n;
    let r = x % n;
    if r == 0 {
        assert(x - 1 == (q - 1) * n + (n - 1)) by (nonlinear_arith)
            requires
                x == n * q + r,
                r == 0,
        ;
        vstd::arithmetic::div_mod::lemma_fundamental_div_mod_converse(x - 1, n, q - 1, n - 1);
    } else {
        assert(x - 1 == q * n + (r - 1)) by (nonlinear_arith)
            requires
                x == n * q + r,
        ;
        vstd::arithmetic::div_mod::lemma_fundamental_div_mod_converse(x - 1, n, q, r - 1);
    }
}

impl Player {
    /// The plan for "previous" at `now`: nothing when the playlist is empty;
    /// a restart when the current track has played more than three seconds;
    /// nothing when the position before the current one is past the end of
    /// the playlist; otherwise every position once, going backwards from the
    /// one before the current track (the last one when the current track is
    /// first or none is current) and wrapping to the end.
    pub fn previous(&self, now: Instant) -> (plan: SkipPlan)
        ensures
            self.flat_playlist@.len() == 0 ==> plan is Stay,
            self.flat_playlist@.len() > 0 && self.elapsed_spec(now) > 3_000_000_000 ==> plan is Restart,
            self.flat_playlist@.len() > 0 && self.elapsed_spec(now) <= 3_000_000_000 ==> {
                let n = self.flat_playlist@.len();
                let first = previous_first(self.current_track_index, n);
                &&& first >= n ==> plan is Stay
                &&& first < n ==> (plan matches SkipPlan::Attempt(v) && v@.len() == n
                    && forall|k: int| 0 <= k < v@.len() ==> #[trigger] v@[k] as int == previous_order(first, n, k))
            },
    {
        let n = self.flat_playlist.len();
        if n == 0 {
            return SkipPlan::Stay;
        }
        let threshold = Duration::from_secs(RESTART_THRESHOLD_SECS);
        if threshold.is_shorter_than(&self.current_elapsed_duration(now)) {
            return SkipPlan::Restart;
        }
        let current: usize = match self.current_track_index {
            Some(c) => c,
            None => 0,
        };
        let first: usize = if current == 0 { n - 1 } else { current - 1 };
        if first >= n {
            return SkipPlan::Stay;
        }
        let mut order: Vec<usize> = Vec::new();
        let mut target = first;
        proof {
            vstd::arithmetic::div_mod::lemma_small_mod(first as nat, n as nat);
        }
        for k in 0..n
            invariant
                n > 0,
                first < n,
                target < n,
                target as int == (first - k) % (n as int),
                order@.len() == k,
                forall|j: int| 0 <= j < k ==> #[trigger] order@[j] as int == (first - j) % (n as int),
        {
            order.push(target);
            proof {
                lemma_mod_pred(first - k, n as int);
            }
            target = if target == 0 { n - 1 } else { target - 1 };
        }
        SkipPlan::Attempt(order)
    }

    /// Records that no track of a skip plan could be played.
    pub fn end_search(&mut self)
        ensures
            final(self).current_track_index is None,
            !final(self).is_paused,
            final(self).track_start_time == old(self).track_start_time,
            final(self).elapsed_paused_duration == old(self).elapsed_paused_duration,
            final(self).pause_start_time == old(self).pause_start_time,
            final(self).artists == old(self).artists,
            final(self).flat_playlist == old(self).flat_playlist,
            final(self).volume == old(self).volume,
            final(self).previous_volume == old(self).previous_volume,
    {
        self.current_track_index = None;
        self.is_paused = false;
    }

    /// Whether to advance to the next track: playback is neither paused nor
    /// stopped and the output has run out of audio (`output_empty`).
    pub fn tick(&self, output_empty: bool) -> (advance: bool)
        ensures
            advance == (!self.is_paused && self.current_track_index is Some && output_empty),
    {
        !self.is_paused && self.current_track_index.is_some() && output_empty
    }

    /// What the desktop media controls show at `now`.
    pub fn media_status(&self, now: Instant) -> (status: MediaStatus)
        ensures
            self.current_track_spec() is None ==> status is Stopped,
            self.current_track_spec() is Some && self.is_paused ==> (status matches MediaStatus::Paused { progress }
                && progress@ == self.elapsed_spec(now)),
            self.current_track_spec() is Some && !self.is_paused ==> (status matches MediaStatus::Playing { progress }
                && progress@ == self.elapsed_spec(now)),
    {
        match self.current_track() {
            Some(_) => {
                let progress = self.current_elapsed_duration(now);
                if self.is_paused {
                    MediaStatus::Paused { progress }
                } else {
                    MediaStatus::Playing { progress }
                }
            },
            None => MediaStatus::Stopped,
        }
    }

    /// A play/pause request (the space key, a play/pause media key, a click
    /// on the playing track): toggle pause when a track is current, else
    /// start the first track when there is one.
    pub fn play_pause_request(&self) -> (t: Transport)
        ensures
            t == if self.current_track_index is Some {
                Transport::TogglePause
            } else if self.flat_playlist@.len() > 0 {
                Transport::PlayFirst
            } else {
                Transport::Nothing
            },
    {
        if self.current_track_index.is_some() {
            Transport::TogglePause
        } else if self.flat_playlist.len() > 0 {
            Transport::PlayFirst
        } else {
            Transport::Nothing
        }
    }

    /// A play request from the media controls: resume when paused, else
    /// start the first track when nothing is current.
    pub fn play_request(&self) -> (t: Transport)
        ensures
            t == if self.is_paused {
                Transport::TogglePause
            } else if self.current_track_index is None && self.flat_playlist@.len() > 0 {
                Transport::PlayFirst
            } else {
                Transport::Nothing
            },
    {
        if self.is_paused {
            Transport::TogglePause
        } else if self.current_track_index.is_none() && self.flat_playlist.len() > 0 {
            Transport::PlayFirst
        } else {
            Transport::Nothing
        }
    }

    /// A pause request from the media controls: pause when playing.
    pub fn pause_request(&self) -> (t: Transport)
        ensures
            t == if !self.is_paused && self.current_track_index is Some {
                Transport::TogglePause
            } else {
                Transport::Nothing
            },
    {
        if !self.is_paused && self.current_track_index.is_some() {
            Transport::TogglePause
        } else {
            Transport::Nothing
        }
    }
}


/// "Next" tries every position of a non-empty playlist.
pub proof fn law_next_tries_every_track(current: Option<usize>, n: nat, target: int)
    requires
        n > 0,
        0 <= target < n,
    ensures
        exists|k: int| 0 <= k < n && #[trigger] next_order(current, n, k) == target,
{
    let start: int = match current {
        Some(c) => (c + 1) % (n as int),
        None => 0,
    };
    vstd::arithmetic::div_mod::lemma_mod_bound(target - start, n as int);
    if let Some(c) = current {
        vstd::arithmetic::div_mod::lemma_mod_bound(c + 1, n as int);
    }
    let k = (target - start) % (n as int);
    vstd::arithmetic::div_mod::lemma_add_mod_noop(start, target - start, n as int);
    vstd::arithmetic::div_mod::lemma_small_mod(start as nat, n);
    vstd::arithmetic::div_mod::lemma_small_mod(target as nat, n);
    assert(next_order(current, n, k) == target);
}

/// "Previous" tries every position of a non-empty playlist.
pub proof fn law_previous_tries_every_track(first: int, n: nat, target: int)
    requires
        n > 0,
        0 <= first < n,
        0 <= target < n,
    ensures
        exists|k: int| 0 <= k < n && #[trigger] previous_order(first, n, k) == target,
{
    vstd::arithmetic::div_mod::lemma_mod_bound(first - target, n as int);
    let k = (first - target) % (n as int);
    vstd::arithmetic::div_mod::lemma_sub_mod_noop(first, first - target, n as int);
    vstd::arithmetic::div_mod::lemma_small_mod(first as nat, n);
    vstd::arithmetic::div_mod::lemma_small_mod(target as nat, n);
    assert(previous_order(first, n, k) == target);
}

/// While a pause is in progress the elapsed time stands still.
pub proof fn law_elapsed_frozen_while_paused(p: Player, t1: Instant, t2: Instant)
    requires
        p.pause_start_time is Some,
    ensures
        p.elapsed_spec(t1) == p.elapsed_spec(t2),
{
}

/// After a seek to `position` at `now` (the start time set `position` before
/// `now`, no pause time), the elapsed time at `now` is `position`, limited to
/// the track's length when that is known.
pub proof fn law_elapsed_after_seek(p: Player, position: Duration, now: Instant)
    requires
        p.track_start_time matches Some(t) && t@ + position@ == now@,
        p.elapsed_paused_duration@ == 0,
        p.pause_start_time is None || p.pause_start_time == Some(now),
    ensures
        p.elapsed_spec(now) == match p.current_track_spec() {
            Some(tr) => if tr.duration@ > 0 && tr.duration@ < position@ {
                tr.duration@
            } else {
                position@
            },
            None => position@,
        },
{
}

/// "Previous" (when it does not restart) tries the position before the
/// current one first, wrapping from the first position to the last, and then
/// goes on backwards: the `k`-th try is `(c + n - 1 - k) mod n` for the
/// current position `c` (0 when nothing is current).
pub proof fn law_previous_goes_back_from_current(current: Option<usize>, n: nat, k: int)
    requires
        n > 0,
        current matches Some(c) ==> c < n,
        0 <= k < n,
    ensures
        ({
            let c: int = match current {
                Some(c) => c as int,
                None => 0,
            };
            &&& 0 <= previous_first(current, n) < n
            &&& previous_order(previous_first(current, n), n, k) == (c + n - 1 - k) % (n as int)
            &&& previous_order(previous_first(current, n), n, 0) == (c + n - 1) % (n as int)
        }),
{
    let c: int = match current {
        Some(c) => c as int,
        None => 0,
    };
    let first = previous_first(current, n);
    if c > 0 {
        vstd::arithmetic::div_mod::lemma_mod_add_multiples_vanish(first - k, n as int);
        vstd::arithmetic::div_mod::lemma_mod_add_multiples_vanish(first, n as int);
        assert((n as int) + (first - k) == c + n - 1 - k);
    }
}

/// "Next" tries the position after the current one first, wrapping from the
/// last position to the first, and then goes on forwards: the `k`-th try is
/// `(c + 1 + k) mod n` for the current position `c`, and `k` when nothing is
/// current.
pub proof fn law_next_goes_on_from_current(current: Option<usize>, n: nat, k: int)
    requires
        n > 0,
        current matches Some(c) ==> c < n,
        0 <= k < n,
    ensures
        current matches Some(c) ==> next_order(current, n, k) == (c + 1 + k) % (n as int),
        current is None ==> next_order(current, n, k) == k,
{
    if let Some(c) = current {
        vstd::arithmetic::div_mod::lemma_add_mod_noop(c + 1, k, n as int);
        vstd::arithmetic::div_mod::lemma_mod_twice(c + 1, n as int);
        vstd::arithmetic::div_mod::lemma_small_mod(k as nat, n);
        vstd::arithmetic::div_mod::lemma_mod_bound(c + 1, n as int);
        vstd::arithmetic::div_mod::lemma_small_mod(((c + 1) % (n as int)) as nat, n);
    } else {
        vstd::arithmetic::div_mod::lemma_small_mod(k as nat, n);
    }
}

/// Pausing does not change how long the track has played: the elapsed time
/// at any moment of the pause is the elapsed time when the pause began, the
/// time spent in earlier pauses still left out.
pub proof fn law_pausing_keeps_elapsed(before: Player, after: Player, now: Instant, later: Instant)
    requires
        before.pause_start_time is None,
        after.pause_start_time == Some(now),
        after.track_start_time == before.track_start_time,
        after.elapsed_paused_duration == before.elapsed_paused_duration,
        after.current_track_index == before.current_track_index,
        after.flat_playlist == before.flat_playlist,
    ensures
        after.elapsed_spec(later) == before.elapsed_spec(now),
{
}

/// Resuming at `now` does not change how long the track has played: the
/// time since the pause began joins the paused time, and the elapsed time at
/// `now` is what it was during the pause.
pub proof fn law_resuming_keeps_elapsed(before: Player, after: Player, now: Instant)
    requires
        before.pause_start_time matches Some(q) && q@ <= now@,
        after.pause_start_time is None,
        after.track_start_time == before.track_start_time,
        after.elapsed_paused_duration@ == before.elapsed_paused_duration@ + (now@ - before.pause_start_time->0@),
        after.current_track_index == before.current_track_index,
        after.flat_playlist == before.flat_playlist,
    ensures
        after.elapsed_spec(now) == before.elapsed_spec(now),
{
}

/// The elapsed time is the time from the track's start up to `now` (or up
/// to the start of the pause in progress) less all time spent in earlier
/// pauses, at least 0, at most the track's length when that is known.
pub proof fn law_elapsed_counts_play_time(p: Player, now: Instant, start: Instant)
    requires
        p.track_start_time == Some(start),
    ensures
        ({
            let end: int = match p.pause_start_time {
                Some(q) => q@ as int,
                None => now@ as int,
            };
            let played: int = end - start@ - p.elapsed_paused_duration@;
            &&& played >= 0 && (p.current_track_spec() matches Some(t) ==> t.duration@ == 0 || played <= t.duration@)
                ==> p.elapsed_spec(now) == played
            &&& p.elapsed_spec(now) <= if played > 0 { played } else { 0 }
        }),
{
}

} // verus!
