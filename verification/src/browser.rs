use vstd::prelude::*;

use crate::catalog::ArtistGroup;
use crate::scan::opt_view;
use crate::layout::{step_down, step_up, wrap_down, wrap_up};
use crate::text::{chars_of, compare_chars, Order};

verus! {

/// Which column of the library browser takes the navigation keys.
#[derive(Debug, Clone, Copy, PartialEq, Eq, Structural)]
pub enum ActiveFocus {
    ArtistColumn,
    AlbumColumn,
}

/// The focused column and the selected rows of both columns. Row 0 of the
/// artist column is "All Artists"; row `i + 1` is the artist `i`.
#[derive(Debug, Clone, Copy, PartialEq, Eq, Structural)]
pub struct Selection {
    pub focus: ActiveFocus,
    pub artist_row: Option<usize>,
    pub album_row: Option<usize>,
}

/// The keys of the library browser, by what they do.
#[derive(Debug, Clone, Copy, PartialEq, Eq, Structural)]
pub enum BrowseKey {
    /// Tab or Esc: focus the other column.
    SwitchFocus,
    /// Left or `h`.
    FocusArtists,
    /// Right or `l`.
    FocusAlbums,
    /// Home or `g`.
    First,
    /// End or `G`.
    Last,
    PageUp,
    PageDown,
    /// Down or `j`: one row down, wrapping to the top.
    Down,
    /// Up or `k`: one row up, wrapping to the bottom.
    Up,
    /// Play the selected track (album column) or the first track shown
    /// (artist column).
    Enter,
}

/// Rows moved by PageUp and PageDown.
pub const PAGE_ROWS: usize = 10;

/// Row of the album column selected when another artist row is selected:
/// the first track below the first album header.
pub const FIRST_TRACK_ROW: usize = 1;

/// The selection and the playlist position to play, if any, after a key.
pub struct BrowseOutcome {
    pub selection: Selection,
    pub play: Option<usize>,
}

/// The first row of `rows` that holds a track.
pub open spec fn first_track_index(rows: Seq<Option<usize>>) -> Option<int>
    decreases rows.len(),
{
    if rows.len() == 0 {
        None
    } else if rows[0] is Some {
        Some(0)
    } else {
        match first_track_index(rows.drop_first()) {
            Some(i) => Some(i + 1),
            None => None,
        }
    }
}

proof fn lemma_first_track_index(rows: Seq<Option<usize>>, i: int)
    requires
        0 <= i <= rows.len(),
        forall|j: int| 0 <= j < i ==> (#[trigger] rows[j]) is None,
    ensures
        i < rows.len() && rows[i] is Some ==> first_track_index(rows) == Some(i),
        i == rows.len() ==> first_track_index(rows) is None,
    decreases i,
{
    if i > 0 {
        let d = rows.drop_first();
        assert forall|j: int| 0 <= j < i - 1 implies (#[trigger] d[j]) is None by {
            assert(d[j] == rows[j + 1]);
        }
        lemma_first_track_index(d, i - 1);
        assert(rows[0] is None);
        if i < rows.len() {
            assert(d[i - 1] == rows[i]);
        }
    } else if rows.len() == 0 {
    }
}

/// The other column.
pub open spec fn other_column(f: ActiveFocus) -> ActiveFocus {
    match f {
        ActiveFocus::ArtistColumn => ActiveFocus::AlbumColumn,
        ActiveFocus::AlbumColumn => ActiveFocus::ArtistColumn,
    }
}

/// Enter in the album column: the selected track, or on a header the track
/// below it, which becomes selected.
pub open spec fn enter_in_albums(s: Selection, rows: Seq<Option<usize>>) -> (Selection, Option<usize>) {
    match s.album_row {
        Some(r) => if r < rows.len() && rows[r as int] is Some {
            (s, rows[r as int])
        } else if r + 1 < rows.len() && rows[r + 1] is Some {
            (Selection { album_row: Some((r + 1) as usize), ..s }, rows[r + 1])
        } else {
            (s, None)
        },
        None => (s, None),
    }
}

/// Enter in the artist column: focus the album column and play its first
/// track, selecting its row; the first row when no row holds a track.
pub open spec fn enter_in_artists(s: Selection, rows: Seq<Option<usize>>) -> (Selection, Option<usize>) {
    let albums = Selection { focus: ActiveFocus::AlbumColumn, ..s };
    match first_track_index(rows) {
        Some(r) => (Selection { album_row: Some(r as usize), ..albums }, rows[r]),
        None => (if rows.len() > 0 { Selection { album_row: Some(0usize), ..albums } } else { albums }, None),
    }
}

/// The artist row `row` selected, with the album column set back to its
/// first track, when there are artist rows.
pub open spec fn artist_moved(s: Selection, artist_rows: int, row: int) -> Selection {
    if artist_rows > 0 {
        Selection { artist_row: Some(row as usize), album_row: Some(FIRST_TRACK_ROW), ..s }
    } else {
        s
    }
}

/// The album row after a move, when there are album rows.
pub open spec fn album_moved(s: Selection, album_rows: int, row: int) -> Selection {
    if album_rows > 0 {
        Selection { album_row: Some(row as usize), ..s }
    } else {
        s
    }
}

/// The row reached from `selected` by the move of `key` in a column of
/// `total` rows, for the moving keys.
pub open spec fn moved_row(key: BrowseKey, selected: Option<usize>, total: int) -> int {
    let cur: int = match selected {
        Some(i) => i as int,
        None => 0,
    };
    match key {
        BrowseKey::First => 0,
        BrowseKey::Last => total - 1,
        BrowseKey::PageUp => if cur >= PAGE_ROWS { cur - PAGE_ROWS } else { 0 },
        BrowseKey::PageDown => if cur + PAGE_ROWS < total { cur + PAGE_ROWS } else { total - 1 },
        BrowseKey::Down => match selected {
            Some(i) => (i + 1) % total,
            None => 0,
        },
        BrowseKey::Up => match selected {
            Some(i) => if i == 0 { total - 1 } else { i - 1 },
            None => 0,
        },
        _ => cur,
    }
}

/// Whether `key` moves the selection within the focused column.
pub open spec fn is_move(key: BrowseKey) -> bool {
    key is First || key is Last || key is PageUp || key is PageDown || key is Down || key is Up
}

fn move_row(key: BrowseKey, selected: Option<usize>, total: usize) -> (row: usize)
    requires
        is_move(key),
        total > 0,
    ensures
        row == moved_row(key, selected, total as int),
{
    match key {
        BrowseKey::First => 0,
        BrowseKey::Last => total - 1,
        BrowseKey::PageUp => step_up(selected, PAGE_ROWS),
        BrowseKey::PageDown => step_down(selected, PAGE_ROWS, total),
        BrowseKey::Down => wrap_down(selected, total),
        _ => wrap_up(selected, total),
    }
}

/// The first row of `rows` that holds a track.
pub fn find_first_track_row(rows: &Vec<Option<usize>>) -> (r: Option<usize>)
    ensures
        first_track_index(rows@) == match r {
            Some(i) => Some(i as int),
            None => None::<int>,
        },
        r matches Some(i) ==> i < rows@.len(),
{
    for i in 0..rows.len()
        invariant
            forall|j: int| 0 <= j < i ==> (#[trigger] rows@[j]) is None,
    {
        if rows[i].is_some() {
            proof {
                lemma_first_track_index(rows@, i as int);
            }
            return Some(i);
        }
    }
    proof {
        lemma_first_track_index(rows@, rows@.len() as int);
    }
    None
}

/// The selection and the track to play after `key` (see `browse`).
pub open spec fn browse_spec(s: Selection, key: BrowseKey, artist_rows: int, rows: Seq<Option<usize>>) -> (Selection, Option<usize>) {
    match key {
        BrowseKey::SwitchFocus => (Selection { focus: other_column(s.focus), ..s }, None),
        BrowseKey::FocusArtists => (Selection { focus: ActiveFocus::ArtistColumn, ..s }, None),
        BrowseKey::FocusAlbums => (Selection { focus: ActiveFocus::AlbumColumn, ..s }, None),
        BrowseKey::Enter => match s.focus {
            ActiveFocus::AlbumColumn => enter_in_albums(s, rows),
            ActiveFocus::ArtistColumn => enter_in_artists(s, rows),
        },
        _ => match s.focus {
            ActiveFocus::ArtistColumn => (artist_moved(s, artist_rows, moved_row(key, s.artist_row, artist_rows)), None),
            ActiveFocus::AlbumColumn => (album_moved(s, rows.len() as int, moved_row(key, s.album_row, rows.len() as int)), None),
        },
    }
}

/// The selection and the track to play after `key`, for `artist_rows` rows
/// in the artist column and the album column `rows` (a header row is
/// `None`, a track row holds its playlist position).
///
/// Focus keys change the focus only. Moving keys move the selection of the
/// focused column (nothing when that column is empty); a move in the artist
/// column selects the first track row of the album column. Enter in the album
/// column plays the selected track, or on an album header the track below
/// it, which becomes selected; Enter in the artist column focuses the album
/// column and plays its first track, selecting its row (or the first row when
/// no row holds a track).
pub fn browse(s: Selection, key: BrowseKey, artist_rows: usize, rows: &Vec<Option<usize>>) -> (out: BrowseOutcome)
    ensures
        (out.selection, out.play) == browse_spec(s, key, artist_rows as int, rows@),
{
    match key {
        BrowseKey::SwitchFocus => {
            let focus = match s.focus {
                ActiveFocus::ArtistColumn => ActiveFocus::AlbumColumn,
                ActiveFocus::AlbumColumn => ActiveFocus::ArtistColumn,
            };
            BrowseOutcome { selection: Selection { focus, ..s }, play: None }
        },
        BrowseKey::FocusArtists => BrowseOutcome {
            selection: Selection { focus: ActiveFocus::ArtistColumn, ..s },
            play: None,
        },
        BrowseKey::FocusAlbums => BrowseOutcome {
            selection: Selection { focus: ActiveFocus::AlbumColumn, ..s },
            play: None,
        },
        BrowseKey::Enter => match s.focus {
            ActiveFocus::AlbumColumn => match s.album_row {
                Some(r) => {
                    if r < rows.len() && rows[r].is_some() {
                        BrowseOutcome { selection: s, play: rows[r] }
                    } else if r < rows.len() && r + 1 < rows.len() && rows[r + 1].is_some() {
                        BrowseOutcome { selection: Selection { album_row: Some(r + 1), ..s }, play: rows[r + 1] }
                    } else {
                        BrowseOutcome { selection: s, play: None }
                    }
                },
                None => BrowseOutcome { selection: s, play: None },
            },
            ActiveFocus::ArtistColumn => {
                let first = find_first_track_row(rows);
                match first {
                    Some(r) => BrowseOutcome {
                        selection: Selection { focus: ActiveFocus::AlbumColumn, album_row: Some(r), ..s },
                        play: rows[r],
                    },
                    None => {
                        let album_row = if rows.len() > 0 { Some(0) } else { s.album_row };
                        BrowseOutcome {
                            selection: Selection { focus: ActiveFocus::AlbumColumn, album_row, ..s },
                            play: None,
                        }
                    },
                }
            },
        },
        _ => match s.focus {
            ActiveFocus::ArtistColumn => {
                if artist_rows > 0 {
                    let row = move_row(key, s.artist_row, artist_rows);
                    BrowseOutcome {
                        selection: Selection { artist_row: Some(row), album_row: Some(FIRST_TRACK_ROW), ..s },
                        play: None,
                    }
                } else {
                    BrowseOutcome { selection: s, play: None }
                }
            },
            ActiveFocus::AlbumColumn => {
                if rows.len() > 0 {
                    let row = move_row(key, s.album_row, rows.len());
                    BrowseOutcome { selection: Selection { album_row: Some(row), ..s }, play: None }
                } else {
                    BrowseOutcome { selection: s, play: None }
                }
            },
        },
    }
}

/// The playlist position held by row `i` of `rows`, if that row exists and
/// holds a track.
pub open spec fn row_track(rows: Seq<Option<usize>>, i: int) -> Option<usize> {
    if 0 <= i < rows.len() {
        rows[i]
    } else {
        None
    }
}

fn get_row(rows: &Vec<Option<usize>>, i: usize) -> (t: Option<usize>)
    ensures
        t == row_track(rows@, i as int),
{
    if i < rows.len() {
        rows[i]
    } else {
        None
    }
}

/// The selection after a left click on row `target` of the artist column:
/// the artist column takes the focus, and a row of the list other than the
/// selected one becomes selected with the album column back at its first
/// track.
pub open spec fn artist_click_spec(s: Selection, target: int, artist_rows: int) -> Selection {
    let focused = Selection { focus: ActiveFocus::ArtistColumn, ..s };
    if target < artist_rows && s.artist_row != Some(target as usize) {
        Selection { artist_row: Some(target as usize), album_row: Some(FIRST_TRACK_ROW), ..focused }
    } else {
        focused
    }
}

/// See `artist_click_spec`.
pub fn click_artist_row(s: Selection, target: usize, artist_rows: usize) -> (out: Selection)
    ensures
        out == artist_click_spec(s, target as int, artist_rows as int),
{
    let focused = Selection { focus: ActiveFocus::ArtistColumn, ..s };
    if target < artist_rows && s.artist_row != Some(target) {
        Selection { artist_row: Some(target), album_row: Some(FIRST_TRACK_ROW), ..focused }
    } else {
        focused
    }
}

/// The selection and the track to play after a left click on row `target`
/// of the album column. The album column takes the focus; a row of the list
/// becomes selected. Clicking the selected row again, or a double click,
/// plays the track of that row; a double click on an album header plays the
/// track below it, which becomes selected.
pub open spec fn album_click_spec(s: Selection, target: int, rows: Seq<Option<usize>>, double: bool) -> (Selection, Option<usize>) {
    let focused = Selection { focus: ActiveFocus::AlbumColumn, ..s };
    if target < rows.len() {
        let picked = Selection { album_row: Some(target as usize), ..focused };
        let again = s.album_row == Some(target as usize);
        if (double || again) && rows[target] is Some {
            (picked, rows[target])
        } else if double && row_track(rows, target + 1) is Some {
            (Selection { album_row: Some((target + 1) as usize), ..focused }, rows[target + 1])
        } else {
            (picked, None)
        }
    } else {
        (focused, None)
    }
}

/// See `album_click_spec`.
pub fn click_album_row(s: Selection, target: usize, rows: &Vec<Option<usize>>, double: bool) -> (out: BrowseOutcome)
    ensures
        (out.selection, out.play) == album_click_spec(s, target as int, rows@, double),
{
    let focused = Selection { focus: ActiveFocus::AlbumColumn, ..s };
    if target < rows.len() {
        let picked = Selection { album_row: Some(target), ..focused };
        let again = s.album_row == Some(target);
        if (double || again) && rows[target].is_some() {
            BrowseOutcome { selection: picked, play: rows[target] }
        } else if double && target + 1 < rows.len() && rows[target + 1].is_some() {
            BrowseOutcome { selection: Selection { album_row: Some(target + 1), ..focused }, play: rows[target + 1] }
        } else {
            BrowseOutcome { selection: picked, play: None }
        }
    } else {
        BrowseOutcome { selection: focused, play: None }
    }
}

/// The selection after one step of the mouse wheel (down when `down`) over
/// the library: over the artist column, or over neither column while the
/// artist column has the focus, it moves the artist selection one row
/// (without wrapping; a row that changes sets the album column back to its
/// first track); otherwise it moves the album selection one row.
pub open spec fn scroll_spec(s: Selection, over_artists: bool, over_albums: bool, down: bool, artist_rows: int, album_rows: int) -> Selection {
    let cur: int = match s.artist_row {
        Some(i) => i as int,
        None => 0,
    };
    if over_artists || (!over_albums && s.focus == ActiveFocus::ArtistColumn) {
        let focused = Selection { focus: ActiveFocus::ArtistColumn, ..s };
        let next = if down {
            if cur + 1 < artist_rows { cur + 1 } else { artist_rows - 1 }
        } else {
            if cur >= 1 { cur - 1 } else { 0 }
        };
        if artist_rows > 0 && next != cur {
            Selection { artist_row: Some(next as usize), album_row: Some(FIRST_TRACK_ROW), ..focused }
        } else {
            focused
        }
    } else {
        let focused = Selection { focus: ActiveFocus::AlbumColumn, ..s };
        let at: int = match s.album_row {
            Some(i) => i as int,
            None => 0,
        };
        let next = if down {
            if at + 1 < album_rows { at + 1 } else { album_rows - 1 }
        } else {
            if at >= 1 { at - 1 } else { 0 }
        };
        if album_rows > 0 {
            Selection { album_row: Some(next as usize), ..focused }
        } else {
            focused
        }
    }
}

/// See `scroll_spec`.
pub fn scroll(s: Selection, over_artists: bool, over_albums: bool, down: bool, artist_rows: usize, album_rows: usize) -> (out: Selection)
    ensures
        out == scroll_spec(s, over_artists, over_albums, down, artist_rows as int, album_rows as int),
{
    if over_artists || (!over_albums && s.focus == ActiveFocus::ArtistColumn) {
        let focused = Selection { focus: ActiveFocus::ArtistColumn, ..s };
        if artist_rows > 0 {
            let cur = match s.artist_row {
                Some(i) => i,
                None => 0,
            };
            let next = if down { step_down(s.artist_row, 1, artist_rows) } else { step_up(s.artist_row, 1) };
            if next != cur {
                return Selection { artist_row: Some(next), album_row: Some(FIRST_TRACK_ROW), ..focused };
            }
        }
        focused
    } else {
        let focused = Selection { focus: ActiveFocus::AlbumColumn, ..s };
        if album_rows > 0 {
            let next = if down { step_down(s.album_row, 1, album_rows) } else { step_up(s.album_row, 1) };
            Selection { album_row: Some(next), ..focused }
        } else {
            focused
        }
    }
}

/// The playlist position whose metadata the editor opens: in the album
/// column the selected track, or on an album header the track below it; in
/// the artist column the current track, else the first track shown. When
/// that gives nothing, the current track.
pub open spec fn edit_target_spec(focus: ActiveFocus, album_row: Option<usize>, rows: Seq<Option<usize>>, current: Option<usize>) -> Option<usize> {
    let chosen = match focus {
        ActiveFocus::AlbumColumn => match album_row {
            Some(r) => if row_track(rows, r as int) is Some { row_track(rows, r as int) } else { row_track(rows, r + 1) },
            None => None,
        },
        ActiveFocus::ArtistColumn => if current is Some {
            current
        } else {
            match first_track_index(rows) {
                Some(i) => rows[i],
                None => None,
            }
        },
    };
    if chosen is Some { chosen } else { current }
}

/// See `edit_target_spec`.
pub fn edit_target(focus: ActiveFocus, album_row: Option<usize>, rows: &Vec<Option<usize>>, current: Option<usize>) -> (t: Option<usize>)
    ensures
        t == edit_target_spec(focus, album_row, rows@, current),
{
    let chosen = match focus {
        ActiveFocus::AlbumColumn => match album_row {
            Some(r) => {
                let here = get_row(rows, r);
                if here.is_some() {
                    here
                } else if r < usize::MAX {
                    get_row(rows, r + 1)
                } else {
                    assert(rows@.len() == rows.len());
                    None
                }
            },
            None => None,
        },
        ActiveFocus::ArtistColumn => if current.is_some() {
            current
        } else {
            match find_first_track_row(rows) {
                Some(i) => rows[i],
                None => None,
            }
        },
    };
    if chosen.is_some() { chosen } else { current }
}

/// The position of the first artist group named `name`.
pub open spec fn artist_position(groups: Seq<ArtistGroup>, name: Seq<char>) -> Option<int>
    decreases groups.len(),
{
    if groups.len() == 0 {
        None
    } else if groups[0].name@ == name {
        Some(0)
    } else {
        match artist_position(groups.drop_first(), name) {
            Some(i) => Some(i + 1),
            None => None,
        }
    }
}

proof fn lemma_artist_position(groups: Seq<ArtistGroup>, name: Seq<char>, i: int)
    requires
        0 <= i <= groups.len(),
        forall|j: int| 0 <= j < i ==> (#[trigger] groups[j]).name@ != name,
    ensures
        i < groups.len() && groups[i].name@ == name ==> artist_position(groups, name) == Some(i),
        i == groups.len() ==> artist_position(groups, name) is None,
    decreases i,
{
    if i > 0 {
        let d = groups.drop_first();
        assert forall|j: int| 0 <= j < i - 1 implies (#[trigger] d[j]).name@ != name by {
            assert(d[j] == groups[j + 1]);
        }
        lemma_artist_position(d, name, i - 1);
        assert(groups[0].name@ != name);
        if i < groups.len() {
            assert(d[i - 1] == groups[i]);
        }
    }
}

/// The name of the artist on artist row `row` (row 0 is "All Artists").
pub open spec fn row_artist(groups: Seq<ArtistGroup>, row: Option<usize>) -> Option<Seq<char>> {
    match row {
        Some(r) => if 1 <= r <= groups.len() { Some(groups[r - 1].name@) } else { None },
        None => None,
    }
}

/// The name of the artist on the selected artist row, if an artist is
/// selected (row 0 is "All Artists").
pub fn selected_artist_name(artist_row: Option<usize>, artists: &Vec<ArtistGroup>) -> (n: Option<String>)
    ensures
        match n {
            Some(x) => row_artist(artists@, artist_row) == Some(x@),
            None => row_artist(artists@, artist_row) is None,
        },
{
    match artist_row {
        Some(r) => if r >= 1 && r <= artists.len() {
            Some(artists[r - 1].name.clone())
        } else {
            None
        },
        None => None,
    }
}

/// The artist row to select once the library was scanned again: the row of
/// the artist selected before, found by name, or "All Artists" when it is
/// gone; with no artist selected before, the first row, or nothing in an
/// empty library.
pub open spec fn reselect_spec(previous: Option<Seq<char>>, groups: Seq<ArtistGroup>) -> Option<usize> {
    match previous {
        Some(name) => Some(match artist_position(groups, name) {
            Some(i) => (i + 1) as usize,
            None => 0usize,
        }),
        None => if groups.len() > 0 { Some(0usize) } else { None },
    }
}

/// See `reselect_spec`.
pub fn artist_row_after_rescan(previous: &Option<String>, artists: &Vec<ArtistGroup>) -> (row: Option<usize>)
    ensures
        row == reselect_spec(opt_view(*previous), artists@),
{
    match previous {
        Some(name) => {
            let wanted = chars_of(name.as_str());
            for i in 0..artists.len()
                invariant
                    wanted@ == name@,
                    opt_view(*previous) == Some(name@),
                    forall|j: int| 0 <= j < i ==> (#[trigger] artists@[j]).name@ != name@,
            {
                if compare_chars(&chars_of(artists[i].name.as_str()), &wanted) == Order::Equal {
                    proof {
                        lemma_artist_position(artists@, name@, i as int);
                        assert(artists@.len() == artists.len());
                    }
                    return Some(i + 1);
                }
            }
            proof {
                lemma_artist_position(artists@, name@, artists@.len() as int);
            }
            Some(0)
        },
        None => if artists.len() > 0 { Some(0) } else { None },
    }
}

/// A move keeps the selection inside a non-empty list whose selection was
/// inside it.
pub proof fn law_moves_stay_in_list(key: BrowseKey, selected: Option<usize>, total: int)
    requires
        is_move(key),
        total > 0,
        selected matches Some(i) ==> i < total,
    ensures
        0 <= moved_row(key, selected, total) < total,
{
}

/// One row down and one row up comes back to the same row.
pub proof fn law_down_then_up_returns(i: usize, total: int)
    requires
        i < total <= usize::MAX,
    ensures
        moved_row(BrowseKey::Up, Some(moved_row(BrowseKey::Down, Some(i), total) as usize), total) == i,
{
    if i + 1 < total {
        vstd::arithmetic::div_mod::lemma_small_mod((i + 1) as nat, total as nat);
    } else {
        vstd::arithmetic::div_mod::lemma_mod_self_0(total);
    }
}

/// Switching the focus twice gives the selection back.
pub proof fn law_switch_focus_twice(s: Selection, artist_rows: int, rows: Seq<Option<usize>>)
    ensures
        browse_spec(browse_spec(s, BrowseKey::SwitchFocus, artist_rows, rows).0, BrowseKey::SwitchFocus, artist_rows, rows)
            == (s, None::<usize>),
{
}

} // verus!
