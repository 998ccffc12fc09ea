use vstd::prelude::*;

use crate::catalog::{AlbumGroup, ArtistGroup};

verus! {

/// A rectangle of terminal cells.
#[derive(Debug, Clone, Copy, PartialEq, Eq, Structural)]
pub struct Rect {
    pub x: u16,
    pub y: u16,
    pub width: u16,
    pub height: u16,
}

/// A `width` × `height` rectangle centred in `r`, cut to fit inside it.
pub fn centered_rect_fixed(width: u16, height: u16, r: Rect) -> (c: Rect)
    requires
        r.x + r.width <= u16::MAX,
        r.y + r.height <= u16::MAX,
    ensures
        c.x == r.x + (if r.width >= width { r.width - width } else { 0 }) / 2,
        c.y == r.y + (if r.height >= height { r.height - height } else { 0 }) / 2,
        c.width == if width <= r.width { width } else { r.width },
        c.height == if height <= r.height { height } else { r.height },
{
    let spare_w = if r.width >= width { r.width - width } else { 0 };
    let spare_h = if r.height >= height { r.height - height } else { 0 };
    Rect {
        x: r.x + spare_w / 2,
        y: r.y + spare_h / 2,
        width: if width <= r.width { width } else { r.width },
        height: if height <= r.height { height } else { r.height },
    }
}

/// Whether the cell (`column`, `row`) lies inside the border of `r`.
pub fn inside_border(r: Rect, column: u16, row: u16) -> (b: bool)
    ensures
        b == (r.width > 2 && r.height > 2 && r.x < column && column < r.x + r.width - 1 && r.y < row
            && row < r.y + r.height - 1),
{
    r.width > 2 && r.height > 2 && r.x < column && (column as u32) < r.x as u32 + r.width as u32 - 1
        && r.y < row && (row as u32) < r.y as u32 + r.height as u32 - 1
}

/// Whether the cell (`column`, `row`) lies in `r`, border included.
pub fn contains_cell(r: Rect, column: u16, row: u16) -> (b: bool)
    ensures
        b == (r.x <= column && column < r.x + r.width && r.y <= row && row < r.y + r.height),
{
    r.x <= column && (column as u32) < r.x as u32 + r.width as u32 && r.y <= row && (row as u32) < r.y as u32
        + r.height as u32
}

/// Every album of the library, artist after artist.
pub open spec fn all_albums(artists: Seq<ArtistGroup>) -> Seq<AlbumGroup>
    decreases artists.len(),
{
    if artists.len() == 0 {
        Seq::empty()
    } else {
        all_albums(artists.drop_last()) + artists.last().albums@
    }
}

/// The albums shown for the artist row `selected`: row 0 stands for all
/// artists, row `i + 1` for artist `i`.
pub open spec fn shown_albums(artists: Seq<ArtistGroup>, selected: int) -> Seq<AlbumGroup> {
    if selected == 0 {
        all_albums(artists)
    } else if selected - 1 < artists.len() {
        artists[selected - 1].albums@
    } else {
        Seq::empty()
    }
}

/// The rows of one album: a header, then one row per track holding the
/// track's playlist position.
pub open spec fn album_block(a: AlbumGroup) -> Seq<Option<usize>> {
    seq![None] + a.tracks@.map_values(|t: crate::catalog::TrackInfo| Some(t.flat_index))
}

/// The rows of albums, album after album.
pub open spec fn rows_of(albums: Seq<AlbumGroup>) -> Seq<Option<usize>>
    decreases albums.len(),
{
    if albums.len() == 0 {
        Seq::empty()
    } else {
        rows_of(albums.drop_last()) + album_block(albums.last())
    }
}

/// The albums shown for the artist row `selected`, as (artist, album) positions.
pub fn visible_albums(artists: &Vec<ArtistGroup>, selected: usize) -> (v: Vec<(usize, usize)>)
    ensures
        v@.len() == shown_albums(artists@, selected as int).len(),
        forall|k: int| 0 <= k < v@.len() ==> {
            let (i, j) = #[trigger] v@[k];
            &&& i < artists@.len()
            &&& j < artists@[i as int].albums@.len()
            &&& artists@[i as int].albums@[j as int] == shown_albums(artists@, selected as int)[k]
        },
{
    let mut v: Vec<(usize, usize)> = Vec::new();
    if selected == 0 {
        for i in 0..artists.len()
            invariant
                v@.len() == all_albums(artists@.take(i as int)).len(),
                forall|k: int| 0 <= k < v@.len() ==> {
                    let (a, b) = #[trigger] v@[k];
                    &&& a < artists@.len()
                    &&& b < artists@[a as int].albums@.len()
                    &&& artists@[a as int].albums@[b as int] == all_albums(artists@.take(i as int))[k]
                },
        {
            let ghost before = v@;
            proof {
                assert(artists@.take(i + 1).drop_last() =~= artists@.take(i as int));
            }
            let count = artists[i].albums.len();
            for j in 0..count
                invariant
                    count == artists@[i as int].albums@.len(),
                    i < artists@.len(),
                    artists@.take(i + 1).drop_last() == artists@.take(i as int),
                    v@.len() == before.len() + j,
                    before.len() == all_albums(artists@.take(i as int)).len(),
                    forall|k: int| 0 <= k < v@.len() ==> {
                        let (a, b) = #[trigger] v@[k];
                        &&& a < artists@.len()
                        &&& b < artists@[a as int].albums@.len()
                        &&& artists@[a as int].albums@[b as int] == (all_albums(artists@.take(i as int)) + artists@[i as int].albums@)[k]
                    },
            {
                v.push((i, j));
            }
        }
        proof {
            assert(artists@.take(artists@.len() as int) =~= artists@);
        }
    } else if selected - 1 < artists.len() {
        let a = selected - 1;
        let count = artists[a].albums.len();
        for j in 0..count
            invariant
                count == artists@[a as int].albums@.len(),
                a < artists@.len(),
                a == selected - 1,
                v@.len() == j,
                forall|k: int| 0 <= k < v@.len() ==> #[trigger] v@[k] == (a, k as usize),
        {
            v.push((a, j));
        }
    }
    v
}


/// The rows of the album column for the artist row `selected`: for an empty
/// library a single message row; otherwise, per shown album, a header row
/// (`None`) followed by one row per track holding its playlist position.
pub fn album_rows(artists: &Vec<ArtistGroup>, selected: usize) -> (rows: Vec<Option<usize>>)
    ensures
        rows@ == if artists@.len() == 0 {
            seq![None]
        } else {
            rows_of(shown_albums(artists@, selected as int))
        },
{
    let mut rows: Vec<Option<usize>> = Vec::new();
    if artists.len() == 0 {
        rows.push(None);
        assert(rows@ =~= seq![None]);
        return rows;
    }
    let shown = visible_albums(artists, selected);
    let ghost albums = shown_albums(artists@, selected as int);
    for k in 0..shown.len()
        invariant
            albums == shown_albums(artists@, selected as int),
            shown@.len() == albums.len(),
            forall|m: int| 0 <= m < shown@.len() ==> {
                let (i, j) = #[trigger] shown@[m];
                &&& i < artists@.len()
                &&& j < artists@[i as int].albums@.len()
                &&& artists@[i as int].albums@[j as int] == albums[m]
            },
            rows@ == rows_of(albums.take(k as int)),
    {
        let (i, j) = shown[k];
        let album = &artists[i].albums[j];
        let ghost before = rows@;
        rows.push(None);
        for t in 0..album.tracks.len()
            invariant
                rows@ == before + seq![None] + album.tracks@.take(t as int).map_values(|x: crate::catalog::TrackInfo| Some(x.flat_index)),
        {
            rows.push(Some(album.tracks[t].flat_index));
            proof {
                assert(album.tracks@.take(t + 1).map_values(|x: crate::catalog::TrackInfo| Some(x.flat_index)) =~= album.tracks@.take(t as int).map_values(|x: crate::catalog::TrackInfo| Some(x.flat_index)).push(Some(album.tracks@[t as int].flat_index)));
            }
        }
        proof {
            assert(album.tracks@.take(album.tracks@.len() as int) =~= album.tracks@);
            assert(albums.take(k + 1).drop_last() =~= albums.take(k as int));
            assert(rows@ =~= rows_of(albums.take(k as int)) + album_block(*album));
        }
    }
    proof {
        assert(albums.take(albums.len() as int) =~= albums);
    }
    rows
}

/// The selection after moving down one row, wrapping to the top; the first
/// row when nothing is selected.
pub fn wrap_down(selected: Option<usize>, total: usize) -> (next: usize)
    requires
        total > 0,
    ensures
        next == match selected {
            Some(i) => ((i + 1) % (total as int)) as usize,
            None => 0,
        },
{
    match selected {
        Some(i) => {
            proof {
                crate::player::lemma_mod_succ(i as int, total as int);
            }
            ((i % total) + 1) % total
        },
        None => 0,
    }
}

/// The selection after moving up one row, wrapping to the bottom; the first
/// row when nothing is selected.
pub fn wrap_up(selected: Option<usize>, total: usize) -> (prev: usize)
    requires
        total > 0,
    ensures
        prev == match selected {
            Some(i) => if i == 0 { (total - 1) as usize } else { (i - 1) as usize },
            None => 0,
        },
{
    match selected {
        Some(i) => if i == 0 { total - 1 } else { i - 1 },
        None => 0,
    }
}

/// The selection `step` rows further down, stopping at the last row.
pub fn step_down(selected: Option<usize>, step: usize, total: usize) -> (next: usize)
    requires
        total > 0,
    ensures
        next == ({
            let cur: int = match selected { Some(i) => i as int, None => 0 };
            if cur + step < total { (cur + step) as usize } else { (total - 1) as usize }
        }),
{
    let cur = match selected {
        Some(i) => i,
        None => 0,
    };
    if cur < total && step < total - cur { cur + step } else { total - 1 }
}

/// The selection `step` rows further up, stopping at the first row.
pub fn step_up(selected: Option<usize>, step: usize) -> (prev: usize)
    ensures
        prev == ({
            let cur: int = match selected { Some(i) => i as int, None => 0 };
            if cur >= step { (cur - step) as usize } else { 0 }
        }),
{
    let cur = match selected {
        Some(i) => i,
        None => 0,
    };
    if cur >= step { cur - step } else { 0 }
}

/// The selection kept inside a list of `total` rows: the last row when past
/// the end, the first row when nothing is selected, nothing for an empty list.
pub fn clamp_selection(selected: Option<usize>, total: usize) -> (s: Option<usize>)
    ensures
        total == 0 ==> s is None,
        total > 0 ==> s == Some(match selected {
            Some(i) => if i >= total { (total - 1) as usize } else { i },
            None => 0,
        }),
{
    if total == 0 {
        None
    } else {
        match selected {
            Some(i) => if i >= total { Some(total - 1) } else { Some(i) },
            None => Some(0),
        }
    }
}

/// How many of the ten volume-bar cells are filled for `volume` hundredths:
/// the volume in tenths, rounded half up, at most ten.
pub fn volume_cells(volume: u32) -> (cells: usize)
    ensures
        cells == if volume >= 95 { 10 } else { ((volume + 5) / 10) as usize },
{
    if volume >= 95 { 10 } else { ((volume + 5) / 10) as usize }
}

} // verus!
