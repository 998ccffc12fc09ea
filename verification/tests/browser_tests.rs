use music_rust::browser::{
    artist_row_after_rescan, browse, click_album_row, click_artist_row, edit_target, find_first_track_row, scroll,
    selected_artist_name, ActiveFocus, BrowseKey, Selection,
};
use music_rust::catalog::{AlbumGroup, ArtistGroup};

fn sel(focus: ActiveFocus, artist_row: Option<usize>, album_row: Option<usize>) -> Selection {
    Selection { focus, artist_row, album_row }
}

/// Two albums: a header, two tracks, a header, one track.
fn rows() -> Vec<Option<usize>> {
    vec![None, Some(0), Some(1), None, Some(2)]
}

fn artist(name: &str) -> ArtistGroup {
    ArtistGroup { name: name.to_string(), albums: vec![AlbumGroup { name: "A".to_string(), artist: name.to_string(), tracks: vec![] }] }
}

#[test]
fn switching_focus_twice_gives_the_selection_back() {
    let s = sel(ActiveFocus::ArtistColumn, Some(2), Some(3));
    let once = browse(s, BrowseKey::SwitchFocus, 4, &rows());
    assert_eq!(once.selection, sel(ActiveFocus::AlbumColumn, Some(2), Some(3)));
    assert_eq!(once.play, None);
    let twice = browse(once.selection, BrowseKey::SwitchFocus, 4, &rows());
    assert_eq!(twice.selection, s);
    assert_eq!(browse(s, BrowseKey::FocusAlbums, 4, &rows()).selection.focus, ActiveFocus::AlbumColumn);
    assert_eq!(browse(twice.selection, BrowseKey::FocusArtists, 4, &rows()).selection.focus, ActiveFocus::ArtistColumn);
}

#[test]
fn artist_moves_wrap_and_reset_the_album_column() {
    let s = sel(ActiveFocus::ArtistColumn, Some(3), Some(4));
    let down = browse(s, BrowseKey::Down, 4, &rows());
    assert_eq!(down.selection, sel(ActiveFocus::ArtistColumn, Some(0), Some(1)));
    let up = browse(down.selection, BrowseKey::Up, 4, &rows());
    assert_eq!(up.selection.artist_row, Some(3));
    assert_eq!(browse(s, BrowseKey::First, 4, &rows()).selection.artist_row, Some(0));
    assert_eq!(browse(s, BrowseKey::Last, 4, &rows()).selection.artist_row, Some(3));
    // An empty artist column does not move.
    assert_eq!(browse(sel(ActiveFocus::ArtistColumn, None, None), BrowseKey::Down, 0, &rows()).selection, sel(ActiveFocus::ArtistColumn, None, None));
}

#[test]
fn page_moves_stop_at_the_ends() {
    let long: Vec<Option<usize>> = (0..25).map(Some).collect();
    let s = sel(ActiveFocus::AlbumColumn, Some(0), Some(18));
    assert_eq!(browse(s, BrowseKey::PageDown, 1, &long).selection.album_row, Some(24));
    assert_eq!(browse(s, BrowseKey::PageUp, 1, &long).selection.album_row, Some(8));
    let top = sel(ActiveFocus::AlbumColumn, Some(0), Some(4));
    assert_eq!(browse(top, BrowseKey::PageUp, 1, &long).selection.album_row, Some(0));
    assert_eq!(browse(top, BrowseKey::PageDown, 1, &long).selection.album_row, Some(14));
    assert_eq!(browse(top, BrowseKey::Down, 1, &long).selection.album_row, Some(5));
    // The album column keeps the artist row.
    assert_eq!(browse(top, BrowseKey::Down, 1, &long).selection.artist_row, Some(0));
}

#[test]
fn enter_in_the_album_column_plays_the_selected_row() {
    let on_track = browse(sel(ActiveFocus::AlbumColumn, Some(0), Some(2)), BrowseKey::Enter, 3, &rows());
    assert_eq!(on_track.play, Some(1));
    assert_eq!(on_track.selection.album_row, Some(2));
    let on_header = browse(sel(ActiveFocus::AlbumColumn, Some(0), Some(3)), BrowseKey::Enter, 3, &rows());
    assert_eq!(on_header.play, Some(2));
    assert_eq!(on_header.selection.album_row, Some(4));
    let track_on_top = browse(sel(ActiveFocus::AlbumColumn, Some(0), Some(0)), BrowseKey::Enter, 3, &vec![Some(7), None]);
    assert_eq!(track_on_top.play, Some(7));
    let past_end = browse(sel(ActiveFocus::AlbumColumn, Some(0), Some(9)), BrowseKey::Enter, 3, &rows());
    assert_eq!(past_end.play, None);
}

#[test]
fn enter_in_the_artist_column_plays_the_first_track_shown() {
    let out = browse(sel(ActiveFocus::ArtistColumn, Some(1), Some(3)), BrowseKey::Enter, 3, &rows());
    assert_eq!(out.selection, sel(ActiveFocus::AlbumColumn, Some(1), Some(1)));
    assert_eq!(out.play, Some(0));
    let no_tracks = browse(sel(ActiveFocus::ArtistColumn, Some(0), None), BrowseKey::Enter, 1, &vec![None]);
    assert_eq!(no_tracks.selection, sel(ActiveFocus::AlbumColumn, Some(0), Some(0)));
    assert_eq!(no_tracks.play, None);
    assert_eq!(find_first_track_row(&rows()), Some(1));
    assert_eq!(find_first_track_row(&vec![None, None]), None);
}

#[test]
fn clicking_rows_selects_and_plays() {
    let s = sel(ActiveFocus::AlbumColumn, Some(0), Some(2));
    let artist_click = click_artist_row(s, 2, 3);
    assert_eq!(artist_click, sel(ActiveFocus::ArtistColumn, Some(2), Some(1)));
    // Clicking the selected artist row or past the list only moves the focus.
    assert_eq!(click_artist_row(s, 0, 3), sel(ActiveFocus::ArtistColumn, Some(0), Some(2)));
    assert_eq!(click_artist_row(s, 5, 3), sel(ActiveFocus::ArtistColumn, Some(0), Some(2)));

    let first = click_album_row(sel(ActiveFocus::ArtistColumn, Some(0), Some(4)), 1, &rows(), false);
    assert_eq!(first.selection, sel(ActiveFocus::AlbumColumn, Some(0), Some(1)));
    assert_eq!(first.play, None);
    let again = click_album_row(first.selection, 1, &rows(), false);
    assert_eq!(again.play, Some(0));
    let header_double = click_album_row(first.selection, 3, &rows(), true);
    assert_eq!(header_double.play, Some(2));
    assert_eq!(header_double.selection.album_row, Some(4));
    let header_once = click_album_row(first.selection, 3, &rows(), false);
    assert_eq!(header_once.play, None);
    assert_eq!(header_once.selection.album_row, Some(3));
}

#[test]
fn scrolling_moves_one_row_without_wrapping() {
    let s = sel(ActiveFocus::AlbumColumn, Some(2), Some(4));
    assert_eq!(scroll(s, true, false, true, 3, 5), sel(ActiveFocus::ArtistColumn, Some(2), Some(4)));
    assert_eq!(scroll(s, true, false, false, 3, 5), sel(ActiveFocus::ArtistColumn, Some(1), Some(1)));
    assert_eq!(scroll(s, false, true, true, 3, 5), sel(ActiveFocus::AlbumColumn, Some(2), Some(4)));
    assert_eq!(scroll(s, false, true, false, 3, 5), sel(ActiveFocus::AlbumColumn, Some(2), Some(3)));
    // Over neither column the focused column scrolls.
    let artists = sel(ActiveFocus::ArtistColumn, Some(0), Some(1));
    assert_eq!(scroll(artists, false, false, true, 3, 5), sel(ActiveFocus::ArtistColumn, Some(1), Some(1)));
}

#[test]
fn the_editor_opens_on_the_chosen_track() {
    assert_eq!(edit_target(ActiveFocus::AlbumColumn, Some(2), &rows(), Some(2)), Some(1));
    assert_eq!(edit_target(ActiveFocus::AlbumColumn, Some(3), &rows(), None), Some(2));
    assert_eq!(edit_target(ActiveFocus::AlbumColumn, None, &rows(), Some(2)), Some(2));
    assert_eq!(edit_target(ActiveFocus::ArtistColumn, Some(0), &rows(), Some(2)), Some(2));
    assert_eq!(edit_target(ActiveFocus::ArtistColumn, Some(0), &rows(), None), Some(0));
    assert_eq!(edit_target(ActiveFocus::ArtistColumn, Some(0), &vec![None], None), None);
}

#[test]
fn rescanning_keeps_the_selected_artist() {
    let before = vec![artist("Alpha"), artist("Beta"), artist("Gamma")];
    let name = selected_artist_name(Some(2), &before);
    assert_eq!(name, Some("Beta".to_string()));
    assert_eq!(selected_artist_name(Some(0), &before), None);

    let after = vec![artist("Beta"), artist("Gamma")];
    assert_eq!(artist_row_after_rescan(&name, &after), Some(1));
    let gone = vec![artist("Gamma")];
    assert_eq!(artist_row_after_rescan(&name, &gone), Some(0));
    assert_eq!(artist_row_after_rescan(&None, &after), Some(0));
    assert_eq!(artist_row_after_rescan(&None, &vec![]), None);
}
