use music_rust::cache::CachedTrackMeta;
use music_rust::catalog::{group_tracks, TrackInfo};
use music_rust::editor::{plan_tag_edits, EditKey, EditOutcome, FieldEdit, MetaField, MetadataEditState};
use music_rust::layout::{
    album_rows, centered_rect_fixed, clamp_selection, contains_cell, inside_border, step_down, step_up,
    visible_albums, volume_cells, wrap_down, wrap_up, Rect,
};
use music_rust::opus::{
    current_frame, position_after_overshoot, position_in_buffer, prefill_samples, preroll_start, refill_step,
    seek_step, skipped_packet_len, target_frame, RefillAction, SampleBuffer, SeekAction, SeekPhase, MAX_EMPTY_PACKETS,
};
use music_rust::scan::{cached_track, duration_fits, is_audio_extension, is_opus_path, probed_track, ProbeResult, ScannedFile, TagFields};
use music_rust::text::{format_duration, chars_of, compare_chars, push_decimal, push_two_digits, string_from_chars, Order};
use music_rust::time::{Duration, Instant};

fn track(path: &str, artist: &str, album: &str, number: Option<u32>) -> TrackInfo {
    TrackInfo {
        path: path.to_string(),
        title: path.to_string(),
        artist: artist.to_string(),
        album: album.to_string(),
        duration: Duration::from_secs(60),
        track_number: number,
        flat_index: 0,
    }
}

fn editor() -> MetadataEditState {
    let t = TrackInfo { track_number: Some(7), ..track("/m/song.mp3", "Band", "Record", Some(7)) };
    MetadataEditState::for_track(&t, Some("  Rock ".to_string()), Some(1999))
}

// ---- editor ----

#[test]
fn editor_opens_with_the_track_fields() {
    let e = editor();
    assert_eq!(e.track_path, "/m/song.mp3");
    assert_eq!(e.title, "/m/song.mp3");
    assert_eq!(e.artist, "Band");
    assert_eq!(e.genre, "Rock");
    assert_eq!(e.year, "1999");
    assert_eq!(e.track_number, "7");
    assert_eq!(e.field_idx, 0);
    assert!(!e.is_editing);
    assert_eq!(e.current_field_str(), "/m/song.mp3");
    let none = MetadataEditState::for_track(&track("/m/x.mp3", "A", "B", None), None, None);
    assert_eq!(none.genre, "");
    assert_eq!(none.year, "");
    assert_eq!(none.track_number, "");
}

#[test]
fn editor_moves_between_fields_and_wraps() {
    let mut e = editor();
    assert_eq!(e.handle_key(EditKey::Up), EditOutcome::Continue);
    assert_eq!(e.field_idx, 5);
    assert_eq!(MetaField::at(e.field_idx), MetaField::TrackNumber);
    e.handle_key(EditKey::Down);
    assert_eq!(e.field_idx, 0);
    e.handle_key(EditKey::Char { c: 'j', ctrl: false });
    assert_eq!(e.field_idx, 1);
    e.handle_key(EditKey::Char { c: 'k', ctrl: false });
    assert_eq!(e.field_idx, 0);
    assert_eq!(e.handle_key(EditKey::Char { c: 's', ctrl: true }), EditOutcome::SaveAndClose);
    assert_eq!(e.handle_key(EditKey::Char { c: 'q', ctrl: false }), EditOutcome::DiscardAndClose);
    assert_eq!(e.handle_key(EditKey::Esc), EditOutcome::SaveAndClose);
}

#[test]
fn editor_edits_text_at_the_cursor() {
    let mut e = editor();
    e.field_idx = 1;
    e.handle_key(EditKey::Enter);
    assert!(e.is_editing);
    assert_eq!(e.cursor_pos, 4);
    e.handle_key(EditKey::Char { c: 's', ctrl: false });
    assert_eq!(e.artist, "Bands");
    e.handle_key(EditKey::Home);
    e.handle_key(EditKey::Delete);
    assert_eq!(e.artist, "ands");
    e.handle_key(EditKey::End);
    e.handle_key(EditKey::Backspace);
    assert_eq!(e.artist, "and");
    assert_eq!(e.cursor_pos, 3);
    e.handle_key(EditKey::Left);
    e.handle_key(EditKey::Char { c: 'X', ctrl: false });
    assert_eq!(e.artist, "anXd");
    assert_eq!(e.handle_key(EditKey::Enter), EditOutcome::Continue);
    assert!(!e.is_editing);
}

#[test]
fn typing_then_backspace_restores_the_field() {
    let mut e = editor();
    e.field_idx = 2;
    e.handle_key(EditKey::Enter);
    e.handle_key(EditKey::Left);
    let before = e.album.clone();
    let cursor = e.cursor_pos;
    e.handle_key(EditKey::Char { c: '!', ctrl: false });
    assert_ne!(e.album, before);
    e.handle_key(EditKey::Backspace);
    assert_eq!(e.album, before);
    assert_eq!(e.cursor_pos, cursor);
}

#[test]
fn numeric_fields_take_digits_only() {
    let mut e = editor();
    e.field_idx = 4;
    e.handle_key(EditKey::Enter);
    e.handle_key(EditKey::Char { c: 'a', ctrl: false });
    assert_eq!(e.year, "1999");
    e.handle_key(EditKey::Char { c: '0', ctrl: false });
    assert_eq!(e.year, "19990");
    assert!(MetaField::Year.is_numeric());
    assert!(!MetaField::Genre.is_numeric());
}

#[test]
fn word_moves_skip_spaces_and_words() {
    let mut e = editor();
    e.title = "one two  three".to_string();
    e.handle_key(EditKey::Enter);
    assert_eq!(e.cursor_pos, 14);
    e.handle_key(EditKey::WordLeft);
    assert_eq!(e.cursor_pos, 9);
    e.handle_key(EditKey::WordLeft);
    assert_eq!(e.cursor_pos, 4);
    e.handle_key(EditKey::WordRight);
    assert_eq!(e.cursor_pos, 9);
}

#[test]
fn saving_parses_year_and_track_number() {
    let mut e = editor();
    e.year = " 2001 ".to_string();
    e.track_number = "x".to_string();
    let u = e.save_request();
    assert_eq!(u.path, "/m/song.mp3");
    assert_eq!(u.year, Some(2001));
    assert_eq!(u.track_number, None);
    e.track_number = "+12".to_string();
    assert_eq!(e.save_request().track_number, Some(12));
    e.year = "99999999999".to_string();
    assert_eq!(e.save_request().year, None);
}

#[test]
fn tag_edits_remove_blank_fields_and_trim_the_rest() {
    let edits = plan_tag_edits("  Title ", "", "   ", "Jazz", Some(1980), None);
    assert!(matches!(edits.title, FieldEdit::Assign(ref t) if t == "Title"));
    assert!(matches!(edits.artist, FieldEdit::Remove));
    assert!(matches!(edits.album, FieldEdit::Remove));
    assert!(matches!(edits.genre, FieldEdit::Assign(ref g) if g == "Jazz"));
    assert_eq!(edits.year, Some(1980));
    assert_eq!(edits.track, None);
}

// ---- scan ----

#[test]
fn audio_extensions_are_matched_without_case() {
    for e in ["mp3", "FLAC", "wav", "Ogg", "m4a", "aac", "opus", "WMA"] {
        assert!(is_audio_extension(e), "{}", e);
    }
    for e in ["txt", "mp", "", "jpeg", "mp33"] {
        assert!(!is_audio_extension(e), "{}", e);
    }
    assert!(is_opus_path("/m/a/song.OPUS"));
    assert!(!is_opus_path("/m/a/song.ogg"));
    assert!(!is_opus_path("/m/a/opus"));
}

#[test]
fn probing_falls_back_to_the_file_and_folder_names() {
    let file = ScannedFile { path: "/music/Album X/track one.mp3".to_string(), mtime: 5, size: 9 };
    let (t, entry) = probed_track(&file, None);
    assert_eq!(t.title, "track one");
    assert_eq!(t.album, "Album X");
    assert_eq!(t.artist, "Unknown Artist");
    assert!(t.duration.is_zero());
    assert_eq!(entry.path, file.path);
    assert_eq!(entry.meta.mtime, 5);
    assert_eq!(entry.meta.size, 9);

    let tag = TagFields { title: Some("  Real ".to_string()), artist: Some("   ".to_string()), album: None, track: Some(3) };
    let probe = ProbeResult { duration: Duration::new(61, 500), tag: Some(tag) };
    let (t, entry) = probed_track(&file, Some(probe));
    assert_eq!(t.title, "Real");
    assert_eq!(t.artist, "Unknown Artist");
    assert_eq!(t.album, "Album X");
    assert_eq!(t.track_number, Some(3));
    assert_eq!(entry.meta.duration_secs, 61);
    assert_eq!(entry.meta.duration_nanos, 500);
}

#[test]
fn cached_metadata_is_used_only_for_an_unchanged_file() {
    let file = ScannedFile { path: "/m/a.mp3".to_string(), mtime: 10, size: 20 };
    let meta = CachedTrackMeta {
        mtime: 10,
        size: 20,
        title: "T".to_string(),
        artist: "A".to_string(),
        album: "B".to_string(),
        duration_secs: 3,
        duration_nanos: 1_500_000_000,
        track_number: None,
    };
    assert!(duration_fits(&meta));
    let t = cached_track(&file, Some(&meta)).unwrap();
    assert_eq!(t.title, "T");
    assert_eq!(t.duration.as_secs(), 4);
    assert_eq!(t.duration.subsec_nanos(), 500_000_000);
    let changed = ScannedFile { size: 21, ..file };
    assert!(cached_track(&changed, Some(&meta)).is_none());
    assert!(cached_track(&changed, None).is_none());
    let huge = CachedTrackMeta { duration_secs: u64::MAX, ..meta };
    assert!(!duration_fits(&huge));
}

// ---- opus arithmetic ----

#[test]
fn seek_frames_round_to_the_nearest_frame() {
    assert_eq!(target_frame(Duration::new(1, 500_000_000), 48_000), 72_000);
    assert_eq!(target_frame(Duration::new(0, 10_417), 48_000), 1);
    assert_eq!(target_frame(Duration::new(0, 10_416), 48_000), 0);
    assert_eq!(preroll_start(72_000, 48_000), 68_160);
    assert_eq!(preroll_start(100, 48_000), 0);
    assert_eq!(prefill_samples(48_000, 2), 9_600);
}

#[test]
fn buffer_positions_follow_the_frames() {
    assert_eq!(current_frame(1000, 200, 100, 2), 950);
    assert_eq!(current_frame(10, 200, 0, 2), 0);
    assert_eq!(position_in_buffer(960, 1000, 200, 2), Some(120));
    assert_eq!(position_in_buffer(800, 1000, 200, 2), None);
    assert_eq!(position_after_overshoot(1000, 990, 200, 2), 180);
    assert_eq!(position_after_overshoot(1000, 0, 200, 2), 0);
}

#[test]
fn skipped_packets_count_their_samples() {
    // A CELT packet of one 20 ms frame (config 31, code 0) at 48 kHz.
    assert_eq!(skipped_packet_len(&[0xF8, 0, 0], 48_000, 2), 1920);
    // An empty packet is rejected, so 960 samples per channel are assumed.
    assert_eq!(skipped_packet_len(&[], 48_000, 2), 1920);
    assert_eq!(skipped_packet_len(&[], 48_000, 1), 960);
}

#[test]
fn sample_buffer_hands_out_samples_in_order() {
    let mut b = SampleBuffer::new();
    b.append_kept(&vec![1, 2, 3, 4], 1, 3);
    assert_eq!(b.samples, vec![2, 3]);
    b.append_kept(&vec![9], 0, 5);
    assert_eq!(b.remaining(), 2);
    assert_eq!(b.next_sample(), Some(2));
    assert_eq!(b.next_sample(), Some(3));
    assert_eq!(b.next_sample(), None);
    b.clear();
    assert_eq!(b.remaining(), 0);
}

// ---- layout ----

#[test]
fn modal_is_centred_and_cut_to_fit() {
    let area = Rect { x: 2, y: 1, width: 80, height: 24 };
    assert_eq!(centered_rect_fixed(40, 10, area), Rect { x: 22, y: 8, width: 40, height: 10 });
    assert_eq!(centered_rect_fixed(100, 30, area), Rect { x: 2, y: 1, width: 80, height: 24 });
    assert!(inside_border(area, 3, 2));
    assert!(!inside_border(area, 2, 2));
    assert!(contains_cell(area, 2, 1));
    assert!(!contains_cell(area, 82, 1));
}

#[test]
fn selection_helpers_wrap_step_and_clamp() {
    assert_eq!(wrap_down(Some(4), 5), 0);
    assert_eq!(wrap_down(None, 5), 0);
    assert_eq!(wrap_up(Some(0), 5), 4);
    assert_eq!(step_down(Some(3), 10, 5), 4);
    assert_eq!(step_up(Some(3), 10), 0);
    assert_eq!(clamp_selection(Some(9), 3), Some(2));
    assert_eq!(clamp_selection(None, 3), Some(0));
    assert_eq!(clamp_selection(Some(1), 0), None);
    assert_eq!(volume_cells(0), 0);
    assert_eq!(volume_cells(44), 4);
    assert_eq!(volume_cells(45), 5);
    assert_eq!(volume_cells(100), 10);
}

#[test]
fn album_column_rows_list_headers_and_tracks() {
    let mut player = music_rust::player::Player::new();
    player.load_tracks(&vec![
        track("/m/a1.mp3", "A", "P", Some(1)),
        track("/m/a2.mp3", "A", "P", Some(2)),
        track("/m/b1.mp3", "B", "Q", Some(1)),
    ]);
    assert_eq!(album_rows(&player.artists, 0), vec![None, Some(0), Some(1), None, Some(2)]);
    assert_eq!(album_rows(&player.artists, 2), vec![None, Some(2)]);
    assert_eq!(album_rows(&player.artists, 9), Vec::<Option<usize>>::new());
    assert_eq!(visible_albums(&player.artists, 0), vec![(0, 0), (1, 0)]);
    assert_eq!(album_rows(&vec![], 0), vec![None]);
    assert_eq!(group_tracks(&vec![]).len(), 0);
}

// ---- text and time ----

#[test]
fn text_helpers() {
    assert_eq!(compare_chars(&chars_of("abc"), &chars_of("abd")), Order::Less);
    assert_eq!(compare_chars(&chars_of("ab"), &chars_of("a")), Order::Greater);
    assert_eq!(compare_chars(&chars_of("ab"), &chars_of("ab")), Order::Equal);
    assert_eq!(string_from_chars(&vec!['h', 'i']), "hi");
    let mut s = String::new();
    push_decimal(&mut s, 305);
    s.push(':');
    push_two_digits(&mut s, 7);
    assert_eq!(s, "305:07");
}

#[test]
fn durations_and_instants() {
    let d = Duration::new(1, 1_500_000_000);
    assert_eq!(d.as_secs(), 2);
    assert_eq!(d.subsec_nanos(), 500_000_000);
    assert_eq!(Duration::from_secs(3).saturating_sub(Duration::from_secs(5)), Duration::zero());
    assert_eq!(Duration::from_secs(3).checked_sub(Duration::from_secs(5)), None);
    assert_eq!(Duration::new(u64::MAX, 999_999_999).checked_add(Duration::new(0, 1)), None);
    assert!(Duration::from_secs(1).is_shorter_than(&Duration::new(1, 1)));
    assert_eq!(Duration::from_secs(9).min(Duration::from_secs(4)), Duration::from_secs(4));
    let t = Instant::from_origin(Duration::from_secs(10));
    assert_eq!(t.saturating_duration_since(Instant::from_origin(Duration::from_secs(4))), Duration::from_secs(6));
    assert_eq!(t.checked_sub(Duration::from_secs(11)), None);
    assert_eq!(t.checked_sub(Duration::from_secs(1)).unwrap().since_origin(), Duration::from_secs(9));
}

#[test]
fn seek_steps_rewind_locate_skip_decode_and_fill() {
    // Behind the current frame: rewind first.
    assert_eq!(seek_step(SeekPhase::Start, 10, 1000, 200, 0, 2, 48_000, false), (SeekPhase::Locate, SeekAction::Rewind));
    // In the buffer: move the read position there.
    assert_eq!(seek_step(SeekPhase::Start, 960, 1000, 200, 0, 2, 48_000, false), (SeekPhase::Done, SeekAction::SetPosition(120)));
    // Far ahead: drop the buffer, skip, decode, step back, fill.
    assert_eq!(seek_step(SeekPhase::Locate, 72_000, 1000, 200, 0, 2, 48_000, false), (SeekPhase::Skip, SeekAction::ClearBuffer));
    assert_eq!(seek_step(SeekPhase::Skip, 72_000, 1000, 0, 0, 2, 48_000, false), (SeekPhase::Skip, SeekAction::SkipPacket));
    assert_eq!(seek_step(SeekPhase::Skip, 72_000, 68_160, 0, 0, 2, 48_000, false), (SeekPhase::Decode, SeekAction::DecodePacket));
    assert_eq!(seek_step(SeekPhase::Decode, 72_000, 71_040, 1920, 0, 2, 48_000, false), (SeekPhase::Decode, SeekAction::DecodePacket));
    assert_eq!(seek_step(SeekPhase::Decode, 72_000, 72_480, 3840, 0, 2, 48_000, false), (SeekPhase::Prefill, SeekAction::SetPosition(2880)));
    assert_eq!(current_frame(72_480, 3840, 2880, 2), 72_000);
    assert_eq!(seek_step(SeekPhase::Prefill, 72_000, 72_480, 3840, 2880, 2, 48_000, false), (SeekPhase::Prefill, SeekAction::DecodePacket));
    assert_eq!(seek_step(SeekPhase::Prefill, 72_000, 80_000, 13_000, 2880, 2, 48_000, false), (SeekPhase::Done, SeekAction::Finish));
    // The end of the stream.
    assert_eq!(seek_step(SeekPhase::Skip, 72_000, 1000, 0, 0, 2, 48_000, true), (SeekPhase::Done, SeekAction::Finish));
    assert_eq!(seek_step(SeekPhase::Decode, 72_000, 70_000, 960, 0, 2, 48_000, true), (SeekPhase::Done, SeekAction::Finish));
    assert_eq!(seek_step(SeekPhase::Prefill, 72_000, 72_480, 3840, 2880, 2, 48_000, true), (SeekPhase::Done, SeekAction::Finish));
    assert_eq!(seek_step(SeekPhase::Done, 0, 0, 0, 0, 1, 48_000, false), (SeekPhase::Done, SeekAction::Finish));
}

#[test]
fn refill_gives_up_after_empty_packets() {
    assert_eq!(refill_step(None, 10, 3, false), (None, RefillAction::HandOut));
    assert_eq!(refill_step(None, 10, 10, false), (Some(0), RefillAction::Clear));
    assert_eq!(refill_step(Some(0), 0, 0, false), (Some(1), RefillAction::Decode));
    assert_eq!(refill_step(Some(5), 4, 0, false), (None, RefillAction::HandOut));
    assert_eq!(refill_step(Some(MAX_EMPTY_PACKETS - 1), 0, 0, false), (Some(MAX_EMPTY_PACKETS), RefillAction::Decode));
    assert_eq!(refill_step(Some(MAX_EMPTY_PACKETS), 0, 0, false), (None, RefillAction::End));
    assert_eq!(refill_step(Some(3), 0, 0, true), (None, RefillAction::End));
    assert_eq!(MAX_EMPTY_PACKETS, 128);
}

#[test]
fn clock_text_splits_into_minutes_or_hours() {
    for secs in [0u64, 9, 59, 60, 61, 599, 3599, 3600, 3601, 7325, 86_399, 360_000] {
        let text = format_duration(Duration::new(secs, 999_999_999));
        let parts: Vec<&str> = text.split(':').collect();
        let (h, m, x) = if secs < 3600 {
            assert_eq!(parts.len(), 2, "{}", text);
            (0, parts[0], parts[1])
        } else {
            assert_eq!(parts.len(), 3, "{}", text);
            assert_eq!(parts[1].len(), 2);
            assert!(!parts[0].starts_with('0'));
            (parts[0].parse::<u64>().unwrap(), parts[1], parts[2])
        };
        assert_eq!(x.len(), 2);
        assert!(m.len() == 1 || !m.starts_with('0') || h > 0);
        let (m, x): (u64, u64) = (m.parse().unwrap(), x.parse().unwrap());
        assert!(m < 60 && x < 60);
        assert_eq!(h * 3600 + m * 60 + x, secs);
    }
}
