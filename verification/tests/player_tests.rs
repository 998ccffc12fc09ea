use music_rust::cache::{CacheEntry, CachedTrackMeta, LibraryCache};
use music_rust::editor::{plan_tag_edits, FieldEdit, MetadataEditState};
use music_rust::catalog::{group_tracks, sort_album_tracks, AlbumGroup, ArtistGroup, TrackInfo};
use music_rust::player::{Player, SkipPlan, Transport};
use music_rust::text::format_duration;
use music_rust::time::{Duration, Instant};

fn track(path: &str, title: &str, artist: &str, album: &str, secs: u64, number: Option<u32>) -> TrackInfo {
    TrackInfo {
        path: path.to_string(),
        title: title.to_string(),
        artist: artist.to_string(),
        album: album.to_string(),
        duration: Duration::from_secs(secs),
        track_number: number,
        flat_index: 0,
    }
}

fn at(secs: u64) -> Instant {
    Instant::from_origin(Duration::from_secs(secs))
}

#[test]
fn test_track_info_instantiation() {
    let track = TrackInfo {
        path: "/music/song.mp3".to_string(),
        title: "Test Title".to_string(),
        artist: "Test Artist".to_string(),
        album: "Test Album".to_string(),
        duration: Duration::from_secs(180),
        track_number: Some(1),
        flat_index: 0,
    };
    assert_eq!(track.title, "Test Title");
    assert_eq!(track.duration.as_secs(), 180);
    assert_eq!(track.flat_index, 0);
}

#[test]
fn test_album_and_artist_group_hierarchy() {
    let track1 = TrackInfo {
        path: "/music/01.mp3".to_string(),
        title: "Track 1".to_string(),
        artist: "Artist A".to_string(),
        album: "Album 1".to_string(),
        duration: Duration::from_secs(120),
        track_number: Some(1),
        flat_index: 0,
    };
    let track2 = TrackInfo {
        path: "/music/02.mp3".to_string(),
        title: "Track 2".to_string(),
        artist: "Artist A".to_string(),
        album: "Album 1".to_string(),
        duration: Duration::from_secs(200),
        track_number: Some(2),
        flat_index: 1,
    };
    let album = AlbumGroup {
        name: "Album 1".to_string(),
        artist: "Artist A".to_string(),
        tracks: vec![track1, track2],
    };
    let artist = ArtistGroup { name: "Artist A".to_string(), albums: vec![album] };
    assert_eq!(artist.albums.len(), 1);
    assert_eq!(artist.albums[0].tracks.len(), 2);
    assert_eq!(artist.albums[0].tracks[0].title, "Track 1");
}

#[test]
fn test_volume_and_mute() {
    let mut player = Player::new();
    player.set_volume(80);
    assert_eq!(player.volume, 80);
    assert_eq!(player.previous_volume, Some(80));

    // Toggle mute
    player.toggle_mute();
    assert_eq!(player.volume, 0);
    assert_eq!(player.previous_volume, Some(80));

    // Toggle unmute restores 80
    player.toggle_mute();
    assert_eq!(player.volume, 80);

    // Volume up un-mutes automatically if muted
    player.toggle_mute();
    assert_eq!(player.volume, 0);
    player.volume_up();
    assert_eq!(player.volume, 5);
}

#[test]
fn test_player_stop() {
    let mut player = Player::new();
    player.current_track_index = Some(2);
    player.is_paused = true;
    player.stop();
    assert_eq!(player.current_track_index, None);
    assert!(!player.is_paused);
    assert_eq!(player.track_start_time, None);
}

#[test]
fn test_format_duration() {
    assert_eq!(format_duration(Duration::from_secs(0)), "0:00");
    assert_eq!(format_duration(Duration::from_secs(9)), "0:09");
    assert_eq!(format_duration(Duration::from_secs(65)), "1:05");
    assert_eq!(format_duration(Duration::from_secs(3599)), "59:59");
    assert_eq!(format_duration(Duration::from_secs(3600)), "1:00:00");
    assert_eq!(format_duration(Duration::from_secs(3665)), "1:01:05");
    assert_eq!(format_duration(Duration::from_secs(7325)), "2:02:05");
}

#[test]
fn test_next_and_previous_empty() {
    let player = Player::new();
    assert!(matches!(player.next(), SkipPlan::Stay));
    assert!(matches!(player.previous(at(0)), SkipPlan::Stay));
}

#[test]
fn test_rescan_directory_preserves_playing_track() {
    let mut player = Player::new();
    let tracks = vec![track("/tmp/music_rust_test/test_song.mp3", "test_song", "Unknown Artist", "music_rust_test", 0, None)];
    player.load_tracks(&tracks);
    if !player.flat_playlist.is_empty() {
        player.current_track_index = Some(0);
        let playing_path = player.current_track().unwrap().path.clone();

        // Rescan
        player.load_tracks(&tracks);
        assert_eq!(player.current_track().map(|t| &t.path), Some(&playing_path));
    }
}

fn sirenia() -> TrackInfo {
    track(
        "/home/iapizarro/Music/Sirenia/Sirenia - The Enigma of Life (Full Album) [5Frbt6Z_rO8].opus",
        "Sirenia Opus Test",
        "Sirenia",
        "Test Album",
        3857,
        Some(1),
    )
}

#[test]
fn test_play_opus_track() {
    let mut player = Player::new();
    let t = sirenia();
    player.flat_playlist.push(t.duplicate());
    let to_play = player.play_index(0).expect("track in playlist");
    player.begin_track(&to_play, at(1000));
    assert_eq!(player.current_track_index, Some(0));
    assert!(!player.is_paused);
    player.stop();
}

#[test]
fn test_seek_opus_track() {
    let mut player = Player::new();
    let t = sirenia();
    player.flat_playlist.push(t.duplicate());
    player.begin_track(&t, at(1000));
    let now = at(1000);

    let seek = |player: &mut Player, secs: u64| {
        let pos = player.seek_target(Duration::from_secs(secs)).expect("a track is current");
        player.seek_applied(pos, now);
    };

    // Seek forward to 60s
    seek(&mut player, 60);
    let elapsed_60 = player.current_elapsed_duration(now);
    assert!(elapsed_60.as_secs() >= 59 && elapsed_60.as_secs() <= 62);

    // Seek further forward to 120s
    seek(&mut player, 120);
    let elapsed_120 = player.current_elapsed_duration(now);
    assert!(elapsed_120.as_secs() >= 119 && elapsed_120.as_secs() <= 122);

    // Seek backward to 15s
    seek(&mut player, 15);
    let elapsed_15 = player.current_elapsed_duration(now);
    assert!(elapsed_15.as_secs() >= 14 && elapsed_15.as_secs() <= 17);

    // Seek back to start (0s)
    seek(&mut player, 0);
    let elapsed_0 = player.current_elapsed_duration(now);
    assert!(elapsed_0.as_secs() <= 2);

    player.stop();
}

#[test]
fn grouping_sorts_artists_albums_and_tracks() {
    let tracks = vec![
        track("/m/b/y/02.mp3", "B-Y-2", "Beta", "Yellow", 10, Some(2)),
        track("/m/a/x/z.mp3", "A-X-none-z", "Alpha", "X", 10, None),
        track("/m/b/y/01.mp3", "B-Y-1", "Beta", "Yellow", 10, Some(1)),
        track("/m/a/x/a.mp3", "A-X-none-a", "Alpha", "X", 10, None),
        track("/m/a/w/1.mp3", "A-W-1", "Alpha", "W", 10, Some(1)),
        track("/m/a/x/5.mp3", "A-X-5", "Alpha", "X", 10, Some(5)),
    ];
    let groups = group_tracks(&tracks);
    assert_eq!(groups.len(), 2);
    assert_eq!(groups[0].name, "Alpha");
    assert_eq!(groups[1].name, "Beta");
    assert_eq!(groups[0].albums.len(), 2);
    assert_eq!(groups[0].albums[0].name, "W");
    assert_eq!(groups[0].albums[1].name, "X");
    assert_eq!(groups[0].albums[1].artist, "Alpha");
    let x: Vec<&str> = groups[0].albums[1].tracks.iter().map(|t| t.title.as_str()).collect();
    assert_eq!(x, vec!["A-X-5", "A-X-none-a", "A-X-none-z"]);
    let y: Vec<&str> = groups[1].albums[0].tracks.iter().map(|t| t.title.as_str()).collect();
    assert_eq!(y, vec!["B-Y-1", "B-Y-2"]);
}

#[test]
fn grouping_keeps_every_track_once() {
    let tracks = vec![
        track("/m/b/1.mp3", "b1", "B", "Q", 1, Some(1)),
        track("/m/a/1.mp3", "a1", "A", "P", 1, Some(1)),
        track("/m/a/1.mp3", "a1", "A", "P", 1, Some(1)),
        track("/m/a/9.mp3", "a9", "A", "R", 1, None),
        track("/m/c/1.mp3", "c1", "C", "P", 1, Some(4)),
    ];
    let groups = group_tracks(&tracks);
    let mut grouped: Vec<String> = Vec::new();
    for g in &groups {
        for a in &g.albums {
            for t in &a.tracks {
                grouped.push(t.path.clone());
            }
        }
    }
    let mut expected: Vec<String> = tracks.iter().map(|t| t.path.clone()).collect();
    grouped.sort();
    expected.sort();
    assert_eq!(grouped, expected);
    let mut player = Player::new();
    player.load_tracks(&tracks);
    assert_eq!(player.flat_playlist.len(), 5);
}

#[test]
fn album_sort_is_stable_for_equal_keys() {
    let tracks = vec![
        track("/m/one/same.mp3", "first", "A", "B", 1, Some(3)),
        track("/m/two/same.mp3", "second", "A", "B", 1, Some(3)),
        track("/m/x.mp3", "numbered", "A", "B", 1, Some(1)),
    ];
    let sorted = sort_album_tracks(&tracks);
    let titles: Vec<&str> = sorted.iter().map(|t| t.title.as_str()).collect();
    assert_eq!(titles, vec!["numbered", "first", "second"]);
}

#[test]
fn flat_playlist_numbers_every_track() {
    let tracks = vec![
        track("/m/b/1.mp3", "b1", "B", "Q", 1, Some(1)),
        track("/m/a/1.mp3", "a1", "A", "P", 1, Some(1)),
        track("/m/a/2.mp3", "a2", "A", "P", 1, Some(2)),
    ];
    let mut player = Player::new();
    player.load_tracks(&tracks);
    let titles: Vec<&str> = player.flat_playlist.iter().map(|t| t.title.as_str()).collect();
    assert_eq!(titles, vec!["a1", "a2", "b1"]);
    for (i, t) in player.flat_playlist.iter().enumerate() {
        assert_eq!(t.flat_index, i);
    }
    assert_eq!(player.artists[1].albums[0].tracks[0].flat_index, 2);
    player.rebuild_flat_playlist();
    let again: Vec<usize> = player.flat_playlist.iter().map(|t| t.flat_index).collect();
    assert_eq!(again, vec![0, 1, 2]);
}

#[test]
fn load_drops_current_track_that_disappeared() {
    let mut player = Player::new();
    player.load_tracks(&vec![track("/m/a.mp3", "a", "A", "P", 1, None), track("/m/b.mp3", "b", "A", "P", 1, None)]);
    player.current_track_index = Some(1);
    player.load_tracks(&vec![track("/m/c.mp3", "c", "A", "P", 1, None), track("/m/b.mp3", "b", "A", "P", 1, None)]);
    assert_eq!(player.current_track_index, Some(0));
    player.load_tracks(&vec![track("/m/c.mp3", "c", "A", "P", 1, None)]);
    assert_eq!(player.current_track_index, None);
}

fn three_track_player() -> Player {
    let mut player = Player::new();
    player.load_tracks(&vec![
        track("/m/1.mp3", "1", "A", "P", 100, Some(1)),
        track("/m/2.mp3", "2", "A", "P", 100, Some(2)),
        track("/m/3.mp3", "3", "A", "P", 100, Some(3)),
    ]);
    player
}

#[test]
fn next_tries_every_track_after_the_current_one() {
    let mut player = three_track_player();
    match player.next() {
        SkipPlan::Attempt(v) => assert_eq!(v, vec![0, 1, 2]),
        _ => panic!("expected a plan"),
    }
    player.current_track_index = Some(1);
    match player.next() {
        SkipPlan::Attempt(v) => assert_eq!(v, vec![2, 0, 1]),
        _ => panic!("expected a plan"),
    }
    player.end_search();
    assert_eq!(player.current_track_index, None);
}

#[test]
fn previous_goes_back_or_restarts() {
    let mut player = three_track_player();
    let t = player.play_index(1).unwrap();
    player.begin_track(&t, at(50));
    match player.previous(at(52)) {
        SkipPlan::Attempt(v) => assert_eq!(v, vec![0, 2, 1]),
        _ => panic!("expected a plan"),
    }
    assert!(matches!(player.previous(at(54)), SkipPlan::Restart));
    let pos = player.restart_track().unwrap();
    assert_eq!(pos.as_secs(), 0);
    player.current_track_index = Some(7);
    assert!(matches!(player.previous(at(50)), SkipPlan::Stay));
}

#[test]
fn pausing_freezes_elapsed_time() {
    let mut player = three_track_player();
    let t = player.play_index(0).unwrap();
    player.begin_track(&t, at(10));
    assert!(!player.toggle_pause(false, at(20)));
    assert!(player.is_paused);
    assert_eq!(player.current_elapsed_duration(at(25)).as_secs(), 10);
    assert_eq!(player.current_elapsed_duration(at(90)).as_secs(), 10);
    assert!(player.toggle_pause(true, at(30)));
    assert_eq!(player.elapsed_paused_duration.as_secs(), 10);
    assert_eq!(player.current_elapsed_duration(at(35)).as_secs(), 15);
    // the elapsed time never passes the track's length
    assert_eq!(player.current_elapsed_duration(at(500)).as_secs(), 100);
}

#[test]
fn tick_and_transport_requests() {
    let mut player = three_track_player();
    assert_eq!(player.play_pause_request(), Transport::PlayFirst);
    assert_eq!(player.play_request(), Transport::PlayFirst);
    assert_eq!(player.pause_request(), Transport::Nothing);
    assert!(!player.tick(true));
    let t = player.play_index(0).unwrap();
    player.begin_track(&t, at(0));
    assert!(player.tick(true));
    assert!(!player.tick(false));
    assert_eq!(player.play_pause_request(), Transport::TogglePause);
    assert_eq!(player.pause_request(), Transport::TogglePause);
    assert_eq!(player.play_request(), Transport::Nothing);
    player.toggle_pause(false, at(1));
    assert!(!player.tick(true));
    assert_eq!(player.play_request(), Transport::TogglePause);
}

#[test]
fn seek_is_limited_to_track_length() {
    let mut player = three_track_player();
    assert!(player.seek_target(Duration::from_secs(5)).is_none());
    let t = player.play_index(2).unwrap();
    player.begin_track(&t, at(0));
    assert_eq!(player.seek_target(Duration::from_secs(500)).unwrap().as_secs(), 100);
    assert_eq!(player.seek_target(Duration::from_secs(42)).unwrap().as_secs(), 42);
    // a seek before the clock's origin counts the track as started now
    player.seek_applied(Duration::from_secs(42), at(10));
    assert_eq!(player.track_start_time, Some(at(10)));
}

#[test]
fn volume_is_clamped() {
    let mut player = Player::new();
    player.set_volume(250);
    assert_eq!(player.volume, 100);
    player.set_volume(-3);
    assert_eq!(player.volume, 0);
    assert_eq!(player.previous_volume, Some(100));
    player.volume_down();
    assert_eq!(player.volume, 0);
    player.previous_volume = None;
    player.toggle_mute();
    assert_eq!(player.volume, 50);
}

fn meta(title: &str, mtime: u64) -> CachedTrackMeta {
    CachedTrackMeta {
        mtime,
        size: 1048576,
        title: title.to_string(),
        artist: "Cached Artist".to_string(),
        album: "Cached Album".to_string(),
        duration_secs: 210,
        duration_nanos: 500000,
        track_number: Some(3),
    }
}

#[test]
fn cache_lookup_after_insert_and_remove() {
    let mut cache = LibraryCache::new();
    cache.insert("/music/song.mp3".to_string(), meta("Cached Song", 12345678));
    cache.insert("/music/another.mp3".to_string(), meta("Another", 1));
    let entry = cache.get("/music/song.mp3").expect("entry");
    assert_eq!(entry.title, "Cached Song");
    assert_eq!(entry.artist, "Cached Artist");
    assert_eq!(entry.album, "Cached Album");
    assert_eq!(entry.duration_secs, 210);
    assert_eq!(entry.track_number, Some(3));
    cache.insert("/music/song.mp3".to_string(), meta("Replaced", 2));
    assert_eq!(cache.get("/music/song.mp3").unwrap().title, "Replaced");
    assert_eq!(cache.paths(), vec!["/music/another.mp3".to_string(), "/music/song.mp3".to_string()]);
    cache.remove("/music/song.mp3");
    assert!(cache.get("/music/song.mp3").is_none());
    assert_eq!(cache.get("/music/another.mp3").unwrap().title, "Another");
}

#[test]
fn cache_retain_and_absorb() {
    let mut cache = LibraryCache::new();
    let changed = cache.absorb(vec![
        CacheEntry { path: "/b".to_string(), meta: meta("b", 1) },
        CacheEntry { path: "/a".to_string(), meta: meta("a", 1) },
        CacheEntry { path: "/c".to_string(), meta: meta("c", 1) },
    ]);
    assert!(changed);
    assert!(!cache.absorb(Vec::new()));
    assert_eq!(cache.paths(), vec!["/a".to_string(), "/b".to_string(), "/c".to_string()]);
    assert!(!cache.retain_present(&vec![true, true, true]));
    assert!(cache.retain_present(&vec![true, false, true]));
    assert!(cache.get("/b").is_none());
    assert_eq!(cache.get("/c").unwrap().title, "c");
    assert_eq!(cache.entries().len(), 2);
}

fn meta_to_json(m: &CachedTrackMeta) -> serde_json::Value {
    let mut o = serde_json::Map::new();
    o.insert("mtime".to_string(), serde_json::Value::from(m.mtime));
    o.insert("size".to_string(), serde_json::Value::from(m.size));
    o.insert("title".to_string(), serde_json::Value::from(m.title.clone()));
    o.insert("artist".to_string(), serde_json::Value::from(m.artist.clone()));
    o.insert("album".to_string(), serde_json::Value::from(m.album.clone()));
    o.insert("duration_secs".to_string(), serde_json::Value::from(m.duration_secs));
    o.insert("duration_nanos".to_string(), serde_json::Value::from(m.duration_nanos));
    o.insert("track_number".to_string(), m.track_number.map(serde_json::Value::from).unwrap_or(serde_json::Value::Null));
    serde_json::Value::Object(o)
}

fn meta_from_json(v: &serde_json::Value) -> CachedTrackMeta {
    CachedTrackMeta {
        mtime: v["mtime"].as_u64().unwrap(),
        size: v["size"].as_u64().unwrap(),
        title: v["title"].as_str().unwrap().to_string(),
        artist: v["artist"].as_str().unwrap().to_string(),
        album: v["album"].as_str().unwrap().to_string(),
        duration_secs: v["duration_secs"].as_u64().unwrap(),
        duration_nanos: v["duration_nanos"].as_u64().unwrap() as u32,
        track_number: v["track_number"].as_u64().map(|n| n as u32),
    }
}

#[test]
fn test_library_cache_serde() {
    let mut cache = LibraryCache::new();
    let meta = CachedTrackMeta {
        mtime: 12345678,
        size: 1048576,
        title: "Cached Song".to_string(),
        artist: "Cached Artist".to_string(),
        album: "Cached Album".to_string(),
        duration_secs: 210,
        duration_nanos: 500000,
        track_number: Some(3),
    };
    let path = "/music/song.mp3".to_string();
    cache.insert(path.clone(), meta);

    let mut entries = serde_json::Map::new();
    for e in cache.entries() {
        entries.insert(e.path.clone(), meta_to_json(&e.meta));
    }
    let mut root = serde_json::Map::new();
    root.insert("entries".to_string(), serde_json::Value::Object(entries));
    let json = serde_json::to_string(&serde_json::Value::Object(root)).expect("Failed to serialize cache");

    let parsed: serde_json::Value = serde_json::from_str(&json).expect("Failed to deserialize cache");
    let mut deserialized = LibraryCache::new();
    let fresh: Vec<CacheEntry> = parsed["entries"]
        .as_object()
        .unwrap()
        .iter()
        .map(|(p, m)| CacheEntry { path: p.clone(), meta: meta_from_json(m) })
        .collect();
    deserialized.absorb(fresh);

    let entry = deserialized.get(&path).expect("Entry not found in deserialized cache");
    assert_eq!(entry.title, "Cached Song");
    assert_eq!(entry.artist, "Cached Artist");
    assert_eq!(entry.album, "Cached Album");
    assert_eq!(entry.duration_secs, 210);
    assert_eq!(entry.track_number, Some(3));
}

#[test]
fn test_update_track_metadata() {
    // The editor's values for the file, as saved.
    let t = track("/tmp/music_rust_meta_test/test_song.opus", "Old", "Old Artist", "Old Album", 3, None);
    let mut editor = MetadataEditState::for_track(&t, None, None);
    editor.title = "Updated Opus Title".to_string();
    editor.artist = "Updated Opus Artist".to_string();
    editor.album = "Updated Opus Album".to_string();
    editor.genre = "Gothic Rock".to_string();
    editor.year = "2025".to_string();
    editor.track_number = "7".to_string();
    let request = editor.save_request();
    assert_eq!(request.year, Some(2025));
    assert_eq!(request.track_number, Some(7));

    // What is written to the tag.
    let edits = plan_tag_edits(&request.title, &request.artist, &request.album, &request.genre, request.year, request.track_number);
    assert!(matches!(edits.title, FieldEdit::Assign(ref v) if v == "Updated Opus Title"));
    assert!(matches!(edits.artist, FieldEdit::Assign(ref v) if v == "Updated Opus Artist"));
    assert!(matches!(edits.album, FieldEdit::Assign(ref v) if v == "Updated Opus Album"));
    assert!(matches!(edits.genre, FieldEdit::Assign(ref v) if v == "Gothic Rock"));
    assert_eq!(edits.year, Some(2025));
    assert_eq!(edits.track, Some(7));

    // The cache entry of the file is dropped so a rescan reads the new tags.
    let mut cache = LibraryCache::new();
    cache.insert(request.path.clone(), meta("Old", 1));
    cache.remove(&request.path);
    assert!(cache.get(&request.path).is_none());
}

#[test]
fn cache_tells_paths_apart_by_components() {
    let mut cache = LibraryCache::new();
    cache.insert("/m/a.mp3".to_string(), meta("A", 1));
    assert_eq!(cache.get("/m//a.mp3").unwrap().title, "A");
    assert_eq!(cache.get("/m/./a.mp3").unwrap().title, "A");
    assert_eq!(cache.get("/m/a.mp3/").unwrap().title, "A");
    assert!(cache.get("/m/b/../a.mp3").is_none());
    assert!(cache.get("m/a.mp3").is_none());
    // Storing under another spelling of the same path replaces the record
    // and keeps the text first stored.
    cache.insert("/m//a.mp3".to_string(), meta("B", 2));
    assert_eq!(cache.get("/m/a.mp3").unwrap().title, "B");
    assert_eq!(cache.paths(), vec!["/m/a.mp3".to_string()]);
    cache.remove("/m/./a.mp3");
    assert!(cache.get("/m/a.mp3").is_none());
}

#[test]
fn current_track_is_found_again_by_path() {
    let mut player = Player::new();
    player.load_tracks(&vec![track("/m//a.mp3", "a", "A", "P", 1, Some(1)), track("/m/b.mp3", "b", "A", "P", 1, Some(2))]);
    player.current_track_index = Some(0);
    player.load_tracks(&vec![track("/m/b.mp3", "b", "A", "P", 1, Some(1)), track("/m/a.mp3", "a", "A", "P", 1, Some(2))]);
    assert_eq!(player.current_track_index, Some(1));
    assert_eq!(music_rust::player::position_of_path(&player.flat_playlist, &"/m/./b.mp3".to_string()), Some(0));
    assert_eq!(music_rust::player::position_of_path(&player.flat_playlist, &"/m/c.mp3".to_string()), None);
}
