use vstd::prelude::*;

use crate::cache::{CacheEntry, CachedTrackMeta};
use crate::catalog::{spec_file_name, TrackInfo};
use vstd::string::StringExecFns;
use crate::text::{ascii_lower, char_to_ascii_lower, chars_of, compare_chars, trim_str, trimmed, Order};
use crate::time::Duration;

verus! {

/// An audio file found while scanning the music folder.
pub struct ScannedFile {
    pub path: String,
    /// Modification time in whole seconds since the Unix epoch (0 when unknown).
    pub mtime: u64,
    /// Size in bytes.
    pub size: u64,
}

/// The tag fields read from a file.
pub struct TagFields {
    pub title: Option<String>,
    pub artist: Option<String>,
    pub album: Option<String>,
    pub track: Option<u32>,
}

/// What reading a file's properties and tags gave.
pub struct ProbeResult {
    pub duration: Duration,
    /// The primary tag, or else the first tag, when the file has one.
    pub tag: Option<TagFields>,
}

/// What `std::path::Path::file_stem` gives for the path `path`.
pub uninterp spec fn spec_file_stem(path: Seq<char>) -> Option<Seq<char>>;

/// What `std::path::Path::parent` gives for the path `path`.
pub uninterp spec fn spec_parent(path: Seq<char>) -> Option<Seq<char>>;

/// What `std::path::Path::extension` gives for the path `path`.
pub uninterp spec fn spec_extension(path: Seq<char>) -> Option<Seq<char>>;

/// Calls `std::path::Path::file_stem`; the contract claims only that the
/// result is what `spec_file_stem` names.
#[verifier::external_body]
fn path_file_stem(path: &str) -> (stem: Option<String>)
    ensures
        match stem {
            Some(s) => spec_file_stem(path@) == Some(s@),
            None => spec_file_stem(path@) is None,
        },
{
    std::path::Path::new(path).file_stem().and_then(|n| n.to_str()).map(|n| n.to_string())
}

/// Calls `std::path::Path::parent`; the contract claims only that the
/// result is what `spec_parent` names.
#[verifier::external_body]
fn path_parent(path: &str) -> (parent: Option<String>)
    ensures
        match parent {
            Some(p) => spec_parent(path@) == Some(p@),
            None => spec_parent(path@) is None,
        },
{
    std::path::Path::new(path).parent().and_then(|p| p.to_str()).map(|p| p.to_string())
}

/// Calls `std::path::Path::extension`; the contract claims only that the
/// result is what `spec_extension` names.
#[verifier::external_body]
fn path_extension(path: &str) -> (ext: Option<String>)
    ensures
        match ext {
            Some(e) => spec_extension(path@) == Some(e@),
            None => spec_extension(path@) is None,
        },
{
    std::path::Path::new(path).extension().and_then(|e| e.to_str()).map(|e| e.to_string())
}

/// `s` with ASCII capitals made small.
pub open spec fn ascii_lowercase(s: Seq<char>) -> Seq<char> {
    s.map_values(|c: char| ascii_lower(c))
}

/// The file extensions the library plays, in lower case.
pub open spec fn is_audio_extension_spec(e: Seq<char>) -> bool {
    ||| e == seq!['m', 'p', '3']
    ||| e == seq!['f', 'l', 'a', 'c']
    ||| e == seq!['w', 'a', 'v']
    ||| e == seq!['o', 'g', 'g']
    ||| e == seq!['m', '4', 'a']
    ||| e == seq!['a', 'a', 'c']
    ||| e == seq!['o', 'p', 'u', 's']
    ||| e == seq!['w', 'm', 'a']
}

fn lowercase_chars(s: &str) -> (v: Vec<char>)
    ensures
        v@ == ascii_lowercase(s@),
{
    let c = chars_of(s);
    let mut v: Vec<char> = Vec::new();
    for i in 0..c.len()
        invariant
            c@ == s@,
            v@ == ascii_lowercase(s@).take(i as int),
    {
        v.push(char_to_ascii_lower(c[i]));
        proof {
            assert(ascii_lowercase(s@).take(i + 1) =~= ascii_lowercase(s@).take(i as int).push(ascii_lower(c@[i as int])));
        }
    }
    proof {
        assert(ascii_lowercase(s@).take(s@.len() as int) =~= ascii_lowercase(s@));
    }
    v
}

/// Whether a file with extension `ext` is played, ignoring ASCII case.
pub fn is_audio_extension(ext: &str) -> (b: bool)
    ensures
        b == is_audio_extension_spec(ascii_lowercase(ext@)),
{
    let e = lowercase_chars(ext);
    let known: Vec<Vec<char>> = vec![
        vec!['m', 'p', '3'],
        vec!['f', 'l', 'a', 'c'],
        vec!['w', 'a', 'v'],
        vec!['o', 'g', 'g'],
        vec!['m', '4', 'a'],
        vec!['a', 'a', 'c'],
        vec!['o', 'p', 'u', 's'],
        vec!['w', 'm', 'a'],
    ];
    assert(known@[0]@ == seq!['m', 'p', '3']);
    assert(known@[1]@ == seq!['f', 'l', 'a', 'c']);
    assert(known@[2]@ == seq!['w', 'a', 'v']);
    assert(known@[3]@ == seq!['o', 'g', 'g']);
    assert(known@[4]@ == seq!['m', '4', 'a']);
    assert(known@[5]@ == seq!['a', 'a', 'c']);
    assert(known@[6]@ == seq!['o', 'p', 'u', 's']);
    assert(known@[7]@ == seq!['w', 'm', 'a']);
    for i in 0..known.len()
        invariant
            known@.len() == 8,
            e@ == ascii_lowercase(ext@),
            forall|j: int| 0 <= j < i ==> (#[trigger] known@[j])@ != e@,
            is_audio_extension_spec(e@) <==> exists|j: int| 0 <= j < 8 && (#[trigger] known@[j])@ == e@,
    {
        if compare_chars(&known[i], &e) == Order::Equal {
            return true;
        }
    }
    false
}

/// Whether the path names an Opus file: its extension is `opus` in any
/// ASCII case.
pub fn is_opus_path(path: &str) -> (b: bool)
    ensures
        b == match spec_extension(path@) {
            Some(e) => ascii_lowercase(e) == seq!['o', 'p', 'u', 's'],
            None => false,
        },
{
    match path_extension(path) {
        Some(e) => {
            let l = lowercase_chars(e.as_str());
            let opus: Vec<char> = vec!['o', 'p', 'u', 's'];
            compare_chars(&l, &opus) == Order::Equal
        },
        None => false,
    }
}


/// A tag field when it holds more than white space (trimmed), else `fallback`.
pub open spec fn tag_text(field: Option<Seq<char>>, fallback: Seq<char>) -> Seq<char> {
    match field {
        Some(t) => if trimmed(t).len() > 0 { trimmed(t) } else { fallback },
        None => fallback,
    }
}

/// The title shown for a file without a usable title tag.
pub open spec fn default_title(path: Seq<char>) -> Seq<char> {
    match spec_file_stem(path) {
        Some(s) => s,
        None => "Unknown Title"@,
    }
}

/// The album shown for a file without a usable album tag: the name of its folder.
pub open spec fn default_album(path: Seq<char>) -> Seq<char> {
    match spec_parent(path) {
        Some(p) => match spec_file_name(p) {
            Some(n) => n,
            None => "Unknown Album"@,
        },
        None => "Unknown Album"@,
    }
}

/// The artist shown for a file without a usable artist tag.
pub open spec fn default_artist() -> Seq<char> {
    "Unknown Artist"@
}

/// An optional string's characters.
pub open spec fn opt_view(s: Option<String>) -> Option<Seq<char>> {
    match s {
        Some(x) => Some(x@),
        None => None,
    }
}

/// What the track of a probed file shows: title, artist, album, duration
/// in nanoseconds and track number.
pub open spec fn probed_fields(path: Seq<char>, probe: Option<ProbeResult>) -> (Seq<char>, Seq<char>, Seq<char>, nat, Option<u32>) {
    match probe {
        None => (default_title(path), default_artist(), default_album(path), 0, None),
        Some(p) => match p.tag {
            None => (default_title(path), default_artist(), default_album(path), p.duration@, None),
            Some(t) => (
                tag_text(opt_view(t.title), default_title(path)),
                tag_text(opt_view(t.artist), default_artist()),
                tag_text(opt_view(t.album), default_album(path)),
                p.duration@,
                t.track,
            ),
        },
    }
}

fn tag_value(field: &Option<String>, fallback: String) -> (s: String)
    ensures
        s@ == tag_text(opt_view(*field), fallback@),
{
    match field {
        Some(t) => {
            let trimmed_text = trim_str(t.as_str());
            if !trimmed_text.is_empty() {
                trimmed_text.to_owned()
            } else {
                fallback
            }
        },
        None => fallback,
    }
}

/// The track for a file read with `probe` (`None` when it could not be
/// read), numbered 0, and the cache entry that records it.
pub fn probed_track(file: &ScannedFile, probe: Option<ProbeResult>) -> (r: (TrackInfo, CacheEntry))
    ensures
        ({
            let (title, artist, album, duration, number) = probed_fields(file.path@, probe);
            let (t, e) = r;
            &&& t.path@ == file.path@
            &&& t.title@ == title
            &&& t.artist@ == artist
            &&& t.album@ == album
            &&& t.duration@ == duration
            &&& t.track_number == number
            &&& t.flat_index == 0
            &&& e.path@ == file.path@
            &&& e.meta.mtime == file.mtime
            &&& e.meta.size == file.size
            &&& e.meta.title@ == title
            &&& e.meta.artist@ == artist
            &&& e.meta.album@ == album
            &&& e.meta.duration_secs == duration / 1_000_000_000
            &&& e.meta.duration_nanos == duration % 1_000_000_000
            &&& e.meta.track_number == number
        }),
        probe matches Some(p) ==> r.0.duration@ == p.duration@ && r.1.meta.duration_secs == p.duration@ / 1_000_000_000
            && r.1.meta.duration_nanos == p.duration@ % 1_000_000_000,
        probe is None ==> r.0.duration@ == 0 && r.1.meta.duration_secs == 0 && r.1.meta.duration_nanos == 0,
        probe matches Some(p) ==> r.0.track_number == match p.tag {
            Some(tag) => tag.track,
            None => None,
        },
{
    let title = match path_file_stem(file.path.as_str()) {
        Some(s) => s,
        None => String::from_str("Unknown Title"),
    };
    let album = match path_parent(file.path.as_str()) {
        Some(p) => match crate::catalog::path_file_name(p.as_str()) {
            Some(n) => n,
            None => String::from_str("Unknown Album"),
        },
        None => String::from_str("Unknown Album"),
    };
    let artist = String::from_str("Unknown Artist");
    let (title, artist, album, duration, track_number) = match probe {
        None => (title, artist, album, Duration::zero(), None),
        Some(p) => match p.tag {
            None => (title, artist, album, p.duration, None),
            Some(t) => (
                tag_value(&t.title, title),
                tag_value(&t.artist, artist),
                tag_value(&t.album, album),
                p.duration,
                t.track,
            ),
        },
    };
    let meta = CachedTrackMeta {
        mtime: file.mtime,
        size: file.size,
        title: title.clone(),
        artist: artist.clone(),
        album: album.clone(),
        duration_secs: duration.as_secs(),
        duration_nanos: duration.subsec_nanos(),
        track_number,
    };
    let track = TrackInfo {
        path: file.path.clone(),
        title,
        artist,
        album,
        duration,
        track_number,
        flat_index: 0,
    };
    (track, CacheEntry { path: file.path.clone(), meta })
}

/// Whether a cached duration of `secs` seconds and `nanos` nanoseconds can be
/// held as a span (nanoseconds beyond a second carry into the seconds).
pub open spec fn cached_duration_fits(m: CachedTrackMeta) -> bool {
    m.duration_secs + m.duration_nanos / 1_000_000_000 <= u64::MAX
}

/// Whether the cached record's duration can be held as a span.
pub fn duration_fits(m: &CachedTrackMeta) -> (b: bool)
    ensures
        b == cached_duration_fits(*m),
{
    let extra = (m.duration_nanos / 1_000_000_000) as u64;
    m.duration_secs <= u64::MAX - extra
}

/// The track for a file from its cached record, numbered 0, when the record
/// is for the same modification time and size; `None` otherwise.
pub fn cached_track(file: &ScannedFile, cached: Option<&CachedTrackMeta>) -> (t: Option<TrackInfo>)
    requires
        cached matches Some(m) ==> cached_duration_fits(*m),
    ensures
        match cached {
            Some(m) => if m.mtime == file.mtime && m.size == file.size {
                t matches Some(tr) && {
                    &&& tr.path@ == file.path@
                    &&& tr.title == m.title
                    &&& tr.artist == m.artist
                    &&& tr.album == m.album
                    &&& tr.duration@ == m.duration_secs * 1_000_000_000 + m.duration_nanos
                    &&& tr.track_number == m.track_number
                    &&& tr.flat_index == 0
                }
            } else {
                t is None
            },
            None => t is None,
        },
{
    match cached {
        Some(m) => {
            if m.mtime == file.mtime && m.size == file.size {
                Some(TrackInfo {
                    path: file.path.clone(),
                    title: m.title.clone(),
                    artist: m.artist.clone(),
                    album: m.album.clone(),
                    duration: Duration::new(m.duration_secs, m.duration_nanos),
                    track_number: m.track_number,
                    flat_index: 0,
                })
            } else {
                None
            }
        },
        None => None,
    }
}

/// A file that could be read gets the duration read from it, whether or not
/// it has a tag; a file that could not be read counts as lasting nothing.
pub proof fn law_probed_duration_is_read_duration(path: Seq<char>, probe: Option<ProbeResult>)
    ensures
        probe matches Some(p) ==> probed_fields(path, probe).3 == p.duration@,
        probe is None ==> probed_fields(path, probe).3 == 0,
{
}

/// A tag's non-blank title, artist and album are shown trimmed; a file
/// without a readable tag is named after its file and folder.
pub proof fn law_probed_names(path: Seq<char>, probe: Option<ProbeResult>)
    ensures
        probe is Some && probe->0.tag is Some && probe->0.tag->0.title is Some
            && trimmed(probe->0.tag->0.title->0@).len() > 0
            ==> probed_fields(path, probe).0 == trimmed(probe->0.tag->0.title->0@),
        probe is Some && probe->0.tag is Some && probe->0.tag->0.artist is Some
            && trimmed(probe->0.tag->0.artist->0@).len() > 0
            ==> probed_fields(path, probe).1 == trimmed(probe->0.tag->0.artist->0@),
        probe is Some && probe->0.tag is Some && probe->0.tag->0.album is Some
            && trimmed(probe->0.tag->0.album->0@).len() > 0
            ==> probed_fields(path, probe).2 == trimmed(probe->0.tag->0.album->0@),
        (probe is None || probe->0.tag is None) ==> probed_fields(path, probe).0 == default_title(path)
            && probed_fields(path, probe).1 == "Unknown Artist"@ && probed_fields(path, probe).2 == default_album(path),
{
}

} // verus!
