use vstd::prelude::*;

use crate::text::{compare_chars, chars_of, seq_lt, seq_order, Order, lemma_seq_lt_irreflexive,
    lemma_seq_lt_asymmetric, lemma_seq_lt_transitive, lemma_seq_lt_total};
use crate::time::Duration;

verus! {

/// One playable file of the library with the metadata shown for it.
#[derive(Debug, Clone)]
pub struct TrackInfo {
    pub path: String,
    pub title: String,
    pub artist: String,
    pub album: String,
    pub duration: Duration,
    pub track_number: Option<u32>,
    /// Position of the track in the flat playlist.
    pub flat_index: usize,
}

/// The tracks of one album of one artist.
#[derive(Debug, Clone)]
pub struct AlbumGroup {
    pub name: String,
    pub artist: String,
    pub tracks: Vec<TrackInfo>,
}

/// The albums of one artist.
#[derive(Debug, Clone)]
pub struct ArtistGroup {
    pub name: String,
    pub albums: Vec<AlbumGroup>,
}

impl TrackInfo {
    /// A copy of the track.
    pub fn duplicate(&self) -> (t: TrackInfo)
        ensures
            t == *self,
    {
        TrackInfo {
            path: self.path.clone(),
            title: self.title.clone(),
            artist: self.artist.clone(),
            album: self.album.clone(),
            duration: self.duration,
            track_number: self.track_number,
            flat_index: self.flat_index,
        }
    }
}

/// What `std::path::Path::file_name` gives for the path `path`: its last
/// component, or `None` when the path ends in `..` or is a root or empty.
pub uninterp spec fn spec_file_name(path: Seq<char>) -> Option<Seq<char>>;

/// Calls `std::path::Path::file_name` on `path`. The contract claims only that
/// the result is the value `spec_file_name` names for the path's characters.
#[verifier::external_body]
pub(crate) fn path_file_name(path: &str) -> (name: Option<String>)
    ensures
        match name {
            Some(n) => spec_file_name(path@) == Some(n@),
            None => spec_file_name(path@) is None,
        },
{
    std::path::Path::new(path).file_name().and_then(|n| n.to_str()).map(|n| n.to_string())
}

/// The key by which tracks are ordered inside an album: the track number,
/// then the file name.
pub open spec fn track_key(t: TrackInfo) -> (Option<u32>, Option<Seq<char>>) {
    (t.track_number, spec_file_name(t.path@))
}

/// Order on track numbers: numbered tracks come first, by number.
pub open spec fn number_lt(a: Option<u32>, b: Option<u32>) -> bool {
    match (a, b) {
        (Some(x), Some(y)) => x < y,
        (Some(_), None) => true,
        _ => false,
    }
}

/// Order on optional file names: a missing name comes first, then by name.
pub open spec fn name_lt(a: Option<Seq<char>>, b: Option<Seq<char>>) -> bool {
    match (a, b) {
        (None, Some(_)) => true,
        (Some(x), Some(y)) => seq_lt(x, y),
        _ => false,
    }
}

/// Strict order on sort keys.
pub open spec fn key_lt(a: (Option<u32>, Option<Seq<char>>), b: (Option<u32>, Option<Seq<char>>)) -> bool {
    number_lt(a.0, b.0) || (a.0 == b.0 && name_lt(a.1, b.1))
}

/// Whether track `a` sorts strictly before track `b` inside an album.
pub open spec fn track_precedes(a: TrackInfo, b: TrackInfo) -> bool {
    key_lt(track_key(a), track_key(b))
}

proof fn lemma_key_lt_order(
    a: (Option<u32>, Option<Seq<char>>),
    b: (Option<u32>, Option<Seq<char>>),
    c: (Option<u32>, Option<Seq<char>>),
)
    ensures
        !key_lt(a, a),
        key_lt(a, b) ==> !key_lt(b, a),
        key_lt(a, b) && key_lt(b, c) ==> key_lt(a, c),
        a == b || key_lt(a, b) || key_lt(b, a),
{
    if let Some(x) = a.1 {
        lemma_seq_lt_irreflexive(x);
        if let Some(y) = b.1 {
            lemma_seq_lt_asymmetric(x, y);
            lemma_seq_lt_total(x, y);
            if let Some(z) = c.1 {
                if seq_lt(x, y) && seq_lt(y, z) {
                    lemma_seq_lt_transitive(x, y, z);
                }
            }
        }
    }
}

/// Position order used for a stable sort: by key, then by position in the input.
pub open spec fn position_lt(s: Seq<TrackInfo>, i: int, j: int) -> bool {
    track_precedes(s[i], s[j]) || (!track_precedes(s[j], s[i]) && i < j)
}

/// `order` lists each position of `s` exactly once, sorted stably by key.
pub open spec fn stable_order(s: Seq<TrackInfo>, order: Seq<int>) -> bool {
    &&& order.len() == s.len()
    &&& forall|i: int| 0 <= i < order.len() ==> 0 <= #[trigger] order[i] < s.len()
    &&& forall|i: int, j: int| 0 <= i < j < order.len() ==> position_lt(s, #[trigger] order[i], #[trigger] order[j])
}

/// `out` is `s` sorted stably by the album track order.
pub open spec fn is_stable_sort_of(out: Seq<TrackInfo>, s: Seq<TrackInfo>) -> bool {
    &&& out.to_multiset() == s.to_multiset()
    &&& exists|order: Seq<int>|
        stable_order(s, order) && out.len() == s.len() && forall|i: int|
            0 <= i < out.len() ==> #[trigger] out[i] == s[order[i]]
}


proof fn lemma_position_lt_transitive(s: Seq<TrackInfo>, a: int, b: int, c: int)
    requires
        position_lt(s, a, b),
        position_lt(s, b, c),
    ensures
        position_lt(s, a, c),
{
    lemma_key_lt_order(track_key(s[a]), track_key(s[b]), track_key(s[c]));
    lemma_key_lt_order(track_key(s[b]), track_key(s[c]), track_key(s[a]));
    lemma_key_lt_order(track_key(s[c]), track_key(s[a]), track_key(s[b]));
}

/// The sort key of a track, held as plain values.
struct SortKey {
    number: Option<u32>,
    name: Option<Vec<char>>,
}

spec fn key_view(k: SortKey) -> (Option<u32>, Option<Seq<char>>) {
    (k.number, match k.name {
        Some(v) => Some(v@),
        None => None,
    })
}

fn key_of(t: &TrackInfo) -> (k: SortKey)
    ensures
        key_view(k) == track_key(*t),
{
    let name = match path_file_name(t.path.as_str()) {
        Some(n) => Some(chars_of(n.as_str())),
        None => None,
    };
    SortKey { number: t.track_number, name }
}

fn key_precedes(a: &SortKey, b: &SortKey) -> (r: bool)
    ensures
        r == key_lt(key_view(*a), key_view(*b)),
{
    let by_number = match (a.number, b.number) {
        (Some(x), Some(y)) => x < y,
        (Some(_), None) => true,
        _ => false,
    };
    if by_number {
        return true;
    }
    if a.number != b.number {
        return false;
    }
    match (&a.name, &b.name) {
        (None, Some(_)) => true,
        (Some(x), Some(y)) => compare_chars(x, y) == Order::Less,
        _ => false,
    }
}

/// The tracks of an album in play order: by track number (numbered tracks
/// first), then by file name; tracks that compare equal keep their order.
pub fn sort_album_tracks(tracks: &Vec<TrackInfo>) -> (out: Vec<TrackInfo>)
    ensures
        is_stable_sort_of(out@, tracks@),
{
    let n = tracks.len();
    let ghost s = tracks@;
    let mut keys: Vec<SortKey> = Vec::new();
    for i in 0..n
        invariant
            n == tracks.len(),
            s == tracks@,
            keys.len() == i,
            forall|j: int| 0 <= j < i ==> key_view(#[trigger] keys@[j]) == track_key(s[j]),
    {
        keys.push(key_of(&tracks[i]));
    }
    let mut order: Vec<usize> = Vec::new();
    proof {
        assert(order@.map_values(|x: usize| s[x as int]) =~= Seq::<TrackInfo>::empty());
        assert(s.take(0) =~= Seq::<TrackInfo>::empty());
    }
    for k in 0..n
        invariant
            n == tracks.len(),
            s == tracks@,
            keys.len() == n,
            forall|j: int| 0 <= j < n ==> key_view(#[trigger] keys@[j]) == track_key(s[j]),
            order.len() == k,
            forall|i: int| 0 <= i < order.len() ==> #[trigger] order@[i] < k,
            forall|i: int, j: int|
                0 <= i < j < order.len() ==> position_lt(s, #[trigger] order@[i] as int, #[trigger] order@[j] as int),
            order@.map_values(|x: usize| s[x as int]).to_multiset() == s.take(k as int).to_multiset(),
    {
        let mut p: usize = 0;
        while p < order.len() && !key_precedes(&keys[k], &keys[order[p]])
            invariant
                p <= order.len(),
                k < n,
                n == s.len(),
                keys.len() == n,
                forall|i: int| 0 <= i < order.len() ==> #[trigger] order@[i] < k,
                forall|j: int| 0 <= j < n ==> key_view(#[trigger] keys@[j]) == track_key(s[j]),
                forall|m: int| 0 <= m < p ==> !track_precedes(s[k as int], s[#[trigger] order@[m] as int]),
            decreases order.len() - p,
        {
            p = p + 1;
        }
        let ghost old_order = order@;
        order.insert(p, k);
        proof {
            broadcast use vstd::seq_lib::group_to_multiset_ensures;
            assert(order@.map_values(|x: usize| s[x as int]) =~= old_order.map_values(|x: usize| s[x as int]).insert(p as int, s[k as int]));
            assert(s.take(k + 1) =~= s.take(k as int).push(s[k as int]));
            assert forall|i: int, j: int|
                0 <= i < j < order.len() implies position_lt(s, #[trigger] order@[i] as int, #[trigger] order@[j] as int) by {
                if j < p {
                    assert(order@[i] == old_order[i] && order@[j] == old_order[j]);
                } else if j == p {
                    assert(order@[i] == old_order[i]);
                    assert(!track_precedes(s[k as int], s[old_order[i] as int]));
                } else if i > p {
                    assert(order@[i] == old_order[i - 1] && order@[j] == old_order[j - 1]);
                } else if i == p {
                    assert(order@[j] == old_order[j - 1]);
                    assert(track_precedes(s[k as int], s[old_order[p as int] as int]));
                    if j - 1 > p {
                        lemma_position_lt_transitive(s, k as int, old_order[p as int] as int, old_order[j - 1] as int);
                    }
                } else {
                    assert(order@[i] == old_order[i] && order@[j] == old_order[j - 1]);
                }
            }
        }
    }
    let mut out: Vec<TrackInfo> = Vec::new();
    for i in 0..n
        invariant
            n == tracks.len(),
            s == tracks@,
            order.len() == n,
            forall|j: int| 0 <= j < order.len() ==> #[trigger] order@[j] < n,
            out.len() == i,
            forall|j: int| 0 <= j < i ==> #[trigger] out@[j] == s[order@[j] as int],
    {
        out.push(tracks[order[i]].duplicate());
    }
    proof {
        let ord = order@.map_values(|x: usize| x as int);
        assert(stable_order(s, ord));
        assert(out@ =~= order@.map_values(|x: usize| s[x as int]));
        assert(s.take(n as int) =~= s);
        assert(forall|i: int| 0 <= i < out.len() ==> #[trigger] out@[i] == s[ord[i]]);
    }
    out
}


/// The character sequences held by a vector of character vectors.
pub open spec fn char_views(v: Seq<Vec<char>>) -> Seq<Seq<char>> {
    v.map_values(|x: Vec<char>| x@)
}

/// Each name is strictly less than every later one (so no name occurs twice).
pub open spec fn strictly_sorted(names: Seq<Seq<char>>) -> bool {
    forall|i: int, j: int| 0 <= i < j < names.len() ==> seq_lt(#[trigger] names[i], #[trigger] names[j])
}

/// Inserts `name` into the sorted list `names` unless it is already there.
fn insert_name(names: &mut Vec<Vec<char>>, name: &Vec<char>)
    requires
        strictly_sorted(char_views(old(names)@)),
    ensures
        strictly_sorted(char_views(final(names)@)),
        forall|x: Seq<char>|
            #[trigger] char_views(final(names)@).contains(x) <==> (char_views(old(names)@).contains(x) || x == name@),
{
    let ghost old_v = char_views(names@);
    let mut p: usize = 0;
    let mut found = false;
    let mut done = false;
    while !done && p < names.len()
        invariant
            p <= names.len(),
            old_v == char_views(names@),
            strictly_sorted(old_v),
            forall|m: int| 0 <= m < p ==> seq_lt(#[trigger] old_v[m], name@),
            done ==> p < names.len() && !seq_lt(old_v[p as int], name@),
            found == (done && old_v[p as int] == name@),
        decreases names.len() - p, if done { 0int } else { 1int },
    {
        let c = compare_chars(&names[p], name);
        if c == Order::Less {
            p = p + 1;
        } else {
            done = true;
            found = c == Order::Equal;
        }
    }
    proof {
        lemma_seq_lt_total(name@, name@);
    }
    if found {
        return;
    }
    let copy = name.clone();
    names.insert(p, copy);
    proof {
        let new_v = char_views(names@);
        assert(new_v =~= old_v.insert(p as int, name@));
        if p < old_v.len() {
            assert(seq_lt(name@, old_v[p as int])) by {
                lemma_seq_lt_total(name@, old_v[p as int]);
            }
        }
        assert forall|i: int, j: int| 0 <= i < j < new_v.len() implies seq_lt(#[trigger] new_v[i], #[trigger] new_v[j]) by {
            if j < p {
            } else if j == p {
            } else if i > p {
            } else if i == p {
                if j - 1 > p {
                    lemma_seq_lt_transitive(name@, old_v[p as int], old_v[j - 1]);
                }
            } else {
            }
        }
        assert forall|x: Seq<char>| #[trigger] new_v.contains(x) <==> (old_v.contains(x) || x == name@) by {
            if new_v.contains(x) {
                let k = choose|k: int| 0 <= k < new_v.len() && new_v[k] == x;
                if k < p {
                    assert(old_v[k] == x);
                } else if k > p {
                    assert(old_v[k - 1] == x);
                }
            }
            if old_v.contains(x) {
                let k = choose|k: int| 0 <= k < old_v.len() && old_v[k] == x;
                if k < p {
                    assert(new_v[k] == x);
                } else {
                    assert(new_v[k + 1] == x);
                }
            }
            if x == name@ {
                assert(new_v[p as int] == x);
            }
        }
    }
}

/// The distinct names among `names`, in increasing order.
fn distinct_sorted(names: &Vec<Vec<char>>) -> (out: Vec<Vec<char>>)
    ensures
        strictly_sorted(char_views(out@)),
        forall|x: Seq<char>| #[trigger] char_views(out@).contains(x) <==> char_views(names@).contains(x),
{
    let mut out: Vec<Vec<char>> = Vec::new();
    for i in 0..names.len()
        invariant
            strictly_sorted(char_views(out@)),
            forall|x: Seq<char>|
                #[trigger] char_views(out@).contains(x) <==> char_views(names@).take(i as int).contains(x),
    {
        insert_name(&mut out, &names[i]);
        proof {
            let t = char_views(names@).take(i + 1);
            assert(t =~= char_views(names@).take(i as int).push(names@[i as int]@));
            assert forall|x: Seq<char>| #[trigger] t.contains(x) <==> (char_views(names@).take(i as int).contains(x) || x == names@[i as int]@) by {
                if t.contains(x) {
                    let k = choose|k: int| 0 <= k < t.len() && t[k] == x;
                    if k < i {
                        assert(char_views(names@).take(i as int)[k] == x);
                    }
                }
                if char_views(names@).take(i as int).contains(x) {
                    let k = choose|k: int| 0 <= k < i && char_views(names@).take(i as int)[k] == x;
                    assert(t[k] == x);
                }
                if x == names@[i as int]@ {
                    assert(t[i as int] == x);
                }
            }
        }
    }
    proof {
        assert(char_views(names@).take(names@.len() as int) =~= char_views(names@));
    }
    out
}


/// Whether a track belongs to the album `album` of the artist `artist`.
pub open spec fn in_album(artist: Seq<char>, album: Seq<char>) -> spec_fn(TrackInfo) -> bool {
    |t: TrackInfo| t.artist@ == artist && t.album@ == album
}

/// Some track is by `artist`.
pub open spec fn has_artist(tracks: Seq<TrackInfo>, artist: Seq<char>) -> bool {
    exists|i: int| 0 <= i < tracks.len() && (#[trigger] tracks[i]).artist@ == artist
}

/// Some track is on the album `album` of `artist`.
pub open spec fn has_album(tracks: Seq<TrackInfo>, artist: Seq<char>, album: Seq<char>) -> bool {
    exists|i: int|
        0 <= i < tracks.len() && (#[trigger] tracks[i]).artist@ == artist && tracks[i].album@ == album
}

/// The names of artist groups, in order.
pub open spec fn artist_names(groups: Seq<ArtistGroup>) -> Seq<Seq<char>> {
    groups.map_values(|g: ArtistGroup| g.name@)
}

/// The names of album groups, in order.
pub open spec fn album_names(albums: Seq<AlbumGroup>) -> Seq<Seq<char>> {
    albums.map_values(|a: AlbumGroup| a.name@)
}

/// `g` holds, for its artist, one album group per album name of the artist
/// among `tracks`, in increasing name order, each with exactly the tracks of
/// that album in album order.
pub open spec fn artist_group_of(tracks: Seq<TrackInfo>, g: ArtistGroup) -> bool {
    &&& strictly_sorted(album_names(g.albums@))
    &&& forall|b: Seq<char>|
        #[trigger] album_names(g.albums@).contains(b) <==> has_album(tracks, g.name@, b)
    &&& forall|j: int|
        0 <= j < g.albums@.len() ==> {
            &&& (#[trigger] g.albums@[j]).artist@ == g.name@
            &&& is_stable_sort_of(g.albums@[j].tracks@, tracks.filter(in_album(g.name@, g.albums@[j].name@)))
        }
}

/// `groups` holds one artist group per artist name among `tracks`, in
/// increasing name order, each grouped into albums as `artist_group_of` says.
pub open spec fn grouped_by_artist_and_album(tracks: Seq<TrackInfo>, groups: Seq<ArtistGroup>) -> bool {
    &&& strictly_sorted(artist_names(groups))
    &&& forall|a: Seq<char>| #[trigger] artist_names(groups).contains(a) <==> has_artist(tracks, a)
    &&& forall|i: int| 0 <= i < groups.len() ==> artist_group_of(tracks, #[trigger] groups[i])
}

proof fn lemma_has_album_step(s: Seq<TrackInfo>, artist: Seq<char>, i: int)
    requires
        0 <= i < s.len(),
    ensures
        forall|b: Seq<char>| #[trigger] has_album(s.take(i + 1), artist, b) <==> (has_album(s.take(i), artist, b) || (s[i].artist@ == artist && s[i].album@ == b)),
{
    assert forall|b: Seq<char>| #[trigger] has_album(s.take(i + 1), artist, b) <==> (has_album(s.take(i), artist, b) || (s[i].artist@ == artist && s[i].album@ == b)) by {
        let t = s.take(i + 1);
        let u = s.take(i);
        if has_album(t, artist, b) {
            let j = choose|j: int| 0 <= j < t.len() && (#[trigger] t[j]).artist@ == artist && t[j].album@ == b;
            if j < i {
                assert(u[j] == t[j]);
            }
        }
        if has_album(u, artist, b) {
            let j = choose|j: int| 0 <= j < u.len() && (#[trigger] u[j]).artist@ == artist && u[j].album@ == b;
            assert(u[j] == t[j]);
        }
        if s[i].artist@ == artist && s[i].album@ == b {
            assert(t[i] == s[i]);
        }
    }
}

proof fn lemma_filter_take_step(s: Seq<TrackInfo>, p: spec_fn(TrackInfo) -> bool, i: int)
    requires
        0 <= i < s.len(),
    ensures
        s.take(i + 1).filter(p) == if p(s[i]) { s.take(i).filter(p).push(s[i]) } else { s.take(i).filter(p) },
{
    reveal_with_fuel(Seq::<_>::filter, 1);
    assert(s.take(i + 1).drop_last() =~= s.take(i));
}

/// The tracks of album `album` of `artist`, in library order.
fn select_album(
    tracks: &Vec<TrackInfo>,
    art: &Vec<Vec<char>>,
    alb: &Vec<Vec<char>>,
    artist: &Vec<char>,
    album: &Vec<char>,
) -> (out: Vec<TrackInfo>)
    requires
        art.len() == tracks.len(),
        alb.len() == tracks.len(),
        forall|i: int| 0 <= i < tracks.len() ==> (#[trigger] art@[i])@ == tracks@[i].artist@,
        forall|i: int| 0 <= i < tracks.len() ==> (#[trigger] alb@[i])@ == tracks@[i].album@,
    ensures
        out@ == tracks@.filter(in_album(artist@, album@)),
{
    let ghost p = in_album(artist@, album@);
    let mut out: Vec<TrackInfo> = Vec::new();
    for i in 0..tracks.len()
        invariant
            art.len() == tracks.len(),
            alb.len() == tracks.len(),
            forall|k: int| 0 <= k < tracks.len() ==> (#[trigger] art@[k])@ == tracks@[k].artist@,
            forall|k: int| 0 <= k < tracks.len() ==> (#[trigger] alb@[k])@ == tracks@[k].album@,
            p == in_album(artist@, album@),
            out@ == tracks@.take(i as int).filter(p),
    {
        proof {
            lemma_filter_take_step(tracks@, p, i as int);
            assert(p(tracks@[i as int]) == (tracks@[i as int].artist@ == artist@ && tracks@[i as int].album@ == album@));
        }
        let hit_artist = compare_chars(&art[i], artist) == Order::Equal;
        let hit_album = compare_chars(&alb[i], album) == Order::Equal;
        if hit_artist && hit_album {
            out.push(tracks[i].duplicate());
        }
        assert(out@ == tracks@.take(i + 1).filter(p));
    }
    proof {
        assert(tracks@.take(tracks@.len() as int) =~= tracks@);
    }
    out
}

/// The album names of `artist` among the tracks, each once, in increasing order.
fn album_names_of(
    tracks: &Vec<TrackInfo>,
    art: &Vec<Vec<char>>,
    alb: &Vec<Vec<char>>,
    artist: &Vec<char>,
) -> (out: Vec<Vec<char>>)
    requires
        art.len() == tracks.len(),
        alb.len() == tracks.len(),
        forall|i: int| 0 <= i < tracks.len() ==> (#[trigger] art@[i])@ == tracks@[i].artist@,
        forall|i: int| 0 <= i < tracks.len() ==> (#[trigger] alb@[i])@ == tracks@[i].album@,
    ensures
        strictly_sorted(char_views(out@)),
        forall|b: Seq<char>| #[trigger] char_views(out@).contains(b) <==> has_album(tracks@, artist@, b),
{
    let mut names: Vec<Vec<char>> = Vec::new();
    for i in 0..tracks.len()
        invariant
            art.len() == tracks.len(),
            alb.len() == tracks.len(),
            forall|k: int| 0 <= k < tracks.len() ==> (#[trigger] art@[k])@ == tracks@[k].artist@,
            forall|k: int| 0 <= k < tracks.len() ==> (#[trigger] alb@[k])@ == tracks@[k].album@,
            forall|b: Seq<char>| #[trigger] char_views(names@).contains(b) <==> has_album(tracks@.take(i as int), artist@, b),
    {
        let ghost before = names@;
        let hit = compare_chars(&art[i], artist) == Order::Equal;
        if hit {
            names.push(alb[i].clone());
        }
        proof {
            lemma_has_album_step(tracks@, artist@, i as int);
            assert forall|b: Seq<char>| #[trigger] char_views(names@).contains(b) <==> (char_views(before).contains(b) || (hit && b == alb@[i as int]@)) by {
                let nv = char_views(names@);
                let bv = char_views(before);
                if hit {
                    assert(nv =~= bv.push(alb@[i as int]@));
                    if nv.contains(b) {
                        let k = choose|k: int| 0 <= k < nv.len() && nv[k] == b;
                        if k < bv.len() {
                            assert(bv[k] == b);
                        }
                    }
                    if bv.contains(b) {
                        let k = choose|k: int| 0 <= k < bv.len() && bv[k] == b;
                        assert(nv[k] == b);
                    }
                    if b == alb@[i as int]@ {
                        assert(nv[bv.len() as int] == b);
                    }
                } else {
                    assert(nv =~= bv);
                }
            }
            assert forall|b: Seq<char>| #[trigger] char_views(names@).contains(b) <==> has_album(tracks@.take(i + 1), artist@, b) by {
                assert(char_views(before).contains(b) <==> has_album(tracks@.take(i as int), artist@, b));
                assert(has_album(tracks@.take(i + 1), artist@, b) <==> (has_album(tracks@.take(i as int), artist@, b) || (tracks@[i as int].artist@ == artist@ && tracks@[i as int].album@ == b)));
            }
        }
    }
    proof {
        assert(tracks@.take(tracks@.len() as int) =~= tracks@);
    }
    distinct_sorted(&names)
}

/// The library grouped by artist, then album, each level in increasing name
/// order, and the tracks of each album in album order.
pub fn group_tracks(tracks: &Vec<TrackInfo>) -> (groups: Vec<ArtistGroup>)
    ensures
        grouped_by_artist_and_album(tracks@, groups@),
{
    let n = tracks.len();
    let mut art: Vec<Vec<char>> = Vec::new();
    let mut alb: Vec<Vec<char>> = Vec::new();
    for i in 0..n
        invariant
            n == tracks.len(),
            art.len() == i,
            alb.len() == i,
            forall|k: int| 0 <= k < i ==> (#[trigger] art@[k])@ == tracks@[k].artist@,
            forall|k: int| 0 <= k < i ==> (#[trigger] alb@[k])@ == tracks@[k].album@,
    {
        art.push(chars_of(tracks[i].artist.as_str()));
        alb.push(chars_of(tracks[i].album.as_str()));
    }
    let artists = distinct_sorted(&art);
    proof {
        assert forall|a: Seq<char>| char_views(art@).contains(a) <==> #[trigger] has_artist(tracks@, a) by {
            if char_views(art@).contains(a) {
                let k = choose|k: int| 0 <= k < char_views(art@).len() && char_views(art@)[k] == a;
                assert(tracks@[k].artist@ == a);
            }
            if has_artist(tracks@, a) {
                let k = choose|k: int| 0 <= k < tracks@.len() && (#[trigger] tracks@[k]).artist@ == a;
                assert(char_views(art@)[k] == a);
            }
        }
    }
    let mut groups: Vec<ArtistGroup> = Vec::new();
    for ai in 0..artists.len()
        invariant
            n == tracks.len(),
            art.len() == n,
            alb.len() == n,
            forall|k: int| 0 <= k < n ==> (#[trigger] art@[k])@ == tracks@[k].artist@,
            forall|k: int| 0 <= k < n ==> (#[trigger] alb@[k])@ == tracks@[k].album@,
            groups.len() == ai,
            forall|k: int| 0 <= k < ai ==> (#[trigger] groups@[k]).name@ == artists@[k]@,
            forall|k: int| 0 <= k < ai ==> artist_group_of(tracks@, #[trigger] groups@[k]),
    {
        let a = &artists[ai];
        let names = album_names_of(tracks, &art, &alb, a);
        let mut albums: Vec<AlbumGroup> = Vec::new();
        for bi in 0..names.len()
            invariant
                n == tracks.len(),
                art.len() == n,
                alb.len() == n,
                forall|k: int| 0 <= k < n ==> (#[trigger] art@[k])@ == tracks@[k].artist@,
                forall|k: int| 0 <= k < n ==> (#[trigger] alb@[k])@ == tracks@[k].album@,
                albums.len() == bi,
                forall|k: int| 0 <= k < bi ==> (#[trigger] albums@[k]).name@ == names@[k]@,
                forall|k: int| 0 <= k < bi ==> {
                    &&& (#[trigger] albums@[k]).artist@ == a@
                    &&& is_stable_sort_of(albums@[k].tracks@, tracks@.filter(in_album(a@, albums@[k].name@)))
                },
        {
            let b = &names[bi];
            let bucket = select_album(tracks, &art, &alb, a, b);
            let sorted = sort_album_tracks(&bucket);
            albums.push(AlbumGroup { name: crate::text::string_from_chars(b), artist: crate::text::string_from_chars(a), tracks: sorted });
        }
        proof {
            assert(album_names(albums@) =~= char_views(names@));
        }
        groups.push(ArtistGroup { name: crate::text::string_from_chars(a), albums });
    }
    proof {
        assert(artist_names(groups@) =~= char_views(artists@));
    }
    groups
}


/// The tracks of `albums`, album after album.
pub open spec fn album_tracks(albums: Seq<AlbumGroup>) -> Seq<TrackInfo>
    decreases albums.len(),
{
    if albums.len() == 0 {
        Seq::empty()
    } else {
        album_tracks(albums.drop_last()) + albums.last().tracks@
    }
}

/// The tracks of the library, artist after artist, album after album.
pub open spec fn library_tracks(artists: Seq<ArtistGroup>) -> Seq<TrackInfo>
    decreases artists.len(),
{
    if artists.len() == 0 {
        Seq::empty()
    } else {
        library_tracks(artists.drop_last()) + album_tracks(artists.last().albums@)
    }
}

/// `s` with each track's `flat_index` set to its position plus `start`.
pub open spec fn numbered(s: Seq<TrackInfo>, start: int) -> Seq<TrackInfo> {
    Seq::new(s.len(), |i: int| TrackInfo { flat_index: (start + i) as usize, ..s[i] })
}

/// Two album lists with the same names, artists and track counts.
pub open spec fn same_album_shape(a: Seq<AlbumGroup>, b: Seq<AlbumGroup>) -> bool {
    &&& a.len() == b.len()
    &&& forall|j: int|
        0 <= j < a.len() ==> {
            &&& (#[trigger] a[j]).name == b[j].name
            &&& a[j].artist == b[j].artist
            &&& a[j].tracks@.len() == b[j].tracks@.len()
        }
}

/// Two libraries with the same artists, albums and track counts.
pub open spec fn same_shape(a: Seq<ArtistGroup>, b: Seq<ArtistGroup>) -> bool {
    &&& a.len() == b.len()
    &&& forall|i: int|
        0 <= i < a.len() ==> {
            &&& (#[trigger] a[i]).name == b[i].name
            &&& same_album_shape(a[i].albums@, b[i].albums@)
        }
}

proof fn lemma_numbered_push(a: Seq<TrackInfo>, b: Seq<TrackInfo>, start: int)
    ensures
        numbered(a + b, start) == numbered(a, start) + numbered(b, start + a.len()),
{
    assert(numbered(a + b, start) =~= numbered(a, start) + numbered(b, start + a.len()));
}

/// The album with its tracks numbered from the current end of `flat`, whose
/// tracks are appended to `flat`.
fn renumber_album(album: &AlbumGroup, flat: &mut Vec<TrackInfo>) -> (out: AlbumGroup)
    ensures
        out.name == album.name,
        out.artist == album.artist,
        out.tracks@ == numbered(album.tracks@, old(flat)@.len() as int),
        final(flat)@ == old(flat)@ + out.tracks@,
{
    let ghost start = flat@.len() as int;
    let ghost flat0 = flat@;
    let mut tracks: Vec<TrackInfo> = Vec::new();
    for i in 0..album.tracks.len()
        invariant
            flat@.len() == start + i,
            tracks@ == numbered(album.tracks@.take(i as int), start),
            flat@ == flat0 + tracks@,
    {
        let mut t = album.tracks[i].duplicate();
        t.flat_index = flat.len();
        flat.push(t.duplicate());
        tracks.push(t);
        proof {
            assert(numbered(album.tracks@.take(i + 1), start) =~= numbered(album.tracks@.take(i as int), start).push(t));
        }
    }
    proof {
        assert(album.tracks@.take(album.tracks@.len() as int) =~= album.tracks@);
    }
    AlbumGroup { name: album.name.clone(), artist: album.artist.clone(), tracks }
}

/// The artist with its tracks numbered from the current end of `flat`, whose
/// tracks are appended to `flat`.
#[verifier::rlimit(50)]
#[verifier::spinoff_prover]
fn renumber_artist(artist: &ArtistGroup, flat: &mut Vec<TrackInfo>) -> (out: ArtistGroup)
    ensures
        out.name == artist.name,
        same_album_shape(artist.albums@, out.albums@),
        album_tracks(out.albums@) == numbered(album_tracks(artist.albums@), old(flat)@.len() as int),
        final(flat)@ == old(flat)@ + album_tracks(out.albums@),
{
    let ghost start = flat@.len() as int;
    let ghost flat0 = flat@;
    let mut albums: Vec<AlbumGroup> = Vec::new();
    for j in 0..artist.albums.len()
        invariant
            albums.len() == j,
            same_album_shape(artist.albums@.take(j as int), albums@),
            album_tracks(albums@) == numbered(album_tracks(artist.albums@.take(j as int)), start),
            flat@ == flat0 + album_tracks(albums@),
            flat@.len() == start + album_tracks(albums@).len(),
    {
        let ghost before = albums@;
        let a = renumber_album(&artist.albums[j], flat);
        albums.push(a);
        proof {
            let src = artist.albums@.take(j as int);
            let src1 = artist.albums@.take(j + 1);
            assert(src1.drop_last() =~= src);
            assert(albums@.drop_last() =~= before);
            assert(album_tracks(src1) == album_tracks(src) + artist.albums@[j as int].tracks@);
            assert(album_tracks(albums@) == album_tracks(before) + a.tracks@);
            lemma_numbered_push(album_tracks(src), artist.albums@[j as int].tracks@, start);
            assert(flat@ =~= flat0 + album_tracks(albums@));
            assert forall|k: int| 0 <= k < src1.len() implies {
                &&& (#[trigger] src1[k]).name == albums@[k].name
                &&& src1[k].artist == albums@[k].artist
                &&& src1[k].tracks@.len() == albums@[k].tracks@.len()
            } by {
                if k < j {
                    assert(src[k] == src1[k]);
                }
            }
        }
    }
    proof {
        assert(artist.albums@.take(artist.albums@.len() as int) =~= artist.albums@);
    }
    ArtistGroup { name: artist.name.clone(), albums }
}

/// The library with every track numbered by its position in the flat
/// playlist, and that playlist: all tracks, artist after artist, album after
/// album.
#[verifier::rlimit(50)]
#[verifier::spinoff_prover]
pub fn renumber_library(artists: &Vec<ArtistGroup>) -> (out: (Vec<ArtistGroup>, Vec<TrackInfo>))
    ensures
        same_shape(artists@, out.0@),
        library_tracks(out.0@) == numbered(library_tracks(artists@), 0),
        out.1@ == numbered(library_tracks(artists@), 0),
{
    let mut flat: Vec<TrackInfo> = Vec::new();
    let mut groups: Vec<ArtistGroup> = Vec::new();
    for i in 0..artists.len()
        invariant
            groups.len() == i,
            same_shape(artists@.take(i as int), groups@),
            library_tracks(groups@) == numbered(library_tracks(artists@.take(i as int)), 0),
            flat@ == library_tracks(groups@),
    {
        let ghost before = groups@;
        let ghost flat_before = flat@;
        let g = renumber_artist(&artists[i], &mut flat);
        groups.push(g);
        proof {
            let src = artists@.take(i as int);
            let src1 = artists@.take(i + 1);
            assert(src1.drop_last() =~= src);
            assert(groups@.drop_last() =~= before);
            assert(library_tracks(src1) == library_tracks(src) + album_tracks(artists@[i as int].albums@));
            assert(library_tracks(groups@) == library_tracks(before) + album_tracks(g.albums@));
            lemma_numbered_push(library_tracks(src), album_tracks(artists@[i as int].albums@), 0);
            assert forall|k: int| 0 <= k < src1.len() implies {
                &&& (#[trigger] src1[k]).name == groups@[k].name
                &&& same_album_shape(src1[k].albums@, groups@[k].albums@)
            } by {
                if k < i {
                    assert(src[k] == src1[k]);
                }
            }
        }
    }
    proof {
        assert(artists@.take(artists@.len() as int) =~= artists@);
    }
    (groups, flat)
}

/// How often `x` occurs among the tracks of `s` that `p` keeps.
proof fn lemma_filter_count(s: Seq<TrackInfo>, p: spec_fn(TrackInfo) -> bool, x: TrackInfo)
    ensures
        s.filter(p).to_multiset().count(x) == if p(x) { s.to_multiset().count(x) } else { 0 },
    decreases s.len(),
{
    broadcast use vstd::seq_lib::group_to_multiset_ensures, vstd::multiset::group_multiset_axioms;
    if s.len() == 0 {
        assert(s.filter(p) =~= s);
    } else {
        let d = s.drop_last();
        lemma_filter_count(d, p, x);
        assert(s =~= d.push(s.last()));
        reveal_with_fuel(Seq::<_>::filter, 1);
    }
}

/// How often `x` occurs in the concatenation of two sequences.
proof fn lemma_concat_count(a: Seq<TrackInfo>, b: Seq<TrackInfo>, x: TrackInfo)
    ensures
        (a + b).to_multiset().count(x) == a.to_multiset().count(x) + b.to_multiset().count(x),
{
    broadcast use vstd::multiset::group_multiset_axioms;
    vstd::seq_lib::lemma_multiset_commutative(a, b);
}

/// Among albums with distinct names, each holding the tracks of its album of
/// `artist`, the track `x` occurs as often as in the library when it belongs
/// to one of them, and not at all otherwise.
proof fn lemma_album_tracks_count(tracks: Seq<TrackInfo>, artist: Seq<char>, albums: Seq<AlbumGroup>, x: TrackInfo)
    requires
        strictly_sorted(album_names(albums)),
        forall|j: int| 0 <= j < albums.len() ==>
            (#[trigger] albums[j]).tracks@.to_multiset() == tracks.filter(in_album(artist, albums[j].name@)).to_multiset(),
    ensures
        album_tracks(albums).to_multiset().count(x) == if x.artist@ == artist && album_names(albums).contains(x.album@) {
            tracks.to_multiset().count(x)
        } else {
            0
        },
    decreases albums.len(),
{
    broadcast use vstd::seq_lib::group_to_multiset_ensures, vstd::multiset::group_multiset_axioms;
    if albums.len() == 0 {
        assert(album_tracks(albums).to_multiset() =~= vstd::multiset::Multiset::empty());
    } else {
        let d = albums.drop_last();
        let last = albums.last();
        let names = album_names(albums);
        assert(album_names(d) =~= names.drop_last());
        assert forall|i: int, j: int| 0 <= i < j < album_names(d).len() implies
            seq_lt(#[trigger] album_names(d)[i], #[trigger] album_names(d)[j]) by {
            assert(album_names(d)[i] == names[i] && album_names(d)[j] == names[j]);
        }
        assert forall|j: int| 0 <= j < d.len() implies
            (#[trigger] d[j]).tracks@.to_multiset() == tracks.filter(in_album(artist, d[j].name@)).to_multiset() by {
            assert(d[j] == albums[j]);
        }
        lemma_album_tracks_count(tracks, artist, d, x);
        lemma_concat_count(album_tracks(d), last.tracks@, x);
        assert(albums[albums.len() - 1] == last);
        lemma_filter_count(tracks, in_album(artist, last.name@), x);
        let k = albums.len() - 1;
        assert(names[k] == last.name@);
        if album_names(d).contains(x.album@) {
            let i = choose|i: int| 0 <= i < album_names(d).len() && album_names(d)[i] == x.album@;
            assert(names[i] == x.album@);
            assert(seq_lt(names[i], names[k]));
            lemma_seq_lt_irreflexive(names[k]);
            assert(names.contains(x.album@));
        } else if x.album@ == last.name@ {
            assert(names.contains(x.album@));
        } else {
            if names.contains(x.album@) {
                let i = choose|i: int| 0 <= i < names.len() && names[i] == x.album@;
                assert(i != k);
                assert(album_names(d)[i] == x.album@);
            }
        }
    }
}

/// Among artist groups with distinct names, each holding the tracks of its
/// artist, the track `x` occurs as often as in the library when its artist is
/// one of them, and not at all otherwise.
proof fn lemma_library_tracks_count(tracks: Seq<TrackInfo>, groups: Seq<ArtistGroup>, x: TrackInfo)
    requires
        strictly_sorted(artist_names(groups)),
        forall|i: int| 0 <= i < groups.len() ==>
            album_tracks((#[trigger] groups[i]).albums@).to_multiset().count(x)
                == if x.artist@ == groups[i].name@ { tracks.to_multiset().count(x) } else { 0 },
    ensures
        library_tracks(groups).to_multiset().count(x) == if artist_names(groups).contains(x.artist@) {
            tracks.to_multiset().count(x)
        } else {
            0
        },
    decreases groups.len(),
{
    broadcast use vstd::seq_lib::group_to_multiset_ensures, vstd::multiset::group_multiset_axioms;
    if groups.len() == 0 {
        assert(library_tracks(groups).to_multiset() =~= vstd::multiset::Multiset::empty());
    } else {
        let d = groups.drop_last();
        let last = groups.last();
        let names = artist_names(groups);
        assert(artist_names(d) =~= names.drop_last());
        assert forall|i: int, j: int| 0 <= i < j < artist_names(d).len() implies
            seq_lt(#[trigger] artist_names(d)[i], #[trigger] artist_names(d)[j]) by {
            assert(artist_names(d)[i] == names[i] && artist_names(d)[j] == names[j]);
        }
        assert forall|i: int| 0 <= i < d.len() implies
            album_tracks((#[trigger] d[i]).albums@).to_multiset().count(x)
                == if x.artist@ == d[i].name@ { tracks.to_multiset().count(x) } else { 0 } by {
            assert(d[i] == groups[i]);
        }
        lemma_library_tracks_count(tracks, d, x);
        lemma_concat_count(library_tracks(d), album_tracks(last.albums@), x);
        let k = groups.len() - 1;
        assert(groups[k] == last);
        assert(names[k] == last.name@);
        if artist_names(d).contains(x.artist@) {
            let i = choose|i: int| 0 <= i < artist_names(d).len() && artist_names(d)[i] == x.artist@;
            assert(names[i] == x.artist@);
            assert(seq_lt(names[i], names[k]));
            lemma_seq_lt_irreflexive(names[k]);
            assert(names.contains(x.artist@));
        } else if x.artist@ == last.name@ {
            assert(names.contains(x.artist@));
        } else {
            if names.contains(x.artist@) {
                let i = choose|i: int| 0 <= i < names.len() && names[i] == x.artist@;
                assert(i != k);
                assert(artist_names(d)[i] == x.artist@);
            }
        }
    }
}

/// Grouping keeps every track of the library, each as often as it occurs
/// there: the tracks of all albums of all artists are the library's tracks,
/// none lost and none added.
pub proof fn law_grouping_keeps_every_track(tracks: Seq<TrackInfo>, groups: Seq<ArtistGroup>)
    requires
        grouped_by_artist_and_album(tracks, groups),
    ensures
        library_tracks(groups).to_multiset() == tracks.to_multiset(),
{
    broadcast use vstd::seq_lib::group_to_multiset_ensures, vstd::multiset::group_multiset_axioms;
    assert forall|x: TrackInfo| #[trigger] library_tracks(groups).to_multiset().count(x) == tracks.to_multiset().count(x) by {
        assert forall|i: int| 0 <= i < groups.len() implies
            album_tracks((#[trigger] groups[i]).albums@).to_multiset().count(x)
                == if x.artist@ == groups[i].name@ { tracks.to_multiset().count(x) } else { 0 } by {
            let g = groups[i];
            assert(artist_group_of(tracks, g));
            assert forall|j: int| 0 <= j < g.albums@.len() implies
                (#[trigger] g.albums@[j]).tracks@.to_multiset() == tracks.filter(in_album(g.name@, g.albums@[j].name@)).to_multiset() by {
                assert(is_stable_sort_of(g.albums@[j].tracks@, tracks.filter(in_album(g.name@, g.albums@[j].name@))));
            }
            lemma_album_tracks_count(tracks, g.name@, g.albums@, x);
            if x.artist@ == g.name@ && tracks.to_multiset().count(x) > 0 {
                assert(tracks.contains(x));
                let k = choose|k: int| 0 <= k < tracks.len() && tracks[k] == x;
                assert(has_album(tracks, g.name@, x.album@));
                assert(album_names(g.albums@).contains(x.album@));
            }
        }
        lemma_library_tracks_count(tracks, groups, x);
        if tracks.to_multiset().count(x) > 0 {
            assert(tracks.contains(x));
            let k = choose|k: int| 0 <= k < tracks.len() && tracks[k] == x;
            assert(has_artist(tracks, x.artist@));
            assert(artist_names(groups).contains(x.artist@));
        }
    }
    assert(library_tracks(groups).to_multiset() =~= tracks.to_multiset());
}

/// Numbering gives each track its own position, and numbering again changes
/// nothing: rebuilding the flat playlist of a rebuilt library gives it back.
pub proof fn law_numbering_is_positional(s: Seq<TrackInfo>)
    requires
        s.len() <= usize::MAX + 1,
    ensures
        forall|i: int| 0 <= i < s.len() ==> (#[trigger] numbered(s, 0)[i]).flat_index == i,
        numbered(numbered(s, 0), 0) == numbered(s, 0),
{
    assert(numbered(numbered(s, 0), 0) =~= numbered(s, 0));
}

/// Whether track `a` may be played before track `b` of the same album:
/// numbered tracks come before unnumbered ones and by number; tracks with the
/// same number (or both without one) go by the file names of their paths
/// (`Path::file_name`), a path without a file name first.
pub open spec fn may_play_before(a: TrackInfo, b: TrackInfo) -> bool {
    &&& match (a.track_number, b.track_number) {
        (Some(x), Some(y)) => x <= y,
        (None, Some(_)) => false,
        _ => true,
    }
    &&& a.track_number == b.track_number ==> match (spec_file_name(a.path@), spec_file_name(b.path@)) {
        (Some(x), Some(y)) => !seq_lt(y, x),
        (Some(_), None) => false,
        _ => true,
    }
}

/// A stable sort in album order puts every track before each later one in
/// play order: by track number, then by file name, whatever the titles.
pub proof fn law_album_sort_plays_in_order(out: Seq<TrackInfo>, s: Seq<TrackInfo>)
    requires
        is_stable_sort_of(out, s),
    ensures
        forall|i: int, j: int| 0 <= i < j < out.len() ==> may_play_before(#[trigger] out[i], #[trigger] out[j]),
{
    let order = choose|order: Seq<int>| stable_order(s, order) && out.len() == s.len() && forall|i: int|
        0 <= i < out.len() ==> #[trigger] out[i] == s[order[i]];
    assert forall|i: int, j: int| 0 <= i < j < out.len() implies may_play_before(#[trigger] out[i], #[trigger] out[j]) by {
        let a = out[i];
        let b = out[j];
        assert(a == s[order[i]] && b == s[order[j]]);
        assert(position_lt(s, order[i], order[j]));
        lemma_key_lt_order(track_key(a), track_key(b), track_key(a));
        assert(!track_precedes(b, a));
    }
}

/// Every album of a grouped library holds its tracks in play order.
pub proof fn law_grouped_albums_play_in_order(tracks: Seq<TrackInfo>, groups: Seq<ArtistGroup>)
    requires
        grouped_by_artist_and_album(tracks, groups),
    ensures
        forall|g: int, a: int, i: int, j: int|
            0 <= g < groups.len() && 0 <= a < groups[g].albums@.len() && 0 <= i < j < groups[g].albums@[a].tracks@.len()
                ==> may_play_before(
                #[trigger] groups[g].albums@[a].tracks@[i],
                #[trigger] groups[g].albums@[a].tracks@[j],
            ),
{
    assert forall|g: int, a: int, i: int, j: int|
        0 <= g < groups.len() && 0 <= a < groups[g].albums@.len() && 0 <= i < j < groups[g].albums@[a].tracks@.len()
            implies may_play_before(
            #[trigger] groups[g].albums@[a].tracks@[i],
            #[trigger] groups[g].albums@[a].tracks@[j],
        ) by {
        let gr = groups[g];
        assert(artist_group_of(tracks, gr));
        let al = gr.albums@[a];
        assert(is_stable_sort_of(al.tracks@, tracks.filter(in_album(gr.name@, al.name@))));
        law_album_sort_plays_in_order(al.tracks@, tracks.filter(in_album(gr.name@, al.name@)));
    }
}

} // verus!
