use vstd::prelude::*;

use crate::text::{char_is_whitespace, chars_of, decimal, is_white_space, push_decimal, string_from_chars, trim_str, trimmed};
use crate::catalog::TrackInfo;

verus! {

/// The fields of the metadata editor, in display order.
#[derive(Debug, Clone, Copy, PartialEq, Eq, Structural)]
pub enum MetaField {
    Title,
    Artist,
    Album,
    Genre,
    Year,
    TrackNumber,
}

/// Number of editable fields.
pub const FIELD_COUNT: usize = 6;

/// The field at position `i` of the editor.
pub open spec fn field_at(i: int) -> MetaField {
    if i == 0 {
        MetaField::Title
    } else if i == 1 {
        MetaField::Artist
    } else if i == 2 {
        MetaField::Album
    } else if i == 3 {
        MetaField::Genre
    } else if i == 4 {
        MetaField::Year
    } else {
        MetaField::TrackNumber
    }
}

impl MetaField {
    /// The field at position `i`.
    pub fn at(i: usize) -> (f: MetaField)
        requires
            i < 6,
        ensures
            f == field_at(i as int),
    {
        match i {
            0 => MetaField::Title,
            1 => MetaField::Artist,
            2 => MetaField::Album,
            3 => MetaField::Genre,
            4 => MetaField::Year,
            _ => MetaField::TrackNumber,
        }
    }

    /// Whether the field takes only digits.
    pub fn is_numeric(&self) -> (b: bool)
        ensures
            b == (*self == MetaField::Year || *self == MetaField::TrackNumber),
    {
        match self {
            MetaField::Year | MetaField::TrackNumber => true,
            _ => false,
        }
    }
}

/// The state of the metadata editor for one file.
#[derive(Debug, Clone)]
pub struct MetadataEditState {
    pub track_path: String,
    pub field_idx: usize,
    pub is_editing: bool,
    /// Cursor position in characters within the current field.
    pub cursor_pos: usize,
    pub title: String,
    pub artist: String,
    pub album: String,
    pub genre: String,
    pub year: String,
    pub track_number: String,
}

impl MetadataEditState {
    /// The text of field `i`.
    pub open spec fn field_text(&self, i: int) -> Seq<char> {
        if i == 0 {
            self.title@
        } else if i == 1 {
            self.artist@
        } else if i == 2 {
            self.album@
        } else if i == 3 {
            self.genre@
        } else if i == 4 {
            self.year@
        } else {
            self.track_number@
        }
    }

    /// `self` with field `i` holding `s` and everything else the same.
    pub open spec fn with_field(&self, i: int, s: String) -> MetadataEditState {
        if i == 0 {
            MetadataEditState { title: s, ..*self }
        } else if i == 1 {
            MetadataEditState { artist: s, ..*self }
        } else if i == 2 {
            MetadataEditState { album: s, ..*self }
        } else if i == 3 {
            MetadataEditState { genre: s, ..*self }
        } else if i == 4 {
            MetadataEditState { year: s, ..*self }
        } else {
            MetadataEditState { track_number: s, ..*self }
        }
    }

    /// The text of the selected field.
    pub fn current_field_str(&self) -> (s: &str)
        requires
            self.field_idx < 6,
        ensures
            s@ == self.field_text(self.field_idx as int),
    {
        match MetaField::at(self.field_idx) {
            MetaField::Title => self.title.as_str(),
            MetaField::Artist => self.artist.as_str(),
            MetaField::Album => self.album.as_str(),
            MetaField::Genre => self.genre.as_str(),
            MetaField::Year => self.year.as_str(),
            MetaField::TrackNumber => self.track_number.as_str(),
        }
    }

    /// The selected field, for changing it in place.
    pub fn current_field_str_mut(&mut self) -> (s: &mut String)
        requires
            old(self).field_idx < 6,
        ensures
            s@ == old(self).field_text(old(self).field_idx as int),
            *final(self) == old(self).with_field(old(self).field_idx as int, *final(s)),
    {
        match MetaField::at(self.field_idx) {
            MetaField::Title => &mut self.title,
            MetaField::Artist => &mut self.artist,
            MetaField::Album => &mut self.album,
            MetaField::Genre => &mut self.genre,
            MetaField::Year => &mut self.year,
            MetaField::TrackNumber => &mut self.track_number,
        }
    }
}


/// Moving left from `p` over white space.
pub open spec fn back_over_space(s: Seq<char>, p: int) -> int
    decreases p,
{
    if p > 0 && p <= s.len() && is_white_space(s[p - 1]) {
        back_over_space(s, p - 1)
    } else {
        p
    }
}

/// Moving left from `p` over non-white-space characters.
pub open spec fn back_over_word(s: Seq<char>, p: int) -> int
    decreases p,
{
    if p > 0 && p <= s.len() && !is_white_space(s[p - 1]) {
        back_over_word(s, p - 1)
    } else {
        p
    }
}

/// Moving right from `p` over non-white-space characters.
pub open spec fn forward_over_word(s: Seq<char>, p: int) -> int
    decreases s.len() - p,
{
    if 0 <= p < s.len() && !is_white_space(s[p]) {
        forward_over_word(s, p + 1)
    } else {
        p
    }
}

/// Moving right from `p` over white space.
pub open spec fn forward_over_space(s: Seq<char>, p: int) -> int
    decreases s.len() - p,
{
    if 0 <= p < s.len() && is_white_space(s[p]) {
        forward_over_space(s, p + 1)
    } else {
        p
    }
}

/// `a` or `b`, whichever is smaller.
pub open spec fn min_int(a: int, b: int) -> int {
    if a <= b { a } else { b }
}

/// The start of the word before the cursor.
pub open spec fn word_left(s: Seq<char>, cursor: int) -> int {
    back_over_word(s, back_over_space(s, min_int(cursor, s.len() as int)))
}

/// The start of the word after the cursor.
pub open spec fn word_right(s: Seq<char>, cursor: int) -> int {
    forward_over_space(s, forward_over_word(s, min_int(cursor, s.len() as int)))
}

fn word_left_exec(s: &Vec<char>, cursor: usize) -> (p: usize)
    ensures
        p as int == word_left(s@, cursor as int),
{
    let mut p = if cursor < s.len() { cursor } else { s.len() };
    let ghost target = word_left(s@, p as int);
    assert(back_over_space(s@, p as int) == back_over_space(s@, min_int(cursor as int, s@.len() as int)));
    while p > 0 && char_is_whitespace(s[p - 1])
        invariant
            p <= s.len(),
            back_over_word(s@, back_over_space(s@, p as int)) == target,
        decreases p,
    {
        p = p - 1;
    }
    while p > 0 && !char_is_whitespace(s[p - 1])
        invariant
            p <= s.len(),
            back_over_word(s@, p as int) == target,
        decreases p,
    {
        p = p - 1;
    }
    p
}

fn word_right_exec(s: &Vec<char>, cursor: usize) -> (p: usize)
    ensures
        p as int == word_right(s@, cursor as int),
{
    let mut p = if cursor < s.len() { cursor } else { s.len() };
    let ghost target = word_right(s@, p as int);
    while p < s.len() && !char_is_whitespace(s[p])
        invariant
            p <= s.len(),
            forward_over_space(s@, forward_over_word(s@, p as int)) == target,
        decreases s.len() - p,
    {
        p = p + 1;
    }
    while p < s.len() && char_is_whitespace(s[p])
        invariant
            p <= s.len(),
            forward_over_space(s@, p as int) == target,
        decreases s.len() - p,
    {
        p = p + 1;
    }
    p
}

/// How a key press leaves the editor.
#[derive(Debug, Clone, Copy, PartialEq, Eq, Structural)]
pub enum EditOutcome {
    Continue,
    SaveAndClose,
    DiscardAndClose,
}

/// A key press in the editor.
#[derive(Debug, Clone, Copy, PartialEq, Eq, Structural)]
pub enum EditKey {
    Enter,
    Esc,
    Left,
    WordLeft,
    Right,
    WordRight,
    Home,
    End,
    Backspace,
    Delete,
    Up,
    Down,
    Char { c: char, ctrl: bool },
    Other,
}

impl MetadataEditState {
    /// `new` is `self` with the selected field holding `text` and the cursor
    /// at `cursor`, everything else unchanged.
    pub open spec fn edited(&self, new: MetadataEditState, text: Seq<char>, cursor: int) -> bool {
        &&& new.track_path == self.track_path
        &&& new.field_idx == self.field_idx
        &&& new.is_editing == self.is_editing
        &&& new.cursor_pos == cursor
        &&& new.field_text(self.field_idx as int) == text
        &&& forall|j: int| 0 <= j < 6 && j != self.field_idx ==> #[trigger] new.field_text(j) == self.field_text(j)
    }

    /// The field text and cursor after one key press while editing a field,
    /// and how the key leaves the editor.
    pub open spec fn editing_effect(&self, key: EditKey) -> (Seq<char>, int, bool, EditOutcome) {
        let s = self.field_text(self.field_idx as int);
        let pos = self.cursor_pos as int;
        let len = s.len() as int;
        match key {
            EditKey::Enter => (s, pos, false, EditOutcome::Continue),
            EditKey::Esc => (s, pos, false, EditOutcome::SaveAndClose),
            EditKey::Left => (s, if pos > 0 { pos - 1 } else { 0 }, true, EditOutcome::Continue),
            EditKey::WordLeft => (s, word_left(s, pos), true, EditOutcome::Continue),
            EditKey::Right => (s, if pos < len { pos + 1 } else { pos }, true, EditOutcome::Continue),
            EditKey::WordRight => (s, word_right(s, pos), true, EditOutcome::Continue),
            EditKey::Home => (s, 0, true, EditOutcome::Continue),
            EditKey::End => (s, len, true, EditOutcome::Continue),
            EditKey::Backspace => if pos > 0 && pos <= len {
                (s.remove(pos - 1), pos - 1, true, EditOutcome::Continue)
            } else {
                (s, pos, true, EditOutcome::Continue)
            },
            EditKey::Delete => if pos < len {
                (s.remove(pos), pos, true, EditOutcome::Continue)
            } else {
                (s, pos, true, EditOutcome::Continue)
            },
            EditKey::Char { c, ctrl } => {
                let numeric = self.field_idx == 4 || self.field_idx == 5;
                if !numeric || ('0' <= c && c <= '9') {
                    let at = min_int(pos, len);
                    (s.insert(at, c), at + 1, true, EditOutcome::Continue)
                } else {
                    (s, pos, true, EditOutcome::Continue)
                }
            },
            _ => (s, pos, true, EditOutcome::Continue),
        }
    }

    /// Handles a key press while a field is being edited.
    fn editing_key(&mut self, key: EditKey) -> (outcome: EditOutcome)
        requires
            old(self).field_idx < 6,
            old(self).is_editing,
        ensures
            ({
                let (text, cursor, editing, out) = old(self).editing_effect(key);
                &&& outcome == out
                &&& old(self).edited(MetadataEditState { is_editing: old(self).is_editing, ..*final(self) }, text, cursor)
                &&& final(self).is_editing == editing
            }),
    {
        let chars = chars_of(self.current_field_str());
        let len = chars.len();
        let pos = self.cursor_pos;
        match key {
            EditKey::Enter => {
                self.is_editing = false;
                EditOutcome::Continue
            },
            EditKey::Esc => {
                self.is_editing = false;
                EditOutcome::SaveAndClose
            },
            EditKey::Left => {
                self.cursor_pos = if pos > 0 { pos - 1 } else { 0 };
                EditOutcome::Continue
            },
            EditKey::WordLeft => {
                self.cursor_pos = word_left_exec(&chars, pos);
                EditOutcome::Continue
            },
            EditKey::Right => {
                if pos < len {
                    self.cursor_pos = pos + 1;
                }
                EditOutcome::Continue
            },
            EditKey::WordRight => {
                self.cursor_pos = word_right_exec(&chars, pos);
                EditOutcome::Continue
            },
            EditKey::Home => {
                self.cursor_pos = 0;
                EditOutcome::Continue
            },
            EditKey::End => {
                self.cursor_pos = len;
                EditOutcome::Continue
            },
            EditKey::Backspace => {
                if pos > 0 && pos <= len {
                    let mut v = chars;
                    v.remove(pos - 1);
                    let text = string_from_chars(&v);
                    let field = self.current_field_str_mut();
                    *field = text;
                    self.cursor_pos = pos - 1;
                }
                EditOutcome::Continue
            },
            EditKey::Delete => {
                if pos < len {
                    let mut v = chars;
                    v.remove(pos);
                    let text = string_from_chars(&v);
                    let field = self.current_field_str_mut();
                    *field = text;
                }
                EditOutcome::Continue
            },
            EditKey::Char { c, ctrl } => {
                let numeric = MetaField::at(self.field_idx).is_numeric();
                if !numeric || ('0' <= c && c <= '9') {
                    let at = if pos < len { pos } else { len };
                    let mut v = chars;
                    v.insert(at, c);
                    assert(at < v.len());
                    let text = string_from_chars(&v);
                    let field = self.current_field_str_mut();
                    *field = text;
                    self.cursor_pos = at + 1;
                }
                EditOutcome::Continue
            },
            _ => EditOutcome::Continue,
        }
    }
}


impl MetadataEditState {
    /// The selected field, whether a field is being edited, the cursor, and
    /// how the key leaves the editor, after one key press while moving
    /// between fields.
    pub open spec fn navigation_effect(&self, key: EditKey) -> (usize, bool, int, EditOutcome) {
        let i = self.field_idx;
        let pos = self.cursor_pos as int;
        match key {
            EditKey::Esc => (i, false, pos, EditOutcome::SaveAndClose),
            EditKey::Char { c, ctrl } => if c == 'q' {
                (i, false, pos, EditOutcome::DiscardAndClose)
            } else if c == 'k' {
                (if i == 0 { 5 } else { (i - 1) as usize }, false, pos, EditOutcome::Continue)
            } else if c == 'j' {
                (((i + 1) % 6) as usize, false, pos, EditOutcome::Continue)
            } else if c == 's' && ctrl {
                (i, false, pos, EditOutcome::SaveAndClose)
            } else {
                (i, false, pos, EditOutcome::Continue)
            },
            EditKey::Up => (if i == 0 { 5 } else { (i - 1) as usize }, false, pos, EditOutcome::Continue),
            EditKey::Down => (((i + 1) % 6) as usize, false, pos, EditOutcome::Continue),
            EditKey::Enter => (i, true, self.field_text(i as int).len() as int, EditOutcome::Continue),
            _ => (i, false, pos, EditOutcome::Continue),
        }
    }

    /// Handles a key press: while a field is being edited the key edits it
    /// (`editing_effect`), otherwise it moves between fields, starts editing,
    /// or closes the editor (`navigation_effect`).
    pub fn handle_key(&mut self, key: EditKey) -> (outcome: EditOutcome)
        requires
            old(self).field_idx < 6,
        ensures
            final(self).field_idx < 6,
            old(self).is_editing ==> ({
                let (text, cursor, editing, out) = old(self).editing_effect(key);
                &&& outcome == out
                &&& old(self).edited(MetadataEditState { is_editing: old(self).is_editing, ..*final(self) }, text, cursor)
                &&& final(self).is_editing == editing
            }),
            !old(self).is_editing ==> ({
                let (field, editing, cursor, out) = old(self).navigation_effect(key);
                &&& outcome == out
                &&& final(self).field_idx == field
                &&& final(self).is_editing == editing
                &&& final(self).cursor_pos == cursor
                &&& final(self).track_path == old(self).track_path
                &&& forall|j: int| 0 <= j < 6 ==> #[trigger] final(self).field_text(j) == old(self).field_text(j)
            }),
    {
        if self.is_editing {
            return self.editing_key(key);
        }
        let i = self.field_idx;
        let up: usize = if i == 0 { 5 } else { i - 1 };
        let down: usize = (i + 1) % FIELD_COUNT;
        match key {
            EditKey::Esc => EditOutcome::SaveAndClose,
            EditKey::Char { c, ctrl } => {
                if c == 'q' {
                    EditOutcome::DiscardAndClose
                } else if c == 'k' {
                    self.field_idx = up;
                    EditOutcome::Continue
                } else if c == 'j' {
                    self.field_idx = down;
                    EditOutcome::Continue
                } else if c == 's' && ctrl {
                    EditOutcome::SaveAndClose
                } else {
                    EditOutcome::Continue
                }
            },
            EditKey::Up => {
                self.field_idx = up;
                EditOutcome::Continue
            },
            EditKey::Down => {
                self.field_idx = down;
                EditOutcome::Continue
            },
            EditKey::Enter => {
                let n = chars_of(self.current_field_str()).len();
                self.is_editing = true;
                self.cursor_pos = n;
                EditOutcome::Continue
            },
            _ => EditOutcome::Continue,
        }
    }
}


/// The value of a string of decimal digits.
pub open spec fn digits_value(s: Seq<char>) -> nat
    decreases s.len(),
{
    if s.len() == 0 {
        0
    } else {
        (digits_value(s.drop_last()) * 10 + ((s.last() as int) - ('0' as int))) as nat
    }
}

/// What `str::parse::<u32>` accepts: an optional `+` followed by at least
/// one decimal digit and nothing else, with a value that fits in a `u32`.
pub open spec fn parse_u32_spec(s: Seq<char>) -> Option<u32> {
    let body = if s.len() > 0 && s[0] == '+' { s.drop_first() } else { s };
    if body.len() > 0 && (forall|i: int| 0 <= i < body.len() ==> '0' <= #[trigger] body[i] && body[i] <= '9')
        && digits_value(body) <= u32::MAX {
        Some(digits_value(body) as u32)
    } else {
        None
    }
}

/// Calls `str::parse::<u32>`, which the standard library documents as
/// accepting an optional `+` sign followed by digits only, and failing on
/// anything else, on an empty string, and on values that overflow.
#[verifier::external_body]
fn parse_u32(s: &str) -> (n: Option<u32>)
    ensures
        n == parse_u32_spec(s@),
{
    s.parse::<u32>().ok()
}

/// What to do to one text tag field.
pub enum FieldEdit {
    Remove,
    Assign(String),
}

/// The changes to write to a file's tag.
pub struct TagEdits {
    pub title: FieldEdit,
    pub artist: FieldEdit,
    pub album: FieldEdit,
    pub genre: FieldEdit,
    pub year: Option<u32>,
    pub track: Option<u32>,
}

/// A text field's edit: removed when only white space is left, else set to
/// the trimmed text.
pub open spec fn field_edit_for(e: FieldEdit, text: Seq<char>) -> bool {
    if trimmed(text).len() == 0 {
        e is Remove
    } else {
        e matches FieldEdit::Assign(v) && v@ == trimmed(text)
    }
}

fn field_edit(text: &str) -> (e: FieldEdit)
    ensures
        field_edit_for(e, text@),
{
    let t = trim_str(text);
    if t.is_empty() {
        FieldEdit::Remove
    } else {
        FieldEdit::Assign(t.to_owned())
    }
}

/// The tag changes for saving the given values: each text field is removed
/// when blank and otherwise set to its trimmed text; year and track number
/// are set when given and removed otherwise.
pub fn plan_tag_edits(
    title: &str,
    artist: &str,
    album: &str,
    genre: &str,
    year: Option<u32>,
    track_num: Option<u32>,
) -> (edits: TagEdits)
    ensures
        field_edit_for(edits.title, title@),
        field_edit_for(edits.artist, artist@),
        field_edit_for(edits.album, album@),
        field_edit_for(edits.genre, genre@),
        edits.year == year,
        edits.track == track_num,
{
    TagEdits {
        title: field_edit(title),
        artist: field_edit(artist),
        album: field_edit(album),
        genre: field_edit(genre),
        year,
        track: track_num,
    }
}

/// What saving the editor writes.
pub struct MetadataUpdate {
    pub path: String,
    pub title: String,
    pub artist: String,
    pub album: String,
    pub genre: String,
    pub year: Option<u32>,
    pub track_number: Option<u32>,
}

impl MetadataEditState {
    /// The values to save: the text fields as typed, and the year and track
    /// number parsed from their trimmed text (`None` when that is not a number).
    pub fn save_request(&self) -> (u: MetadataUpdate)
        ensures
            u.path == self.track_path,
            u.title == self.title,
            u.artist == self.artist,
            u.album == self.album,
            u.genre == self.genre,
            u.year == parse_u32_spec(trimmed(self.year@)),
            u.track_number == parse_u32_spec(trimmed(self.track_number@)),
    {
        MetadataUpdate {
            path: self.track_path.clone(),
            title: self.title.clone(),
            artist: self.artist.clone(),
            album: self.album.clone(),
            genre: self.genre.clone(),
            year: parse_u32(trim_str(self.year.as_str())),
            track_number: parse_u32(trim_str(self.track_number.as_str())),
        }
    }

    /// The editor opened on `track`, with the genre and year read from its
    /// tag: the first field selected, not editing, the genre trimmed, the
    /// year and track number in decimal (empty when unknown).
    pub fn for_track(track: &TrackInfo, genre: Option<String>, year: Option<u32>) -> (e: MetadataEditState)
        ensures
            e.track_path == track.path,
            e.field_idx == 0,
            !e.is_editing,
            e.cursor_pos == 0,
            e.title == track.title,
            e.artist == track.artist,
            e.album == track.album,
            e.genre@ == match genre {
                Some(g) => trimmed(g@),
                None => Seq::<char>::empty(),
            },
            e.year@ == match year {
                Some(y) => decimal(y as nat),
                None => Seq::<char>::empty(),
            },
            e.track_number@ == match track.track_number {
                Some(n) => decimal(n as nat),
                None => Seq::<char>::empty(),
            },
    {
        let genre_text = match genre {
            Some(g) => trim_str(g.as_str()).to_owned(),
            None => String::new(),
        };
        let mut year_text = String::new();
        if let Some(y) = year {
            push_decimal(&mut year_text, y as u64);
        }
        let mut track_text = String::new();
        if let Some(n) = track.track_number {
            push_decimal(&mut track_text, n as u64);
        }
        proof {
            assert(Seq::<char>::empty() + decimal(0) == decimal(0));
        }
        MetadataEditState {
            track_path: track.path.clone(),
            field_idx: 0,
            is_editing: false,
            cursor_pos: 0,
            title: track.title.clone(),
            artist: track.artist.clone(),
            album: track.album.clone(),
            genre: genre_text,
            year: year_text,
            track_number: track_text,
        }
    }
}

/// Typing a character that the field accepts and then pressing Backspace
/// gives the field its text back, with the cursor where the character went
/// in (the end of the text when the cursor was past it).
pub proof fn law_type_then_backspace_restores(before: MetadataEditState, after: MetadataEditState, c: char)
    requires
        before.field_idx < 6,
        before.is_editing,
        after.is_editing,
        (before.field_idx != 4 && before.field_idx != 5) || ('0' <= c && c <= '9'),
        ({
            let (text, cursor, _, _) = before.editing_effect(EditKey::Char { c, ctrl: false });
            before.edited(after, text, cursor)
        }),
    ensures
        ({
            let s = before.field_text(before.field_idx as int);
            let (text, cursor, editing, out) = after.editing_effect(EditKey::Backspace);
            &&& text == s
            &&& cursor == min_int(before.cursor_pos as int, s.len() as int)
            &&& editing
            &&& out == EditOutcome::Continue
        }),
{
    let s = before.field_text(before.field_idx as int);
    let at = min_int(before.cursor_pos as int, s.len() as int);
    assert(s.insert(at, c).remove(at) =~= s);
}

/// While a field is edited, Right moves the cursor one character towards the
/// end and stays at the end; Left moves it one character towards the start
/// and stays at the start. Neither changes the text, and Right then Left
/// comes back to where the cursor was when it was inside the text.
pub proof fn law_arrow_keys_move_one_character(before: MetadataEditState, after: MetadataEditState)
    requires
        before.field_idx < 6,
        before.is_editing,
        after.is_editing,
        ({
            let (text, cursor, _, _) = before.editing_effect(EditKey::Right);
            before.edited(after, text, cursor)
        }),
    ensures
        ({
            let s = before.field_text(before.field_idx as int);
            let pos = before.cursor_pos as int;
            let (text, cursor, editing, out) = before.editing_effect(EditKey::Right);
            let (ltext, lcursor, _, _) = before.editing_effect(EditKey::Left);
            &&& text == s && ltext == s && editing && out == EditOutcome::Continue
            &&& pos < s.len() ==> cursor == pos + 1
            &&& pos >= s.len() ==> cursor == pos
            &&& pos > 0 ==> lcursor == pos - 1
            &&& pos == 0 ==> lcursor == 0
            &&& pos < s.len() ==> after.editing_effect(EditKey::Left).1 == pos
        }),
{
}

} // verus!
