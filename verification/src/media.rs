//! What a media session reports of the track that is playing.

use crate::text::{chars_of, string_of_range, trim, leading_end, trailing_start, CharClass};
use vstd::prelude::*;

verus! {

/// How the text of a media session is converted between Chinese scripts.
#[derive(Debug, Clone, Copy, PartialEq, Eq)]
pub enum TextConversionMode {
    Off,
    TraditionalToSimplified,
    SimplifiedToTraditional,
    SimplifiedToTaiwan,
    TaiwanToSimplified,
    SimplifiedToHongKong,
    HongKongToSimplified,
}

/// What a player repeats.
#[derive(Debug, Clone, Copy, PartialEq, Eq)]
pub enum RepeatMode {
    Off,
    One,
    All,
}

/// A media session by its id and the name shown for it.
#[derive(Debug, Clone, PartialEq, Eq, Hash)]
pub struct SmtcSessionInfo {
    pub session_id: String,
    pub display_name: String,
}

/// The track that is playing, as a media session reports it.
#[derive(Debug, Clone)]
pub struct FrontendNowPlayingInfo {
    pub title: Option<String>,
    pub artist: Option<String>,
    pub album_title: Option<String>,
    pub duration_ms: Option<u64>,
    pub position_ms: Option<u64>,
    pub is_playing: Option<bool>,
    pub is_shuffle_active: Option<bool>,
    pub repeat_mode: Option<RepeatMode>,
    pub can_play: Option<bool>,
    pub can_pause: Option<bool>,
    pub can_skip_next: Option<bool>,
    pub can_skip_previous: Option<bool>,
    pub cover_data: Option<String>,
    pub cover_data_hash: Option<u64>,
}

/// The separator between artist and album in the artist field: an em dash
/// between two spaces.
pub open spec fn field_separator() -> Seq<char> {
    seq![' ', '\u{2014}', ' ']
}

/// `pattern` occurs in `s` at index `i`.
pub open spec fn occurs_at(s: Seq<char>, pattern: Seq<char>, i: int) -> bool {
    0 <= i && i + pattern.len() <= s.len() && s.subrange(i, i + pattern.len()) == pattern
}

/// The index of the first occurrence of `pattern` in `s` at or after `from`,
/// or the length of `s` if there is none.
pub open spec fn find_from(s: Seq<char>, pattern: Seq<char>, from: int) -> int
    decreases s.len() - from,
{
    if from < 0 || from >= s.len() {
        s.len() as int
    } else if occurs_at(s, pattern, from) {
        from
    } else {
        find_from(s, pattern, from + 1)
    }
}

/// The artist of an artist field: what stands before the first separator,
/// trimmed; the whole field where it has no separator.
pub open spec fn artist_of(field: Seq<char>) -> Seq<char> {
    let i = find_from(field, field_separator(), 0);
    if i < field.len() {
        trim(field.subrange(0, i))
    } else {
        field
    }
}

/// The album of an artist field: what stands after the first separator,
/// trimmed, if the field has a separator.
pub open spec fn album_of(field: Seq<char>) -> Option<Seq<char>> {
    let i = find_from(field, field_separator(), 0);
    if i < field.len() {
        Some(trim(field.subrange(i + 3, field.len() as int)))
    } else {
        None
    }
}

/// The album title after the artist field was split: the album of the
/// field, where the track has no album title yet and the field names one.
pub open spec fn album_after(artist: Option<Seq<char>>, album_title: Option<Seq<char>>) -> Option<Seq<char>> {
    match artist {
        None => album_title,
        Some(field) => match album_of(field) {
            None => album_title,
            Some(album) => if album_title is None || album_title->0.len() == 0 {
                Some(album)
            } else {
                album_title
            },
        },
    }
}

/// The artist after the artist field was split.
pub open spec fn artist_after(artist: Option<Seq<char>>) -> Option<Seq<char>> {
    match artist {
        None => None,
        Some(field) => Some(artist_of(field)),
    }
}

/// The position of the first separator in the characters, or their number.
fn find_separator(v: &Vec<char>) -> (i: usize)
    ensures
        i <= v.len(),
        i == find_from(v@, field_separator(), 0),
        i < v.len() ==> i + 3 <= v.len(),
{
    let n = v.len();
    let mut i: usize = 0;
    while i < n
        invariant
            i <= n == v.len(),
            find_from(v@, field_separator(), 0) == find_from(v@, field_separator(), i as int),
        decreases n - i,
    {
        if n - i >= 3 && v[i] == ' ' && v[i + 1] == '\u{2014}' && v[i + 2] == ' ' {
            assert(v@.subrange(i as int, i + 3) =~= field_separator());
            return i;
        }
        proof {
            if occurs_at(v@, field_separator(), i as int) {
                let w = v@.subrange(i as int, i + 3);
                assert(w[0] == v@[i as int]);
                assert(w[1] == v@[i + 1]);
                assert(w[2] == v@[i + 2]);
            }
        }
        i += 1;
    }
    n
}

/// The characters `v[from..to]`, trimmed.
fn trimmed_range(v: &Vec<char>, from: usize, to: usize) -> (r: String)
    requires
        from <= to <= v.len(),
    ensures
        r@ == trim(v@.subrange(from as int, to as int)),
{
    let a = leading_end(v, from, to, CharClass::Whitespace);
    let b = trailing_start(v, a, to, CharClass::Whitespace);
    string_of_range(v, a, b)
}

/// Splits an artist field of the form `artist — album`: the artist keeps
/// what stands before the separator, and the album title takes what stands
/// after it unless the track has an album title already. Everything else
/// stays.
pub fn parse_apple_music_field(info: FrontendNowPlayingInfo) -> (r: FrontendNowPlayingInfo)
    ensures
        r.artist.deep_view() == artist_after(info.artist.deep_view()),
        r.album_title.deep_view() == album_after(info.artist.deep_view(), info.album_title.deep_view()),
        r.title == info.title,
        r.duration_ms == info.duration_ms,
        r.position_ms == info.position_ms,
        r.is_playing == info.is_playing,
        r.is_shuffle_active == info.is_shuffle_active,
        r.repeat_mode == info.repeat_mode,
        r.can_play == info.can_play,
        r.can_pause == info.can_pause,
        r.can_skip_next == info.can_skip_next,
        r.can_skip_previous == info.can_skip_previous,
        r.cover_data == info.cover_data,
        r.cover_data_hash == info.cover_data_hash,
{
    let mut info = info;
    match info.artist.take() {
        None => {},
        Some(field) => {
            let v = chars_of(field.as_str());
            let i = find_separator(&v);
            if i < v.len() {
                info.artist = Some(trimmed_range(&v, 0, i));
                let has_album = match &info.album_title {
                    Some(t) => !t.as_str().is_empty(),
                    None => false,
                };
                if !has_album {
                    info.album_title = Some(trimmed_range(&v, i + 3, v.len()));
                }
            } else {
                info.artist = Some(field);
            }
        },
    }
    info
}

} // verus!
