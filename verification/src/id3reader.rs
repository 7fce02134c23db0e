//! Turning the raw text fields of an ID3 tag into a [`SongTag`]: a missing or
//! blank field becomes `Unknown`, any other is trimmed.

use vstd::prelude::*;
use crate::songtag::SongTag;
use crate::text::{
    is_ws, is_ctrl, trim_seq, is_whitespace, is_control, chars_of, trim_range,
    string_from_range, lemma_trim_bounds, lemma_trim_idempotent,
};

verus! {

/// `t` holds a character that is neither whitespace nor a control character.
pub open spec fn has_visible(t: Seq<char>) -> bool {
    exists|i: int| 0 <= i < t.len() && !is_ws(#[trigger] t[i]) && !is_ctrl(t[i])
}

/// The text kept for a tag field: `Unknown` when it is missing or holds
/// nothing but whitespace and control characters, else the field trimmed.
pub open spec fn normalized(value: Option<Seq<char>>) -> Seq<char> {
    match value {
        Some(t) => if has_visible(t) {
            trim_seq(t)
        } else {
            "Unknown"@
        },
        None => "Unknown"@,
    }
}

/// An optional string slice as an optional character sequence.
pub open spec fn opt_view(value: Option<&str>) -> Option<Seq<char>> {
    match value {
        Some(t) => Some(t@),
        None => None,
    }
}

/// Normalises a text field read from an ID3 tag: `None`, or text made only
/// of whitespace and control characters, gives `Unknown`; any other text is
/// returned trimmed.
pub fn normalize_text(value: Option<&str>) -> (r: String)
    ensures
        r@ == normalized(opt_view(value)),
{
    match value {
        Some(text) => {
            let v = chars_of(text);
            let mut i: usize = 0;
            let mut found = false;
            while i < v.len() && !found
                invariant
                    i <= v@.len(),
                    v@ == text@,
                    found ==> has_visible(text@),
                    !found ==> forall|k: int| 0 <= k < i ==> is_ws(#[trigger] v@[k]) || is_ctrl(
                        v@[k],
                    ),
                decreases v@.len() - i + if found {
                    0int
                } else {
                    1int
                },
            {
                if !is_whitespace(v[i]) && !is_control(v[i]) {
                    found = true;
                } else {
                    i = i + 1;
                }
            }
            if found {
                let (a, b) = trim_range(&v, 0, v.len());
                proof {
                    assert(v@.subrange(0, v@.len() as int) =~= v@);
                }
                string_from_range(&v, a, b)
            } else {
                String::from_str("Unknown")
            }
        },
        None => String::from_str("Unknown"),
    }
}

/// The [`SongTag`] for the file at `file_path` whose ID3 tag has the given
/// text fields, track number and year: each text field normalised by
/// [`normalize_text`], the track number converted to `i32` as `as` does.
pub fn song_tag_from_fields(
    file_path: String,
    title: Option<&str>,
    artist: Option<&str>,
    album: Option<&str>,
    genre: Option<&str>,
    track: Option<u32>,
    year: Option<i32>,
) -> (tag: SongTag)
    ensures
        tag.file_path@ == file_path@,
        tag.title@ == normalized(opt_view(title)),
        tag.artist@ == normalized(opt_view(artist)),
        tag.album@ == normalized(opt_view(album)),
        tag.genre@ == normalized(opt_view(genre)),
        tag.track == (match track {
            Some(t) => Some(t as i32),
            None => None::<i32>,
        }),
        tag.year == year,
{
    let track = match track {
        Some(t) => Some(t as i32),
        None => None,
    };
    SongTag {
        file_path,
        title: normalize_text(title),
        artist: normalize_text(artist),
        album: normalize_text(album),
        genre: normalize_text(genre),
        track,
        year,
    }
}

/// Normalising a field that is already normalised changes nothing.
pub proof fn lemma_normalize_idempotent(value: Option<Seq<char>>)
    ensures
        normalized(Some(normalized(value))) == normalized(value),
{
    reveal_strlit("Unknown");
    let u = "Unknown"@;
    assert(!is_ws(u[0]) && !is_ctrl(u[0]));
    assert(has_visible(u));
    assert(trim_seq(u) == u) by {
        crate::text::lemma_trim_fixed(u);
    }
    match value {
        Some(t) => {
            if has_visible(t) {
                let i = choose|i: int| 0 <= i < t.len() && !is_ws(#[trigger] t[i]) && !is_ctrl(t[i]);
                let (a, b) = lemma_trim_bounds(t);
                assert(a <= i < b);
                assert(trim_seq(t)[i - a] == t[i]);
                assert(has_visible(trim_seq(t)));
                lemma_trim_idempotent(t);
            }
        },
        None => {},
    }
}

/// A normalised field is never blank: it holds a visible character and has
/// no whitespace at either end.
pub proof fn lemma_normalized_not_blank(value: Option<Seq<char>>)
    ensures
        has_visible(normalized(value)),
        trim_seq(normalized(value)) == normalized(value),
{
    lemma_normalize_idempotent(value);
    reveal_strlit("Unknown");
    let u = "Unknown"@;
    assert(!is_ws(u[0]) && !is_ctrl(u[0]));
    match value {
        Some(t) => {
            if has_visible(t) {
                let i = choose|i: int| 0 <= i < t.len() && !is_ws(#[trigger] t[i]) && !is_ctrl(t[i]);
                let (a, b) = lemma_trim_bounds(t);
                assert(a <= i < b);
                assert(trim_seq(t)[i - a] == t[i]);
            }
        },
        None => {},
    }
}

/// A field is kept, trimmed, as soon as it holds one character that is
/// neither whitespace nor a control character, in whatever script; it
/// becomes `Unknown` only when it is missing or holds nothing else.
pub proof fn lemma_visible_text_is_kept(t: Seq<char>, i: int)
    ensures
        0 <= i < t.len() && !is_ws(t[i]) && !is_ctrl(t[i]) ==> normalized(Some(t)) == trim_seq(t),
        (forall|k: int| 0 <= k < t.len() ==> is_ws(#[trigger] t[k]) || is_ctrl(t[k])) ==> normalized(
            Some(t),
        ) == "Unknown"@,
        normalized(None) == "Unknown"@,
{
    if 0 <= i < t.len() && !is_ws(t[i]) && !is_ctrl(t[i]) {
        assert(has_visible(t));
    }
}

} // verus!
