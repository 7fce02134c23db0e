//! The data the user interface shows, and the text it shows for it.

use vstd::prelude::*;
use crate::db::{AlbumWithSongs, SongSummary};

verus! {

/// A song as the album detail shows it.
#[derive(Debug, Clone)]
pub struct SongViewData {
    pub title: String,
    pub track: Option<i64>,
    pub genre: Option<String>,
}

/// An album as the album list and detail show it.
#[derive(Debug, Clone)]
pub struct AlbumViewData {
    pub id_album: i64,
    pub artist: String,
    pub name: String,
    pub path: String,
    pub songs: i64,
    pub song_list: Vec<SongViewData>,
}

/// `v` shows the song `s`: same title, track and genre.
pub open spec fn shows_song(v: SongViewData, s: SongSummary) -> bool {
    v.title == s.title && v.track == s.track && v.genre == s.genre
}

/// `v` shows the album `a`: same fields, and its songs shown one for one in
/// the same order.
pub open spec fn shows_album(v: AlbumViewData, a: AlbumWithSongs) -> bool {
    &&& v.id_album == a.id_album
    &&& v.artist == a.artist
    &&& v.name == a.name
    &&& v.path == a.path
    &&& v.songs == a.songs
    &&& v.song_list@.len() == a.song_list@.len()
    &&& forall|j: int|
        0 <= j < v.song_list@.len() ==> shows_song(#[trigger] v.song_list@[j], a.song_list@[j])
}

fn map_songs_to_view(songs: Vec<SongSummary>) -> (r: Vec<SongViewData>)
    ensures
        r@.len() == songs@.len(),
        forall|j: int| 0 <= j < r@.len() ==> shows_song(#[trigger] r@[j], songs@[j]),
{
    let ghost orig = songs@;
    let mut r: Vec<SongViewData> = Vec::new();
    for song in it: songs.into_iter()
        invariant
            it.seq() == orig,
            r@.len() == it.index(),
            forall|j: int| 0 <= j < r@.len() ==> shows_song(#[trigger] r@[j], orig[j]),
    {
        r.push(SongViewData { title: song.title, track: song.track, genre: song.genre });
    }
    r
}

/// Turns the albums read from the database into the data the interface
/// shows: the same albums in the same order, each with its fields and its
/// songs kept as they are.
pub fn map_albums_to_view(albums: Vec<AlbumWithSongs>) -> (r: Vec<AlbumViewData>)
    ensures
        r@.len() == albums@.len(),
        forall|i: int| 0 <= i < r@.len() ==> shows_album(#[trigger] r@[i], albums@[i]),
{
    let ghost orig = albums@;
    let mut r: Vec<AlbumViewData> = Vec::new();
    for album in it: albums.into_iter()
        invariant
            it.seq() == orig,
            r@.len() == it.index(),
            forall|i: int| 0 <= i < r@.len() ==> shows_album(#[trigger] r@[i], orig[i]),
    {
        let song_list = map_songs_to_view(album.song_list);
        r.push(
            AlbumViewData {
                id_album: album.id_album,
                artist: album.artist,
                name: album.name,
                path: album.path,
                songs: album.songs,
                song_list,
            },
        );
    }
    r
}

} // verus!

verus! {

/// The decimal digit `d` (0 to 9) as a character.
pub open spec fn digit_char(d: nat) -> char {
    seq!['0', '1', '2', '3', '4', '5', '6', '7', '8', '9'][d as int]
}

/// `n` written in decimal, without leading zeros.
pub open spec fn decimal(n: nat) -> Seq<char>
    decreases n,
{
    if n < 10 {
        seq![digit_char(n)]
    } else {
        decimal(n / 10).push(digit_char(n % 10))
    }
}

/// `x` written in decimal, as `{}` formats an integer: a `-` before the
/// digits of a negative number.
pub open spec fn signed_decimal(x: int) -> Seq<char> {
    if x < 0 {
        seq!['-'] + decimal((-x) as nat)
    } else {
        decimal(x as nat)
    }
}

/// `x` as `{:02}` formats it: padded with a leading zero to two characters.
pub open spec fn two_digits(x: int) -> Seq<char> {
    if 0 <= x < 10 {
        seq!['0'] + decimal(x as nat)
    } else {
        signed_decimal(x)
    }
}

fn digit_of(d: u64) -> (c: char)
    requires
        d < 10,
    ensures
        c == digit_char(d as nat),
{
    match d {
        0 => '0',
        1 => '1',
        2 => '2',
        3 => '3',
        4 => '4',
        5 => '5',
        6 => '6',
        7 => '7',
        8 => '8',
        _ => '9',
    }
}

/// Appends the decimal digits of `n` to `s`.
fn push_decimal(s: &mut String, n: u64)
    ensures
        final(s)@ == old(s)@ + decimal(n as nat),
    decreases n,
{
    if n < 10 {
        crate::text::push_char(s, digit_of(n));
    } else {
        push_decimal(s, n / 10);
        crate::text::push_char(s, digit_of(n % 10));
        assert(decimal(n as nat) == decimal((n / 10) as nat).push(digit_char((n % 10) as nat)));
    }
}

/// Appends `x` as `{}` writes it.
fn push_signed(s: &mut String, x: i64)
    ensures
        final(s)@ == old(s)@ + signed_decimal(x as int),
{
    if x < 0 {
        crate::text::push_char(s, '-');
        let m: u64 = ((-(x + 1)) as u64) + 1;
        push_decimal(s, m);
        assert(old(s)@.push('-') + decimal(m as nat) =~= old(s)@ + (seq!['-'] + decimal(m as nat)));
    } else {
        push_decimal(s, x as u64);
    }
}

/// The title line of a song in the album detail: `NN. title` (the track
/// number as `{:02}` writes it) when the track is known, else the title.
pub fn song_title_text(track: Option<i64>, title: &str) -> (r: String)
    ensures
        r@ == (match track {
            Some(t) => two_digits(t as int) + ". "@ + title@,
            None => title@,
        }),
{
    match track {
        Some(t) => {
            let mut s = String::new();
            if 0 <= t && t < 10 {
                crate::text::push_char(&mut s, '0');
                push_decimal(&mut s, t as u64);
            } else {
                push_signed(&mut s, t);
            }
            s.append(". ");
            s.append(title);
            s
        },
        None => String::from_str(title),
    }
}

/// The detail line of a song in the album detail: its genre (`Sin genero`
/// when unknown), a space and a line break, then the album's artist.
pub fn song_detail_text(genre: &Option<String>, artist: &str) -> (r: String)
    ensures
        r@ == (match genre {
            Some(g) => g@,
            None => "Sin genero"@,
        }) + " \n"@ + artist@,
{
    let mut s = match genre {
        Some(g) => g.clone(),
        None => String::from_str("Sin genero"),
    };
    s.append(" \n");
    s.append(artist);
    s
}

/// The header of the album detail: `Id: <id> ` and, on the next line,
/// `<songs> canciones`.
pub fn album_meta_text(id_album: i64, songs: i64) -> (r: String)
    ensures
        r@ == "Id: "@ + signed_decimal(id_album as int) + " \n"@ + signed_decimal(songs as int)
            + " canciones"@,
{
    let mut s = String::from_str("Id: ");
    push_signed(&mut s, id_album);
    s.append(" \n");
    push_signed(&mut s, songs);
    s.append(" canciones");
    s
}

/// The detail line of an album in the album list: its artist, then
/// `<songs> canciones` on the next line.
pub fn album_row_detail_text(artist: &str, songs: i64) -> (r: String)
    ensures
        r@ == artist@ + " \n"@ + signed_decimal(songs as int) + " canciones"@,
{
    let mut s = String::from_str(artist);
    s.append(" \n");
    push_signed(&mut s, songs);
    s.append(" canciones");
    s
}

} // verus!
