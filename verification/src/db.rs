//! The SQLite side of the library: the schema, the upsert of a song with its
//! performer and album, and the album listings.

use vstd::prelude::*;
use vstd::utf8::{valid_utf8, decode_utf8};
use crate::songtag::SongTag;
use crate::sqlite::{Db, Stmt, QueryAnswer, answer_view, query_values, execute, execute_batch, last_insert_rowid};

verus! {

/// One album as the listings show it.
#[derive(Debug, Clone)]
pub struct AlbumSummary {
    pub id_album: i64,
    pub name: String,
    pub path: String,
    pub songs: i64,
    pub artist: String,
}

/// One song of an album as the listings show it.
#[derive(Debug, Clone)]
pub struct SongSummary {
    pub title: String,
    pub track: Option<i64>,
    pub genre: Option<String>,
}

/// An album with the list of its songs.
#[derive(Debug, Clone)]
pub struct AlbumWithSongs {
    pub id_album: i64,
    pub name: String,
    pub path: String,
    pub songs: i64,
    pub artist: String,
    pub song_list: Vec<SongSummary>,
}

} // verus!

verus! {

/// Turns on the checking of foreign keys.
pub const FOREIGN_KEYS_ON: &'static str = "PRAGMA foreign_keys = ON;";

/// The id of the song stored under a path.
pub const FIND_SONG_BY_PATH: &'static str = "SELECT id_rola FROM rolas WHERE path = ?1 LIMIT 1";

/// Overwrites a stored song.
pub const UPDATE_SONG: &'static str = "UPDATE rolas\n             SET id_performer = ?1,\n                 id_album = ?2,\n                 title = ?3,\n                 track = ?4,\n                 year = ?5,\n                 genre = ?6\n             WHERE id_rola = ?7";

/// Stores a new song.
pub const INSERT_SONG: &'static str = "INSERT INTO rolas (id_performer, id_album, path, title, track, year, genre)\n             VALUES (?1, ?2, ?3, ?4, ?5, ?6, ?7)";

/// All albums with their song count and performers, most songs first.
pub const SELECT_ALBUMS: &'static str = "SELECT a.id_album,\n                a.name,\n                a.path,\n                a.year,\n                COUNT(r.id_rola) AS songs,\n                COALESCE((SELECT GROUP_CONCAT(DISTINCT p.name)\n                          FROM rolas r2\n                          LEFT JOIN performers p ON r2.id_performer = p.id_performer\n                          WHERE r2.id_album = a.id_album), 'Unknown') AS artist\n         FROM albums a\n         LEFT JOIN rolas r ON r.id_album = a.id_album\n         GROUP BY a.id_album, a.name, a.path, a.year\n         ORDER BY songs DESC, a.name COLLATE NOCASE ASC";

/// The songs of one album, by track number (unnumbered last), then title.
pub const SELECT_ALBUM_SONGS: &'static str = "SELECT title, path, track, year, genre\n         FROM rolas\n         WHERE id_album = ?1\n         ORDER BY track IS NULL, track ASC, title COLLATE NOCASE ASC";

/// The id of the performer with a name.
pub const FIND_PERFORMER: &'static str = "SELECT id_performer FROM performers WHERE name = ?1 LIMIT 1";

/// Stores a new performer.
pub const INSERT_PERFORMER: &'static str = "INSERT INTO performers (id_type, name) VALUES (?1, ?2)";

/// The id of the album with a path, a name and a year (or none).
pub const FIND_ALBUM: &'static str = "SELECT id_album\n             FROM albums\n             WHERE path = ?1\n               AND name = ?2\n               AND (year = ?3 OR (year IS NULL AND ?3 IS NULL))\n             LIMIT 1";

/// Stores a new album.
pub const INSERT_ALBUM: &'static str = "INSERT INTO albums (path, name, year) VALUES (?1, ?2, ?3)";

/// The tables of the library (performer types, performers, albums and
/// songs), each created when it is missing.
pub const SCHEMA: &'static str = "CREATE TABLE IF NOT EXISTS types (\n    id_type INTEGER PRIMARY KEY,\n    description TEXT\n);\nINSERT OR IGNORE INTO types (id_type, description) VALUES (0, 'Person');\nINSERT OR IGNORE INTO types (id_type, description) VALUES (1, 'Group');\nINSERT OR IGNORE INTO types (id_type, description) VALUES (2, 'Unknown');\nCREATE TABLE IF NOT EXISTS performers (\n    id_performer INTEGER PRIMARY KEY,\n    id_type INTEGER,\n    name TEXT,\n    FOREIGN KEY (id_type) REFERENCES types(id_type)\n);\nCREATE TABLE IF NOT EXISTS albums (\n    id_album INTEGER PRIMARY KEY,\n    path TEXT,\n    name TEXT,\n    year INTEGER\n);\nCREATE TABLE IF NOT EXISTS rolas (\n    id_rola INTEGER PRIMARY KEY,\n    id_performer INTEGER,\n    id_album INTEGER,\n    path TEXT,\n    title TEXT,\n    track INTEGER,\n    year INTEGER,\n    genre TEXT,\n    FOREIGN KEY (id_performer) REFERENCES performers(id_performer),\n    FOREIGN KEY (id_album) REFERENCES albums(id_album)\n);\n";

} // verus!

verus! {

#[verifier::external_type_specification]
#[verifier::external_body]
pub struct ExConnection(rusqlite::Connection);

#[verifier::external_type_specification]
#[verifier::external_body]
pub struct ExSqliteError(rusqlite::Error);

#[verifier::external_type_specification]
#[verifier::external_body]
pub struct ExSqliteValue(rusqlite::types::Value);

/// A value bound to a `?` placeholder of a statement.
#[derive(Debug)]
pub enum SqlParam {
    Int(i64),
    Text(String),
    Null,
}

/// One column of a result row, as SQLite stored it: a text is kept as its
/// bytes, which are checked to be UTF-8 only when the column is read as a
/// text. A floating-point value is only marked as such: the library never
/// reads one.
#[derive(Debug)]
pub enum SqlCell {
    Null,
    Int(i64),
    Real,
    Text(Vec<u8>),
    Blob(Vec<u8>),
}

/// Why a database operation failed.
#[derive(Debug)]
pub enum DbError {
    /// SQLite refused the statement or failed while running it.
    Sqlite(rusqlite::Error),
    /// A result row has no column with this index.
    InvalidColumnIndex(usize),
    /// A result column holds a value of another type than the one read.
    InvalidColumnType(usize),
    /// A text column read as a text does not hold UTF-8.
    InvalidUtf8(usize),
}

/// A parameter as a plain value: an integer, a text, or null.
pub enum ParamValue {
    Int(i64),
    Text(Seq<char>),
    Null,
}

/// The plain value of a parameter.
pub open spec fn param_value(p: SqlParam) -> ParamValue {
    match p {
        SqlParam::Int(i) => ParamValue::Int(i),
        SqlParam::Text(s) => ParamValue::Text(s@),
        SqlParam::Null => ParamValue::Null,
    }
}

/// The plain values of a list of parameters.
pub open spec fn param_values(ps: Seq<SqlParam>) -> Seq<ParamValue> {
    ps.map_values(|p: SqlParam| param_value(p))
}

/// The rows a query stepped, in order, and the error that ended the
/// stepping, if one did.
pub open spec fn stepped(items: Seq<Result<Seq<SqlCell>, rusqlite::Error>>) -> (
    Seq<Seq<SqlCell>>,
    Option<rusqlite::Error>,
)
    decreases items.len(),
{
    if items.len() == 0 {
        (seq![], None)
    } else {
        match items[0] {
            Err(e) => (seq![], Some(e)),
            Ok(row) => {
                let rest = stepped(items.skip(1));
                (seq![row] + rest.0, rest.1)
            },
        }
    }
}

/// What the library takes from SQLite's answer to a query: the rows it
/// stepped and the error that ended the stepping, or the error that kept
/// the query from running.
pub open spec fn stepped_answer(o: QueryAnswer) -> Result<
    (Seq<Seq<SqlCell>>, Option<rusqlite::Error>),
    DbError,
> {
    match o {
        Ok(items) => Ok(stepped(items)),
        Err(e) => Err(DbError::Sqlite(e)),
    }
}

/// A query's outcome as plain values.
pub open spec fn query_outcome_view(
    r: Result<(Vec<Vec<SqlCell>>, Option<rusqlite::Error>), DbError>,
) -> Result<(Seq<Seq<SqlCell>>, Option<rusqlite::Error>), DbError> {
    match r {
        Ok((rows, stop)) => Ok((rows_view(rows@), stop)),
        Err(e) => Err(e),
    }
}

/// Runs a query and records it: the rows SQLite stepped, in order, and the
/// error that ended the stepping, if one did; a failure to prepare the
/// statement or to bind its parameters is [`DbError::Sqlite`].
pub(crate) fn query(db: &mut Db, sql: &str, params: &Vec<SqlParam>) -> (r: Result<
    (Vec<Vec<SqlCell>>, Option<rusqlite::Error>),
    DbError,
>)
    ensures
        final(db).log().drop_last() == old(db).log(),
        final(db).log().len() == old(db).log().len() + 1,
        is_query(final(db).log().last(), sql@, param_values(params@)),
        query_outcome_view(r) == stepped_answer(final(db).log().last()->Query_result),
{
    let r = query_values(db, sql, params);
    proof {
        assert(db.log().drop_last() =~= old(db).log());
    }
    match r {
        Ok(items) => {
            let ghost all = answer_view(Ok(items))->Ok_0;
            let mut rows: Vec<Vec<SqlCell>> = Vec::new();
            let ghost orig = items@;
            proof {
                assert(all.skip(0) =~= all);
                assert(rows_view(rows@) + stepped(all).0 =~= stepped(all).0);
            }
            for item in it: items.into_iter()
                invariant
                    db.log() == old(db).log().push(
                        Stmt::Query { sql: sql@, params: param_values(params@), result: Ok(all) },
                    ),
                    it.seq() == orig,
                    all == orig.map_values(
                        |it: Result<Vec<SqlCell>, rusqlite::Error>|
                            match it {
                                Ok(row) => Ok(row@),
                                Err(e) => Err(e),
                            },
                    ),
                    stepped(all) == (
                        rows_view(rows@) + stepped(all.skip(it.index() as int)).0,
                        stepped(all.skip(it.index() as int)).1,
                    ),
            {
                let ghost i = it.index() as int;
                proof {
                    assert(all.skip(i)[0] == all[i]);
                    assert(all.skip(i).skip(1) =~= all.skip(i + 1));
                }
                match item {
                    Ok(row) => {
                        let ghost prev = rows@;
                        rows.push(row);
                        proof {
                            assert(rows_view(rows@) =~= rows_view(prev).push(row@));
                            assert(rows_view(rows@) + stepped(all.skip(i + 1)).0 =~= rows_view(
                                prev,
                            ) + (seq![row@] + stepped(all.skip(i + 1)).0));
                        }
                    },
                    Err(e) => {
                        proof {
                            assert(rows_view(rows@) + Seq::<Seq<SqlCell>>::empty() =~= rows_view(
                                rows@,
                            ));
                        }
                        return Ok((rows, Some(e)));
                    },
                }
            }
            proof {
                assert(all.skip(all.len() as int) =~= Seq::<Result<Seq<SqlCell>, rusqlite::Error>>::empty());
                assert(rows_view(rows@) + Seq::<Seq<SqlCell>>::empty() =~= rows_view(rows@));
            }
            Ok((rows, None))
        },
        Err(e) => Err(DbError::Sqlite(e)),
    }
}

} // verus!

verus! {

/// The integer a cell holds, if it holds one.
pub open spec fn cell_int(c: SqlCell) -> Option<i64> {
    match c {
        SqlCell::Int(i) => Some(i),
        _ => None,
    }
}

/// The bytes of the text a cell holds, if it holds one.
pub open spec fn cell_text(c: SqlCell) -> Option<Seq<u8>> {
    match c {
        SqlCell::Text(b) => Some(b@),
        _ => None,
    }
}

/// The error for reading column `i` of `row` as a type it does not hold.
pub open spec fn column_error(row: Seq<SqlCell>, i: int) -> DbError {
    if 0 <= i < row.len() {
        DbError::InvalidColumnType(i as usize)
    } else {
        DbError::InvalidColumnIndex(i as usize)
    }
}

/// Column `i` read as an integer, as `rusqlite` reads an `i64`: only an
/// integer cell is accepted.
pub open spec fn read_i64(row: Seq<SqlCell>, i: int) -> Result<i64, DbError> {
    if 0 <= i < row.len() && cell_int(row[i]) is Some {
        Ok(cell_int(row[i])->0)
    } else {
        Err(column_error(row, i))
    }
}

/// Column `i` read as a text, as `rusqlite` reads a `String`: only a text
/// cell is accepted, and its bytes must be UTF-8.
pub open spec fn read_text(row: Seq<SqlCell>, i: int) -> Result<Seq<char>, DbError> {
    if 0 <= i < row.len() && cell_text(row[i]) is Some {
        if valid_utf8(cell_text(row[i])->0) {
            Ok(decode_utf8(cell_text(row[i])->0))
        } else {
            Err(DbError::InvalidUtf8(i as usize))
        }
    } else {
        Err(column_error(row, i))
    }
}

/// The string that `bytes` encode in UTF-8, or `None` when they are not
/// UTF-8 (`String::from_utf8`, documented to fail exactly on bytes that are
/// not UTF-8).
#[verifier::external_body]
fn utf8_string(bytes: &Vec<u8>) -> (r: Option<String>)
    ensures
        r is Some <==> valid_utf8(bytes@),
        r matches Some(s) ==> s@ == decode_utf8(bytes@),
{
    String::from_utf8(bytes.clone()).ok()
}

/// Column `i` read as an optional integer: null gives `None`.
pub open spec fn read_opt_i64(row: Seq<SqlCell>, i: int) -> Result<Option<i64>, DbError> {
    if 0 <= i < row.len() && row[i] is Null {
        Ok(None)
    } else {
        match read_i64(row, i) {
            Ok(v) => Ok(Some(v)),
            Err(e) => Err(e),
        }
    }
}

/// Column `i` read as an optional text: null gives `None`.
pub open spec fn read_opt_text(row: Seq<SqlCell>, i: int) -> Result<Option<Seq<char>>, DbError> {
    if 0 <= i < row.len() && row[i] is Null {
        Ok(None)
    } else {
        match read_text(row, i) {
            Ok(v) => Ok(Some(v)),
            Err(e) => Err(e),
        }
    }
}

/// An optional string as an optional character sequence.
pub open spec fn opt_string_view(s: Option<String>) -> Option<Seq<char>> {
    match s {
        Some(t) => Some(t@),
        None => None,
    }
}

fn get_i64(row: &Vec<SqlCell>, i: usize) -> (r: Result<i64, DbError>)
    ensures
        r == read_i64(row@, i as int),
{
    if i >= row.len() {
        return Err(DbError::InvalidColumnIndex(i));
    }
    match &row[i] {
        SqlCell::Int(v) => Ok(*v),
        _ => Err(DbError::InvalidColumnType(i)),
    }
}

fn get_opt_i64(row: &Vec<SqlCell>, i: usize) -> (r: Result<Option<i64>, DbError>)
    ensures
        r == read_opt_i64(row@, i as int),
{
    if i < row.len() {
        if let SqlCell::Null = &row[i] {
            return Ok(None);
        }
    }
    match get_i64(row, i) {
        Ok(v) => Ok(Some(v)),
        Err(e) => Err(e),
    }
}

fn get_text(row: &Vec<SqlCell>, i: usize) -> (r: Result<String, DbError>)
    ensures
        match r {
            Ok(s) => read_text(row@, i as int) == Ok::<Seq<char>, DbError>(s@),
            Err(e) => read_text(row@, i as int) == Err::<Seq<char>, DbError>(e),
        },
{
    if i >= row.len() {
        return Err(DbError::InvalidColumnIndex(i));
    }
    match &row[i] {
        SqlCell::Text(b) => match utf8_string(b) {
            Some(s) => Ok(s),
            None => Err(DbError::InvalidUtf8(i)),
        },
        _ => Err(DbError::InvalidColumnType(i)),
    }
}

fn get_opt_text(row: &Vec<SqlCell>, i: usize) -> (r: Result<Option<String>, DbError>)
    ensures
        match r {
            Ok(s) => read_opt_text(row@, i as int) == Ok::<Option<Seq<char>>, DbError>(
                opt_string_view(s),
            ),
            Err(e) => read_opt_text(row@, i as int) == Err::<Option<Seq<char>>, DbError>(e),
        },
{
    if i < row.len() {
        if let SqlCell::Null = &row[i] {
            return Ok(None);
        }
    }
    match get_text(row, i) {
        Ok(v) => Ok(Some(v)),
        Err(e) => Err(e),
    }
}

} // verus!

verus! {

/// An album summary as plain values: id, name, path, song count, artist.
pub open spec fn album_view(a: AlbumSummary) -> (i64, Seq<char>, Seq<char>, i64, Seq<char>) {
    (a.id_album, a.name@, a.path@, a.songs, a.artist@)
}

/// A song summary as plain values: title, track, genre.
pub open spec fn song_view(s: SongSummary) -> (Seq<char>, Option<i64>, Option<Seq<char>>) {
    (s.title@, s.track, opt_string_view(s.genre))
}

/// An album row of the album queries (id, name, path, year, song count,
/// artist) read as an [`AlbumSummary`]: columns are read in the order
/// id, name, path, song count, artist, the first that does not hold the
/// expected type giving the error; with `check_year` the year column is
/// read first, as an optional integer, and then dropped.
pub open spec fn read_album(row: Seq<SqlCell>, check_year: bool) -> Result<
    (i64, Seq<char>, Seq<char>, i64, Seq<char>),
    DbError,
> {
    if check_year && read_opt_i64(row, 3) is Err {
        Err(read_opt_i64(row, 3)->Err_0)
    } else if read_i64(row, 0) is Err {
        Err(read_i64(row, 0)->Err_0)
    } else if read_text(row, 1) is Err {
        Err(read_text(row, 1)->Err_0)
    } else if read_text(row, 2) is Err {
        Err(read_text(row, 2)->Err_0)
    } else if read_i64(row, 4) is Err {
        Err(read_i64(row, 4)->Err_0)
    } else if read_text(row, 5) is Err {
        Err(read_text(row, 5)->Err_0)
    } else {
        Ok(
            (
                read_i64(row, 0)->Ok_0,
                read_text(row, 1)->Ok_0,
                read_text(row, 2)->Ok_0,
                read_i64(row, 4)->Ok_0,
                read_text(row, 5)->Ok_0,
            ),
        )
    }
}

/// A song row (title, path, track, year, genre) read as a [`SongSummary`]:
/// title, then track, then genre.
pub open spec fn read_song(row: Seq<SqlCell>) -> Result<
    (Seq<char>, Option<i64>, Option<Seq<char>>),
    DbError,
> {
    if read_text(row, 0) is Err {
        Err(read_text(row, 0)->Err_0)
    } else if read_opt_i64(row, 2) is Err {
        Err(read_opt_i64(row, 2)->Err_0)
    } else if read_opt_text(row, 4) is Err {
        Err(read_opt_text(row, 4)->Err_0)
    } else {
        Ok((read_text(row, 0)->Ok_0, read_opt_i64(row, 2)->Ok_0, read_opt_text(row, 4)->Ok_0))
    }
}

/// All album rows read in order; the first row that fails gives the error.
pub open spec fn read_albums(rows: Seq<Seq<SqlCell>>, check_year: bool) -> Result<
    Seq<(i64, Seq<char>, Seq<char>, i64, Seq<char>)>,
    DbError,
>
    decreases rows.len(),
{
    if rows.len() == 0 {
        Ok(seq![])
    } else {
        match read_albums(rows.drop_last(), check_year) {
            Err(e) => Err(e),
            Ok(v) => match read_album(rows.last(), check_year) {
                Err(e) => Err(e),
                Ok(a) => Ok(v.push(a)),
            },
        }
    }
}

/// All song rows read in order; the first row that fails gives the error.
pub open spec fn read_songs(rows: Seq<Seq<SqlCell>>) -> Result<
    Seq<(Seq<char>, Option<i64>, Option<Seq<char>>)>,
    DbError,
>
    decreases rows.len(),
{
    if rows.len() == 0 {
        Ok(seq![])
    } else {
        match read_songs(rows.drop_last()) {
            Err(e) => Err(e),
            Ok(v) => match read_song(rows.last()) {
                Err(e) => Err(e),
                Ok(s) => Ok(v.push(s)),
            },
        }
    }
}

/// The id in the first column of the first row, if there is a row.
pub open spec fn read_first_id(rows: Seq<Seq<SqlCell>>) -> Result<Option<i64>, DbError> {
    if rows.len() == 0 {
        Ok(None)
    } else {
        match read_i64(rows[0], 0) {
            Ok(id) => Ok(Some(id)),
            Err(e) => Err(e),
        }
    }
}

/// `e` reports that column `i` of a row is missing, holds another type, or
/// holds a text that is not UTF-8.
pub open spec fn bad_column(e: DbError, i: usize) -> bool {
    e == DbError::InvalidColumnIndex(i) || e == DbError::InvalidColumnType(i)
        || e == DbError::InvalidUtf8(i)
}

/// The errors reading an id row can give: only its first column is read.
pub open spec fn id_read_error(e: DbError) -> bool {
    bad_column(e, 0)
}

/// The errors reading song rows can give: columns 0 (title), 2 (track) and
/// 4 (genre) are read.
pub open spec fn song_read_error(e: DbError) -> bool {
    bad_column(e, 0) || bad_column(e, 2) || bad_column(e, 4)
}

/// The errors reading album rows can give: columns 0, 1, 2, 4 and 5 are
/// read, and column 3 too when the year is checked.
pub open spec fn album_read_error(e: DbError, check_year: bool) -> bool {
    ||| check_year && bad_column(e, 3)
    ||| bad_column(e, 0)
    ||| bad_column(e, 1)
    ||| bad_column(e, 2)
    ||| bad_column(e, 4)
    ||| bad_column(e, 5)
}

/// Reading album rows fails only on the columns it reads.
pub proof fn lemma_album_read_errors(rows: Seq<Seq<SqlCell>>, check_year: bool)
    ensures
        read_albums(rows, check_year) matches Err(e) ==> album_read_error(e, check_year),
    decreases rows.len(),
{
    if rows.len() > 0 {
        lemma_album_read_errors(rows.drop_last(), check_year);
    }
}

/// Reading song rows fails only on the columns it reads.
pub proof fn lemma_song_read_errors(rows: Seq<Seq<SqlCell>>)
    ensures
        read_songs(rows) matches Err(e) ==> song_read_error(e),
    decreases rows.len(),
{
    if rows.len() > 0 {
        lemma_song_read_errors(rows.drop_last());
    }
}

/// Reading song rows reads each row on its own: when every row reads, the
/// result has exactly one song per row, in row order, each as its row reads;
/// otherwise the error is that of the first row that does not read.
pub proof fn lemma_read_songs_row_by_row(rows: Seq<Seq<SqlCell>>)
    ensures
        read_songs(rows) is Ok <==> forall|i: int| 0 <= i < rows.len() ==> read_song(#[trigger] rows[i]) is Ok,
        read_songs(rows) matches Ok(v) ==> v.len() == rows.len() && forall|i: int|
            0 <= i < rows.len() ==> v[i] == read_song(#[trigger] rows[i])->Ok_0,
        read_songs(rows) matches Err(e) ==> exists|k: int|
            0 <= k < rows.len() && (forall|i: int| 0 <= i < k ==> read_song(#[trigger] rows[i]) is Ok)
                && read_song(#[trigger] rows[k]) == Err::<SongRecord, DbError>(e),
    decreases rows.len(),
{
    if rows.len() > 0 {
        let p = rows.drop_last();
        let n = rows.len() - 1;
        lemma_read_songs_row_by_row(p);
        assert forall|i: int| 0 <= i < n implies #[trigger] p[i] == rows[i] by {}
        assert(rows.last() == rows[n]);
        match read_songs(p) {
            Err(e) => {
                let k = choose|k: int|
                    0 <= k < p.len() && (forall|i: int| 0 <= i < k ==> read_song(#[trigger] p[i]) is Ok)
                        && read_song(#[trigger] p[k]) == Err::<SongRecord, DbError>(e);
                assert(read_song(rows[k]) == Err::<SongRecord, DbError>(e));
                assert forall|i: int| 0 <= i < k implies read_song(#[trigger] rows[i]) is Ok by {
                    assert(p[i] == rows[i]);
                }
                assert(!(read_song(p[k]) is Ok));
            },
            Ok(v) => {
                match read_song(rows.last()) {
                    Err(e) => {
                        assert forall|i: int| 0 <= i < n implies read_song(#[trigger] rows[i]) is Ok by {
                            assert(p[i] == rows[i]);
                        }
                    },
                    Ok(s) => {
                        assert forall|i: int| 0 <= i < rows.len() implies read_song(#[trigger] rows[i]) is Ok by {
                            if i < n {
                                assert(p[i] == rows[i]);
                            }
                        }
                        assert forall|i: int| 0 <= i < rows.len() implies v.push(s)[i] == read_song(
                            #[trigger] rows[i],
                        )->Ok_0 by {
                            if i < n {
                                assert(p[i] == rows[i]);
                            }
                        }
                    },
                }
            },
        }
    }
}

/// Reading album rows reads each row on its own: when every row reads, the
/// result has exactly one album per row, in row order, each as its row
/// reads; otherwise the error is that of the first row that does not read.
pub proof fn lemma_read_albums_row_by_row(rows: Seq<Seq<SqlCell>>, check_year: bool)
    ensures
        read_albums(rows, check_year) is Ok <==> forall|i: int|
            0 <= i < rows.len() ==> read_album(#[trigger] rows[i], check_year) is Ok,
        read_albums(rows, check_year) matches Ok(v) ==> v.len() == rows.len() && forall|i: int|
            0 <= i < rows.len() ==> v[i] == read_album(#[trigger] rows[i], check_year)->Ok_0,
        read_albums(rows, check_year) matches Err(e) ==> exists|k: int|
            0 <= k < rows.len() && (forall|i: int|
                0 <= i < k ==> read_album(#[trigger] rows[i], check_year) is Ok) && read_album(
                #[trigger] rows[k],
                check_year,
            ) == Err::<AlbumRecord, DbError>(e),
    decreases rows.len(),
{
    if rows.len() > 0 {
        let p = rows.drop_last();
        let n = rows.len() - 1;
        lemma_read_albums_row_by_row(p, check_year);
        assert forall|i: int| 0 <= i < n implies #[trigger] p[i] == rows[i] by {}
        assert(rows.last() == rows[n]);
        match read_albums(p, check_year) {
            Err(e) => {
                let k = choose|k: int|
                    0 <= k < p.len() && (forall|i: int|
                        0 <= i < k ==> read_album(#[trigger] p[i], check_year) is Ok) && read_album(
                        #[trigger] p[k],
                        check_year,
                    ) == Err::<AlbumRecord, DbError>(e);
                assert(read_album(rows[k], check_year) == Err::<AlbumRecord, DbError>(e));
                assert forall|i: int| 0 <= i < k implies read_album(#[trigger] rows[i], check_year) is Ok by {
                    assert(p[i] == rows[i]);
                }
                assert(!(read_album(p[k], check_year) is Ok));
            },
            Ok(v) => {
                match read_album(rows.last(), check_year) {
                    Err(e) => {
                        assert forall|i: int| 0 <= i < n implies read_album(#[trigger] rows[i], check_year) is Ok by {
                            assert(p[i] == rows[i]);
                        }
                    },
                    Ok(a) => {
                        assert forall|i: int| 0 <= i < rows.len() implies read_album(#[trigger] rows[i], check_year) is Ok by {
                            if i < n {
                                assert(p[i] == rows[i]);
                            }
                        }
                        assert forall|i: int| 0 <= i < rows.len() implies v.push(a)[i] == read_album(
                            #[trigger] rows[i],
                            check_year,
                        )->Ok_0 by {
                            if i < n {
                                assert(p[i] == rows[i]);
                            }
                        }
                    },
                }
            },
        }
    }
}

/// A song row is read column by column: the title from the first column,
/// the track from the third (null: unknown) and the genre from the fifth
/// (null: unknown); the path and year columns are not read.
pub proof fn lemma_song_row_columns(
    title: Vec<u8>,
    path: SqlCell,
    track: Option<i64>,
    year: SqlCell,
    genre: Option<Vec<u8>>,
)
    requires
        valid_utf8(title@),
        genre matches Some(g) ==> valid_utf8(g@),
    ensures
        read_song(
            seq![
                SqlCell::Text(title),
                path,
                match track {
                    Some(k) => SqlCell::Int(k),
                    None => SqlCell::Null,
                },
                year,
                match genre {
                    Some(g) => SqlCell::Text(g),
                    None => SqlCell::Null,
                },
            ],
        ) == Ok::<SongRecord, DbError>(
            (
                decode_utf8(title@),
                track,
                match genre {
                    Some(g) => Some(decode_utf8(g@)),
                    None => None,
                },
            ),
        ),
{
}

/// An album row is read column by column: the id from the first column,
/// the name from the second, the path from the third, the song count from
/// the fifth and the artist from the sixth; the year (fourth) is only
/// checked, when asked, to be an integer or null.
pub proof fn lemma_album_row_columns(
    id: i64,
    name: Vec<u8>,
    path: Vec<u8>,
    year: Option<i64>,
    songs: i64,
    artist: Vec<u8>,
    check_year: bool,
)
    requires
        valid_utf8(name@),
        valid_utf8(path@),
        valid_utf8(artist@),
    ensures
        read_album(
            seq![
                SqlCell::Int(id),
                SqlCell::Text(name),
                SqlCell::Text(path),
                match year {
                    Some(y) => SqlCell::Int(y),
                    None => SqlCell::Null,
                },
                SqlCell::Int(songs),
                SqlCell::Text(artist),
            ],
            check_year,
        ) == Ok::<AlbumRecord, DbError>(
            (id, decode_utf8(name@), decode_utf8(path@), songs, decode_utf8(artist@)),
        ),
{
}

/// The rows of a query result as plain values.
pub open spec fn rows_view(rows: Seq<Vec<SqlCell>>) -> Seq<Seq<SqlCell>> {
    rows.map_values(|r: Vec<SqlCell>| r@)
}

/// Reads one album row (see [`read_album`]).
pub fn album_from_row(row: &Vec<SqlCell>, check_year: bool) -> (r: Result<AlbumSummary, DbError>)
    ensures
        match r {
            Ok(a) => read_album(row@, check_year) == Ok::<_, DbError>(album_view(a)),
            Err(e) => read_album(row@, check_year) == Err::<
                (i64, Seq<char>, Seq<char>, i64, Seq<char>),
                DbError,
            >(e),
        },
{
    if check_year {
        if let Err(e) = get_opt_i64(row, 3) {
            return Err(e);
        }
    }
    let id_album = get_i64(row, 0)?;
    let name = get_text(row, 1)?;
    let path = get_text(row, 2)?;
    let songs = get_i64(row, 4)?;
    let artist = get_text(row, 5)?;
    Ok(AlbumSummary { id_album, name, path, songs, artist })
}

/// Reads one song row (see [`read_song`]).
pub fn song_from_row(row: &Vec<SqlCell>) -> (r: Result<SongSummary, DbError>)
    ensures
        match r {
            Ok(s) => read_song(row@) == Ok::<_, DbError>(song_view(s)),
            Err(e) => read_song(row@) == Err::<(Seq<char>, Option<i64>, Option<Seq<char>>), DbError>(
                e,
            ),
        },
{
    let title = get_text(row, 0)?;
    let track = get_opt_i64(row, 2)?;
    let genre = get_opt_text(row, 4)?;
    Ok(SongSummary { title, track, genre })
}

/// Reads album rows in order (see [`read_albums`]).
pub fn albums_from_rows(rows: &Vec<Vec<SqlCell>>, check_year: bool) -> (r: Result<
    Vec<AlbumSummary>,
    DbError,
>)
    ensures
        match r {
            Ok(v) => read_albums(rows_view(rows@), check_year) == Ok::<_, DbError>(
                v@.map_values(|a: AlbumSummary| album_view(a)),
            ),
            Err(e) => read_albums(rows_view(rows@), check_year) == Err::<
                Seq<(i64, Seq<char>, Seq<char>, i64, Seq<char>)>,
                DbError,
            >(e),
        },
{
    let mut out: Vec<AlbumSummary> = Vec::new();
    let mut i: usize = 0;
    proof {
        assert(rows_view(rows@).take(0) =~= Seq::<Seq<SqlCell>>::empty());
        assert(out@.map_values(|a: AlbumSummary| album_view(a)) =~= seq![]);
    }
    while i < rows.len()
        invariant
            i <= rows@.len(),
            read_albums(rows_view(rows@).take(i as int), check_year) == Ok::<_, DbError>(
                out@.map_values(|a: AlbumSummary| album_view(a)),
            ),
        decreases rows@.len() - i,
    {
        let ghost prev = out@;
        proof {
            assert(rows_view(rows@).take(i + 1).drop_last() =~= rows_view(rows@).take(i as int));
        }
        match album_from_row(&rows[i], check_year) {
            Ok(a) => {
                out.push(a);
                proof {
                    assert(out@.map_values(|a: AlbumSummary| album_view(a)) =~= prev.map_values(
                        |a: AlbumSummary| album_view(a),
                    ).push(album_view(a)));
                }
            },
            Err(e) => {
                proof {
                    lemma_read_albums_error_sticks(rows_view(rows@), check_year, i + 1);
                    assert(rows_view(rows@).take(rows@.len() as int) =~= rows_view(rows@));
                }
                return Err(e);
            },
        }
        i = i + 1;
    }
    proof {
        assert(rows_view(rows@).take(rows@.len() as int) =~= rows_view(rows@));
    }
    Ok(out)
}

/// Once a prefix of the rows fails, every longer prefix fails the same way.
proof fn lemma_read_albums_error_sticks(rows: Seq<Seq<SqlCell>>, check_year: bool, k: int)
    requires
        0 <= k <= rows.len(),
        read_albums(rows.take(k), check_year) is Err,
    ensures
        read_albums(rows, check_year) == read_albums(rows.take(k), check_year),
    decreases rows.len() - k,
{
    if k < rows.len() {
        assert(rows.take(k + 1).drop_last() =~= rows.take(k));
        lemma_read_albums_error_sticks(rows, check_year, k + 1);
    } else {
        assert(rows.take(k) =~= rows);
    }
}

/// Once a prefix of the rows fails, every longer prefix fails the same way.
proof fn lemma_read_songs_error_sticks(rows: Seq<Seq<SqlCell>>, k: int)
    requires
        0 <= k <= rows.len(),
        read_songs(rows.take(k)) is Err,
    ensures
        read_songs(rows) == read_songs(rows.take(k)),
    decreases rows.len() - k,
{
    if k < rows.len() {
        assert(rows.take(k + 1).drop_last() =~= rows.take(k));
        lemma_read_songs_error_sticks(rows, k + 1);
    } else {
        assert(rows.take(k) =~= rows);
    }
}

/// Reads song rows in order (see [`read_songs`]).
pub fn songs_from_rows(rows: &Vec<Vec<SqlCell>>) -> (r: Result<Vec<SongSummary>, DbError>)
    ensures
        match r {
            Ok(v) => read_songs(rows_view(rows@)) == Ok::<_, DbError>(
                v@.map_values(|s: SongSummary| song_view(s)),
            ),
            Err(e) => read_songs(rows_view(rows@)) == Err::<
                Seq<(Seq<char>, Option<i64>, Option<Seq<char>>)>,
                DbError,
            >(e),
        },
{
    let mut out: Vec<SongSummary> = Vec::new();
    let mut i: usize = 0;
    proof {
        assert(rows_view(rows@).take(0) =~= Seq::<Seq<SqlCell>>::empty());
        assert(out@.map_values(|s: SongSummary| song_view(s)) =~= seq![]);
    }
    while i < rows.len()
        invariant
            i <= rows@.len(),
            read_songs(rows_view(rows@).take(i as int)) == Ok::<_, DbError>(
                out@.map_values(|s: SongSummary| song_view(s)),
            ),
        decreases rows@.len() - i,
    {
        let ghost prev = out@;
        proof {
            assert(rows_view(rows@).take(i + 1).drop_last() =~= rows_view(rows@).take(i as int));
        }
        match song_from_row(&rows[i]) {
            Ok(s) => {
                out.push(s);
                proof {
                    assert(out@.map_values(|s: SongSummary| song_view(s)) =~= prev.map_values(
                        |s: SongSummary| song_view(s),
                    ).push(song_view(s)));
                }
            },
            Err(e) => {
                proof {
                    lemma_read_songs_error_sticks(rows_view(rows@), i + 1);
                    assert(rows_view(rows@).take(rows@.len() as int) =~= rows_view(rows@));
                }
                return Err(e);
            },
        }
        i = i + 1;
    }
    proof {
        assert(rows_view(rows@).take(rows@.len() as int) =~= rows_view(rows@));
    }
    Ok(out)
}

/// Reads the id in the first column of the first row, if any (see
/// [`read_first_id`]).
pub fn first_id(rows: &Vec<Vec<SqlCell>>) -> (r: Result<Option<i64>, DbError>)
    ensures
        r == read_first_id(rows_view(rows@)),
        r matches Err(e) ==> id_read_error(e),
{
    if rows.len() == 0 {
        Ok(None)
    } else {
        match get_i64(&rows[0], 0) {
            Ok(id) => Ok(Some(id)),
            Err(e) => Err(e),
        }
    }
}

/// An album read from a row: id, name, path, song count, artist.
pub type AlbumRecord = (i64, Seq<char>, Seq<char>, i64, Seq<char>);

/// A song read from a row: title, track, genre.
pub type SongRecord = (Seq<char>, Option<i64>, Option<Seq<char>>);

/// What a lookup by id gives, as a query that reads one row gives it: the
/// id in the first row when SQLite stepped one (see [`read_first_id`]);
/// otherwise the error that ended the stepping, or `None` when the query
/// has no row.
pub open spec fn read_lookup(rows: Seq<Seq<SqlCell>>, stop: Option<rusqlite::Error>) -> Result<
    Option<i64>,
    DbError,
> {
    if rows.len() > 0 {
        read_first_id(rows)
    } else {
        match stop {
            Some(e) => Err(DbError::Sqlite(e)),
            None => Ok(None),
        }
    }
}

/// What a listing of albums gives: the rows SQLite stepped, read in order
/// (see [`read_albums`]); when they all read, the error that ended the
/// stepping, if one did.
pub open spec fn read_album_list(
    rows: Seq<Seq<SqlCell>>,
    stop: Option<rusqlite::Error>,
    check_year: bool,
) -> Result<Seq<AlbumRecord>, DbError> {
    match read_albums(rows, check_year) {
        Err(e) => Err(e),
        Ok(v) => match stop {
            Some(e) => Err(DbError::Sqlite(e)),
            None => Ok(v),
        },
    }
}

/// What a listing of songs gives: the rows SQLite stepped, read in order
/// (see [`read_songs`]); when they all read, the error that ended the
/// stepping, if one did.
pub open spec fn read_song_list(rows: Seq<Seq<SqlCell>>, stop: Option<rusqlite::Error>) -> Result<
    Seq<SongRecord>,
    DbError,
> {
    match read_songs(rows) {
        Err(e) => Err(e),
        Ok(v) => match stop {
            Some(e) => Err(DbError::Sqlite(e)),
            None => Ok(v),
        },
    }
}

/// What a lookup gives from SQLite's answer to its query.
pub open spec fn lookup_answer(o: QueryAnswer) -> Result<Option<i64>, DbError> {
    match stepped_answer(o) {
        Ok((rows, stop)) => read_lookup(rows, stop),
        Err(e) => Err(e),
    }
}

/// What a listing of albums gives from SQLite's answer to its query.
pub open spec fn albums_answer(o: QueryAnswer, check_year: bool) -> Result<
    Seq<AlbumRecord>,
    DbError,
> {
    match stepped_answer(o) {
        Ok((rows, stop)) => read_album_list(rows, stop, check_year),
        Err(e) => Err(e),
    }
}

/// What a listing of songs gives from SQLite's answer to its query.
pub open spec fn songs_answer(o: QueryAnswer) -> Result<Seq<SongRecord>, DbError> {
    match stepped_answer(o) {
        Ok((rows, stop)) => read_song_list(rows, stop),
        Err(e) => Err(e),
    }
}

/// A list of albums, or its error, as plain values.
pub open spec fn albums_result_view(r: Result<Vec<AlbumSummary>, DbError>) -> Result<
    Seq<AlbumRecord>,
    DbError,
> {
    match r {
        Ok(v) => Ok(v@.map_values(|a: AlbumSummary| album_view(a))),
        Err(e) => Err(e),
    }
}

/// A list of songs, or its error, as plain values.
pub open spec fn songs_result_view(r: Result<Vec<SongSummary>, DbError>) -> Result<
    Seq<SongRecord>,
    DbError,
> {
    match r {
        Ok(v) => Ok(v@.map_values(|s: SongSummary| song_view(s))),
        Err(e) => Err(e),
    }
}

/// Reads what a lookup by id gives (see [`read_lookup`]).
pub fn id_from_lookup(rows: &Vec<Vec<SqlCell>>, stop: Option<rusqlite::Error>) -> (r: Result<
    Option<i64>,
    DbError,
>)
    ensures
        r == read_lookup(rows_view(rows@), stop),
        r matches Err(e) ==> e is Sqlite || id_read_error(e),
{
    if rows.len() > 0 {
        first_id(rows)
    } else {
        match stop {
            Some(e) => Err(DbError::Sqlite(e)),
            None => Ok(None),
        }
    }
}

/// Reads what a listing of albums gives (see [`read_album_list`]).
pub fn albums_from_query(
    rows: &Vec<Vec<SqlCell>>,
    stop: Option<rusqlite::Error>,
    check_year: bool,
) -> (r: Result<Vec<AlbumSummary>, DbError>)
    ensures
        albums_result_view(r) == read_album_list(rows_view(rows@), stop, check_year),
{
    let albums = albums_from_rows(rows, check_year)?;
    match stop {
        Some(e) => Err(DbError::Sqlite(e)),
        None => Ok(albums),
    }
}

/// Reads what a listing of songs gives (see [`read_song_list`]).
pub fn songs_from_query(rows: &Vec<Vec<SqlCell>>, stop: Option<rusqlite::Error>) -> (r: Result<
    Vec<SongSummary>,
    DbError,
>)
    ensures
        songs_result_view(r) == read_song_list(rows_view(rows@), stop),
{
    let songs = songs_from_rows(rows)?;
    match stop {
        Some(e) => Err(DbError::Sqlite(e)),
        None => Ok(songs),
    }
}

} // verus!

verus! {

/// The parent of a path, as `std::path::Path::parent` gives it, written out
/// as text; `None` for a path without a parent (the root, or the empty path).
pub uninterp spec fn path_parent(path: Seq<char>) -> Option<Seq<char>>;

/// The parent directory of `path` (`std::path::Path::parent`, shown with
/// `display`). Its result is a function of the path text alone, named
/// [`path_parent`]; nothing more is stated of it.
#[verifier::external_body]
fn parent_of(path: &str) -> (r: Option<String>)
    ensures
        opt_string_view(r) == path_parent(path@),
{
    std::path::Path::new(path).parent().map(|p| p.display().to_string())
}

/// The album path kept for a song: the parent directory of its file, or
/// `Unknown` when the file path has none.
pub open spec fn album_path_of(parent: Option<Seq<char>>) -> Seq<char> {
    match parent {
        Some(p) => p,
        None => "Unknown"@,
    }
}

/// The album path for a file's parent directory (see [`album_path_of`]).
pub fn album_path_from_parent(parent: Option<String>) -> (r: String)
    ensures
        r@ == album_path_of(opt_string_view(parent)),
{
    match parent {
        Some(p) => p,
        None => String::from_str("Unknown"),
    }
}

/// The album path for the song file at `file_path`.
pub fn album_path_for(file_path: &str) -> (r: String)
    ensures
        r@ == album_path_of(path_parent(file_path@)),
{
    album_path_from_parent(parent_of(file_path))
}

/// The performer type stored for a performer name: `Unknown` gets the
/// unknown type, every other name the person type.
pub open spec fn performer_type_of(name: Seq<char>) -> i64 {
    if name == "Unknown"@ {
        2
    } else {
        0
    }
}

/// The performer named `Unknown` is stored with the unknown type (2); every
/// other performer with the person type (0).
pub proof fn lemma_performer_types(name: Seq<char>)
    ensures
        name == "Unknown"@ ==> performer_type_of(name) == 2,
        name != "Unknown"@ ==> performer_type_of(name) == 0,
{
}

/// A song's album path is its file's parent directory, or `Unknown` when the
/// file path has none.
pub proof fn lemma_album_path_is_the_parent(file_path: Seq<char>)
    ensures
        path_parent(file_path) matches Some(p) ==> album_path_of(path_parent(file_path)) == p,
        path_parent(file_path) is None ==> album_path_of(path_parent(file_path)) == "Unknown"@,
{
}

/// Executable form of [`performer_type_of`].
pub fn performer_type(name: &str) -> (r: i64)
    ensures
        r == performer_type_of(name@),
{
    if crate::text::str_eq(name, "Unknown") {
        2
    } else {
        0
    }
}

/// The parameter bound for an optional year or track: the number, or null.
pub open spec fn opt_int_param(v: Option<i32>) -> ParamValue {
    match v {
        Some(x) => ParamValue::Int(x as i64),
        None => ParamValue::Null,
    }
}

fn opt_int(v: Option<i32>) -> (p: SqlParam)
    ensures
        param_value(p) == opt_int_param(v),
{
    match v {
        Some(x) => SqlParam::Int(x as i64),
        None => SqlParam::Null,
    }
}

fn text_param(s: &str) -> (p: SqlParam)
    ensures
        param_value(p) == ParamValue::Text(s@),
{
    SqlParam::Text(String::from_str(s))
}

/// Parameters of [`FIND_PERFORMER`]: the name.
pub fn performer_lookup_params(name: &str) -> (ps: Vec<SqlParam>)
    ensures
        param_values(ps@) == seq![ParamValue::Text(name@)],
{
    let ps = vec![text_param(name)];
    assert(param_values(ps@) =~= seq![ParamValue::Text(name@)]);
    ps
}

/// Parameters of [`INSERT_PERFORMER`]: the performer type, then the name.
pub fn performer_insert_params(name: &str) -> (ps: Vec<SqlParam>)
    ensures
        param_values(ps@) == seq![
            ParamValue::Int(performer_type_of(name@)),
            ParamValue::Text(name@),
        ],
{
    let ps = vec![SqlParam::Int(performer_type(name)), text_param(name)];
    assert(param_values(ps@) =~= seq![
        ParamValue::Int(performer_type_of(name@)),
        ParamValue::Text(name@),
    ]);
    ps
}

/// Parameters of [`FIND_ALBUM`] and [`INSERT_ALBUM`]: the album path, the
/// album name and the year (null when unknown).
pub fn album_params(album_path: &str, song: &SongTag) -> (ps: Vec<SqlParam>)
    ensures
        param_values(ps@) == seq![
            ParamValue::Text(album_path@),
            ParamValue::Text(song.album@),
            opt_int_param(song.year),
        ],
{
    let ps = vec![text_param(album_path), text_param(song.album.as_str()), opt_int(song.year)];
    assert(param_values(ps@) =~= seq![
        ParamValue::Text(album_path@),
        ParamValue::Text(song.album@),
        opt_int_param(song.year),
    ]);
    ps
}

/// Parameters of [`FIND_SONG_BY_PATH`]: the song's file path.
pub fn song_lookup_params(song: &SongTag) -> (ps: Vec<SqlParam>)
    ensures
        param_values(ps@) == seq![ParamValue::Text(song.file_path@)],
{
    let ps = vec![text_param(song.file_path.as_str())];
    assert(param_values(ps@) =~= seq![ParamValue::Text(song.file_path@)]);
    ps
}

/// The parameter of the song listing of an album: its id.
pub fn album_songs_params(album_id: i64) -> (ps: Vec<SqlParam>)
    ensures
        param_values(ps@) == seq![ParamValue::Int(album_id)],
{
    let ps = vec![SqlParam::Int(album_id)];
    proof {
        assert(param_values(ps@) =~= seq![ParamValue::Int(album_id)]);
    }
    ps
}

/// The statement that stores a song, given the ids of its performer and
/// album and the id of the song already stored under the same path, if any.
pub open spec fn song_write_spec(
    song: SongTag,
    performer_id: i64,
    album_id: i64,
    existing: Option<i64>,
) -> (Seq<char>, Seq<ParamValue>) {
    match existing {
        Some(song_id) => (
            UPDATE_SONG@,
            seq![
                ParamValue::Int(performer_id),
                ParamValue::Int(album_id),
                ParamValue::Text(song.title@),
                opt_int_param(song.track),
                opt_int_param(song.year),
                ParamValue::Text(song.genre@),
                ParamValue::Int(song_id),
            ],
        ),
        None => (
            INSERT_SONG@,
            seq![
                ParamValue::Int(performer_id),
                ParamValue::Int(album_id),
                ParamValue::Text(song.file_path@),
                ParamValue::Text(song.title@),
                opt_int_param(song.track),
                opt_int_param(song.year),
                ParamValue::Text(song.genre@),
            ],
        ),
    }
}

/// Both ways of storing a song bind the song's own values, each in its own
/// place, whatever the others are: the overwrite binds the performer id, the
/// album id, the title, the track (null only when unknown), the year (null
/// only when unknown), the genre and the id of the stored song; the insert
/// binds the performer id, the album id, the path, then the title, track,
/// year and genre.
pub proof fn lemma_song_write_binds_the_song(
    song: SongTag,
    performer_id: i64,
    album_id: i64,
    existing: Option<i64>,
)
    ensures
        ({
            let w = song_write_spec(song, performer_id, album_id, existing);
            &&& w.1.len() == 7
            &&& w.1[0] == ParamValue::Int(performer_id)
            &&& w.1[1] == ParamValue::Int(album_id)
            &&& match existing {
                Some(id) => {
                    &&& w.0 == UPDATE_SONG@
                    &&& w.1[2] == ParamValue::Text(song.title@)
                    &&& w.1[3] == (match song.track {
                        Some(k) => ParamValue::Int(k as i64),
                        None => ParamValue::Null,
                    })
                    &&& w.1[4] == (match song.year {
                        Some(y) => ParamValue::Int(y as i64),
                        None => ParamValue::Null,
                    })
                    &&& w.1[5] == ParamValue::Text(song.genre@)
                    &&& w.1[6] == ParamValue::Int(id)
                },
                None => {
                    &&& w.0 == INSERT_SONG@
                    &&& w.1[2] == ParamValue::Text(song.file_path@)
                    &&& w.1[3] == ParamValue::Text(song.title@)
                    &&& w.1[4] == (match song.track {
                        Some(k) => ParamValue::Int(k as i64),
                        None => ParamValue::Null,
                    })
                    &&& w.1[5] == (match song.year {
                        Some(y) => ParamValue::Int(y as i64),
                        None => ParamValue::Null,
                    })
                    &&& w.1[6] == ParamValue::Text(song.genre@)
                },
            }
        }),
{
}

/// Chooses how a song is stored: a song already stored under its path is
/// overwritten in place (same id), any other is inserted as a new row.
pub fn song_write(song: &SongTag, performer_id: i64, album_id: i64, existing: Option<i64>) -> (r: (
    &'static str,
    Vec<SqlParam>,
))
    ensures
        (r.0@, param_values(r.1@)) == song_write_spec(*song, performer_id, album_id, existing),
{
    match existing {
        Some(song_id) => {
            let ps = vec![
                SqlParam::Int(performer_id),
                SqlParam::Int(album_id),
                text_param(song.title.as_str()),
                opt_int(song.track),
                opt_int(song.year),
                text_param(song.genre.as_str()),
                SqlParam::Int(song_id),
            ];
            assert(param_values(ps@) =~= song_write_spec(
                *song,
                performer_id,
                album_id,
                existing,
            ).1);
            (UPDATE_SONG, ps)
        },
        None => {
            let ps = vec![
                SqlParam::Int(performer_id),
                SqlParam::Int(album_id),
                text_param(song.file_path.as_str()),
                text_param(song.title.as_str()),
                opt_int(song.track),
                opt_int(song.year),
                text_param(song.genre.as_str()),
            ];
            assert(param_values(ps@) =~= song_write_spec(
                *song,
                performer_id,
                album_id,
                existing,
            ).1);
            (INSERT_SONG, ps)
        },
    }
}

} // verus!

verus! {

/// `after` is `before` with statements added at its end.
pub open spec fn grew(before: Seq<Stmt>, after: Seq<Stmt>) -> bool {
    before.len() <= after.len() && after.take(before.len() as int) == before
}

/// The statements added at the end of `before` to make `after`.
pub open spec fn added(before: Seq<Stmt>, after: Seq<Stmt>) -> Seq<Stmt> {
    after.skip(before.len() as int)
}

/// What a statement run for its effect gives: nothing, or its error.
pub open spec fn unit_outcome(r: Result<usize, rusqlite::Error>) -> Result<(), DbError> {
    match r {
        Ok(_) => Ok(()),
        Err(e) => Err(DbError::Sqlite(e)),
    }
}

/// `e` runs the statement `sql` for its effect, with `params`.
pub open spec fn is_execute(e: Stmt, sql: Seq<char>, params: Seq<ParamValue>) -> bool {
    e matches Stmt::Execute { sql: s, params: p, .. } && s == sql && p == params
}

/// `e` is the query `sql` with `params`.
pub open spec fn is_query(e: Stmt, sql: Seq<char>, params: Seq<ParamValue>) -> bool {
    e matches Stmt::Query { sql: s, params: p, .. } && s == sql && p == params
}

/// Runs a statement and records it; its failure is [`DbError::Sqlite`].
fn run(db: &mut Db, sql: &str, params: &Vec<SqlParam>) -> (r: Result<(), DbError>)
    ensures
        final(db).log().drop_last() == old(db).log(),
        final(db).log().len() == old(db).log().len() + 1,
        is_execute(final(db).log().last(), sql@, param_values(params@)),
        r == unit_outcome(final(db).log().last()->Execute_result),
{
    let r = execute(db, sql, params);
    proof {
        assert(db.log().drop_last() =~= old(db).log());
    }
    match r {
        Ok(_) => Ok(()),
        Err(e) => Err(DbError::Sqlite(e)),
    }
}

/// What setting up the database runs, and what it gives: turning on foreign
/// keys (no parameter), then, when that succeeded, the schema.
pub open spec fn create_db_log(t: Seq<Stmt>, r: Result<(), DbError>) -> bool {
    &&& t.len() >= 1
    &&& is_execute(t[0], FOREIGN_KEYS_ON@, seq![])
    &&& match t[0]->Execute_result {
        Err(e) => t.len() == 1 && r == Err::<(), DbError>(DbError::Sqlite(e)),
        Ok(_) => t.len() == 2 && (t[1] matches Stmt::Batch { sql, result } && sql == SCHEMA@ && r
            == (match result {
            Ok(()) => Ok::<(), DbError>(()),
            Err(e) => Err(DbError::Sqlite(e)),
        })),
    }
}

/// Turns on foreign keys and creates the tables that are missing: the
/// statements run and the result are those [`create_db_log`] describes.
pub fn create_db(db: &mut Db) -> (r: Result<(), DbError>)
    ensures
        grew(old(db).log(), final(db).log()),
        create_db_log(added(old(db).log(), final(db).log()), r),
        r matches Err(e) ==> e is Sqlite,
{
    let ghost l0 = db.log();
    let none: Vec<SqlParam> = Vec::new();
    assert(param_values(none@) =~= seq![]);
    if let Err(e) = run(db, FOREIGN_KEYS_ON, &none) {
        proof {
            assert(added(l0, db.log()) =~= seq![db.log().last()]);
        }
        return Err(e);
    }
    let ghost l1 = db.log();
    let r = execute_batch(db, SCHEMA);
    proof {
        assert(added(l0, db.log()) =~= seq![l1.last(), db.log().last()]);
        assert(db.log().take(l0.len() as int) =~= l0);
    }
    match r {
        Ok(()) => Ok(()),
        Err(e) => Err(DbError::Sqlite(e)),
    }
}

/// How a find-or-create goes, as the statements it ran show it: the lookup
/// `find` with `find_params`; when it finds no row, the insert `insert` with
/// `insert_params`, and then the id of the new row. `Some((n, r))`: the
/// first `n` statements of `t` are those, and `r` is the id found or made,
/// or the error; `None` when `t` does not start so.
pub open spec fn find_or_create(
    find: Seq<char>,
    find_params: Seq<ParamValue>,
    insert: Seq<char>,
    insert_params: Seq<ParamValue>,
    t: Seq<Stmt>,
) -> Option<(int, Result<i64, DbError>)> {
    if t.len() >= 1 && is_query(t[0], find, find_params) {
        match lookup_answer(t[0]->Query_result) {
            Err(e) => Some((1, Err(e))),
            Ok(Some(id)) => Some((1, Ok(id))),
            Ok(None) => if t.len() >= 2 && is_execute(t[1], insert, insert_params) {
                match t[1]->Execute_result {
                    Err(e) => Some((2, Err(DbError::Sqlite(e)))),
                    Ok(_) => if t.len() >= 3 && t[2] is RowId {
                        Some((3, Ok(t[2]->id)))
                    } else {
                        None
                    },
                }
            } else {
                None
            },
        }
    } else {
        None
    }
}

/// A find-or-create reads only its own statements: what follows them does
/// not change how it goes.
proof fn lemma_find_or_create_prefix(
    find: Seq<char>,
    find_params: Seq<ParamValue>,
    insert: Seq<char>,
    insert_params: Seq<ParamValue>,
    p: Seq<Stmt>,
    q: Seq<Stmt>,
)
    requires
        find_or_create(find, find_params, insert, insert_params, p) matches Some((n, _)) && n
            == p.len(),
    ensures
        find_or_create(find, find_params, insert, insert_params, p + q) == find_or_create(
            find,
            find_params,
            insert,
            insert_params,
            p,
        ),
{
    assert((p + q)[0] == p[0]);
    if p.len() >= 2 {
        assert((p + q)[1] == p[1]);
    }
    if p.len() >= 3 {
        assert((p + q)[2] == p[2]);
    }
}

/// The id of the row that `find` finds (the first column of its first row),
/// stored first with `insert` when there is none: the statements run and the
/// result are those [`find_or_create`] describes.
fn find_or_create_id(
    db: &mut Db,
    find: &str,
    find_params: &Vec<SqlParam>,
    insert: &str,
    insert_params: &Vec<SqlParam>,
) -> (r: Result<i64, DbError>)
    ensures
        grew(old(db).log(), final(db).log()),
        find_or_create(
            find@,
            param_values(find_params@),
            insert@,
            param_values(insert_params@),
            added(old(db).log(), final(db).log()),
        ) == Some((added(old(db).log(), final(db).log()).len() as int, r)),
{
    let ghost l0 = db.log();
    let q = query(db, find, find_params);
    let ghost l1 = db.log();
    proof {
        assert(added(l0, l1) =~= seq![l1.last()]);
        assert(l1.take(l0.len() as int) =~= l0);
    }
    let (rows, stop) = q?;
    if let Some(id) = id_from_lookup(&rows, stop)? {
        return Ok(id);
    }
    let w = run(db, insert, insert_params);
    let ghost l2 = db.log();
    proof {
        assert(added(l0, l2) =~= seq![l1.last(), l2.last()]);
        assert(l2.take(l0.len() as int) =~= l0);
    }
    w?;
    let id = last_insert_rowid(db);
    proof {
        assert(added(l0, db.log()) =~= seq![l1.last(), l2.last(), db.log().last()]);
        assert(db.log().take(l0.len() as int) =~= l0);
    }
    Ok(id)
}

/// The bound values of the album lookup and insert for `song`: the album
/// path (the parent directory of its file, see [`album_path_of`]), the album
/// name and the year.
pub open spec fn album_values(song: SongTag) -> Seq<ParamValue> {
    seq![
        ParamValue::Text(album_path_of(path_parent(song.file_path@))),
        ParamValue::Text(song.album@),
        opt_int_param(song.year),
    ]
}

/// The find-or-create of the performer of `song`.
pub open spec fn performer_step(song: SongTag, t: Seq<Stmt>) -> Option<(int, Result<i64, DbError>)> {
    find_or_create(
        FIND_PERFORMER@,
        seq![ParamValue::Text(song.artist@)],
        INSERT_PERFORMER@,
        seq![ParamValue::Int(performer_type_of(song.artist@)), ParamValue::Text(song.artist@)],
        t,
    )
}

/// The find-or-create of the album of `song`.
pub open spec fn album_step(song: SongTag, t: Seq<Stmt>) -> Option<(int, Result<i64, DbError>)> {
    find_or_create(FIND_ALBUM@, album_values(song), INSERT_ALBUM@, album_values(song), t)
}

/// The write of `song` itself: the lookup of a song stored under its path,
/// then the statement [`song_write_spec`] chooses for what it found. `None`
/// when `t` is not exactly those statements.
pub open spec fn song_step(song: SongTag, performer_id: i64, album_id: i64, t: Seq<Stmt>) -> Option<
    Result<(), DbError>,
> {
    if t.len() >= 1 && is_query(t[0], FIND_SONG_BY_PATH@, seq![ParamValue::Text(song.file_path@)]) {
        match lookup_answer(t[0]->Query_result) {
            Err(e) => if t.len() == 1 {
                Some(Err(e))
            } else {
                None
            },
            Ok(existing) => {
                let w = song_write_spec(song, performer_id, album_id, existing);
                if t.len() == 2 && is_execute(t[1], w.0, w.1) {
                    Some(unit_outcome(t[1]->Execute_result))
                } else {
                    None
                }
            },
        }
    } else {
        None
    }
}

/// How storing `song` goes, as the statements `t` it ran show it: the
/// find-or-create of its performer, then that of its album, then the write
/// of the song with the two ids; the first failure ends it. `Some(r)`: `t`
/// is exactly those statements and `r` what it gives.
pub open spec fn upsert_log(song: SongTag, t: Seq<Stmt>) -> Option<Result<(), DbError>> {
    match performer_step(song, t) {
        None => None,
        Some((n, Err(e))) => if n == t.len() {
            Some(Err(e))
        } else {
            None
        },
        Some((n, Ok(performer_id))) => {
            let t1 = t.skip(n);
            match album_step(song, t1) {
                None => None,
                Some((m, Err(e))) => if m == t1.len() {
                    Some(Err(e))
                } else {
                    None
                },
                Some((m, Ok(album_id))) => song_step(song, performer_id, album_id, t1.skip(m)),
            }
        },
    }
}

/// Stores a song: finds or creates its performer and its album, then
/// overwrites the song stored under the same path, or inserts it when there
/// is none. The statements run and the result are those [`upsert_log`]
/// describes.
pub fn upsert_song(db: &mut Db, song: &SongTag) -> (r: Result<(), DbError>)
    ensures
        grew(old(db).log(), final(db).log()),
        upsert_log(*song, added(old(db).log(), final(db).log())) == Some(r),
{
    let ghost l0 = db.log();
    let performer_id = find_or_create_id(
        db,
        FIND_PERFORMER,
        &performer_lookup_params(song.artist.as_str()),
        INSERT_PERFORMER,
        &performer_insert_params(song.artist.as_str()),
    );
    let ghost l1 = db.log();
    let ghost p = added(l0, l1);
    let performer_id = match performer_id {
        Ok(id) => id,
        Err(e) => {
            return Err(e);
        },
    };
    let album_path = album_path_for(song.file_path.as_str());
    let params = album_params(album_path.as_str(), song);
    let album_id = find_or_create_id(db, FIND_ALBUM, &params, INSERT_ALBUM, &params);
    let ghost l2 = db.log();
    let ghost a = added(l1, l2);
    proof {
        assert(added(l0, l2) =~= p + a);
        assert(l2.take(l0.len() as int) =~= l0) by {
            assert(l2.take(l1.len() as int) == l1);
        }
        lemma_find_or_create_prefix(
            FIND_PERFORMER@,
            seq![ParamValue::Text(song.artist@)],
            INSERT_PERFORMER@,
            seq![ParamValue::Int(performer_type_of(song.artist@)), ParamValue::Text(song.artist@)],
            p,
            a,
        );
        assert((p + a).skip(p.len() as int) =~= a);
    }
    let album_id = match album_id {
        Ok(id) => id,
        Err(e) => {
            return Err(e);
        },
    };
    let q = query(db, FIND_SONG_BY_PATH, &song_lookup_params(song));
    let ghost l3 = db.log();
    proof {
        assert(added(l0, l3) =~= p + a + seq![l3.last()]);
        assert(l3.take(l0.len() as int) =~= l0) by {
            assert(l3.take(l2.len() as int) =~= l2);
        }
        lemma_find_or_create_prefix(
            FIND_PERFORMER@,
            seq![ParamValue::Text(song.artist@)],
            INSERT_PERFORMER@,
            seq![ParamValue::Int(performer_type_of(song.artist@)), ParamValue::Text(song.artist@)],
            p,
            a + seq![l3.last()],
        );
        lemma_find_or_create_prefix(
            FIND_ALBUM@,
            album_values(*song),
            INSERT_ALBUM@,
            album_values(*song),
            a,
            seq![l3.last()],
        );
        assert(p + a + seq![l3.last()] =~= p + (a + seq![l3.last()]));
        assert((p + (a + seq![l3.last()])).skip(p.len() as int) =~= a + seq![l3.last()]);
        assert((a + seq![l3.last()]).skip(a.len() as int) =~= seq![l3.last()]);
    }
    let (rows, stop) = q?;
    let existing = id_from_lookup(&rows, stop)?;
    let (sql, params) = song_write(song, performer_id, album_id, existing);
    let r = run(db, sql, &params);
    proof {
        let l4 = db.log();
        assert(added(l0, l4) =~= p + (a + seq![l3.last(), l4.last()]));
        assert(l4.take(l0.len() as int) =~= l0) by {
            assert(l4.take(l3.len() as int) =~= l3);
        }
        lemma_find_or_create_prefix(
            FIND_PERFORMER@,
            seq![ParamValue::Text(song.artist@)],
            INSERT_PERFORMER@,
            seq![ParamValue::Int(performer_type_of(song.artist@)), ParamValue::Text(song.artist@)],
            p,
            a + seq![l3.last(), l4.last()],
        );
        lemma_find_or_create_prefix(
            FIND_ALBUM@,
            album_values(*song),
            INSERT_ALBUM@,
            album_values(*song),
            a,
            seq![l3.last(), l4.last()],
        );
        assert((p + (a + seq![l3.last(), l4.last()])).skip(p.len() as int) =~= a + seq![
            l3.last(),
            l4.last(),
        ]);
        assert((a + seq![l3.last(), l4.last()]).skip(a.len() as int) =~= seq![
            l3.last(),
            l4.last(),
        ]);
    }
    r
}

/// A statement an upsert may run: a lookup, a question for the id of the
/// latest insert, an insert of a performer, an album or a song, or the
/// update of a song.
pub open spec fn upsert_statement(e: Stmt) -> bool {
    ||| e is Query
    ||| e is RowId
    ||| e matches Stmt::Execute { sql, .. } && (sql == INSERT_PERFORMER@ || sql == INSERT_ALBUM@
        || sql == INSERT_SONG@ || sql == UPDATE_SONG@)
}

proof fn lemma_find_or_create_statements(
    find: Seq<char>,
    find_params: Seq<ParamValue>,
    insert: Seq<char>,
    insert_params: Seq<ParamValue>,
    t: Seq<Stmt>,
)
    requires
        find_or_create(find, find_params, insert, insert_params, t) is Some,
    ensures
        ({
            let n = find_or_create(find, find_params, insert, insert_params, t)->Some_0.0;
            &&& 1 <= n <= 3
            &&& n <= t.len()
            &&& forall|i: int|
                0 <= i < n ==> (#[trigger] t[i]) is Query || t[i] is RowId || (t[i] matches Stmt::Execute {
                    sql,
                    ..
                } && sql == insert)
        }),
{
}

/// Storing a song only looks rows up and inserts or updates them: every
/// statement an upsert runs is a query, the question for a new row's id, an
/// insert of a performer, album or song, or the update of a song. None
/// deletes a row.
pub proof fn lemma_upsert_never_deletes(song: SongTag, t: Seq<Stmt>)
    requires
        upsert_log(song, t) is Some,
    ensures
        forall|i: int| 0 <= i < t.len() ==> upsert_statement(#[trigger] t[i]),
{
    let pa = seq![ParamValue::Text(song.artist@)];
    let pi = seq![ParamValue::Int(performer_type_of(song.artist@)), ParamValue::Text(song.artist@)];
    lemma_find_or_create_statements(FIND_PERFORMER@, pa, INSERT_PERFORMER@, pi, t);
    let n = performer_step(song, t)->Some_0.0;
    if performer_step(song, t)->Some_0.1 is Ok {
        let t1 = t.skip(n);
        lemma_find_or_create_statements(
            FIND_ALBUM@,
            album_values(song),
            INSERT_ALBUM@,
            album_values(song),
            t1,
        );
        let m = album_step(song, t1)->Some_0.0;
        if album_step(song, t1)->Some_0.1 is Ok {
            let t2 = t1.skip(m);
            let w = song_write_spec(song, performer_step(song, t)->Some_0.1->Ok_0, album_step(song, t1)->Some_0.1->Ok_0, lookup_answer(t2[0]->Query_result)->Ok_0);
            assert(w.0 == UPDATE_SONG@ || w.0 == INSERT_SONG@);
            assert forall|i: int| 0 <= i < t.len() implies upsert_statement(#[trigger] t[i]) by {
                if i >= n + m {
                    assert(t[i] == t2[i - n - m]);
                } else if i >= n {
                    assert(t[i] == t1[i - n]);
                }
            }
        }
    }
}

/// All albums with their song count and performers, most songs first, then
/// by name: the query [`SELECT_ALBUMS`] without parameters, its answer read
/// as [`albums_answer`] says.
pub fn get_albums(db: &mut Db) -> (r: Result<Vec<AlbumSummary>, DbError>)
    ensures
        final(db).log().drop_last() == old(db).log(),
        final(db).log().len() == old(db).log().len() + 1,
        is_query(final(db).log().last(), SELECT_ALBUMS@, seq![]),
        albums_result_view(r) == albums_answer(final(db).log().last()->Query_result, false),
        r matches Err(e) ==> e is Sqlite || album_read_error(e, false),
{
    let none: Vec<SqlParam> = Vec::new();
    assert(param_values(none@) =~= seq![]);
    let (rows, stop) = query(db, SELECT_ALBUMS, &none)?;
    proof {
        lemma_album_read_errors(rows_view(rows@), false);
    }
    albums_from_query(&rows, stop, false)
}

/// The songs of the album with id `album_id`, by track number (songs without
/// one last), then by title: the query [`SELECT_ALBUM_SONGS`] with the id,
/// its answer read as [`songs_answer`] says.
pub fn get_songs_for_album(db: &mut Db, album_id: i64) -> (r: Result<Vec<SongSummary>, DbError>)
    ensures
        final(db).log().drop_last() == old(db).log(),
        final(db).log().len() == old(db).log().len() + 1,
        listing_of(final(db).log().last(), album_id),
        songs_result_view(r) == songs_answer(final(db).log().last()->Query_result),
        r matches Err(e) ==> e is Sqlite || song_read_error(e),
{
    let (rows, stop) = query(db, SELECT_ALBUM_SONGS, &album_songs_params(album_id))?;
    proof {
        lemma_song_read_errors(rows_view(rows@));
    }
    songs_from_query(&rows, stop)
}

/// An album summary completed with its list of songs.
pub fn with_songs(album: AlbumSummary, song_list: Vec<SongSummary>) -> (r: AlbumWithSongs)
    ensures
        r.id_album == album.id_album,
        r.name == album.name,
        r.path == album.path,
        r.songs == album.songs,
        r.artist == album.artist,
        r.song_list == song_list,
{
    AlbumWithSongs {
        id_album: album.id_album,
        name: album.name,
        path: album.path,
        songs: album.songs,
        artist: album.artist,
        song_list,
    }
}

/// An album with songs as plain values: its summary (id, name, path, song
/// count, artist) and its songs.
pub open spec fn full_view(a: AlbumWithSongs) -> (AlbumRecord, Seq<SongRecord>) {
    (
        (a.id_album, a.name@, a.path@, a.songs, a.artist@),
        a.song_list@.map_values(|s: SongSummary| song_view(s)),
    )
}

/// A list of albums with songs, or its error, as plain values.
pub open spec fn full_result_view(r: Result<Vec<AlbumWithSongs>, DbError>) -> Result<
    Seq<(AlbumRecord, Seq<SongRecord>)>,
    DbError,
> {
    match r {
        Ok(v) => Ok(v@.map_values(|a: AlbumWithSongs| full_view(a))),
        Err(e) => Err(e),
    }
}

/// `e` is the song listing of the album with id `album_id`.
pub open spec fn listing_of(e: Stmt, album_id: i64) -> bool {
    is_query(e, SELECT_ALBUM_SONGS@, seq![ParamValue::Int(album_id)])
}

/// How filling `albums` with their songs goes, as the statements `t` it ran
/// show it: one song listing per album, in order, until one fails.
pub open spec fn song_lists_log(
    albums: Seq<AlbumRecord>,
    t: Seq<Stmt>,
    r: Result<Seq<(AlbumRecord, Seq<SongRecord>)>, DbError>,
) -> bool {
    &&& t.len() <= albums.len()
    &&& forall|i: int| 0 <= i < t.len() ==> listing_of(#[trigger] t[i], albums[i].0)
    &&& forall|i: int| 0 <= i < t.len() - 1 ==> songs_answer((#[trigger] t[i])->Query_result) is Ok
    &&& match r {
        Ok(v) => t.len() == albums.len() && v.len() == albums.len() && forall|i: int|
            0 <= i < v.len() ==> (#[trigger] v[i]).0 == albums[i] && songs_answer(
                t[i]->Query_result,
            ) == Ok::<_, DbError>(v[i].1),
        Err(e) => t.len() >= 1 && songs_answer(t.last()->Query_result) == Err::<
            Seq<SongRecord>,
            DbError,
        >(e),
    }
}

/// Fills each album with its songs, in order (see [`get_songs_for_album`]);
/// the first listing that fails gives the error. The statements run and the
/// result are those [`song_lists_log`] describes.
pub fn albums_with_their_songs(db: &mut Db, albums: Vec<AlbumSummary>) -> (r: Result<
    Vec<AlbumWithSongs>,
    DbError,
>)
    ensures
        grew(old(db).log(), final(db).log()),
        song_lists_log(
            albums@.map_values(|a: AlbumSummary| album_view(a)),
            added(old(db).log(), final(db).log()),
            full_result_view(r),
        ),
        r matches Err(e) ==> e is Sqlite || song_read_error(e),
{
    let ghost l0 = db.log();
    let ghost orig = albums@;
    let ghost recs = orig.map_values(|a: AlbumSummary| album_view(a));
    let mut result: Vec<AlbumWithSongs> = Vec::new();
    proof {
        assert(added(l0, db.log()) =~= Seq::<Stmt>::empty());
        assert(db.log().take(l0.len() as int) =~= l0);
    }
    for album in it: albums.into_iter()
        invariant
            l0 == old(db).log(),
            it.seq() == orig,
            recs == orig.map_values(|a: AlbumSummary| album_view(a)),
            grew(l0, db.log()),
            added(l0, db.log()).len() == it.index(),
            result@.len() == it.index(),
            forall|i: int|
                0 <= i < it.index() ==> listing_of(#[trigger] added(l0, db.log())[i], recs[i].0)
                    && songs_answer(added(l0, db.log())[i]->Query_result) == Ok::<_, DbError>(
                    full_view(result@[i]).1,
                ) && full_view(result@[i]).0 == recs[i],
    {
        let ghost i = it.index() as int;
        let ghost lb = db.log();
        let listed = get_songs_for_album(db, album.id_album);
        proof {
            assert(added(l0, db.log()) =~= added(l0, lb).push(db.log().last()));
            assert(db.log().take(l0.len() as int) =~= l0) by {
                assert(db.log().take(lb.len() as int) =~= lb);
            }
            assert(recs[i] == album_view(album));
        }
        let song_list = match listed {
            Ok(v) => v,
            Err(e) => {
                proof {
                    let t = added(l0, db.log());
                    assert forall|j: int| 0 <= j < t.len() - 1 implies songs_answer(
                        (#[trigger] t[j])->Query_result,
                    ) is Ok by {
                        assert(t[j] == added(l0, lb)[j]);
                    }
                    assert forall|j: int| 0 <= j < t.len() implies listing_of(
                        #[trigger] t[j],
                        recs[j].0,
                    ) by {
                        if j < i {
                            assert(t[j] == added(l0, lb)[j]);
                        }
                    }
                }
                return Err(e);
            },
        };
        let ghost prev = result@;
        let full = with_songs(album, song_list);
        result.push(full);
        proof {
            let t = added(l0, db.log());
            assert forall|j: int| 0 <= j < it.index() + 1 implies listing_of(
                #[trigger] t[j],
                recs[j].0,
            ) && songs_answer(t[j]->Query_result) == Ok::<_, DbError>(full_view(result@[j]).1)
                && full_view(result@[j]).0 == recs[j] by {
                if j < i {
                    assert(t[j] == added(l0, lb)[j]);
                    assert(result@[j] == prev[j]);
                }
            }
        }
    }
    proof {
        let t = added(l0, db.log());
        let v = result@.map_values(|a: AlbumWithSongs| full_view(a));
        assert forall|i: int| 0 <= i < v.len() implies (#[trigger] v[i]).0 == recs[i]
            && songs_answer(t[i]->Query_result) == Ok::<_, DbError>(v[i].1) by {
        }
        assert forall|i: int| 0 <= i < t.len() - 1 implies songs_answer(
            (#[trigger] t[i])->Query_result,
        ) is Ok by {
        }
        assert forall|i: int| 0 <= i < t.len() implies listing_of(#[trigger] t[i], recs[i].0) by {
        }
    }
    Ok(result)
}

/// `e` is the song listing of the album that row `row` holds, and SQLite
/// answered it with songs that read.
pub open spec fn row_listed(row: Seq<SqlCell>, e: Stmt) -> bool {
    &&& read_album(row, true) is Ok
    &&& listing_of(e, read_album(row, true)->Ok_0.0)
    &&& songs_answer(e->Query_result) is Ok
}

/// How reading album rows one by one, each album filled with its songs
/// before the next row is read, goes, as the statements `t` it ran show it:
/// one song listing per row that read, in order, until a row does not read
/// or a listing fails; when all went through, the error that ended the
/// stepping of the rows, if one did.
pub open spec fn rows_with_songs_log(
    rows: Seq<Seq<SqlCell>>,
    stop: Option<rusqlite::Error>,
    t: Seq<Stmt>,
    r: Result<Seq<(AlbumRecord, Seq<SongRecord>)>, DbError>,
) -> bool {
    &&& t.len() <= rows.len()
    &&& forall|i: int| 0 <= i < t.len() - 1 ==> row_listed(rows[i], #[trigger] t[i])
    &&& match r {
        Ok(v) => stop is None && t.len() == rows.len() && v.len() == rows.len() && forall|i: int|
            0 <= i < v.len() ==> row_listed(rows[i], #[trigger] t[i]) && v[i].0 == read_album(
                rows[i],
                true,
            )->Ok_0 && songs_answer(t[i]->Query_result) == Ok::<_, DbError>(v[i].1),
        Err(e) => {
            ||| t.len() < rows.len() && (forall|i: int|
                0 <= i < t.len() ==> row_listed(rows[i], #[trigger] t[i])) && read_album(
                rows[t.len() as int],
                true,
            ) == Err::<AlbumRecord, DbError>(e)
            ||| t.len() >= 1 && read_album(rows[t.len() - 1], true) is Ok && listing_of(
                t.last(),
                read_album(rows[t.len() - 1], true)->Ok_0.0,
            ) && songs_answer(t.last()->Query_result) == Err::<Seq<SongRecord>, DbError>(e)
            ||| t.len() == rows.len() && (forall|i: int|
                0 <= i < t.len() ==> row_listed(rows[i], #[trigger] t[i])) && stop
                == Some(e->Sqlite_0) && e is Sqlite
        },
    }
}

/// Every statement that [`rows_with_songs_log`] allows is a song listing: a
/// query, which changes nothing.
pub proof fn lemma_rows_with_songs_only_reads(
    rows: Seq<Seq<SqlCell>>,
    stop: Option<rusqlite::Error>,
    t: Seq<Stmt>,
    r: Result<Seq<(AlbumRecord, Seq<SongRecord>)>, DbError>,
)
    requires
        rows_with_songs_log(rows, stop, t, r),
    ensures
        forall|i: int| 0 <= i < t.len() ==> (#[trigger] t[i]) is Query,
{
    assert forall|i: int| 0 <= i < t.len() implies (#[trigger] t[i]) is Query by {
        if i < t.len() - 1 {
            assert(row_listed(rows[i], t[i]));
        } else {
            match r {
                Ok(v) => {
                    assert(row_listed(rows[i], t[i]));
                },
                Err(e) => {
                    if t.len() < rows.len() && (forall|k: int|
                        0 <= k < t.len() ==> row_listed(rows[k], #[trigger] t[k])) {
                        assert(row_listed(rows[i], t[i]));
                    } else if t.len() == rows.len() && (forall|k: int|
                        0 <= k < t.len() ==> row_listed(rows[k], #[trigger] t[k])) {
                        assert(row_listed(rows[i], t[i]));
                    } else {
                        assert(t.last() == t[i]);
                    }
                },
            }
        }
    }
}

/// Reads album rows one by one (see [`read_album`], the year checked) and
/// fills each album with its songs (see [`get_songs_for_album`]) before the
/// next row is read; the first failure gives the error. When every row and
/// every song list read, the error that ended the stepping, if one did. The
/// statements run and the result are those [`rows_with_songs_log`]
/// describes.
pub fn albums_with_songs_from_query(
    db: &mut Db,
    rows: &Vec<Vec<SqlCell>>,
    stop: Option<rusqlite::Error>,
) -> (r: Result<Vec<AlbumWithSongs>, DbError>)
    ensures
        grew(old(db).log(), final(db).log()),
        rows_with_songs_log(
            rows_view(rows@),
            stop,
            added(old(db).log(), final(db).log()),
            full_result_view(r),
        ),
        r matches Err(e) ==> e is Sqlite || album_read_error(e, true) || song_read_error(e),
{
    let ghost l0 = db.log();
    let ghost rv = rows_view(rows@);
    let mut out: Vec<AlbumWithSongs> = Vec::new();
    let mut i: usize = 0;
    proof {
        assert(added(l0, db.log()) =~= Seq::<Stmt>::empty());
        assert(db.log().take(l0.len() as int) =~= l0);
    }
    while i < rows.len()
        invariant
            l0 == old(db).log(),
            i <= rows@.len(),
            rv == rows_view(rows@),
            grew(l0, db.log()),
            added(l0, db.log()).len() == i,
            out@.len() == i,
            forall|j: int|
                0 <= j < i ==> row_listed(rv[j], #[trigger] added(l0, db.log())[j]) && full_view(
                    out@[j],
                ).0 == read_album(rv[j], true)->Ok_0 && songs_answer(
                    added(l0, db.log())[j]->Query_result,
                ) == Ok::<_, DbError>(full_view(out@[j]).1),
        decreases rows@.len() - i,
    {
        let ghost lb = db.log();
        proof {
            assert(rv[i as int] == rows@[i as int]@);
        }
        let album = match album_from_row(&rows[i], true) {
            Ok(a) => a,
            Err(e) => {
                proof {
                    let t = added(l0, db.log());
                    assert forall|j: int| 0 <= j < t.len() - 1 implies row_listed(
                        rv[j],
                        #[trigger] t[j],
                    ) by {}
                }
                return Err(e);
            },
        };
        let listed = get_songs_for_album(db, album.id_album);
        proof {
            assert(added(l0, db.log()) =~= added(l0, lb).push(db.log().last()));
            assert(db.log().take(l0.len() as int) =~= l0) by {
                assert(db.log().take(lb.len() as int) =~= lb);
            }
        }
        let song_list = match listed {
            Ok(v) => v,
            Err(e) => {
                proof {
                    let t = added(l0, db.log());
                    assert(t.last() == db.log().last());
                    assert forall|j: int| 0 <= j < t.len() - 1 implies row_listed(
                        rv[j],
                        #[trigger] t[j],
                    ) by {
                        assert(t[j] == added(l0, lb)[j]);
                    }
                }
                return Err(e);
            },
        };
        let ghost prev = out@;
        let full = with_songs(album, song_list);
        out.push(full);
        proof {
            let t = added(l0, db.log());
            assert forall|j: int| 0 <= j < i + 1 implies row_listed(rv[j], #[trigger] t[j])
                && full_view(out@[j]).0 == read_album(rv[j], true)->Ok_0 && songs_answer(
                t[j]->Query_result,
            ) == Ok::<_, DbError>(full_view(out@[j]).1) by {
                if j < i {
                    assert(t[j] == added(l0, lb)[j]);
                    assert(out@[j] == prev[j]);
                }
            }
        }
        i = i + 1;
    }
    proof {
        let t = added(l0, db.log());
        assert forall|j: int| 0 <= j < t.len() - 1 implies row_listed(rv[j], #[trigger] t[j]) by {}
    }
    match stop {
        Some(e) => Err(DbError::Sqlite(e)),
        None => {
            proof {
                let t = added(l0, db.log());
                let v = out@.map_values(|a: AlbumWithSongs| full_view(a));
                assert forall|j: int| 0 <= j < v.len() implies row_listed(rv[j], #[trigger] t[j])
                    && v[j].0 == read_album(rv[j], true)->Ok_0 && songs_answer(t[j]->Query_result)
                    == Ok::<_, DbError>(v[j].1) by {}
            }
            Ok(out)
        },
    }
}

/// How listing all albums with their songs goes, as the statements `t` it
/// ran show it: the album listing [`SELECT_ALBUMS`], and, when it read, the
/// song listing of each album (see [`song_lists_log`]).
pub open spec fn albums_with_songs_log(
    t: Seq<Stmt>,
    r: Result<Seq<(AlbumRecord, Seq<SongRecord>)>, DbError>,
) -> bool {
    &&& t.len() >= 1
    &&& is_query(t[0], SELECT_ALBUMS@, seq![])
    &&& match albums_answer(t[0]->Query_result, false) {
        Err(e) => t.len() == 1 && r == Err::<Seq<(AlbumRecord, Seq<SongRecord>)>, DbError>(e),
        Ok(albums) => song_lists_log(albums, t.skip(1), r),
    }
}

/// All albums (as [`get_albums`] lists them), each with its songs (as
/// [`get_songs_for_album`] lists them): the statements run and the result
/// are those [`albums_with_songs_log`] describes.
pub fn get_albums_with_songs(db: &mut Db) -> (r: Result<Vec<AlbumWithSongs>, DbError>)
    ensures
        grew(old(db).log(), final(db).log()),
        albums_with_songs_log(added(old(db).log(), final(db).log()), full_result_view(r)),
        r matches Err(e) ==> e is Sqlite || album_read_error(e, false) || song_read_error(e),
{
    let ghost l0 = db.log();
    let albums = get_albums(db);
    let ghost l1 = db.log();
    proof {
        assert(added(l0, l1) =~= seq![l1.last()]);
        assert(l1.take(l0.len() as int) =~= l0);
    }
    let albums = albums?;
    let r = albums_with_their_songs(db, albums);
    proof {
        let l2 = db.log();
        assert(added(l0, l2) =~= seq![l1.last()] + added(l1, l2));
        assert(added(l0, l2).skip(1) =~= added(l1, l2));
        assert(l2.take(l0.len() as int) =~= l0) by {
            assert(l2.take(l1.len() as int) == l1);
        }
    }
    r
}

} // verus!

verus! {

/// Texts bound as text parameters, in order.
pub fn text_params(values: Vec<String>) -> (ps: Vec<SqlParam>)
    ensures
        param_values(ps@) == values@.map_values(|v: String| ParamValue::Text(v@)),
{
    let ghost orig = values@;
    let mut ps: Vec<SqlParam> = Vec::new();
    for v in it: values.into_iter()
        invariant
            it.seq() == orig,
            ps@.len() == it.index(),
            param_values(ps@) == orig.take(ps@.len() as int).map_values(
                |v: String| ParamValue::Text(v@),
            ),
    {
        let ghost prev = ps@;
        ps.push(SqlParam::Text(v));
        proof {
            assert(v == orig[prev.len() as int]);
            assert(param_values(ps@) =~= param_values(prev).push(ParamValue::Text(v@)));
            assert(orig.take(ps@.len() as int).map_values(|v: String| ParamValue::Text(v@))
                =~= orig.take(prev.len() as int).map_values(|v: String| ParamValue::Text(v@)).push(
                ParamValue::Text(v@),
            ));
            assert(param_values(ps@) =~= orig.take(ps@.len() as int).map_values(
                |v: String| ParamValue::Text(v@),
            ));
        }
    }
    proof {
        assert(orig.take(orig.len() as int) =~= orig);
    }
    ps
}

} // verus!
