use minero::db::{
    album_from_row, album_path_for, album_path_from_parent, album_songs_params, albums_from_query,
    albums_with_songs_from_query, create_db, first_id, get_albums, get_albums_with_songs,
    get_songs_for_album, id_from_lookup, performer_type, song_from_row, song_write,
    songs_from_query, songs_from_rows, upsert_song, DbError, SqlCell, SqlParam, INSERT_SONG,
    UPDATE_SONG,
};
use minero::interpreter::search_from_raw;
use minero::songtag::SongTag;
use minero::sqlite::Db;
use rusqlite::Connection;

fn song(artist: &str, album: &str, title: &str, path: &str, track: Option<i32>, year: Option<i32>) -> SongTag {
    SongTag {
        file_path: path.to_string(),
        title: title.to_string(),
        artist: artist.to_string(),
        album: album.to_string(),
        genre: "Rock".to_string(),
        track,
        year,
    }
}

fn text(s: &str) -> SqlCell {
    SqlCell::Text(s.as_bytes().to_vec())
}

fn fresh() -> Db {
    let mut conn = Db::new(Connection::open_in_memory().unwrap());
    create_db(&mut conn).unwrap();
    conn
}

#[test]
fn unknown_performer_gets_its_own_type() {
    assert_eq!(performer_type("Unknown"), 2);
    assert_eq!(performer_type("unknown"), 0);
    assert_eq!(performer_type("Nirvana"), 0);
    assert_eq!(performer_type(""), 0);
}

#[test]
fn album_path_is_the_parent_directory() {
    assert_eq!(album_path_for("/tmp/music/nirvana/song.mp3"), "/tmp/music/nirvana");
    assert_eq!(album_path_for("song.mp3"), "");
    assert_eq!(album_path_for("/"), "Unknown");
    assert_eq!(album_path_for(""), "Unknown");
    assert_eq!(album_path_from_parent(None), "Unknown");
    assert_eq!(album_path_from_parent(Some("/x".to_string())), "/x");
}

fn param_text(p: &SqlParam) -> String {
    match p {
        SqlParam::Int(i) => format!("i{i}"),
        SqlParam::Text(s) => format!("t{s}"),
        SqlParam::Null => "null".to_string(),
    }
}

#[test]
fn existing_song_is_updated_in_place() {
    let s = song("A", "B", "T", "/p/x.mp3", Some(3), None);
    let (sql, params) = song_write(&s, 10, 20, Some(7));
    assert_eq!(sql, UPDATE_SONG);
    let got: Vec<String> = params.iter().map(param_text).collect();
    assert_eq!(got, vec!["i10", "i20", "tT", "i3", "null", "tRock", "i7"]);
}

#[test]
fn new_song_is_inserted() {
    let s = song("A", "B", "T", "/p/x.mp3", None, Some(2001));
    let (sql, params) = song_write(&s, 10, 20, None);
    assert_eq!(sql, INSERT_SONG);
    let got: Vec<String> = params.iter().map(param_text).collect();
    assert_eq!(got, vec!["i10", "i20", "t/p/x.mp3", "tT", "null", "i2001", "tRock"]);
}

#[test]
fn album_row_is_read_column_by_column() {
    let row = vec![SqlCell::Int(4), text("Nevermind"), text("/m"), SqlCell::Null, SqlCell::Int(12), text("Nirvana")];
    let a = album_from_row(&row, true).unwrap();
    assert_eq!(a.id_album, 4);
    assert_eq!(a.name, "Nevermind");
    assert_eq!(a.path, "/m");
    assert_eq!(a.songs, 12);
    assert_eq!(a.artist, "Nirvana");
}

#[test]
fn album_row_errors_name_the_first_bad_column() {
    let row = vec![SqlCell::Int(4), SqlCell::Null, text("/m"), text("1999"), SqlCell::Int(12), text("N")];
    assert!(matches!(album_from_row(&row, false), Err(DbError::InvalidColumnType(1))));
    assert!(matches!(album_from_row(&row, true), Err(DbError::InvalidColumnType(3))));
    let short = vec![SqlCell::Int(4), text("a"), text("b")];
    assert!(matches!(album_from_row(&short, false), Err(DbError::InvalidColumnIndex(4))));
    let real = vec![SqlCell::Real, text("a"), text("b"), SqlCell::Null, SqlCell::Int(1), text("c")];
    assert!(matches!(album_from_row(&real, true), Err(DbError::InvalidColumnType(0))));
}

#[test]
fn song_rows_allow_missing_track_and_genre() {
    let rows = vec![
        vec![text("A"), text("/p"), SqlCell::Int(1), SqlCell::Null, text("Rock")],
        vec![text("B"), text("/q"), SqlCell::Null, SqlCell::Null, SqlCell::Null],
    ];
    let songs = songs_from_rows(&rows).unwrap();
    assert_eq!(songs.len(), 2);
    assert_eq!(songs[0].title, "A");
    assert_eq!(songs[0].track, Some(1));
    assert_eq!(songs[0].genre.as_deref(), Some("Rock"));
    assert_eq!(songs[1].track, None);
    assert_eq!(songs[1].genre, None);
    let bad = vec![text("C"), text("/r"), text("one"), SqlCell::Null, SqlCell::Blob(vec![1])];
    assert!(matches!(song_from_row(&bad), Err(DbError::InvalidColumnType(2))));
}

#[test]
fn first_id_reads_the_first_row_only() {
    assert!(matches!(first_id(&vec![]), Ok(None)));
    assert!(matches!(first_id(&vec![vec![SqlCell::Int(9)], vec![text("x")]]), Ok(Some(9))));
    assert!(matches!(first_id(&vec![vec![text("x")]]), Err(DbError::InvalidColumnType(0))));
    assert!(matches!(first_id(&vec![vec![]]), Err(DbError::InvalidColumnIndex(0))));
}

#[test]
fn create_db_can_run_twice() {
    let mut conn = fresh();
    create_db(&mut conn).unwrap();
    let n: i64 = conn.connection().query_row("SELECT COUNT(*) FROM types", [], |r| r.get(0)).unwrap();
    assert_eq!(n, 3);
}

#[test]
fn unknown_artist_is_stored_with_unknown_type() {
    let mut conn = fresh();
    upsert_song(&mut conn, &song("Unknown", "Unknown", "Untitled", "/x/1.mp3", None, None)).unwrap();
    upsert_song(&mut conn, &song("Björk", "Post", "Army of Me", "/y/1.mp3", Some(1), Some(1995))).unwrap();
    let t1: i64 = conn.connection().query_row("SELECT id_type FROM performers WHERE name = 'Unknown'", [], |r| r.get(0)).unwrap();
    let t2: i64 = conn.connection().query_row("SELECT id_type FROM performers WHERE name = 'Björk'", [], |r| r.get(0)).unwrap();
    assert_eq!((t1, t2), (2, 0));
}

#[test]
fn performers_and_albums_are_shared() {
    let mut conn = fresh();
    upsert_song(&mut conn, &song("N", "Nevermind", "A", "/n/1.mp3", Some(1), None)).unwrap();
    upsert_song(&mut conn, &song("N", "Nevermind", "B", "/n/2.mp3", Some(2), None)).unwrap();
    upsert_song(&mut conn, &song("N", "Nevermind", "C", "/other/3.mp3", Some(3), None)).unwrap();
    let performers: i64 = conn.connection().query_row("SELECT COUNT(*) FROM performers", [], |r| r.get(0)).unwrap();
    let albums: i64 = conn.connection().query_row("SELECT COUNT(*) FROM albums", [], |r| r.get(0)).unwrap();
    assert_eq!(performers, 1);
    assert_eq!(albums, 2);
    let path: String = conn.connection().query_row("SELECT path FROM albums WHERE id_album = 1", [], |r| r.get(0)).unwrap();
    assert_eq!(path, "/n");
}

#[test]
fn albums_are_listed_by_song_count_then_name() {
    let mut conn = fresh();
    upsert_song(&mut conn, &song("B", "beta", "1", "/b/1.mp3", None, None)).unwrap();
    upsert_song(&mut conn, &song("A", "Alpha", "1", "/a/1.mp3", None, None)).unwrap();
    upsert_song(&mut conn, &song("C", "Gamma", "1", "/c/1.mp3", None, None)).unwrap();
    upsert_song(&mut conn, &song("C", "Gamma", "2", "/c/2.mp3", None, None)).unwrap();
    let names: Vec<String> = get_albums(&mut conn).unwrap().into_iter().map(|a| a.name).collect();
    assert_eq!(names, vec!["Gamma", "Alpha", "beta"]);
}

#[test]
fn songs_are_listed_by_track_then_title() {
    let mut conn = fresh();
    upsert_song(&mut conn, &song("A", "X", "zeta", "/x/1.mp3", None, None)).unwrap();
    upsert_song(&mut conn, &song("A", "X", "Beta", "/x/2.mp3", Some(2), None)).unwrap();
    upsert_song(&mut conn, &song("A", "X", "alpha", "/x/3.mp3", None, None)).unwrap();
    upsert_song(&mut conn, &song("A", "X", "Gamma", "/x/4.mp3", Some(1), None)).unwrap();
    let id = get_albums(&mut conn).unwrap()[0].id_album;
    let titles: Vec<String> = get_songs_for_album(&mut conn, id).unwrap().into_iter().map(|s| s.title).collect();
    assert_eq!(titles, vec!["Gamma", "Beta", "alpha", "zeta"]);
}

#[test]
fn empty_library_lists_nothing() {
    let mut conn = fresh();
    assert!(get_albums(&mut conn).unwrap().is_empty());
    assert!(get_albums_with_songs(&mut conn).unwrap().is_empty());
    assert!(search_from_raw(&mut conn, "ar: x").unwrap().is_empty());
}

#[test]
fn search_filters_ignore_case_and_or_within_group() {
    let mut conn = fresh();
    upsert_song(&mut conn, &song("Nirvana", "Nevermind", "Lithium", "/n/1.mp3", Some(5), Some(1991))).unwrap();
    upsert_song(&mut conn, &song("Radiohead", "OK Computer", "Airbag", "/r/1.mp3", Some(1), Some(1997))).unwrap();
    upsert_song(&mut conn, &song("Björk", "Post", "Hyperballad", "/b/1.mp3", Some(4), Some(1995))).unwrap();

    let by_title = search_from_raw(&mut conn, "CA: lithium").unwrap();
    assert_eq!(by_title.len(), 1);
    assert_eq!(by_title[0].name, "Nevermind");
    assert_eq!(by_title[0].song_list.len(), 1);

    let either = search_from_raw(&mut conn, "ar: radiohead, al: post").unwrap();
    let mut names: Vec<String> = either.into_iter().map(|a| a.name).collect();
    names.sort();
    assert_eq!(names, vec!["OK Computer", "Post"]);

    let none = search_from_raw(&mut conn, "ar: radiohead & al: post").unwrap();
    assert!(none.is_empty());

    let all = search_from_raw(&mut conn, "").unwrap();
    assert_eq!(all.len(), 3);
}

#[test]
fn failed_statement_is_a_sqlite_error() {
    let mut conn = Db::new(Connection::open_in_memory().unwrap());
    assert!(matches!(get_albums(&mut conn), Err(DbError::Sqlite(_))));
}

fn stepping_error() -> rusqlite::Error {
    rusqlite::Error::QueryReturnedNoRows
}

fn album_row(id: i64, name: &str) -> Vec<SqlCell> {
    vec![SqlCell::Int(id), text(name), text("/p"), SqlCell::Null, SqlCell::Int(1), text("Art")]
}

#[test]
fn text_that_is_not_utf8_fails_only_where_it_is_read() {
    let title = vec![SqlCell::Text(vec![0xff, 0xfe]), text("/p"), SqlCell::Null, SqlCell::Null, SqlCell::Null];
    assert!(matches!(song_from_row(&title), Err(DbError::InvalidUtf8(0))));
    let path = vec![text("T"), SqlCell::Text(vec![0xff]), SqlCell::Int(3), SqlCell::Null, SqlCell::Null];
    let s = song_from_row(&path).unwrap();
    assert_eq!((s.title.as_str(), s.track), ("T", Some(3)));
    let mut name = album_row(1, "x");
    name[1] = SqlCell::Text(vec![0xc3]);
    assert!(matches!(album_from_row(&name, false), Err(DbError::InvalidUtf8(1))));
}

#[test]
fn stored_path_that_is_not_utf8_does_not_break_the_song_listing() {
    let mut conn = fresh();
    upsert_song(&mut conn, &song("A", "X", "Only", "/x/1.mp3", Some(1), None)).unwrap();
    conn.connection().execute("UPDATE rolas SET path = CAST(X'FF' AS TEXT)", []).unwrap();
    let id = get_albums(&mut conn).unwrap()[0].id_album;
    let songs = get_songs_for_album(&mut conn, id).unwrap();
    assert_eq!(songs.len(), 1);
    assert_eq!(songs[0].title, "Only");
    assert_eq!(search_from_raw(&mut conn, "ca: only").unwrap().len(), 1);
}

#[test]
fn stored_title_that_is_not_utf8_is_reported() {
    let mut conn = fresh();
    upsert_song(&mut conn, &song("A", "X", "Only", "/x/1.mp3", Some(1), None)).unwrap();
    conn.connection().execute("UPDATE rolas SET title = CAST(X'FF' AS TEXT)", []).unwrap();
    let id = get_albums(&mut conn).unwrap()[0].id_album;
    assert!(matches!(get_songs_for_album(&mut conn, id), Err(DbError::InvalidUtf8(0))));
    assert!(matches!(get_albums_with_songs(&mut conn), Err(DbError::InvalidUtf8(0))));
}

#[test]
fn a_row_that_does_not_read_comes_before_a_later_stepping_error() {
    let rows = vec![album_row(1, "a"), vec![SqlCell::Int(2), SqlCell::Null]];
    assert!(matches!(albums_from_query(&rows, Some(stepping_error()), false), Err(DbError::InvalidColumnType(1))));
    let good = vec![album_row(1, "a")];
    assert!(matches!(albums_from_query(&good, Some(stepping_error()), false), Err(DbError::Sqlite(_))));
    let listed = albums_from_query(&good, None, false).unwrap();
    assert_eq!((listed.len(), listed[0].name.as_str()), (1, "a"));
    let songs = vec![vec![SqlCell::Int(5)]];
    assert!(matches!(songs_from_query(&songs, Some(stepping_error())), Err(DbError::InvalidColumnType(0))));
    assert!(matches!(songs_from_query(&vec![], Some(stepping_error())), Err(DbError::Sqlite(_))));
    assert!(songs_from_query(&vec![], None).unwrap().is_empty());
}

#[test]
fn a_lookup_reads_its_first_row_whatever_follows() {
    let rows = vec![vec![SqlCell::Int(4)]];
    assert!(matches!(id_from_lookup(&rows, Some(stepping_error())), Ok(Some(4))));
    assert!(matches!(id_from_lookup(&vec![], Some(stepping_error())), Err(DbError::Sqlite(_))));
    assert!(matches!(id_from_lookup(&vec![], None), Ok(None)));
    assert!(matches!(id_from_lookup(&vec![vec![text("4")]], None), Err(DbError::InvalidColumnType(0))));
}

#[test]
fn search_reads_albums_and_their_songs_in_turn() {
    let mut conn = fresh();
    upsert_song(&mut conn, &song("A", "X", "Only", "/x/1.mp3", Some(1), None)).unwrap();
    let id = get_albums(&mut conn).unwrap()[0].id_album;
    conn.connection().execute("UPDATE rolas SET track = 'one'", []).unwrap();
    // The first album's songs fail before the second row is read.
    let rows = vec![album_row(id, "X"), vec![SqlCell::Int(99), SqlCell::Null]];
    assert!(matches!(albums_with_songs_from_query(&mut conn, &rows, None), Err(DbError::InvalidColumnType(2))));
    // A row that does not read stops the search before any song is read.
    let mut unnamed = album_row(id, "X");
    unnamed[1] = SqlCell::Null;
    let first_bad = vec![unnamed, album_row(id, "X")];
    assert!(matches!(albums_with_songs_from_query(&mut conn, &first_bad, None), Err(DbError::InvalidColumnType(1))));
    assert!(matches!(albums_with_songs_from_query(&mut conn, &vec![], Some(stepping_error())), Err(DbError::Sqlite(_))));
    assert!(albums_with_songs_from_query(&mut conn, &vec![], None).unwrap().is_empty());
}

#[test]
fn search_fills_each_row_with_its_songs() {
    let mut conn = fresh();
    upsert_song(&mut conn, &song("A", "X", "Only", "/x/1.mp3", Some(1), None)).unwrap();
    let id = get_albums(&mut conn).unwrap()[0].id_album;
    let found = albums_with_songs_from_query(&mut conn, &vec![album_row(id, "X")], None).unwrap();
    assert_eq!(found.len(), 1);
    assert_eq!(found[0].song_list[0].title, "Only");
    assert!(matches!(albums_with_songs_from_query(&mut conn, &vec![album_row(id, "X")], Some(stepping_error())), Err(DbError::Sqlite(_))));
}

#[test]
fn song_listing_binds_the_album_id() {
    let ps = album_songs_params(17);
    assert_eq!(ps.len(), 1);
    assert!(matches!(ps[0], SqlParam::Int(17)));
}

#[test]
fn mined_songs_are_counted_when_stored() {
    let mut conn = fresh();
    let (count, failure) = minero::minero::store_mined_song(&mut conn, &song("A", "X", "T", "/x/1.mp3", None, None), 4);
    assert_eq!(count, 5);
    assert!(failure.is_none());
    let mut bare = Db::new(Connection::open_in_memory().unwrap());
    let (count, failure) = minero::minero::store_mined_song(&mut bare, &song("A", "X", "T", "/x/1.mp3", None, None), 4);
    assert_eq!(count, 4);
    assert!(matches!(failure, Some(DbError::Sqlite(_))));
}

fn table_counts(conn: &Db) -> (i64, i64, i64) {
    let c = conn.connection();
    let n = |sql: &str| -> i64 { c.query_row(sql, [], |r| r.get(0)).unwrap() };
    (n("SELECT COUNT(*) FROM performers"), n("SELECT COUNT(*) FROM albums"), n("SELECT COUNT(*) FROM rolas"))
}

#[test]
fn a_search_changes_no_table() {
    let mut conn = fresh();
    upsert_song(&mut conn, &song("A", "X", "One", "/x/1.mp3", Some(1), None)).unwrap();
    upsert_song(&mut conn, &song("B", "Y", "Two", "/y/1.mp3", Some(1), None)).unwrap();
    let before = table_counts(&conn);
    for raw in ["", "ar: a", "al: y & ca: two", "zz, xx:", "ar: nobody"] {
        search_from_raw(&mut conn, raw).unwrap();
    }
    assert_eq!(table_counts(&conn), before);
}

#[test]
fn upserting_the_same_song_twice_adds_nothing() {
    let mut conn = fresh();
    let s = song("A", "X", "One", "/x/1.mp3", Some(1), Some(2001));
    upsert_song(&mut conn, &s).unwrap();
    let before = table_counts(&conn);
    upsert_song(&mut conn, &s).unwrap();
    assert_eq!(table_counts(&conn), before);
    assert_eq!(before, (1, 1, 1));
}

#[test]
fn search_without_filters_lists_what_the_listing_lists() {
    let mut conn = fresh();
    upsert_song(&mut conn, &song("A", "X", "One", "/x/1.mp3", Some(1), None)).unwrap();
    upsert_song(&mut conn, &song("B", "Y", "Two", "/y/1.mp3", Some(1), None)).unwrap();
    upsert_song(&mut conn, &song("B", "Y", "Three", "/y/2.mp3", Some(2), None)).unwrap();
    let listed: Vec<(i64, usize)> = get_albums_with_songs(&mut conn).unwrap().iter().map(|a| (a.id_album, a.song_list.len())).collect();
    for raw in ["", "foo, xx: 1 &"] {
        let found: Vec<(i64, usize)> = search_from_raw(&mut conn, raw).unwrap().iter().map(|a| (a.id_album, a.song_list.len())).collect();
        assert_eq!(found, listed);
    }
}
