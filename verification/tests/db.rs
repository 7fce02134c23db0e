use minero::db::{
    create_db, get_albums, get_albums_with_songs, get_songs_for_album, upsert_song, DbError,
};
use minero::songtag::SongTag;
use minero::sqlite::Db;
use rusqlite::Connection;

fn sample_song(artist: &str, album: &str, title: &str, path: &str, track: Option<i32>) -> SongTag {
    SongTag {
        file_path: path.to_string(),
        title: title.to_string(),
        artist: artist.to_string(),
        album: album.to_string(),
        genre: "Rock".to_string(),
        track,
        year: Some(1991),
    }
}

fn open() -> Result<Db, DbError> {
    Connection::open_in_memory().map(Db::new).map_err(DbError::Sqlite)
}

fn count(conn: &Db, sql: &str) -> Result<i64, DbError> {
    conn.connection().query_row(sql, [], |row| row.get(0)).map_err(DbError::Sqlite)
}

#[test]
fn create_db_creates_schema_tables() -> Result<(), DbError> {
    let mut conn = open()?;
    create_db(&mut conn)?;

    let table_count = count(
        &conn,
        "SELECT COUNT(*) FROM sqlite_master WHERE type = 'table' AND name IN ('albums', 'performers', 'rolas')",
    )?;

    assert_eq!(table_count, 3);
    Ok(())
}

#[test]
fn upsert_song_inserts_and_updates_same_path() -> Result<(), DbError> {
    let mut conn = open()?;
    create_db(&mut conn)?;

    let first = sample_song(
        "Nirvana",
        "Nevermind",
        "Smells Like Teen Spirit",
        "/tmp/music/nirvana/song.mp3",
        Some(1),
    );
    upsert_song(&mut conn, &first)?;

    let updated = sample_song(
        "Nirvana",
        "Nevermind",
        "Come As You Are",
        "/tmp/music/nirvana/song.mp3",
        Some(2),
    );
    upsert_song(&mut conn, &updated)?;

    let rows = count(&conn, "SELECT COUNT(*) FROM rolas")?;
    assert_eq!(rows, 1);

    let title: String = conn
        .connection()
        .query_row(
            "SELECT title FROM rolas WHERE path = ?1",
            ["/tmp/music/nirvana/song.mp3"],
            |row| row.get(0),
        )
        .map_err(DbError::Sqlite)?;
    assert_eq!(title, "Come As You Are");

    Ok(())
}

#[test]
fn get_albums_and_songs_return_expected_data() -> Result<(), DbError> {
    let mut conn = open()?;
    create_db(&mut conn)?;

    upsert_song(
        &mut conn,
        &sample_song(
            "Red Hot Chili Peppers",
            "Californication",
            "Around the World",
            "/tmp/rhcp/californication/01.mp3",
            Some(1),
        ),
    )?;
    upsert_song(
        &mut conn,
        &sample_song(
            "Red Hot Chili Peppers",
            "Californication",
            "Scar Tissue",
            "/tmp/rhcp/californication/02.mp3",
            Some(2),
        ),
    )?;

    let albums = get_albums(&mut conn)?;
    assert_eq!(albums.len(), 1);
    assert_eq!(albums[0].name, "Californication");
    assert_eq!(albums[0].songs, 2);
    assert_eq!(albums[0].artist, "Red Hot Chili Peppers");

    let songs = get_songs_for_album(&mut conn, albums[0].id_album)?;
    assert_eq!(songs.len(), 2);
    assert_eq!(songs[0].title, "Around the World");
    assert_eq!(songs[0].track, Some(1));
    assert_eq!(songs[1].title, "Scar Tissue");
    assert_eq!(songs[1].track, Some(2));

    let albums_with_songs = get_albums_with_songs(&mut conn)?;
    assert_eq!(albums_with_songs.len(), 1);
    assert_eq!(albums_with_songs[0].song_list.len(), 2);

    Ok(())
}
