use minero::db::{create_db, upsert_song, DbError};
use minero::interpreter::search_from_raw;
use minero::songtag::SongTag;
use minero::sqlite::Db;
use rusqlite::Connection;

fn sample_song(artist: &str, album: &str, title: &str, path: &str) -> SongTag {
    SongTag {
        file_path: path.to_string(),
        title: title.to_string(),
        artist: artist.to_string(),
        album: album.to_string(),
        genre: "Rock".to_string(),
        track: Some(1),
        year: Some(1991),
    }
}

#[test]
fn search_from_raw_matches_artist_and_album_filters() -> Result<(), DbError> {
    let mut conn = Connection::open_in_memory().map(Db::new).map_err(DbError::Sqlite)?;
    create_db(&mut conn)?;
    upsert_song(&mut conn, &sample_song("Nirvana", "Nevermind", "Smells Like Teen Spirit", "/tmp/n1.mp3"))?;
    upsert_song(&mut conn, &sample_song("Radiohead", "OK Computer", "Paranoid Android", "/tmp/r1.mp3"))?;

    let res = search_from_raw(&mut conn, "ar: Nirvana")?;
    assert_eq!(res.len(), 1);
    assert_eq!(res[0].artist, "Nirvana");
    Ok(())
}

#[test]
fn search_from_raw_applies_and_between_groups() -> Result<(), DbError> {
    let mut conn = Connection::open_in_memory().map(Db::new).map_err(DbError::Sqlite)?;
    create_db(&mut conn)?;
    upsert_song(&mut conn, &sample_song("Red Hot Chili Peppers", "Californication", "Californication", "/tmp/rhcp.mp3"))?;
    upsert_song(&mut conn, &sample_song("Red Hot Chili Peppers", "Blood Sugar Sex Magik", "Under the Bridge", "/tmp/rhcp2.mp3"))?;

    let res = search_from_raw(&mut conn, "ar: Red Hot Chili Peppers & al: Californication")?;
    assert_eq!(res.len(), 1);
    assert_eq!(res[0].name, "Californication");

    Ok(())
}
