use minero::db::{AlbumWithSongs, SongSummary};
use minero::mine_route::route_from_input;
use minero::minero::is_mp3_extension;
use minero::view::{
    album_meta_text, album_row_detail_text, map_albums_to_view, song_detail_text, song_title_text,
};

#[test]
fn albums_keep_their_data_in_the_view() {
    let albums = vec![
        AlbumWithSongs {
            id_album: 3,
            name: "Nevermind".to_string(),
            path: "/n".to_string(),
            songs: 2,
            artist: "Nirvana".to_string(),
            song_list: vec![
                SongSummary { title: "Breed".to_string(), track: Some(3), genre: None },
                SongSummary { title: "Lithium".to_string(), track: None, genre: Some("Grunge".to_string()) },
            ],
        },
        AlbumWithSongs {
            id_album: 9,
            name: "Post".to_string(),
            path: "/p".to_string(),
            songs: 0,
            artist: "Björk".to_string(),
            song_list: vec![],
        },
    ];
    let view = map_albums_to_view(albums);
    assert_eq!(view.len(), 2);
    assert_eq!(view[0].id_album, 3);
    assert_eq!(view[0].artist, "Nirvana");
    assert_eq!(view[0].name, "Nevermind");
    assert_eq!(view[0].path, "/n");
    assert_eq!(view[0].songs, 2);
    assert_eq!(view[0].song_list.len(), 2);
    assert_eq!(view[0].song_list[0].title, "Breed");
    assert_eq!(view[0].song_list[0].track, Some(3));
    assert_eq!(view[0].song_list[1].genre.as_deref(), Some("Grunge"));
    assert_eq!(view[1].name, "Post");
    assert!(view[1].song_list.is_empty());
}

#[test]
fn song_title_line_pads_the_track() {
    assert_eq!(song_title_text(Some(1), "Lithium"), "01. Lithium");
    assert_eq!(song_title_text(Some(0), "x"), "00. x");
    assert_eq!(song_title_text(Some(12), "x"), "12. x");
    assert_eq!(song_title_text(Some(123), "x"), "123. x");
    assert_eq!(song_title_text(Some(-3), "x"), "-3. x");
    assert_eq!(song_title_text(Some(i64::MIN), "x"), format!("{:02}. x", i64::MIN));
    assert_eq!(song_title_text(None, "Lithium"), "Lithium");
    for t in [-100i64, -9, 0, 7, 10, 99, 100, 9999] {
        assert_eq!(song_title_text(Some(t), "s"), format!("{:02}. {}", t, "s"));
    }
}

#[test]
fn song_detail_line_names_genre_and_artist() {
    assert_eq!(song_detail_text(&Some("Rock".to_string()), "Nirvana"), "Rock \nNirvana");
    assert_eq!(song_detail_text(&None, "Nirvana"), "Sin genero \nNirvana");
}

#[test]
fn album_lines_show_id_and_song_count() {
    assert_eq!(album_meta_text(5, 2), "Id: 5 \n2 canciones");
    assert_eq!(album_meta_text(-1, 0), "Id: -1 \n0 canciones");
    assert_eq!(album_row_detail_text("Nirvana", 13), "Nirvana \n13 canciones");
    assert_eq!(album_row_detail_text("A", i64::MAX), format!("A \n{} canciones", i64::MAX));
}

#[test]
fn mining_route_is_trimmed_and_required() {
    assert_eq!(route_from_input("  /music/rock \n"), Some("/music/rock".to_string()));
    assert_eq!(route_from_input("/m"), Some("/m".to_string()));
    assert_eq!(route_from_input(""), None);
    assert_eq!(route_from_input(" \t\n"), None);
}

#[test]
fn only_mp3_files_are_mined() {
    assert!(is_mp3_extension(Some("mp3")));
    assert!(is_mp3_extension(Some("MP3")));
    assert!(is_mp3_extension(Some("Mp3")));
    assert!(!is_mp3_extension(Some("mp4")));
    assert!(!is_mp3_extension(Some("mp3 ")));
    assert!(!is_mp3_extension(Some("")));
    assert!(!is_mp3_extension(None));
}
