use ektoboat::model::{Album, Track};
use ektoboat::source::{album_from_tags, description, known_source, EktoplazmScraper, TagData};

fn tag(num: u32, artist: &str, title: &str, file: &str) -> TagData {
    TagData {
        track_num: num,
        artist: artist.to_string(),
        title: title.to_string(),
        bpm: None,
        file_name: file.to_string(),
        album_artist: Some(artist.to_string()),
        album: Some("Predestination".to_string()),
        year: Some(2016),
    }
}

#[test]
fn description_ektoplazm() {
    let testcases = [(
        Album {
            url: "https://ektoplazm.com/free-music/asdfasdf".to_string(),
            artist: Some("Risingson".to_string()),
            title: "Forgot".to_string(),
            license: None,
            year: None,
            labels: vec![],
            tags: vec![],
            tracks: vec![],
            youtube_id: None,
        },
        Track {
            artist: "Risingson".to_string(),
            title: "Digital Being".to_string(),
            bpm: Some(88),
            mp3_file: Some("01 - Risingson - Digital Being.mp3".to_string()),
            video_file: None,
            youtube_id: None,
        },
        "exp",
    )];

    for tc in &testcases {
        println!("{}", description(&tc.0, &tc.1).unwrap());
    }
}

#[test]
fn description_exact_text() {
    let album = Album {
        url: "https://ektoplazm.com/free-music/asdfasdf".to_string(),
        artist: Some("Risingson".to_string()),
        title: "Forgot".to_string(),
        license: Some("https://creativecommons.org/licenses/by-nc-sa/4.0/".to_string()),
        year: Some(2016),
        labels: vec!["Some Label".to_string()],
        tags: vec!["Downtempo".to_string(), "Psy Dub".to_string()],
        tracks: vec![Track {
            artist: "Risingson".to_string(),
            title: "Digital Being".to_string(),
            bpm: Some(88),
            mp3_file: None,
            video_file: None,
            youtube_id: None,
        }],
        youtube_id: None,
    };
    let got = description(&album, &album.tracks[0]).unwrap();
    let expected = "Download the full album from Ektoplazm: https://ektoplazm.com/free-music/asdfasdf\n\
                    \nArtist: Risingson\
                    \nTrack: Digital Being\
                    \nAlbum: Forgot (2016)\
                    \nTrack number: 01\
                    \nBPM: 88\
                    \n\
                    \nTags: Downtempo, Psy Dub\
                    \nReleased by: Some Label\
                    \nLicense: https://creativecommons.org/licenses/by-nc-sa/4.0/";
    assert_eq!(got, expected);
}

#[test]
fn description_unknown_source() {
    let album = Album {
        url: "https://example.com/album".to_string(),
        artist: None,
        title: "T".to_string(),
        license: None,
        year: None,
        labels: vec![],
        tags: vec![],
        tracks: vec![],
        youtube_id: None,
    };
    let t = Track {
        artist: "a".to_string(),
        title: "t".to_string(),
        bpm: None,
        mp3_file: None,
        video_file: None,
        youtube_id: None,
    };
    assert!(!known_source(&album.url));
    let err = description(&album, &t).unwrap_err();
    assert_eq!(err.message(), "No source known for https://example.com/album");
}

#[test]
fn assemble_album_from_tags() {
    // Files arrive in directory order; tracks come out in track-number
    // order, and "VA" as album artist means various artists (absent).
    let tags = vec![
        tag(3, "Risingson", "Predestination", "03 - Risingson - Predestination.mp3"),
        tag(1, "Risingson", "Digital Being", "01 - Risingson - Digital Being.mp3"),
        tag(2, "Risingson", "Robosapiens", "02 - Risingson - Robosapiens.mp3"),
    ];
    let (title, artist, year, tracks) = album_from_tags(&tags).unwrap();
    assert_eq!(title, "Predestination");
    assert_eq!(artist, Some("Risingson".to_string()));
    assert_eq!(year, Some(2016));
    assert_eq!(
        tracks.iter().map(|t| t.title.clone()).collect::<Vec<_>>(),
        vec!["Digital Being", "Robosapiens", "Predestination"]
    );
    assert_eq!(
        tracks[0].mp3_file,
        Some("01 - Risingson - Digital Being.mp3".to_string())
    );
    assert!(tracks.iter().all(|t| t.video_file.is_none() && t.youtube_id.is_none()));
}

#[test]
fn assemble_album_various_artists() {
    let mut a = tag(1, "X", "One", "01.mp3");
    a.album_artist = Some("VA".to_string());
    let mut b = tag(2, "Y", "Two", "02.mp3");
    b.album_artist = Some("VA".to_string());
    let (_, artist, _, _) = album_from_tags(&vec![a, b]).unwrap();
    assert_eq!(artist, None);
}

#[test]
fn assemble_album_is_stable_for_equal_numbers() {
    // Two files claiming the same track number keep their read order.
    let a = tag(1, "X", "First Seen", "a.mp3");
    let b = tag(1, "Y", "Second Seen", "b.mp3");
    let (_, _, _, tracks) = album_from_tags(&vec![a, b]).unwrap();
    assert_eq!(
        tracks.iter().map(|t| t.title.clone()).collect::<Vec<_>>(),
        vec!["First Seen", "Second Seen"]
    );
}

#[test]
fn assemble_album_requires_album_tag() {
    let mut a = tag(1, "X", "One", "01.mp3");
    a.album = None;
    let err = album_from_tags(&vec![a]).unwrap_err();
    assert_eq!(err.message(), "Album artist cannot be determined");
}

#[test]
fn scraper_paging() {
    let mut s = EktoplazmScraper::from_offset(12);
    // Five albums per listing page.
    assert_eq!(s.next_list_url(), "https://ektoplazm.com/section/free-music/page/3");
    assert!(s.needs_fetch());
    assert_eq!(s.pop_url(), None);
    s.supply_page(vec!["u1".to_string(), "u2".to_string()]);
    assert_eq!(s.next_list_url(), "https://ektoplazm.com/section/free-music/page/4");
    assert_eq!(s.pop_url(), Some("u1".to_string()));
    assert_eq!(s.pop_url(), Some("u2".to_string()));
    assert_eq!(s.pop_url(), None);
}

#[test]
fn playlist_title_format() {
    let title = ektoboat::youtube::playlist_title(
        &"Entangled Everything".to_string(),
        &Some("Globular".to_string()),
        &Some(2019),
        &vec!["Downtempo".to_string(), "Psy Dub".to_string()],
    );
    assert_eq!(title, "Globular - Entangled Everything (2019) [Downtempo, Psy Dub]");
    let bare = ektoboat::youtube::playlist_title(&"T".to_string(), &None, &None, &vec![]);
    assert_eq!(bare, "VA - T");
}

#[test]
fn id_urls() {
    let v = ektoboat::youtube::VideoID("3e4nQTFhieo".to_string());
    assert_eq!(v.as_url(), "https://www.youtube.com/watch?v=3e4nQTFhieo");
    let p = ektoboat::youtube::PlaylistID("PL0123".to_string());
    assert_eq!(p.as_url(), "https://www.youtube.com/playlist?list=PL0123");
}
