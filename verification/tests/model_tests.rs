use ektoboat::model::{Album, Blacklist, Track};

fn track(artist: &str, title: &str, bpm: Option<u16>) -> Track {
    Track {
        artist: artist.to_string(),
        title: title.to_string(),
        bpm,
        mp3_file: None,
        video_file: None,
        youtube_id: None,
    }
}

fn strs(v: &[&str]) -> Vec<String> {
    v.iter().map(|s| s.to_string()).collect()
}

#[test]
fn blacklist() {
    let black_artists = strs(&["donald duck", "agh[0o]ri tantrik"]);
    let black_labels = strs(&["sony", "sonic tantra .*", "supraphon"]);
    let blacklist = Blacklist::new(&black_artists, &black_labels).unwrap();

    let album = Album {
        url: "https://ektoplazm.com/free-music/haltya-japan-anime-punk-sessions-ep".to_string(),
        artist: Some("Haltya".to_string()),
        title: "Japan Anime Punk Sessions EP".to_string(),
        license: Some("https://creativecommons.org/licenses/by-nc-nd/3.0/".to_string()),
        year: Some(2012),
        labels: strs(&["Not Really"]),
        tags: strs(&["Experimental", "Suomi"]),
        tracks: vec![
            track("Haltya", "Övertüre", None),
            track("Haltya", "Hiro In The Sky With Diamonds", None),
        ],
        youtube_id: None,
    };
    assert!(!blacklist.matches(&album));

    let album = Album {
        url: "https://ektoplazm.com/free-music/sonic-shamans-vol-ii".to_string(),
        artist: Some("VA".to_string()),
        title: "Sonic Shamans Vol. II".to_string(),
        license: Some("https://creativecommons.org/licenses/by-nc-nd/4.0/".to_string()),
        year: Some(2015),
        labels: strs(&["Sonic Tantra Records"]),
        tags: strs(&["Darkpsy", "Psycore"]),
        tracks: vec![
            track("Overdream", "Skip Sick!", Some(150)),
            track("Goch", "Falling Stone", Some(150)),
        ],
        youtube_id: None,
    };
    assert!(blacklist.matches(&album));

    let album = Album {
        url: "https://ektoplazm.com/free-music/high-tech-mechanica".to_string(),
        artist: Some("VA".to_string()),
        title: "High Tech Mechanica".to_string(),
        license: Some("https://creativecommons.org/licenses/by-nc-sa/3.0/".to_string()),
        year: Some(2011),
        labels: strs(&["Cosmic Crew Records"]),
        tags: strs(&["Hi-Tech", "Psycore"]),
        tracks: vec![
            track("Murukhan", "General Dynamicz", Some(175)),
            track("Aghori Tantrik", "Ending Lunatic Behaviour", Some(165)),
        ],
        youtube_id: None,
    };
    assert!(blacklist.matches(&album));
}

#[test]
fn exclusion_is_whole_string_case_insensitive() {
    let filter = Blacklist::new(&vec![], &strs(&["sony"])).unwrap();
    let mut album = Album {
        url: "https://ektoplazm.com/free-music/x".to_string(),
        artist: None,
        title: "X".to_string(),
        license: None,
        year: None,
        labels: strs(&["Sony"]),
        tags: vec![],
        tracks: vec![],
        youtube_id: None,
    };
    assert!(filter.matches(&album));
    album.labels = strs(&["Sony Music Group"]);
    assert!(!filter.matches(&album));
}

#[test]
fn blacklist_malformed_pattern() {
    // An unbalanced bracket fails at construction, never per match.
    assert!(Blacklist::new(&strs(&["agh[0o"]), &vec![]).is_err());
}

#[test]
fn dirname_replaces_spaces() {
    let album = Album {
        url: "u".to_string(),
        artist: Some("Inner Fhorse".to_string()),
        title: "Chapter II".to_string(),
        license: None,
        year: None,
        labels: vec![],
        tags: vec![],
        tracks: vec![],
        youtube_id: None,
    };
    assert_eq!(album.dirname("/var/mp3"), "/var/mp3/Inner_Fhorse_-_Chapter_II");

    let va = Album { artist: None, ..album };
    assert_eq!(va.dirname("base"), "base/VA_-_Chapter_II");
}

#[test]
fn has_files_predicates() {
    let mut album = Album {
        url: "u".to_string(),
        artist: None,
        title: "T".to_string(),
        license: None,
        year: None,
        labels: vec![],
        tags: vec![],
        tracks: vec![track("a", "b", None)],
        youtube_id: None,
    };
    assert!(!album.has_mp3());
    assert!(album.audio_paths("m").is_none());
    album.tracks[0].mp3_file = Some("01 - a - b.mp3".to_string());
    assert!(album.has_mp3());
    assert_eq!(
        album.audio_paths("m").unwrap(),
        vec!["m/VA_-_T/01 - a - b.mp3".to_string()]
    );
    assert!(!album.has_video());
    album.tracks[0].video_file = Some("01 - a - b.avi".to_string());
    assert!(album.has_video());
    assert_eq!(
        album.video_paths("v").unwrap(),
        vec!["v/VA_-_T/01 - a - b.avi".to_string()]
    );
}
