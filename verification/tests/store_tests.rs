use ektoboat::model::{Album, Track};
use ektoboat::store::{at_most_one, Store};
use ektoboat::youtube;

fn sample_album(url: &str) -> Album {
    Album {
        url: url.to_string(),
        artist: Some("Globular".to_string()),
        title: "Entangled Everything".to_string(),
        license: Some("https://creativecommons.org/licenses/by-nc-sa/4.0/".to_string()),
        year: Some(2019),
        labels: vec![],
        tags: vec!["Downtempo".to_string(), "Psy Dub".to_string()],
        tracks: vec![Track {
            artist: "Globular".to_string(),
            title: "🍣".to_string(),
            bpm: Some(666),
            mp3_file: None,
            video_file: None,
            youtube_id: Some(youtube::VideoID("asdf".to_string())),
        }],
        youtube_id: Some(youtube::PlaylistID("PL0123".to_string())),
    }
}

fn albums_equal(a: &Album, b: &Album) {
    assert_eq!(a.url, b.url);
    assert_eq!(a.artist, b.artist);
    assert_eq!(a.title, b.title);
    assert_eq!(a.license, b.license);
    assert_eq!(a.year, b.year);
    assert_eq!(a.labels, b.labels);
    assert_eq!(a.tags, b.tags);
    assert_eq!(a.tracks.len(), b.tracks.len());
    for (x, y) in a.tracks.iter().zip(b.tracks.iter()) {
        assert_eq!(x.artist, y.artist);
        assert_eq!(x.title, y.title);
        assert_eq!(x.bpm, y.bpm);
        assert_eq!(x.mp3_file, y.mp3_file);
        assert_eq!(x.video_file, y.video_file);
        assert_eq!(x.youtube_id.as_ref().map(|v| v.0.clone()), y.youtube_id.as_ref().map(|v| v.0.clone()));
    }
    assert_eq!(a.youtube_id.as_ref().map(|p| p.0.clone()), b.youtube_id.as_ref().map(|p| p.0.clone()));
}

#[test]
fn store_roundtrip() {
    let url = "https://ektoplazm.com/free-music/globular-entangled-everything";
    let mut store = Store::new();
    assert!(store.get_album(url).unwrap().is_none());

    let album = sample_album(url);
    store.save(&album).unwrap();
    let a = store.get_album(url).unwrap().unwrap();
    albums_equal(&album, &a);
    let b = store.get_album(url).unwrap().unwrap();
    albums_equal(&album, &b);

    // Re-saving under the same URL replaces the record whole, its track
    // rows included, keeping the new order.
    let mut album = album;
    album.youtube_id = None;
    album.tracks.push(Track {
        artist: "Globular".to_string(),
        title: "some other trak".to_string(),
        bpm: Some(1),
        mp3_file: Some("/tmp/2.mp3".to_string()),
        video_file: Some("/tmp/2.avi".to_string()),
        youtube_id: Some(youtube::VideoID("3e4nQTFhieo".to_string())),
    });
    store.save(&album).unwrap();
    let d = store.get_album(url).unwrap().unwrap();
    albums_equal(&album, &d);
}

#[test]
fn store_roundtrip_empty_tracks() {
    let url = "https://ektoplazm.com/free-music/none";
    let mut store = Store::new();
    let mut album = sample_album(url);
    album.tracks = vec![];
    store.save(&album).unwrap();
    let a = store.get_album(url).unwrap().unwrap();
    albums_equal(&album, &a);
}

#[test]
fn queue_lifecycle() {
    let mut store = Store::new();
    let u = "https://ektoplazm.com/free-music/one";
    assert_eq!(store.queue_get().unwrap(), None);

    store.queue_insert(u).unwrap();
    let got = store.queue_get().unwrap().unwrap();
    assert_eq!(got.0, "url");
    assert_eq!(got.1, u);

    store
        .queue_result("url".to_string(), u.to_string(), "OK".to_string())
        .unwrap();
    assert_eq!(store.queue_get().unwrap(), None);

    // Re-inserting resets the pair to pending.
    store.queue_insert(u).unwrap();
    let got = store.queue_get().unwrap().unwrap();
    assert_eq!(got, ("url".to_string(), u.to_string()));
}

#[test]
fn queue_order_and_isolation() {
    let mut store = Store::new();
    store.queue_insert("a").unwrap();
    store.queue_insert("b").unwrap();
    // Oldest pending first.
    assert_eq!(store.queue_get().unwrap().unwrap().1, "a");
    store
        .queue_result("url".to_string(), "a".to_string(), "OK".to_string())
        .unwrap();
    // Stamping one pair leaves the other pending.
    assert_eq!(store.queue_get().unwrap().unwrap().1, "b");
    // Re-inserting an existing pair moves it to the back.
    store.queue_insert("c").unwrap();
    store.queue_insert("b").unwrap();
    assert_eq!(store.queue_get().unwrap().unwrap().1, "c");
}

#[test]
fn at_most_one_guard() {
    assert!(at_most_one(vec![]).unwrap().is_none());
    let one = at_most_one(vec![sample_album("https://ektoplazm.com/free-music/a")])
        .unwrap()
        .unwrap();
    assert_eq!(one.url, "https://ektoplazm.com/free-music/a");
    // Two rows with the same URL are corruption, reported as such.
    let err = at_most_one(vec![
        sample_album("https://ektoplazm.com/free-music/a"),
        sample_album("https://ektoplazm.com/free-music/a"),
    ])
    .unwrap_err();
    assert_eq!(err.message(), "Query returned more than one result");
    assert!(!err.is_retryable());
}

#[test]
fn blacklist_insert_kinds() {
    let mut store = Store::new();
    store.blacklist_insert("artist", "donald duck").unwrap();
    store.blacklist_insert("label", "sony").unwrap();
    // Unknown kinds are a configuration error.
    let err = store.blacklist_insert("genre", "polka").unwrap_err();
    assert_eq!(err.message(), "Unknown exclusion pattern kind");
    let filter = store.blacklist().unwrap();
    let mut album = sample_album("https://ektoplazm.com/free-music/x");
    album.labels = vec!["Sony".to_string()];
    assert!(filter.matches(&album));
}
