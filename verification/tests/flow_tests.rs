use ektoboat::flow::{dequeue_work, Action, Event, Pipeline};
use ektoboat::model::{Album, Track};
use ektoboat::store::Store;
use ektoboat::util::Retry;
use ektoboat::youtube::{PlaylistID, VideoID};

const URL: &str = "https://ektoplazm.com/free-music/test-album";

fn fetched_album() -> Album {
    Album {
        url: URL.to_string(),
        artist: Some("Globular".to_string()),
        title: "Entangled Everything".to_string(),
        license: Some("https://creativecommons.org/licenses/by-nc-sa/4.0/".to_string()),
        year: Some(2019),
        labels: vec!["Some Label".to_string()],
        tags: vec!["Downtempo".to_string()],
        tracks: vec![
            Track {
                artist: "Globular".to_string(),
                title: "One".to_string(),
                bpm: None,
                mp3_file: Some("01 - Globular - One.mp3".to_string()),
                video_file: None,
                youtube_id: None,
            },
            Track {
                artist: "Globular".to_string(),
                title: "Two".to_string(),
                bpm: None,
                mp3_file: Some("02 - Globular - Two.mp3".to_string()),
                video_file: None,
                youtube_id: None,
            },
        ],
        youtube_id: None,
    }
}

fn pipe() -> Pipeline {
    Pipeline::new(URL.to_string(), "mp3".to_string(), "video".to_string(), 8)
}

/// A brand-new URL is fetched once, rendered and uploaded track by track,
/// and playlisted; the final record is fully published.
#[test]
fn fresh_url_runs_all_stages() {
    let mut store = Store::new();
    let mut p = pipe();

    let a = p.step(&mut store, Event::Start).unwrap();
    match a {
        Action::Fetch { url, mp3_dir } => {
            assert_eq!(url, URL);
            assert_eq!(mp3_dir, "mp3");
        }
        _ => panic!("expected a fetch"),
    }

    let a = p.step(&mut store, Event::Fetched(Ok(fetched_album()))).unwrap();
    match a {
        Action::FindCover { dir } => {
            assert_eq!(dir, "mp3/Globular_-_Entangled_Everything");
        }
        _ => panic!("expected a cover search"),
    }
    // The fetched album was persisted before any further work.
    assert!(store.get_album(URL).unwrap().is_some());

    let a = p
        .step(
            &mut store,
            Event::CoverFound(Ok("mp3/Globular_-_Entangled_Everything/cover.jpg".to_string())),
        )
        .unwrap();
    match a {
        Action::Render { audio, image, output } => {
            assert_eq!(audio, "mp3/Globular_-_Entangled_Everything/01 - Globular - One.mp3");
            assert_eq!(image, "mp3/Globular_-_Entangled_Everything/cover.jpg");
            assert_eq!(output, "video/Globular_-_Entangled_Everything/01 - Globular - One.avi");
        }
        _ => panic!("expected a render"),
    }

    let a = p.step(&mut store, Event::Rendered(Ok(()))).unwrap();
    match a {
        Action::Render { audio, .. } => {
            assert_eq!(audio, "mp3/Globular_-_Entangled_Everything/02 - Globular - Two.mp3");
        }
        _ => panic!("expected the second render"),
    }

    let a = p.step(&mut store, Event::Rendered(Ok(()))).unwrap();
    match a {
        Action::Upload { video } => {
            assert_eq!(video.title, "Globular - One");
            assert_eq!(
                video.filename,
                "video/Globular_-_Entangled_Everything/01 - Globular - One.avi"
            );
            assert!(video.description.contains("Track number: 01"));
        }
        _ => panic!("expected the first upload"),
    }
    // The whole render batch was persisted once.
    let stored = store.get_album(URL).unwrap().unwrap();
    assert!(stored.tracks.iter().all(|t| t.video_file.is_some()));

    let a = p
        .step(&mut store, Event::Uploaded(Ok(VideoID("v1".to_string()))))
        .unwrap();
    match a {
        Action::Upload { video } => assert_eq!(video.title, "Globular - Two"),
        _ => panic!("expected the second upload"),
    }
    // The first identifier was persisted immediately.
    let stored = store.get_album(URL).unwrap().unwrap();
    assert_eq!(stored.tracks[0].youtube_id.as_ref().unwrap().0, "v1");
    assert!(stored.tracks[1].youtube_id.is_none());

    let a = p
        .step(&mut store, Event::Uploaded(Ok(VideoID("v2".to_string()))))
        .unwrap();
    match a {
        Action::CreatePlaylist { playlist } => {
            assert_eq!(playlist.title, "Globular - Entangled Everything (2019) [Downtempo]");
            assert_eq!(
                playlist.videos.iter().map(|v| v.0.clone()).collect::<Vec<_>>(),
                vec!["v1", "v2"]
            );
        }
        _ => panic!("expected the playlist creation"),
    }

    let a = p
        .step(&mut store, Event::PlaylistCreated(Ok(PlaylistID("p1".to_string()))))
        .unwrap();
    assert!(matches!(a, Action::Done));

    let done = store.get_album(URL).unwrap().unwrap();
    assert_eq!(done.youtube_id.unwrap().0, "p1");
    assert!(done.tracks.iter().all(|t| t.youtube_id.is_some()));
}

/// A fully published album is re-run without any render, upload or playlist
/// call.
#[test]
fn published_album_is_idempotent() {
    let mut store = Store::new();
    let mut album = fetched_album();
    for (i, t) in album.tracks.iter_mut().enumerate() {
        t.video_file = Some(format!("{:02} - x.avi", i + 1));
        t.youtube_id = Some(VideoID(format!("v{}", i + 1)));
    }
    album.youtube_id = Some(PlaylistID("p1".to_string()));
    store.save(&album).unwrap();

    let mut p = pipe();
    let a = p.step(&mut store, Event::Start).unwrap();
    assert!(matches!(a, Action::CheckAudio { .. }));
    let a = p.step(&mut store, Event::AudioChecked(true)).unwrap();
    assert!(matches!(a, Action::CheckVideo { .. }));
    let a = p.step(&mut store, Event::VideoChecked(true)).unwrap();
    // Straight to done: no render, upload or playlist action was issued.
    assert!(matches!(a, Action::Done));
}

/// An album matching an exclusion pattern fails terminally before any
/// render or upload is requested.
#[test]
fn excluded_album_fails_before_work() {
    let mut store = Store::new();
    store.blacklist_insert("label", "some label").unwrap();

    let mut p = pipe();
    let a = p.step(&mut store, Event::Start).unwrap();
    assert!(matches!(a, Action::Fetch { .. }));
    let err = p
        .step(&mut store, Event::Fetched(Ok(fetched_album())))
        .unwrap_err();
    assert_eq!(err.message(), "Blacklisted");
}

#[test]
fn missing_license_fails() {
    let mut store = Store::new();
    let mut album = fetched_album();
    album.license = None;
    let mut p = pipe();
    p.step(&mut store, Event::Start).unwrap();
    let err = p.step(&mut store, Event::Fetched(Ok(album))).unwrap_err();
    assert_eq!(err.message(), "No license");
}

/// A stored album whose local audio is missing is re-fetched, and the merge
/// on save preserves the already-populated provider identifiers.
#[test]
fn missing_audio_refetches_and_merges() {
    // The stored record lacks an audio file name: straight to a fetch.
    let mut store = Store::new();
    let mut stored = fetched_album();
    stored.tracks[0].mp3_file = None;
    stored.tracks[0].youtube_id = Some(VideoID("keep-me".to_string()));
    stored.youtube_id = Some(PlaylistID("keep-pl".to_string()));
    store.save(&stored).unwrap();
    let mut p = pipe();
    let a = p.step(&mut store, Event::Start).unwrap();
    assert!(matches!(a, Action::Fetch { .. }));
    // The fetch returns a fresh album without provider identifiers.
    let a = p.step(&mut store, Event::Fetched(Ok(fetched_album()))).unwrap();
    assert!(matches!(a, Action::FindCover { .. }));
    let merged = store.get_album(URL).unwrap().unwrap();
    assert_eq!(merged.tracks[0].youtube_id.as_ref().unwrap().0, "keep-me");
    assert!(merged.tracks[1].youtube_id.is_none());
    assert_eq!(merged.youtube_id.as_ref().unwrap().0, "keep-pl");
    // The fresh audio file names replaced the stored record's.
    assert!(merged.tracks.iter().all(|t| t.mp3_file.is_some()));

    // The same path runs when the recorded files vanished from disk.
    let mut store = Store::new();
    store.save(&fetched_album()).unwrap();
    let mut p = pipe();
    let a = p.step(&mut store, Event::Start).unwrap();
    assert!(matches!(a, Action::CheckAudio { .. }));
    let a = p.step(&mut store, Event::AudioChecked(false)).unwrap();
    assert!(matches!(a, Action::Fetch { .. }));
}

/// A retryable upload failure is retried after a sleep, up to the bound;
/// a non-retryable one fails at once.
#[test]
fn upload_retry_behaviour() {
    let mut store = Store::new();
    let mut p = Pipeline::new(URL.to_string(), "mp3".to_string(), "video".to_string(), 2);
    p.step(&mut store, Event::Start).unwrap();
    let mut album = fetched_album();
    for (i, t) in album.tracks.iter_mut().enumerate() {
        t.video_file = Some(format!("{:02} - x.avi", i + 1));
    }
    let a = p.step(&mut store, Event::Fetched(Ok(album))).unwrap();
    assert!(matches!(a, Action::CheckVideo { .. }));
    let a = p.step(&mut store, Event::VideoChecked(true)).unwrap();
    assert!(matches!(a, Action::Upload { .. }));

    // Two retryable failures: two sleeps.
    let quota = || ektoboat::util::Error::retryable("YouTube error: quotaExceeded");
    let a = p.step(&mut store, Event::Uploaded(Err(quota()))).unwrap();
    assert!(matches!(a, Action::SleepThenUpload { .. }));
    let a = p.step(&mut store, Event::Uploaded(Err(quota()))).unwrap();
    assert!(matches!(a, Action::SleepThenUpload { .. }));
    // The bound is exhausted: the third failure surfaces.
    let err = p.step(&mut store, Event::Uploaded(Err(quota()))).unwrap_err();
    assert!(err.is_retryable());

    // A non-retryable failure surfaces immediately.
    let mut store = Store::new();
    let mut p = pipe();
    p.step(&mut store, Event::Start).unwrap();
    let mut album = fetched_album();
    for (i, t) in album.tracks.iter_mut().enumerate() {
        t.video_file = Some(format!("{:02} - x.avi", i + 1));
    }
    p.step(&mut store, Event::Fetched(Ok(album))).unwrap();
    p.step(&mut store, Event::VideoChecked(true)).unwrap();
    let err = p
        .step(
            &mut store,
            Event::Uploaded(Err(ektoboat::util::Error::new("HTTP error"))),
        )
        .unwrap_err();
    assert_eq!(err.message(), "HTTP error");
}

/// The retry policy sleeps once per retryable failure, within the bound.
#[test]
fn retry_counts() {
    let mut r = Retry::new(3);
    // Three retryable failures: three sleeps.
    assert!(r.should_retry(true));
    assert!(r.should_retry(true));
    assert!(r.should_retry(true));
    // The bound is reached: the fourth failure is not retried.
    assert!(!r.should_retry(true));
    // A non-retryable failure is never retried.
    let mut r = Retry::new(3);
    assert!(!r.should_retry(false));
}

#[test]
fn unknown_source_is_terminal() {
    let mut store = Store::new();
    let mut p = Pipeline::new(
        "https://example.com/album".to_string(),
        "mp3".to_string(),
        "video".to_string(),
        8,
    );
    let err = p.step(&mut store, Event::Start).unwrap_err();
    assert_eq!(err.message(), "No source known for https://example.com/album");
}

#[test]
fn dequeue_dispatch() {
    let mut store = Store::new();
    assert_eq!(dequeue_work(&store).unwrap(), None);
    store.queue_insert(URL).unwrap();
    assert_eq!(
        dequeue_work(&store).unwrap(),
        Some(("url".to_string(), URL.to_string()))
    );
    // Any other action tag is a configuration error for that item.
    let err = ektoboat::flow::dispatch_entry(Some(("bogus".to_string(), URL.to_string())))
        .unwrap_err();
    assert_eq!(err.message(), "Unknown action bogus");
}
