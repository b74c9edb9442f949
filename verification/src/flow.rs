//! The pipeline orchestrator: drives one album URL from unknown to fully
//! published, persisting after every externally visible side effect so a
//! re-invocation resumes rather than repeats.
//!
//! All outside work — fetching, file checks, rendering, uploading — is
//! expressed as an `Action` handed to the caller; the caller performs it and
//! feeds the outcome back as an `Event`.  Every decision in between is
//! verified.

use vstd::prelude::*;

use crate::model::{Album, Track};
use crate::source;
use crate::store::Store;
use crate::strutil;
use crate::util;
use crate::youtube;

verus! {

/// The outcome of one outside action, handed back to the orchestrator.
#[derive(Debug)]
pub enum Event {
    Start,
    Fetched(Result<Album, util::Error>),
    AudioChecked(bool),
    VideoChecked(bool),
    CoverFound(Result<String, util::Error>),
    Rendered(Result<(), util::Error>),
    Uploaded(Result<youtube::VideoID, util::Error>),
    PlaylistCreated(Result<youtube::PlaylistID, util::Error>),
}

/// The next outside action the caller must perform.  The `Sleep…` variants
/// ask for the retry backoff: sleep the fixed delay, re-invoke, and feed the
/// outcome back.
#[derive(Debug)]
pub enum Action {
    Fetch { url: String, mp3_dir: String },
    CheckAudio { paths: Vec<String> },
    CheckVideo { paths: Vec<String> },
    FindCover { dir: String },
    Render { audio: String, image: String, output: String },
    Upload { video: youtube::Video },
    SleepThenUpload { video: youtube::Video },
    CreatePlaylist { playlist: youtube::Playlist },
    SleepThenCreatePlaylist { playlist: youtube::Playlist },
    Done,
}

/// Where the album stands in the pipeline.
pub enum Phase {
    Start,
    AwaitFetch,
    AwaitAudio,
    AwaitVideoCheck,
    AwaitCover,
    Rendering { next: usize },
    Uploading { next: usize },
    AwaitPlaylist,
    Done,
    Failed,
}

/// The album that a fetch outcome leaves in the store: merged over the
/// already-loaded record if one is held, else the fetched album itself.
pub open spec fn spec_fetched_album(fetched: crate::model::AlbumV, prior: Option<Album>) -> crate::model::AlbumV {
    match prior {
        Option::Some(p) => crate::model::spec_merge(fetched, p@),
        Option::None => fetched,
    }
}

/// What an upload request must carry for track `i` of the album: the
/// "artist - title" video title, the source's description text, the album's
/// tags, and the rendered file's path under the video directory.
pub open spec fn spec_upload_request(
    v: youtube::Video,
    a: crate::model::AlbumV,
    i: int,
    video_dir: Seq<char>,
) -> bool {
    &&& v.title@ == a.tracks[i].artist.add(" - "@.add(a.tracks[i].title))
    &&& v.description@ == source::spec_description(a, a.tracks[i])
    &&& v.tags.deep_view() == a.tags
    &&& v.filename@ == crate::model::spec_dirname(a, video_dir).add(
        "/"@.add(a.tracks[i].video_file.unwrap()),
    )
}

/// What a playlist request must carry: the title built from artist, title,
/// year and tags, an empty description, the album's tags, and the tracks'
/// video identifiers in track order.
pub open spec fn spec_playlist_request(p: youtube::Playlist, a: crate::model::AlbumV) -> bool {
    &&& p.title@ == youtube::spec_playlist_title(a.title, a.artist, a.year, a.tags)
    &&& p.description@ == Seq::<char>::empty()
    &&& p.tags.deep_view() == a.tags
    &&& p.videos@.map_values(|v: youtube::VideoID| v@) == crate::model::spec_video_ids(a.tracks)
}

/// What a render request must carry for track `i`: its audio file under the
/// audio directory, the chosen cover image, and the avi-named output under
/// the video directory.
pub open spec fn spec_render_request(
    audio: Seq<char>,
    image: Seq<char>,
    output: Seq<char>,
    a: crate::model::AlbumV,
    i: int,
    mp3_dir: Seq<char>,
    video_dir: Seq<char>,
    cover: Seq<char>,
) -> bool {
    &&& audio == crate::model::spec_dirname(a, mp3_dir).add(
        "/"@.add(a.tracks[i].mp3_file.unwrap()),
    )
    &&& image == cover
    &&& output == crate::model::spec_dirname(a, video_dir).add(
        "/"@.add(crate::video::spec_avi_name(a.tracks[i].mp3_file.unwrap())),
    )
}

/// Orchestration state for one album URL.
pub struct Pipeline {
    pub url: String,
    pub mp3_dir: String,
    pub video_dir: String,
    pub retries: u32,
    pub album: Option<Album>,
    pub cover: Option<String>,
    pub retry: util::Retry,
    pub phase: Phase,
}

impl Pipeline {
    /// The machine's internal consistency: once an album is loaded it stays,
    /// and the per-track cursors stay in range.
    pub open spec fn inv(&self) -> bool {
        &&& (match self.phase {
            Phase::Start => true,
            Phase::AwaitFetch => true,
            Phase::AwaitAudio => self.album is Some,
            Phase::AwaitVideoCheck => self.album is Some,
            Phase::AwaitCover => self.album is Some,
            Phase::Rendering { next } => self.album is Some && next
                < self.album.unwrap()@.tracks.len() && self.cover is Some,
            Phase::Uploading { next } => self.album is Some && next < self.album.unwrap()@.tracks.len(),
            Phase::AwaitPlaylist => self.album is Some,
            Phase::Done => true,
            Phase::Failed => true,
        })
        &&& self.retry.wf()
    }

    /// A fresh pipeline for one URL.
    pub fn new(url: String, mp3_dir: String, video_dir: String, retries: u32) -> (p: Pipeline)
        ensures
            p.inv(),
            p.phase is Start,
            p.url == url,
            p.mp3_dir == mp3_dir,
            p.video_dir == video_dir,
            p.retries == retries,
    {
        Pipeline {
            url,
            mp3_dir,
            video_dir,
            retries,
            album: Option::None,
            cover: Option::None,
            retry: util::Retry::new(retries),
            phase: Phase::Start,
        }
    }

    /// Begins work on the URL: a stored album leads to an audio check, an
    /// unknown URL to a fetch.
    fn start(&mut self, store: &Store) -> (r: Result<Action, util::Error>)
        requires
            old(self).inv(),
            old(self).phase is Start,
            store.wf(),
        ensures
            final(self).inv(),
            crate::store::find_album(store@.albums, old(self).url@) is None
                && source::spec_ektoplazm_belongs(old(self).url@) ==> (r matches Ok(a)
                && final(self).phase is AwaitFetch && final(self).album == old(self).album
                && (match a {
                Action::Fetch { url, mp3_dir } => url@ == old(self).url@ && mp3_dir@ == old(self).mp3_dir@,
                _ => false,
            })),
            crate::store::find_album(store@.albums, old(self).url@) is None
                && !source::spec_ektoplazm_belongs(old(self).url@) ==> (r matches Err(e)
                && e.msg_spec() == "No source known for "@.add(old(self).url@)
                && !e.retryable_spec() && final(self).phase is Failed),
            (match crate::store::find_album(store@.albums, old(self).url@) {
                Option::Some(a) => crate::model::spec_all_have_mp3(a.tracks),
                Option::None => false,
            }) ==> (r matches Ok(a) && a is CheckAudio && final(self).phase is AwaitAudio
                && crate::model::opt_view_album(final(self).album) == crate::store::find_album(
                store@.albums,
                old(self).url@,
            )),
            (match crate::store::find_album(store@.albums, old(self).url@) {
                Option::Some(a) => !crate::model::spec_all_have_mp3(a.tracks),
                Option::None => false,
            }) && source::spec_ektoplazm_belongs(old(self).url@) ==> (r matches Ok(a)
                && final(self).phase is AwaitFetch
                && crate::model::opt_view_album(final(self).album) == crate::store::find_album(
                store@.albums,
                old(self).url@,
            ) && (match a {
                Action::Fetch { url, mp3_dir } => url@ == old(self).url@ && mp3_dir@ == old(self).mp3_dir@,
                _ => false,
            })),
            (match crate::store::find_album(store@.albums, old(self).url@) {
                Option::Some(a) => !crate::model::spec_all_have_mp3(a.tracks),
                Option::None => false,
            }) && !source::spec_ektoplazm_belongs(old(self).url@) ==> (r matches Err(e)
                && e.msg_spec() == "No source known for "@.add(old(self).url@)
                && !e.retryable_spec() && final(self).phase is Failed),
    {
        let stored = match store.get_album(self.url.as_str()) {
            Ok(o) => o,
            Err(e) => {
                self.phase = Phase::Failed;
                return Err(e);
            },
        };
        match stored {
            Option::None => {
                proof {
                    crate::store::lemma_no_match_find_none(store@.albums, self.url@);
                }
                if !source::known_source(self.url.as_str()) {
                    // The registry of sources knows no owner for this URL.
                    self.phase = Phase::Failed;
                    let msg = strutil::concat_str("No source known for ", self.url.as_str());
                    return Err(util::Error::new(msg.as_str()));
                }
                self.phase = Phase::AwaitFetch;
                Ok(Action::Fetch { url: self.url.clone(), mp3_dir: self.mp3_dir.clone() })
            },
            Option::Some(album) => {
                if album.has_mp3() {
                    let paths = album.audio_paths(self.mp3_dir.as_str()).unwrap();
                    self.album = Option::Some(album);
                    self.phase = Phase::AwaitAudio;
                    Ok(Action::CheckAudio { paths })
                } else {
                    // A stored record without its audio files must be
                    // re-fetched; the stored album is kept so its provider
                    // identifiers survive the merge on save.
                    if !source::known_source(self.url.as_str()) {
                        self.phase = Phase::Failed;
                        let msg = strutil::concat_str("No source known for ", self.url.as_str());
                        return Err(util::Error::new(msg.as_str()));
                    }
                    self.album = Option::Some(album);
                    self.phase = Phase::AwaitFetch;
                    Ok(Action::Fetch { url: self.url.clone(), mp3_dir: self.mp3_dir.clone() })
                }
            },
        }
    }

    /// Records the fetch outcome: the fetched album — merged over any
    /// already-stored record so populated provider identifiers survive — is
    /// persisted and the eligibility gate applied.
    fn on_fetched(&mut self, store: &mut Store, result: Result<Album, util::Error>) -> (r: Result<
        Action,
        util::Error,
    >)
        requires
            old(self).inv(),
            old(self).phase is AwaitFetch,
            old(store).wf(),
        ensures
            final(self).inv(),
            final(store).wf(),
            final(store)@.queue == old(store)@.queue,
            final(store)@.artist_patterns == old(store)@.artist_patterns,
            final(store)@.label_patterns == old(store)@.label_patterns,
            result is Err ==> r is Err && final(self).phase is Failed && final(store)@ == old(store)@,
            (match result {
                Err(e) => r matches Err(e2) && e2.msg_spec() == e.msg_spec()
                    && e2.retryable_spec() == e.retryable_spec(),
                Ok(_) => true,
            }),
            result matches Ok(a) ==> {
                let m = spec_fetched_album(a@, old(self).album);
                &&& final(store)@.albums == crate::store::spec_save(old(store)@.albums, m)
                &&& final(store)@.queue == old(store)@.queue
                &&& final(self).album is Some && final(self).album.unwrap()@ == m
            },
            result matches Ok(a) && a@.license is None ==> (r matches Err(e) && e.msg_spec()
                == "No license"@ && !e.retryable_spec()) && final(self).phase is Failed,
            result matches Ok(a) && a@.license is Some && crate::store::spec_patterns_compile(
                old(store)@,
            ) && crate::store::store_excludes(old(store)@, a@) ==> (r matches Err(e)
                && e.msg_spec() == "Blacklisted"@ && !e.retryable_spec()) && final(self).phase is Failed,
            result matches Ok(a) && a@.license is Some && crate::store::spec_patterns_compile(
                old(store)@,
            ) && !crate::store::store_excludes(old(store)@, a@)
                && crate::model::spec_all_have_video(
                spec_fetched_album(a@, old(self).album).tracks,
            ) ==> (r matches Ok(act) && act is CheckVideo && final(self).phase is AwaitVideoCheck),
            (match result {
                Ok(a) => (a@.license is Some && crate::store::spec_patterns_compile(
                    old(store)@,
                ) && !crate::store::store_excludes(old(store)@, a@)
                    && !crate::model::spec_all_have_video(
                    spec_fetched_album(a@, old(self).album).tracks,
                ) && spec_fetched_album(a@, old(self).album).tracks.len() > 0) ==> (
                r matches Ok(act) && final(self).phase is AwaitCover && (match act {
                    Action::FindCover { dir } => dir@ == crate::model::spec_dirname(
                        spec_fetched_album(a@, old(self).album),
                        old(self).mp3_dir@,
                    ),
                    _ => false,
                })),
                Err(_) => true,
            }),
    {
        match result {
            Err(e) => {
                self.phase = Phase::Failed;
                Err(e)
            },
            Ok(album) => {
                let ghost av = album@;
                let merged = match &self.album {
                    Option::Some(prior) => album.merged_with(prior),
                    Option::None => album,
                };
                proof {
                    assert(merged@ == spec_fetched_album(av, old(self).album));
                    assert(merged@.license == av.license);
                    assert(merged@.labels == av.labels);
                    assert(crate::model::spec_track_artists(merged@.tracks)
                        =~= crate::model::spec_track_artists(av.tracks));
                    assert(crate::store::store_excludes(old(store)@, merged@)
                        == crate::store::store_excludes(old(store)@, av));
                }
                let sr = store.save(&merged);
                match sr {
                    Err(e) => {
                        self.phase = Phase::Failed;
                        assert(false);
                        Err(e)
                    },
                    Ok(()) => {
                        proof {
                            assert(crate::store::store_excludes(old(store)@, merged@)
                                == crate::store::store_excludes(store@, merged@));
                            assert(crate::store::spec_patterns_compile(old(store)@)
                                == crate::store::spec_patterns_compile(store@));
                        }
                        self.album = Option::Some(merged);
                        self.eligibility(store)
                    },
                }
            },
        }
    }

    /// Records the on-disk audio check for a stored album: present audio is
    /// persisted and gated; missing audio leads back to a fetch, whose
    /// outcome will be merged over the stored record.
    fn on_audio_checked(&mut self, store: &mut Store, present: bool) -> (r: Result<
        Action,
        util::Error,
    >)
        requires
            old(self).inv(),
            old(self).phase is AwaitAudio,
            old(store).wf(),
        ensures
            final(self).inv(),
            final(store).wf(),
            final(store)@.queue == old(store)@.queue,
            final(store)@.artist_patterns == old(store)@.artist_patterns,
            final(store)@.label_patterns == old(store)@.label_patterns,
            !present && source::spec_ektoplazm_belongs(old(self).url@) ==> (r matches Ok(a)
                && final(self).phase is AwaitFetch && final(self).album == old(self).album
                && final(store)@ == old(store)@ && (match a {
                Action::Fetch { url, mp3_dir } => url@ == old(self).url@ && mp3_dir@ == old(self).mp3_dir@,
                _ => false,
            })),
            !present && !source::spec_ektoplazm_belongs(old(self).url@) ==> (r matches Err(e)
                && e.msg_spec() == "No source known for "@.add(old(self).url@)
                && !e.retryable_spec() && final(self).phase is Failed && final(store)@ == old(store)@),
            present ==> final(store)@.albums == crate::store::spec_save(
                old(store)@.albums,
                old(self).album.unwrap()@,
            ) && final(store)@.queue == old(store)@.queue,
            present && old(self).album.unwrap()@.license is None ==> (r matches Err(e)
                && e.msg_spec() == "No license"@ && !e.retryable_spec()) && final(self).phase is Failed,
            present && old(self).album.unwrap()@.license is Some
                && crate::store::spec_patterns_compile(old(store)@)
                && crate::store::store_excludes(old(store)@, old(self).album.unwrap()@) ==> (
            r matches Err(e) && e.msg_spec() == "Blacklisted"@ && !e.retryable_spec()) && final(self).phase is Failed,
            present && old(self).album.unwrap()@.license is Some
                && crate::store::spec_patterns_compile(old(store)@)
                && !crate::store::store_excludes(old(store)@, old(self).album.unwrap()@)
                && crate::model::spec_all_have_video(old(self).album.unwrap()@.tracks) ==> (
            r matches Ok(act) && act is CheckVideo && final(self).phase is AwaitVideoCheck),
            present && old(self).album.unwrap()@.license is Some
                && crate::store::spec_patterns_compile(old(store)@)
                && !crate::store::store_excludes(old(store)@, old(self).album.unwrap()@)
                && !crate::model::spec_all_have_video(old(self).album.unwrap()@.tracks) && old(self).album.unwrap()@.tracks.len() > 0 ==> (r matches Ok(act)
                && final(self).phase is AwaitCover && (match act {
                Action::FindCover { dir } => dir@ == crate::model::spec_dirname(
                    old(self).album.unwrap()@,
                    old(self).mp3_dir@,
                ),
                _ => false,
            })),
    {
        if !present {
            // The recorded audio files are gone from disk: re-fetch; the
            // merge on save keeps the stored provider identifiers.
            if !source::known_source(self.url.as_str()) {
                self.phase = Phase::Failed;
                let msg = strutil::concat_str("No source known for ", self.url.as_str());
                return Err(util::Error::new(msg.as_str()));
            }
            self.phase = Phase::AwaitFetch;
            return Ok(Action::Fetch { url: self.url.clone(), mp3_dir: self.mp3_dir.clone() });
        }
        let album = match &self.album {
            Option::Some(a) => a.duplicate(),
            Option::None => {
                self.phase = Phase::Failed;
                assert(false);
                return Err(util::Error::new("No album loaded"));
            },
        };
        match store.save(&album) {
            Err(e) => {
                self.phase = Phase::Failed;
                assert(false);
                Err(e)
            },
            Ok(()) => {
                proof {
                    assert(crate::store::store_excludes(old(store)@, album@)
                        == crate::store::store_excludes(store@, album@));
                    assert(crate::store::spec_patterns_compile(old(store)@)
                        == crate::store::spec_patterns_compile(store@));
                }
                self.eligibility(store)
            },
        }
    }

    /// The eligibility gate and dispatch into the render or upload stages:
    /// an album without a license, or matching the exclusion filter, fails
    /// terminally before any render or upload is requested.
    fn eligibility(&mut self, store: &Store) -> (r: Result<Action, util::Error>)
        requires
            old(self).inv(),
            old(self).album is Some,
        ensures
            final(self).inv(),
            final(self).album == old(self).album,
            old(self).album.unwrap()@.license is None ==> (r matches Err(e) && e.msg_spec()
                == "No license"@ && !e.retryable_spec()) && final(self).phase is Failed,
            old(self).album.unwrap()@.license is Some && crate::store::spec_patterns_compile(
                store@,
            ) && crate::store::store_excludes(store@, old(self).album.unwrap()@) ==> (
            r matches Err(e) && e.msg_spec() == "Blacklisted"@ && !e.retryable_spec()) && final(self).phase is Failed,
            old(self).album.unwrap()@.license is Some && crate::store::spec_patterns_compile(
                store@,
            ) && !crate::store::store_excludes(store@, old(self).album.unwrap()@) ==> r is Ok,
            old(self).album.unwrap()@.license is Some && crate::store::spec_patterns_compile(
                store@,
            ) && !crate::store::store_excludes(store@, old(self).album.unwrap()@)
                && crate::model::spec_all_have_video(old(self).album.unwrap()@.tracks) ==> (
            r matches Ok(a) && a is CheckVideo && final(self).phase is AwaitVideoCheck),
            old(self).album.unwrap()@.license is Some && crate::store::spec_patterns_compile(
                store@,
            ) && !crate::store::store_excludes(store@, old(self).album.unwrap()@)
                && !crate::model::spec_all_have_video(old(self).album.unwrap()@.tracks) && old(self).album.unwrap()@.tracks.len() > 0 ==> (r matches Ok(a)
                && final(self).phase is AwaitCover && (match a {
                Action::FindCover { dir } => dir@ == crate::model::spec_dirname(
                    old(self).album.unwrap()@,
                    old(self).mp3_dir@,
                ),
                _ => false,
            })),
            r matches Ok(a) ==> (a is CheckVideo || a is FindCover || a is Upload
                || a is CreatePlaylist || a is Done),
            r matches Ok(a) ==> !(a is Fetch) && !(a is Render) && !(a is CheckAudio),
    {
        let album = match &self.album {
            Option::Some(a) => a.duplicate(),
            Option::None => {
                self.phase = Phase::Failed;
                assert(false);
                return Err(util::Error::new("No album loaded"));
            },
        };
        if album.license.is_none() {
            self.phase = Phase::Failed;
            return Err(util::Error::new("No license"));
        }
        let blacklist = match store.blacklist() {
            Ok(b) => b,
            Err(e) => {
                self.phase = Phase::Failed;
                return Err(e);
            },
        };
        proof {
            assert(blacklist.labels_spec() =~= store@.label_patterns.map_values(
                |p: Seq<char>| crate::model::spec_anchored(p),
            ));
            assert(blacklist.artists_spec() =~= store@.artist_patterns.map_values(
                |p: Seq<char>| crate::model::spec_anchored(p),
            ));
        }
        if blacklist.matches(&album) {
            self.phase = Phase::Failed;
            return Err(util::Error::new("Blacklisted"));
        }
        if album.has_video() {
            let paths = album.video_paths(self.video_dir.as_str()).unwrap();
            self.phase = Phase::AwaitVideoCheck;
            Ok(Action::CheckVideo { paths })
        } else {
            self.request_cover(&album)
        }
    }

    /// Asks for the cover image of the album's audio directory, or skips
    /// straight to the upload stage when there is nothing to render.
    fn request_cover(&mut self, album: &Album) -> (r: Result<Action, util::Error>)
        requires
            old(self).inv(),
            old(self).album is Some,
        ensures
            final(self).inv(),
            final(self).album == old(self).album,
            r matches Ok(a) ==> (a is FindCover || a is Upload || a is CreatePlaylist
                || a is Done),
            old(self).album.unwrap()@.tracks.len() > 0 && album@ == old(self).album.unwrap()@
                ==> (r matches Ok(a) && final(self).phase is AwaitCover && (match a {
                Action::FindCover { dir } => dir@ == crate::model::spec_dirname(
                    old(self).album.unwrap()@,
                    old(self).mp3_dir@,
                ),
                _ => false,
            })),
            old(self).album.unwrap()@.tracks.len() == 0 && album@ == old(self).album.unwrap()@
                ==> r is Ok,
    {
        if album.tracks.len() == 0 {
            // Nothing to render; move on to publication.
            return self.upload_entry();
        }
        self.phase = Phase::AwaitCover;
        Ok(Action::FindCover { dir: album.dirname(self.mp3_dir.as_str()) })
    }

    /// Records the cover search outcome and asks for the first render.
    fn on_cover_found(&mut self, result: Result<String, util::Error>) -> (r: Result<
        Action,
        util::Error,
    >)
        requires
            old(self).inv(),
            old(self).phase is AwaitCover,
            old(self).album is Some,
            old(self).album.unwrap()@.tracks.len() > 0,
        ensures
            final(self).inv(),
            result is Err ==> r is Err && final(self).phase is Failed,
            (match result {
                Err(e) => r matches Err(e2) && e2.msg_spec() == e.msg_spec()
                    && e2.retryable_spec() == e.retryable_spec(),
                Ok(_) => true,
            }),
            result matches Ok(c) ==> (match r {
                Ok(a) => (final(self).phase matches Phase::Rendering { next: 0usize }) && (
                match a {
                    Action::Render { audio, image, output } => spec_render_request(
                        audio@,
                        image@,
                        output@,
                        old(self).album.unwrap()@,
                        0,
                        old(self).mp3_dir@,
                        old(self).video_dir@,
                        c@,
                    ),
                    _ => false,
                }),
                Err(_) => final(self).phase is Failed,
            }),
    {
        match result {
            Err(e) => {
                self.phase = Phase::Failed;
                Err(e)
            },
            Ok(cover) => {
                self.cover = Option::Some(cover);
                self.phase = Phase::Rendering { next: 0 };
                self.render_action(0)
            },
        }
    }

    /// The render request for one track: its audio path in, its video path
    /// out.  A track without a recorded audio file is a hard failure.
    fn render_action(&mut self, i: usize) -> (r: Result<Action, util::Error>)
        requires
            old(self).inv(),
            old(self).album is Some,
            old(self).cover is Some,
            i < old(self).album.unwrap()@.tracks.len(),
            old(self).phase matches Phase::Rendering { next } && next == i,
        ensures
            final(self).inv(),
            r matches Ok(a) ==> a is Render && *final(self) == *old(self),
            r matches Ok(a) ==> (match a {
                Action::Render { audio, image, output } => spec_render_request(
                    audio@,
                    image@,
                    output@,
                    old(self).album.unwrap()@,
                    i as int,
                    old(self).mp3_dir@,
                    old(self).video_dir@,
                    crate::model::opt_view(old(self).cover).unwrap(),
                ),
                _ => false,
            }),
            final(self).album == old(self).album,
            r is Err ==> final(self).phase is Failed,
    {
        let (basename, dir_mp3, dir_video, cover) = match &self.album {
            Option::Some(album) => {
                match &album.tracks[i].mp3_file {
                    Option::Some(f) => {
                        let b = f.clone();
                        let dm = album.dirname(self.mp3_dir.as_str());
                        let dv = album.dirname(self.video_dir.as_str());
                        let c = match &self.cover {
                            Option::Some(c) => c.clone(),
                            Option::None => {
                                self.phase = Phase::Failed;
                                assert(false);
                                return Err(util::Error::new("No cover image chosen"));
                            },
                        };
                        (b, dm, dv, c)
                    },
                    Option::None => {
                        self.phase = Phase::Failed;
                        return Err(util::Error::new("MP3 file missing"));
                    },
                }
            },
            Option::None => {
                self.phase = Phase::Failed;
                assert(false);
                return Err(util::Error::new("No album loaded"));
            },
        };
        let mut audio = dir_mp3;
        audio.append("/");
        audio.append(basename.as_str());
        let avi = crate::video::avi_name(basename.as_str());
        let mut output = dir_video;
        output.append("/");
        output.append(avi.as_str());
        proof {
            let a = old(self).album.unwrap()@;
            assert(audio@ =~= crate::model::spec_dirname(a, old(self).mp3_dir@).add(
                "/"@.add(a.tracks[i as int].mp3_file.unwrap()),
            ));
            assert(output@ =~= crate::model::spec_dirname(a, old(self).video_dir@).add(
                "/"@.add(crate::video::spec_avi_name(a.tracks[i as int].mp3_file.unwrap())),
            ));
        }
        Ok(Action::Render { audio, image: cover, output })
    }

    /// Records one render outcome: the produced file name is recorded on the
    /// track; after the whole batch the album is persisted once, so a crash
    /// mid-batch reruns the batch.
    fn on_rendered(&mut self, store: &mut Store, result: Result<(), util::Error>) -> (r: Result<
        Action,
        util::Error,
    >)
        requires
            old(self).inv(),
            old(self).phase matches Phase::Rendering { next },
            old(store).wf(),
        ensures
            final(self).inv(),
            final(store).wf(),
            final(store)@.queue == old(store)@.queue,
            final(store)@.artist_patterns == old(store)@.artist_patterns,
            final(store)@.label_patterns == old(store)@.label_patterns,
            result is Err ==> r is Err && final(self).phase is Failed && final(store)@ == old(store)@,
            (match result {
                Err(e) => r matches Err(e2) && e2.msg_spec() == e.msg_spec()
                    && e2.retryable_spec() == e.retryable_spec(),
                Ok(_) => true,
            }),
            (match (result, old(self).phase) {
                (Ok(_), Phase::Rendering { next }) => old(self).album.unwrap()@.tracks[next as int].mp3_file is Some ==> {
                    &&& final(self).album is Some
                    &&& final(self).album.unwrap()@.tracks == old(self).album.unwrap()@.tracks.update(
                        next as int,
                        crate::model::TrackV {
                            video_file: Option::Some(
                                crate::video::spec_avi_name(
                                    old(self).album.unwrap()@.tracks[next as int].mp3_file.unwrap(),
                                ),
                            ),
                            ..old(self).album.unwrap()@.tracks[next as int]
                        },
                    )
                    &&& (next + 1 < old(self).album.unwrap()@.tracks.len() ==> final(store)@
                        == old(store)@ && (match r {
                        Ok(a) => (match final(self).phase {
                            Phase::Rendering { next: m } => m == next + 1,
                            _ => false,
                        }) && (match a {
                            Action::Render { audio, image, output } => spec_render_request(
                                audio@,
                                image@,
                                output@,
                                final(self).album.unwrap()@,
                                next + 1,
                                old(self).mp3_dir@,
                                old(self).video_dir@,
                                crate::model::opt_view(old(self).cover).unwrap(),
                            ),
                            _ => false,
                        }),
                        Err(_) => final(self).phase is Failed,
                    }))
                    &&& (next + 1 == old(self).album.unwrap()@.tracks.len() ==> final(store)@.albums == crate::store::spec_save(
                        old(store)@.albums,
                        final(self).album.unwrap()@,
                    ) && final(store)@.queue == old(store)@.queue)
                    &&& (next + 1 == old(self).album.unwrap()@.tracks.len() ==> (match r {
                        Ok(a) => {
                            &&& (a is Upload || a is CreatePlaylist || a is Done)
                            &&& (crate::model::spec_all_have_video_id(
                                final(self).album.unwrap()@.tracks,
                            ) && final(self).album.unwrap()@.youtube_id is None ==> (match a {
                                Action::CreatePlaylist { playlist } => spec_playlist_request(
                                    playlist,
                                    final(self).album.unwrap()@,
                                ),
                                _ => false,
                            }))
                            &&& (crate::model::spec_all_have_video_id(
                                final(self).album.unwrap()@.tracks,
                            ) && final(self).album.unwrap()@.youtube_id is Some ==> a is Done)
                        },
                        Err(_) => true,
                    }))
                },
                _ => true,
            }),
    {
        let i = match self.phase {
            Phase::Rendering { next } => next,
            _ => {
                assert(false);
                return Err(util::Error::new("Unexpected event"));
            },
        };
        match result {
            Err(e) => {
                self.phase = Phase::Failed;
                return Err(e);
            },
            Ok(()) => {},
        }
        let album = match &mut self.album {
            Option::Some(a) => a,
            Option::None => {
                assert(false);
                return Err(util::Error::new("No album loaded"));
            },
        };
        let basename = match &album.tracks[i].mp3_file {
            Option::Some(f) => f.clone(),
            Option::None => {
                self.phase = Phase::Failed;
                return Err(util::Error::new("MP3 file missing"));
            },
        };
        let avi = crate::video::avi_name(basename.as_str());
        set_track_video_file(album, i, avi);
        proof {
            assert(album@.tracks.len() == old(self).album.unwrap()@.tracks.len());
            assert(i < album.tracks.len());
        }
        if i + 1 < album.tracks.len() {
            self.phase = Phase::Rendering { next: i + 1 };
            self.render_action(i + 1)
        } else {
            let snapshot = album.duplicate();
            match store.save(&snapshot) {
                Err(e) => {
                    self.phase = Phase::Failed;
                    assert(false);
                    Err(e)
                },
                Ok(()) => self.upload_entry(),
            }
        }
    }

    /// Enters the upload stage: the first track without a provider video
    /// identifier is uploaded next; with none left, the playlist stage
    /// begins.  Already-uploaded tracks are never re-uploaded.
    fn upload_entry(&mut self) -> (r: Result<Action, util::Error>)
        requires
            old(self).inv(),
            old(self).album is Some,
        ensures
            final(self).inv(),
            final(self).album == old(self).album,
            r matches Ok(a) ==> (a is Upload || a is CreatePlaylist || a is Done),
            r matches Ok(a) && a is Upload ==> (match final(self).phase {
                Phase::Uploading { next } => {
                    &&& old(self).album.unwrap()@.tracks[next as int].youtube_id is None
                    &&& forall|j: int|
                        0 <= j < next ==> old(self).album.unwrap()@.tracks[j].youtube_id is Some
                },
                _ => false,
            }),
            r matches Ok(a) ==> (match a {
                Action::Upload { video } => (match final(self).phase {
                    Phase::Uploading { next } => spec_upload_request(
                        video,
                        old(self).album.unwrap()@,
                        next as int,
                        old(self).video_dir@,
                    ),
                    _ => false,
                }),
                Action::CreatePlaylist { playlist } => spec_playlist_request(
                    playlist,
                    old(self).album.unwrap()@,
                ),
                _ => true,
            }),
            r matches Ok(a) && !(a is Upload) ==> crate::model::spec_all_have_video_id(
                old(self).album.unwrap()@.tracks,
            ),
            crate::model::spec_all_have_video_id(old(self).album.unwrap()@.tracks) ==> r is Ok,
            crate::model::spec_all_have_video_id(old(self).album.unwrap()@.tracks) && old(self).album.unwrap()@.youtube_id is Some ==> (r matches Ok(a) && a is Done && final(self).phase is Done),
            crate::model::spec_all_have_video_id(old(self).album.unwrap()@.tracks) && old(self).album.unwrap()@.youtube_id is None ==> (r matches Ok(a) && (match a {
                Action::CreatePlaylist { playlist } => spec_playlist_request(
                    playlist,
                    old(self).album.unwrap()@,
                ),
                _ => false,
            })),
    {
        let len = match &self.album {
            Option::Some(a) => a.tracks.len(),
            Option::None => {
                assert(false);
                return Err(util::Error::new("No album loaded"));
            },
        };
        let mut i: usize = 0;
        while i < len
            invariant
                self.inv(),
                self.album is Some,
                len == self.album.unwrap()@.tracks.len(),
                *self == *old(self),
                forall|j: int| 0 <= j < i ==> self.album.unwrap()@.tracks[j].youtube_id is Some,
            decreases len - i,
        {
            let needs = match &self.album {
                Option::Some(a) => a.tracks[i].youtube_id.is_none(),
                Option::None => false,
            };
            if needs {
                proof {
                    assert(self.album.unwrap()@.tracks[i as int].youtube_id is None);
                }
                self.retry = util::Retry::new(self.retries);
                self.phase = Phase::Uploading { next: i };
                return self.upload_action(i);
            }
            i = i + 1;
        }
        self.playlist_entry()
    }

    /// The upload request for one track: its title, description, tags and
    /// rendered video file.
    fn upload_action(&mut self, i: usize) -> (r: Result<Action, util::Error>)
        requires
            old(self).inv(),
            old(self).album is Some,
            i < old(self).album.unwrap()@.tracks.len(),
            old(self).phase matches Phase::Uploading { next } && next == i,
        ensures
            final(self).inv(),
            r matches Ok(a) ==> a is Upload && *final(self) == *old(self),
            r matches Ok(a) ==> (match a {
                Action::Upload { video } => spec_upload_request(
                    video,
                    old(self).album.unwrap()@,
                    i as int,
                    old(self).video_dir@,
                ),
                _ => false,
            }),
            final(self).album == old(self).album,
            r is Err ==> final(self).phase is Failed,
    {
        let album = match &self.album {
            Option::Some(a) => a,
            Option::None => {
                self.phase = Phase::Failed;
                assert(false);
                return Err(util::Error::new("No album loaded"));
            },
        };
        let description = match source::description(album, &album.tracks[i]) {
            Ok(d) => d,
            Err(e) => {
                self.phase = Phase::Failed;
                return Err(e);
            },
        };
        let video_basename = match &album.tracks[i].video_file {
            Option::Some(f) => f.clone(),
            Option::None => {
                self.phase = Phase::Failed;
                return Err(util::Error::new("Video file missing"));
            },
        };
        let mut title = album.tracks[i].artist.clone();
        title.append(" - ");
        title.append(album.tracks[i].title.as_str());
        let mut filename = album.dirname(self.video_dir.as_str());
        filename.append("/");
        filename.append(video_basename.as_str());
        let video = youtube::Video {
            title,
            description,
            tags: crate::model::clone_string_vec(&album.tags),
            filename,
        };
        proof {
            let a = old(self).album.unwrap()@;
            assert(video.title@ =~= a.tracks[i as int].artist.add(
                " - "@.add(a.tracks[i as int].title),
            ));
            assert(video.filename@ =~= crate::model::spec_dirname(a, old(self).video_dir@).add(
                "/"@.add(a.tracks[i as int].video_file.unwrap()),
            ));
        }
        Ok(Action::Upload { video })
    }

    /// Records one upload outcome.  Success stores the identifier on the
    /// track and persists immediately — the principal per-track idempotence
    /// point.  A retryable failure is retried after a sleep, up to the
    /// bound; anything else fails terminally.
    fn on_uploaded(&mut self, store: &mut Store, result: Result<youtube::VideoID, util::Error>)
        -> (r: Result<Action, util::Error>)
        requires
            old(self).inv(),
            old(self).phase matches Phase::Uploading { next },
            old(store).wf(),
        ensures
            final(self).inv(),
            final(store).wf(),
            final(store)@.queue == old(store)@.queue,
            final(store)@.artist_patterns == old(store)@.artist_patterns,
            final(store)@.label_patterns == old(store)@.label_patterns,
            (match (result, old(self).phase) {
                (Err(e), Phase::Uploading { next }) => {
                    &&& (e.retryable_spec() && old(self).retry.used_spec() < old(self).retry.max_spec() ==> final(store)@ == old(store)@ && (match r {
                        Ok(a) => a is SleepThenUpload && final(self).retry.used_spec() == old(self).retry.used_spec() + 1,
                        Err(_) => final(self).phase is Failed,
                    }))
                    &&& (!(e.retryable_spec() && old(self).retry.used_spec() < old(self).retry.max_spec()) ==> (r matches Err(e2)
                        && e2.msg_spec() == e.msg_spec() && e2.retryable_spec()
                        == e.retryable_spec()) && final(self).phase is Failed && final(store)@
                        == old(store)@)
                },
                _ => true,
            }),
            (match (result, old(self).phase) {
                (Ok(id), Phase::Uploading { next }) => {
                    &&& final(self).album is Some
                    &&& final(self).album.unwrap()@.tracks == old(self).album.unwrap()@.tracks.update(
                        next as int,
                        crate::model::TrackV {
                            youtube_id: Option::Some(id@),
                            ..old(self).album.unwrap()@.tracks[next as int]
                        },
                    )
                    &&& final(store)@.albums == crate::store::spec_save(
                        old(store)@.albums,
                        final(self).album.unwrap()@,
                    )
                    &&& (match r {
                        Ok(a) => {
                            &&& (a is Upload || a is CreatePlaylist || a is Done)
                            &&& (match a {
                                Action::Upload { video } => (match final(self).phase {
                                    Phase::Uploading { next: m } => {
                                        &&& final(self).album.unwrap()@.tracks[m as int].youtube_id is None
                                        &&& (forall|j: int|
                                            0 <= j < m ==> final(self).album.unwrap()@.tracks[j].youtube_id is Some)
                                        &&& spec_upload_request(
                                            video,
                                            final(self).album.unwrap()@,
                                            m as int,
                                            old(self).video_dir@,
                                        )
                                    },
                                    _ => false,
                                }),
                                _ => true,
                            })
                            &&& (crate::model::spec_all_have_video_id(
                                final(self).album.unwrap()@.tracks,
                            ) && final(self).album.unwrap()@.youtube_id is None ==> (match a {
                                Action::CreatePlaylist { playlist } => spec_playlist_request(
                                    playlist,
                                    final(self).album.unwrap()@,
                                ),
                                _ => false,
                            }))
                            &&& (crate::model::spec_all_have_video_id(
                                final(self).album.unwrap()@.tracks,
                            ) && final(self).album.unwrap()@.youtube_id is Some ==> a is Done)
                        },
                        Err(_) => true,
                    })
                },
                _ => true,
            }),
    {
        let i = match self.phase {
            Phase::Uploading { next } => next,
            _ => {
                assert(false);
                return Err(util::Error::new("Unexpected event"));
            },
        };
        match result {
            Err(e) => {
                if self.retry.should_retry(e.is_retryable()) {
                    self.upload_retry_action(i, e)
                } else {
                    self.phase = Phase::Failed;
                    Err(e)
                }
            },
            Ok(id) => {
                let album = match &mut self.album {
                    Option::Some(a) => a,
                    Option::None => {
                        assert(false);
                        return Err(util::Error::new("No album loaded"));
                    },
                };
                set_track_youtube_id(album, i, id);
                let snapshot = album.duplicate();
                match store.save(&snapshot) {
                    Err(e) => {
                        self.phase = Phase::Failed;
                        assert(false);
                        Err(e)
                    },
                    Ok(()) => self.upload_entry(),
                }
            },
        }
    }

    /// The backoff request after a retryable upload failure.
    fn upload_retry_action(&mut self, i: usize, cause: util::Error) -> (r: Result<
        Action,
        util::Error,
    >)
        requires
            old(self).inv(),
            old(self).album is Some,
            i < old(self).album.unwrap()@.tracks.len(),
            old(self).phase matches Phase::Uploading { next } && next == i,
        ensures
            final(self).inv(),
            r matches Ok(a) ==> a is SleepThenUpload && *final(self) == *old(self),
            r is Err ==> final(self).phase is Failed,
    {
        match self.upload_action(i) {
            Ok(Action::Upload { video }) => Ok(Action::SleepThenUpload { video }),
            Ok(_) => {
                self.phase = Phase::Failed;
                assert(false);
                Err(cause)
            },
            Err(e) => Err(e),
        }
    }

    /// Enters the playlist stage: once every track carries an identifier and
    /// the album none, the playlist is created; an album that already has
    /// one is done.
    fn playlist_entry(&mut self) -> (r: Result<Action, util::Error>)
        requires
            old(self).inv(),
            old(self).album is Some,
        ensures
            final(self).inv(),
            final(self).album == old(self).album,
            r is Ok,
            r matches Ok(a) ==> (a is CreatePlaylist || a is Done),
            old(self).album.unwrap()@.youtube_id is Some ==> (r matches Ok(a) && a is Done
                && final(self).phase is Done),
            r matches Ok(a) && a is CreatePlaylist ==> {
                &&& old(self).album.unwrap()@.youtube_id is None
                &&& crate::model::spec_all_have_video_id(old(self).album.unwrap()@.tracks)
                &&& final(self).phase is AwaitPlaylist
            },
            crate::model::spec_all_have_video_id(old(self).album.unwrap()@.tracks) && old(self).album.unwrap()@.youtube_id is None ==> (r matches Ok(a) && (match a {
                Action::CreatePlaylist { playlist } => spec_playlist_request(
                    playlist,
                    old(self).album.unwrap()@,
                ),
                _ => false,
            })),
    {
        let album = match &self.album {
            Option::Some(a) => a,
            Option::None => {
                assert(false);
                return Err(util::Error::new("No album loaded"));
            },
        };
        if album.youtube_id.is_some() {
            self.phase = Phase::Done;
            return Ok(Action::Done);
        }
        let mut videos: Vec<youtube::VideoID> = Vec::new();
        let mut i: usize = 0;
        while i < album.tracks.len()
            invariant
                i <= album.tracks.len(),
                videos.len() == i,
                *self == *old(self),
                old(self).inv(),
                old(self).album is Some,
                album == old(self).album.unwrap(),
                forall|j: int| 0 <= j < i ==> album@.tracks[j].youtube_id is Some,
                forall|j: int|
                    0 <= j < i ==> videos@[j]@ == album@.tracks[j].youtube_id.unwrap(),
            decreases album.tracks.len() - i,
        {
            match &album.tracks[i].youtube_id {
                Option::Some(id) => {
                    proof {
                        assert(album@.tracks[i as int].youtube_id is Some);
                    }
                    videos.push(id.duplicate());
                },
                Option::None => {
                    // Not every track is published; the playlist waits for a
                    // later run.
                    self.phase = Phase::Done;
                    return Ok(Action::Done);
                },
            }
            i = i + 1;
        }
        proof {
            assert(videos@.map_values(|v: youtube::VideoID| v@)
                =~= crate::model::spec_video_ids(album@.tracks));
        }
        let playlist = youtube::Playlist {
            title: youtube::playlist_title(&album.title, &album.artist, &album.year, &album.tags),
            description: String::new(),
            tags: crate::model::clone_string_vec(&album.tags),
            videos,
        };
        self.retry = util::Retry::new(self.retries);
        self.phase = Phase::AwaitPlaylist;
        Ok(Action::CreatePlaylist { playlist })
    }

    /// Records the playlist outcome: the identifier is stored on the album
    /// and persisted; a retryable failure is retried after a sleep, up to
    /// the bound.
    fn on_playlist_created(
        &mut self,
        store: &mut Store,
        result: Result<youtube::PlaylistID, util::Error>,
    ) -> (r: Result<Action, util::Error>)
        requires
            old(self).inv(),
            old(self).phase is AwaitPlaylist,
            old(store).wf(),
        ensures
            final(self).inv(),
            final(store).wf(),
            final(store)@.queue == old(store)@.queue,
            final(store)@.artist_patterns == old(store)@.artist_patterns,
            final(store)@.label_patterns == old(store)@.label_patterns,
            result matches Ok(id) ==> (match r {
                Ok(a) => a is Done && final(self).phase is Done
                    && final(self).album.unwrap()@.youtube_id == Option::Some(id@),
                Err(_) => false,
            }),
            result matches Ok(id) ==> final(store)@.albums == crate::store::spec_save(
                old(store)@.albums,
                final(self).album.unwrap()@,
            ) && final(store)@.queue == old(store)@.queue,
            (match result {
                Err(e) => {
                    &&& (e.retryable_spec() && old(self).retry.used_spec() < old(self).retry.max_spec() ==> final(store)@ == old(store)@ && (r matches Ok(a)
                        && a is SleepThenCreatePlaylist) && final(self).retry.used_spec() == old(self).retry.used_spec() + 1)
                    &&& (!(e.retryable_spec() && old(self).retry.used_spec() < old(self).retry.max_spec()) ==> (r matches Err(e2)
                        && e2.msg_spec() == e.msg_spec() && e2.retryable_spec()
                        == e.retryable_spec()) && final(self).phase is Failed && final(store)@
                        == old(store)@)
                },
                Ok(_) => true,
            }),
    {
        match result {
            Err(e) => {
                if self.retry.should_retry(e.is_retryable()) {
                    let album = match &self.album {
                        Option::Some(a) => a,
                        Option::None => {
                            assert(false);
                            return Err(util::Error::new("No album loaded"));
                        },
                    };
                    let playlist = youtube::Playlist {
                        title: youtube::playlist_title(
                            &album.title,
                            &album.artist,
                            &album.year,
                            &album.tags,
                        ),
                        description: String::new(),
                        tags: crate::model::clone_string_vec(&album.tags),
                        videos: collect_video_ids(album),
                    };
                    Ok(Action::SleepThenCreatePlaylist { playlist })
                } else {
                    self.phase = Phase::Failed;
                    Err(e)
                }
            },
            Ok(id) => {
                let album = match &mut self.album {
                    Option::Some(a) => a,
                    Option::None => {
                        assert(false);
                        return Err(util::Error::new("No album loaded"));
                    },
                };
                album.youtube_id = Option::Some(id);
                let snapshot = album.duplicate();
                match store.save(&snapshot) {
                    Err(e) => {
                        self.phase = Phase::Failed;
                        assert(false);
                        Err(e)
                    },
                    Ok(()) => {
                        self.phase = Phase::Done;
                        Ok(Action::Done)
                    },
                }
            },
        }
    }

    /// Feeds one event into the machine and yields the next action.  The
    /// contract pins, per event: what is persisted (and that the queue and
    /// the patterns are never touched), the license and exclusion gates with
    /// their terminal errors, the action that follows on the success path
    /// with its payload, the retry bound, and that collaborator failures
    /// pass through unchanged.  An event that does not fit the current phase
    /// is a configuration error.
    pub fn step(&mut self, store: &mut Store, event: Event) -> (r: Result<Action, util::Error>)
        requires
            old(self).inv(),
            old(store).wf(),
        ensures
            final(self).inv(),
            final(store).wf(),
            final(store)@.queue == old(store)@.queue,
            final(store)@.artist_patterns == old(store)@.artist_patterns,
            final(store)@.label_patterns == old(store)@.label_patterns,
            old(self).phase is Failed ==> r is Err && final(store)@ == old(store)@,
            old(self).phase is Done ==> r is Err && final(store)@ == old(store)@,
            (match event {
                Event::Start => old(self).phase is Start ==> {
                    &&& final(store)@ == old(store)@
                    &&& (crate::store::find_album(old(store)@.albums, old(self).url@) is None
                        && source::spec_ektoplazm_belongs(old(self).url@) ==> (r matches Ok(a)
                        && final(self).phase is AwaitFetch && (match a {
                        Action::Fetch { url, mp3_dir } => url@ == old(self).url@ && mp3_dir@
                            == old(self).mp3_dir@,
                        _ => false,
                    })))
                    &&& (crate::store::find_album(old(store)@.albums, old(self).url@) is None
                        && !source::spec_ektoplazm_belongs(old(self).url@) ==> (r matches Err(e)
                        && e.msg_spec() == "No source known for "@.add(old(self).url@)
                        && !e.retryable_spec()))
                    &&& ((match crate::store::find_album(old(store)@.albums, old(self).url@) {
                        Option::Some(a) => crate::model::spec_all_have_mp3(a.tracks),
                        Option::None => false,
                    }) ==> (r matches Ok(a) && a is CheckAudio
                        && final(self).phase is AwaitAudio))
                    &&& ((match crate::store::find_album(old(store)@.albums, old(self).url@) {
                        Option::Some(a) => !crate::model::spec_all_have_mp3(a.tracks),
                        Option::None => false,
                    }) && source::spec_ektoplazm_belongs(old(self).url@) ==> (r matches Ok(a)
                        && final(self).phase is AwaitFetch && (match a {
                        Action::Fetch { url, mp3_dir } => url@ == old(self).url@ && mp3_dir@
                            == old(self).mp3_dir@,
                        _ => false,
                    })))
                },
                Event::Fetched(res) => old(self).phase is AwaitFetch ==> {
                    &&& (res matches Ok(a) ==> final(store)@.albums == crate::store::spec_save(
                        old(store)@.albums,
                        spec_fetched_album(a@, old(self).album),
                    ))
                    &&& (res matches Ok(a) && a@.license is None ==> (r matches Err(e)
                        && e.msg_spec() == "No license"@ && !e.retryable_spec()) && final(self).phase is Failed)
                    &&& (res matches Ok(a) && a@.license is Some
                        && crate::store::spec_patterns_compile(old(store)@)
                        && crate::store::store_excludes(old(store)@, a@) ==> (r matches Err(e)
                        && e.msg_spec() == "Blacklisted"@ && !e.retryable_spec()) && final(self).phase is Failed)
                    &&& (res matches Ok(a) && a@.license is Some
                        && crate::store::spec_patterns_compile(old(store)@)
                        && !crate::store::store_excludes(old(store)@, a@)
                        && crate::model::spec_all_have_video(
                        spec_fetched_album(a@, old(self).album).tracks,
                    ) ==> (r matches Ok(act) && act is CheckVideo
                        && final(self).phase is AwaitVideoCheck))
                    &&& (match res {
                        Ok(a) => (a@.license is Some && crate::store::spec_patterns_compile(
                            old(store)@,
                        ) && !crate::store::store_excludes(old(store)@, a@)
                            && !crate::model::spec_all_have_video(
                            spec_fetched_album(a@, old(self).album).tracks,
                        ) && spec_fetched_album(a@, old(self).album).tracks.len() > 0) ==> (
                        r matches Ok(act) && final(self).phase is AwaitCover && (match act {
                            Action::FindCover { dir } => dir@ == crate::model::spec_dirname(
                                spec_fetched_album(a@, old(self).album),
                                old(self).mp3_dir@,
                            ),
                            _ => false,
                        })),
                        Err(_) => true,
                    })
                    &&& (match res {
                        Err(e) => r matches Err(e2) && e2.msg_spec() == e.msg_spec()
                            && e2.retryable_spec() == e.retryable_spec() && final(self).phase is Failed,
                        Ok(_) => true,
                    })
                },
                Event::AudioChecked(present) => old(self).phase is AwaitAudio ==> {
                    &&& (!present && source::spec_ektoplazm_belongs(old(self).url@) ==> (
                    r matches Ok(a) && final(self).phase is AwaitFetch && (match a {
                        Action::Fetch { url, mp3_dir } => url@ == old(self).url@ && mp3_dir@
                            == old(self).mp3_dir@,
                        _ => false,
                    })) && final(store)@ == old(store)@)
                    &&& (!present && !source::spec_ektoplazm_belongs(old(self).url@) ==> (
                    r matches Err(e) && e.msg_spec() == "No source known for "@.add(
                        old(self).url@,
                    ) && !e.retryable_spec()))
                    &&& (present ==> final(store)@.albums == crate::store::spec_save(
                        old(store)@.albums,
                        old(self).album.unwrap()@,
                    ))
                    &&& (present && old(self).album.unwrap()@.license is None ==> (
                    r matches Err(e) && e.msg_spec() == "No license"@ && !e.retryable_spec())
                        && final(self).phase is Failed)
                    &&& (present && old(self).album.unwrap()@.license is Some
                        && crate::store::spec_patterns_compile(old(store)@)
                        && crate::store::store_excludes(
                        old(store)@,
                        old(self).album.unwrap()@,
                    ) ==> (r matches Err(e) && e.msg_spec() == "Blacklisted"@
                        && !e.retryable_spec()) && final(self).phase is Failed)
                    &&& (present && old(self).album.unwrap()@.license is Some
                        && crate::store::spec_patterns_compile(old(store)@)
                        && !crate::store::store_excludes(
                        old(store)@,
                        old(self).album.unwrap()@,
                    ) && crate::model::spec_all_have_video(old(self).album.unwrap()@.tracks)
                        ==> (r matches Ok(act) && act is CheckVideo
                        && final(self).phase is AwaitVideoCheck))
                    &&& (present && old(self).album.unwrap()@.license is Some
                        && crate::store::spec_patterns_compile(old(store)@)
                        && !crate::store::store_excludes(
                        old(store)@,
                        old(self).album.unwrap()@,
                    ) && !crate::model::spec_all_have_video(old(self).album.unwrap()@.tracks)
                        && old(self).album.unwrap()@.tracks.len() > 0 ==> (r matches Ok(act)
                        && final(self).phase is AwaitCover && (match act {
                        Action::FindCover { dir } => dir@ == crate::model::spec_dirname(
                            old(self).album.unwrap()@,
                            old(self).mp3_dir@,
                        ),
                        _ => false,
                    })))
                },
                Event::VideoChecked(present) => old(self).phase is AwaitVideoCheck ==> {
                    &&& final(store)@ == old(store)@
                    &&& (present ==> (match r {
                        Ok(a) => a is Upload || a is CreatePlaylist || a is Done,
                        Err(_) => true,
                    }))
                    &&& (present ==> (match r {
                        Ok(a) => (match a {
                            Action::Upload { video } => (match final(self).phase {
                                Phase::Uploading { next } => {
                                    &&& old(self).album.unwrap()@.tracks[next as int].youtube_id is None
                                    &&& (forall|j: int|
                                        0 <= j < next ==> old(self).album.unwrap()@.tracks[j].youtube_id is Some)
                                    &&& spec_upload_request(
                                        video,
                                        old(self).album.unwrap()@,
                                        next as int,
                                        old(self).video_dir@,
                                    )
                                },
                                _ => false,
                            }),
                            _ => true,
                        }),
                        Err(_) => true,
                    }))
                    &&& (present && crate::model::spec_all_have_video_id(
                        old(self).album.unwrap()@.tracks,
                    ) && old(self).album.unwrap()@.youtube_id is Some ==> (r matches Ok(a)
                        && a is Done))
                    &&& (present && crate::model::spec_all_have_video_id(
                        old(self).album.unwrap()@.tracks,
                    ) && old(self).album.unwrap()@.youtube_id is None ==> (r matches Ok(a) && (
                    match a {
                        Action::CreatePlaylist { playlist } => spec_playlist_request(
                            playlist,
                            old(self).album.unwrap()@,
                        ),
                        _ => false,
                    })))
                    &&& (!present ==> (match r {
                        Ok(a) => (a is FindCover || a is Upload || a is CreatePlaylist
                            || a is Done) && (old(self).album.unwrap()@.tracks.len() > 0
                            ==> a is FindCover),
                        Err(_) => true,
                    }))
                },
                Event::CoverFound(res) => (old(self).phase is AwaitCover && old(self).album.unwrap()@.tracks.len() > 0) ==> {
                    &&& final(store)@ == old(store)@
                    &&& (res is Err ==> r is Err && final(self).phase is Failed)
                    &&& (match res {
                        Err(e) => r matches Err(e2) && e2.msg_spec() == e.msg_spec()
                            && e2.retryable_spec() == e.retryable_spec(),
                        Ok(_) => true,
                    })
                    &&& (match res {
                        Ok(c) => (match r {
                            Ok(a) => (final(self).phase matches Phase::Rendering {
                                next: 0usize,
                            }) && (match a {
                                Action::Render { audio, image, output } => spec_render_request(
                                    audio@,
                                    image@,
                                    output@,
                                    old(self).album.unwrap()@,
                                    0,
                                    old(self).mp3_dir@,
                                    old(self).video_dir@,
                                    c@,
                                ),
                                _ => false,
                            }),
                            Err(_) => final(self).phase is Failed,
                        }),
                        Err(_) => true,
                    })
                },
                Event::Rendered(res) => (match old(self).phase {
                    Phase::Rendering { next } => {
                        &&& (res is Err ==> r is Err && final(self).phase is Failed && final(store)@ == old(store)@)
                        &&& (match res {
                            Err(e) => r matches Err(e2) && e2.msg_spec() == e.msg_spec()
                                && e2.retryable_spec() == e.retryable_spec(),
                            Ok(_) => true,
                        })
                        &&& (res is Ok && old(self).album.unwrap()@.tracks[next as int].mp3_file is Some ==> {
                            &&& final(self).album is Some
                            &&& final(self).album.unwrap()@.tracks == old(self).album.unwrap()@.tracks.update(
                                next as int,
                                crate::model::TrackV {
                                    video_file: Option::Some(
                                        crate::video::spec_avi_name(
                                            old(self).album.unwrap()@.tracks[next as int].mp3_file.unwrap(),
                                        ),
                                    ),
                                    ..old(self).album.unwrap()@.tracks[next as int]
                                },
                            )
                            &&& (next + 1 < old(self).album.unwrap()@.tracks.len() ==> final(store)@ == old(store)@ && (match r {
                                Ok(a) => (match final(self).phase {
                                    Phase::Rendering { next: m } => m == next + 1,
                                    _ => false,
                                }) && (match a {
                                    Action::Render { audio, image, output } => spec_render_request(
                                        audio@,
                                        image@,
                                        output@,
                                        final(self).album.unwrap()@,
                                        next + 1,
                                        old(self).mp3_dir@,
                                        old(self).video_dir@,
                                        crate::model::opt_view(old(self).cover).unwrap(),
                                    ),
                                    _ => false,
                                }),
                                Err(_) => final(self).phase is Failed,
                            }))
                            &&& (next + 1 == old(self).album.unwrap()@.tracks.len() ==> final(store)@.albums == crate::store::spec_save(
                                old(store)@.albums,
                                final(self).album.unwrap()@,
                            ))
                            &&& (next + 1 == old(self).album.unwrap()@.tracks.len() ==> (
                            match r {
                                Ok(a) => {
                                    &&& (a is Upload || a is CreatePlaylist || a is Done)
                                    &&& (crate::model::spec_all_have_video_id(
                                        final(self).album.unwrap()@.tracks,
                                    ) && final(self).album.unwrap()@.youtube_id is None ==> (
                                    match a {
                                        Action::CreatePlaylist { playlist } => spec_playlist_request(
                                            playlist,
                                            final(self).album.unwrap()@,
                                        ),
                                        _ => false,
                                    }))
                                    &&& (crate::model::spec_all_have_video_id(
                                        final(self).album.unwrap()@.tracks,
                                    ) && final(self).album.unwrap()@.youtube_id is Some
                                        ==> a is Done)
                                },
                                Err(_) => true,
                            }))
                        })
                    },
                    _ => true,
                }),
                Event::Uploaded(res) => (match (res, old(self).phase) {
                    (Ok(id), Phase::Uploading { next }) => {
                        &&& final(self).album is Some
                        &&& final(self).album.unwrap()@.tracks == old(self).album.unwrap()@.tracks.update(
                            next as int,
                            crate::model::TrackV {
                                youtube_id: Option::Some(id@),
                                ..old(self).album.unwrap()@.tracks[next as int]
                            },
                        )
                        &&& final(store)@.albums == crate::store::spec_save(
                            old(store)@.albums,
                            final(self).album.unwrap()@,
                        )
                        &&& (match r {
                            Ok(a) => {
                                &&& (a is Upload || a is CreatePlaylist || a is Done)
                                &&& (match a {
                                    Action::Upload { video } => (match final(self).phase {
                                        Phase::Uploading { next: m } => {
                                            &&& final(self).album.unwrap()@.tracks[m as int].youtube_id is None
                                            &&& (forall|j: int|
                                                0 <= j < m ==> final(self).album.unwrap()@.tracks[j].youtube_id is Some)
                                            &&& spec_upload_request(
                                                video,
                                                final(self).album.unwrap()@,
                                                m as int,
                                                old(self).video_dir@,
                                            )
                                        },
                                        _ => false,
                                    }),
                                    _ => true,
                                })
                                &&& (crate::model::spec_all_have_video_id(
                                    final(self).album.unwrap()@.tracks,
                                ) && final(self).album.unwrap()@.youtube_id is None ==> (match a {
                                    Action::CreatePlaylist { playlist } => spec_playlist_request(
                                        playlist,
                                        final(self).album.unwrap()@,
                                    ),
                                    _ => false,
                                }))
                                &&& (crate::model::spec_all_have_video_id(
                                    final(self).album.unwrap()@.tracks,
                                ) && final(self).album.unwrap()@.youtube_id is Some ==> a is Done)
                            },
                            Err(_) => true,
                        })
                    },
                    (Err(e), Phase::Uploading { next }) => {
                        &&& (e.retryable_spec() && old(self).retry.used_spec() < old(self).retry.max_spec() ==> final(store)@ == old(store)@ && (match r {
                            Ok(a) => a is SleepThenUpload && final(self).retry.used_spec() == old(self).retry.used_spec() + 1,
                            Err(_) => final(self).phase is Failed,
                        }))
                        &&& (!(e.retryable_spec() && old(self).retry.used_spec() < old(self).retry.max_spec()) ==> (r matches Err(e2) && e2.msg_spec()
                            == e.msg_spec() && e2.retryable_spec() == e.retryable_spec())
                            && final(self).phase is Failed && final(store)@ == old(store)@)
                    },
                    _ => true,
                }),
                Event::PlaylistCreated(res) => (match (res, old(self).phase) {
                    (Ok(id), Phase::AwaitPlaylist) => (r matches Ok(a) && a is Done && final(self).phase is Done && final(self).album.unwrap()@.youtube_id == Option::Some(
                        id@,
                    )) && final(store)@.albums == crate::store::spec_save(
                        old(store)@.albums,
                        final(self).album.unwrap()@,
                    ),
                    (Err(e), Phase::AwaitPlaylist) => {
                        &&& (e.retryable_spec() && old(self).retry.used_spec() < old(self).retry.max_spec() ==> final(store)@ == old(store)@ && (r matches Ok(a)
                            && a is SleepThenCreatePlaylist))
                        &&& (!(e.retryable_spec() && old(self).retry.used_spec() < old(self).retry.max_spec()) ==> (r matches Err(e2) && e2.msg_spec()
                            == e.msg_spec() && e2.retryable_spec() == e.retryable_spec())
                            && final(self).phase is Failed && final(store)@ == old(store)@)
                    },
                    _ => true,
                }),
            }),
    {
        match event {
            Event::Start => {
                if matches!(self.phase, Phase::Start) {
                    self.start(store)
                } else {
                    Err(util::Error::new("Unexpected event"))
                }
            },
            Event::Fetched(result) => {
                if matches!(self.phase, Phase::AwaitFetch) {
                    self.on_fetched(store, result)
                } else {
                    Err(util::Error::new("Unexpected event"))
                }
            },
            Event::AudioChecked(present) => {
                if matches!(self.phase, Phase::AwaitAudio) {
                    self.on_audio_checked(store, present)
                } else {
                    Err(util::Error::new("Unexpected event"))
                }
            },
            Event::VideoChecked(present) => {
                let fits = matches!(self.phase, Phase::AwaitVideoCheck);
                if fits {
                    if present {
                        self.upload_entry()
                    } else {
                        let album = match &self.album {
                            Option::Some(a) => a.duplicate(),
                            Option::None => {
                                assert(false);
                                return Err(util::Error::new("No album loaded"));
                            },
                        };
                        self.request_cover(&album)
                    }
                } else {
                    Err(util::Error::new("Unexpected event"))
                }
            },
            Event::CoverFound(result) => {
                let fits = matches!(self.phase, Phase::AwaitCover);
                if fits {
                    let nonempty = match &self.album {
                        Option::Some(a) => a.tracks.len() > 0,
                        Option::None => false,
                    };
                    if nonempty {
                        self.on_cover_found(result)
                    } else {
                        Err(util::Error::new("Unexpected event"))
                    }
                } else {
                    Err(util::Error::new("Unexpected event"))
                }
            },
            Event::Rendered(result) => {
                if matches!(self.phase, Phase::Rendering { .. }) {
                    self.on_rendered(store, result)
                } else {
                    Err(util::Error::new("Unexpected event"))
                }
            },
            Event::Uploaded(result) => {
                if matches!(self.phase, Phase::Uploading { .. }) {
                    self.on_uploaded(store, result)
                } else {
                    Err(util::Error::new("Unexpected event"))
                }
            },
            Event::PlaylistCreated(result) => {
                if matches!(self.phase, Phase::AwaitPlaylist) {
                    self.on_playlist_created(store, result)
                } else {
                    Err(util::Error::new("Unexpected event"))
                }
            },
        }
    }
}

/// The album's video identifiers, in track order, as far as they are set.
fn collect_video_ids(album: &Album) -> (r: Vec<youtube::VideoID>) {
    let mut videos: Vec<youtube::VideoID> = Vec::new();
    let mut i: usize = 0;
    while i < album.tracks.len()
        invariant
            i <= album.tracks.len(),
        decreases album.tracks.len() - i,
    {
        match &album.tracks[i].youtube_id {
            Option::Some(id) => videos.push(id.duplicate()),
            Option::None => {},
        }
        i = i + 1;
    }
    videos
}

/// Sets one track's rendered video file name.
fn set_track_video_file(album: &mut Album, i: usize, f: String)
    requires
        i < old(album).tracks.len(),
    ensures
        final(album)@.tracks == old(album)@.tracks.update(
            i as int,
            crate::model::TrackV {
                video_file: Option::Some(f@),
                ..old(album)@.tracks[i as int]
            },
        ),
        final(album)@.url == old(album)@.url,
        final(album)@.artist == old(album)@.artist,
        final(album)@.title == old(album)@.title,
        final(album)@.license == old(album)@.license,
        final(album)@.year == old(album)@.year,
        final(album)@.labels == old(album)@.labels,
        final(album)@.tags == old(album)@.tags,
        final(album)@.youtube_id == old(album)@.youtube_id,
{
    let old_track = album.tracks[i].duplicate();
    let new_track = Track {
        artist: old_track.artist,
        title: old_track.title,
        bpm: old_track.bpm,
        mp3_file: old_track.mp3_file,
        video_file: Option::Some(f),
        youtube_id: old_track.youtube_id,
    };
    vstd::pervasive::VecAdditionalExecFns::set(&mut album.tracks, i, new_track);
    proof {
        assert(album@.tracks =~= old(album)@.tracks.update(
            i as int,
            crate::model::TrackV {
                video_file: album@.tracks[i as int].video_file,
                ..old(album)@.tracks[i as int]
            },
        ));
    }
}

/// Sets one track's provider video identifier.
fn set_track_youtube_id(album: &mut Album, i: usize, id: youtube::VideoID)
    requires
        i < old(album).tracks.len(),
    ensures
        final(album)@.tracks == old(album)@.tracks.update(
            i as int,
            crate::model::TrackV {
                youtube_id: Option::Some(id@),
                ..old(album)@.tracks[i as int]
            },
        ),
        final(album)@.url == old(album)@.url,
        final(album)@.artist == old(album)@.artist,
        final(album)@.title == old(album)@.title,
        final(album)@.license == old(album)@.license,
        final(album)@.year == old(album)@.year,
        final(album)@.labels == old(album)@.labels,
        final(album)@.tags == old(album)@.tags,
        final(album)@.youtube_id == old(album)@.youtube_id,
{
    let old_track = album.tracks[i].duplicate();
    let new_track = Track {
        artist: old_track.artist,
        title: old_track.title,
        bpm: old_track.bpm,
        mp3_file: old_track.mp3_file,
        video_file: old_track.video_file,
        youtube_id: Option::Some(id),
    };
    vstd::pervasive::VecAdditionalExecFns::set(&mut album.tracks, i, new_track);
    proof {
        assert(album@.tracks =~= old(album)@.tracks.update(
            i as int,
            crate::model::TrackV {
                youtube_id: album@.tracks[i as int].youtube_id,
                ..old(album)@.tracks[i as int]
            },
        ));
    }
}

/// The daemon's dispatch decision for one dequeued row: no row left is
/// terminal (not an error); only the "url" action tag is recognized; any
/// other tag is a configuration error for that item.
pub fn dispatch_entry(entry: Option<(String, String)>) -> (r: Result<
    Option<(String, String)>,
    util::Error,
>)
    ensures
        (match entry {
            Option::None => r matches Ok(o) && o is None,
            Option::Some(p) => {
                if p.0@ == "url"@ {
                    r matches Ok(o) && (match o {
                        Option::Some(q) => q.0@ == p.0@ && q.1@ == p.1@,
                        Option::None => false,
                    })
                } else {
                    r matches Err(e) && e.msg_spec() == "Unknown action "@.add(p.0@)
                        && !e.retryable_spec()
                }
            },
        }),
{
    match entry {
        Option::None => Ok(Option::None),
        Option::Some((action, url)) => {
            let url_tag = String::from_str("url");
            if action == url_tag {
                Ok(Option::Some((action, url)))
            } else {
                let msg = strutil::concat_str("Unknown action ", action.as_str());
                Err(util::Error::new(msg.as_str()))
            }
        },
    }
}

/// Takes the next unit of work off the queue: `None` when the queue is
/// drained (terminal, not an error); an entry whose action tag is not "url"
/// is a configuration error for that item.
pub fn dequeue_work(store: &Store) -> (r: Result<Option<(String, String)>, util::Error>)
    ensures
        (match crate::store::spec_queue_get(store@.queue) {
            Option::None => r matches Ok(o) && o is None,
            Option::Some(p) => {
                if p.0 == "url"@ {
                    r matches Ok(o) && (match o {
                        Option::Some(q) => q.0@ == p.0 && q.1@ == p.1,
                        Option::None => false,
                    })
                } else {
                    r is Err
                }
            },
        }),
{
    proof {
        reveal_strlit("url");
    }
    let entry = match store.queue_get() {
        Ok(o) => o,
        Err(e) => {
            assert(false);
            return Err(e);
        },
    };
    dispatch_entry(entry)
}

} // verus!
