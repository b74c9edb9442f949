//! The album/track data model and the exclusion filter.

use vstd::prelude::*;

use crate::rx::{regex_compiles, regex_match, Pattern};
use crate::strutil;
use crate::util;
use crate::youtube;

verus! {

/// Spec view of an optional album.
pub open spec fn opt_view_album(o: Option<Album>) -> Option<AlbumV> {
    match o {
        Option::None => Option::None,
        Option::Some(a) => Option::Some(a@),
    }
}

/// Spec view of an optional string.
pub open spec fn opt_view(o: Option<String>) -> Option<Seq<char>> {
    match o {
        Option::None => Option::None,
        Option::Some(s) => Option::Some(s@),
    }
}

/// Mathematical view of a track.
pub ghost struct TrackV {
    pub artist: Seq<char>,
    pub title: Seq<char>,
    pub bpm: Option<u16>,
    pub mp3_file: Option<Seq<char>>,
    pub video_file: Option<Seq<char>>,
    pub youtube_id: Option<Seq<char>>,
}

/// One audio item within an album, with its per-stage artifacts: the local
/// audio file, the rendered video file, and the provider's video identifier.
/// File names are relative to the album directory.
#[derive(Debug)]
pub struct Track {
    pub artist: String,
    pub title: String,
    pub bpm: Option<u16>,
    pub mp3_file: Option<String>,
    pub video_file: Option<String>,
    pub youtube_id: Option<youtube::VideoID>,
}

impl View for Track {
    type V = TrackV;

    open spec fn view(&self) -> TrackV {
        TrackV {
            artist: self.artist@,
            title: self.title@,
            bpm: self.bpm,
            mp3_file: opt_view(self.mp3_file),
            video_file: opt_view(self.video_file),
            youtube_id: match self.youtube_id {
                Option::None => Option::None,
                Option::Some(ref v) => Option::Some(v@),
            },
        }
    }
}

/// Duplicates an optional string.
pub fn clone_opt_string(o: &Option<String>) -> (r: Option<String>)
    ensures
        opt_view(r) == opt_view(*o),
{
    match o {
        Option::None => Option::None,
        Option::Some(s) => Option::Some(s.clone()),
    }
}

/// Duplicates a string vector.
pub fn clone_string_vec(v: &Vec<String>) -> (r: Vec<String>)
    ensures
        r.deep_view() == v.deep_view(),
{
    let mut out: Vec<String> = Vec::new();
    let mut i: usize = 0;
    while i < v.len()
        invariant
            i <= v.len(),
            out.len() == i,
            forall|j: int| 0 <= j < i ==> out.deep_view()[j] == v.deep_view()[j],
        decreases v.len() - i,
    {
        out.push(v[i].clone());
        i = i + 1;
    }
    proof {
        assert(out.deep_view() =~= v.deep_view());
    }
    out
}

impl Track {
    /// A field-for-field copy.
    pub fn duplicate(&self) -> (r: Track)
        ensures
            r@ == self@,
    {
        Track {
            artist: self.artist.clone(),
            title: self.title.clone(),
            bpm: self.bpm,
            mp3_file: clone_opt_string(&self.mp3_file),
            video_file: clone_opt_string(&self.video_file),
            youtube_id: match &self.youtube_id {
                Option::None => Option::None,
                Option::Some(v) => Option::Some(v.duplicate()),
            },
        }
    }

    /// Whether the two tracks agree field for field.
    pub fn same_as(&self, other: &Track) -> (r: bool)
        ensures
            r == (self@ == other@),
    {
        let artist_eq = self.artist == other.artist;
        let title_eq = self.title == other.title;
        let bpm_eq = match (&self.bpm, &other.bpm) {
            (Option::None, Option::None) => true,
            (Option::Some(a), Option::Some(b)) => *a == *b,
            _ => false,
        };
        let mp3_eq = match (&self.mp3_file, &other.mp3_file) {
            (Option::None, Option::None) => true,
            (Option::Some(a), Option::Some(b)) => *a == *b,
            _ => false,
        };
        let video_eq = match (&self.video_file, &other.video_file) {
            (Option::None, Option::None) => true,
            (Option::Some(a), Option::Some(b)) => *a == *b,
            _ => false,
        };
        let id_eq = match (&self.youtube_id, &other.youtube_id) {
            (Option::None, Option::None) => true,
            (Option::Some(a), Option::Some(b)) => a.0 == b.0,
            _ => false,
        };
        artist_eq && title_eq && bpm_eq && mp3_eq && video_eq && id_eq
    }
}

/// Spec view of a track vector.
pub open spec fn tracks_view(tracks: Seq<Track>) -> Seq<TrackV> {
    tracks.map_values(|t: Track| t@)
}

/// Mathematical view of an album.
pub ghost struct AlbumV {
    pub url: Seq<char>,
    pub artist: Option<Seq<char>>,
    pub title: Seq<char>,
    pub license: Option<Seq<char>>,
    pub year: Option<u16>,
    pub labels: Seq<Seq<char>>,
    pub tags: Seq<Seq<char>>,
    pub tracks: Seq<TrackV>,
    pub youtube_id: Option<Seq<char>>,
}

/// A release, keyed by its source URL, owning an ordered list of tracks.
/// `youtube_id` is the provider's playlist identifier, set only once every
/// track is published.
#[derive(Debug)]
pub struct Album {
    pub url: String,
    pub artist: Option<String>,
    pub title: String,
    pub license: Option<String>,
    pub year: Option<u16>,
    pub labels: Vec<String>,
    pub tags: Vec<String>,
    pub tracks: Vec<Track>,
    pub youtube_id: Option<youtube::PlaylistID>,
}

impl View for Album {
    type V = AlbumV;

    open spec fn view(&self) -> AlbumV {
        AlbumV {
            url: self.url@,
            artist: opt_view(self.artist),
            title: self.title@,
            license: opt_view(self.license),
            year: self.year,
            labels: self.labels.deep_view(),
            tags: self.tags.deep_view(),
            tracks: tracks_view(self.tracks@),
            youtube_id: match self.youtube_id {
                Option::None => Option::None,
                Option::Some(ref p) => Option::Some(p@),
            },
        }
    }
}

/// The directory that holds an album's files under `base_dir`: the artist
/// (or "VA"), `_-_`, and the title, spaces replaced by underscores.
pub open spec fn spec_dirname(a: AlbumV, base_dir: Seq<char>) -> Seq<char> {
    base_dir.add(
        "/"@.add(
            (match a.artist {
                Option::None => "VA"@,
                Option::Some(ar) => strutil::spec_underscored(ar),
            }).add("_-_"@.add(strutil::spec_underscored(a.title))),
        ),
    )
}

/// Whether every track records a local audio file.
pub open spec fn spec_all_have_mp3(tracks: Seq<TrackV>) -> bool {
    forall|i: int| 0 <= i < tracks.len() ==> tracks[i].mp3_file is Some
}

/// Whether every track records a rendered video file.
pub open spec fn spec_all_have_video(tracks: Seq<TrackV>) -> bool {
    forall|i: int| 0 <= i < tracks.len() ==> tracks[i].video_file is Some
}

/// Whether every track carries a provider video identifier.
pub open spec fn spec_all_have_video_id(tracks: Seq<TrackV>) -> bool {
    forall|i: int| 0 <= i < tracks.len() ==> tracks[i].youtube_id is Some
}

/// The tracks' provider video identifiers, in track order.
pub open spec fn spec_video_ids(tracks: Seq<TrackV>) -> Seq<Seq<char>> {
    tracks.map_values(|t: TrackV| t.youtube_id.unwrap())
}

impl Album {
    /// A field-for-field copy.
    pub fn duplicate(&self) -> (r: Album)
        ensures
            r@ == self@,
    {
        let mut tracks: Vec<Track> = Vec::new();
        let mut i: usize = 0;
        while i < self.tracks.len()
            invariant
                i <= self.tracks.len(),
                tracks.len() == i,
                forall|j: int| 0 <= j < i ==> tracks@[j]@ == self.tracks@[j]@,
            decreases self.tracks.len() - i,
        {
            tracks.push(self.tracks[i].duplicate());
            i = i + 1;
        }
        proof {
            assert(tracks_view(tracks@) =~= tracks_view(self.tracks@));
        }
        Album {
            url: self.url.clone(),
            artist: clone_opt_string(&self.artist),
            title: self.title.clone(),
            license: clone_opt_string(&self.license),
            year: self.year,
            labels: clone_string_vec(&self.labels),
            tags: clone_string_vec(&self.tags),
            tracks,
            youtube_id: match &self.youtube_id {
                Option::None => Option::None,
                Option::Some(p) => Option::Some(p.duplicate()),
            },
        }
    }

    /// The directory that holds this album's files under `base_dir`.
    pub fn dirname(&self, base_dir: &str) -> (r: String)
        ensures
            r@ == spec_dirname(self@, base_dir@),
    {
        let mut acc = base_dir.to_owned();
        acc.append("/");
        match &self.artist {
            Option::None => acc.append("VA"),
            Option::Some(a) => {
                let u = strutil::underscored(a.as_str());
                acc.append(u.as_str());
            },
        }
        acc.append("_-_");
        let t = strutil::underscored(self.title.as_str());
        acc.append(t.as_str());
        acc
    }

    /// Whether every track records a local audio file name.
    pub fn has_mp3(&self) -> (r: bool)
        ensures
            r == spec_all_have_mp3(self@.tracks),
    {
        let mut i: usize = 0;
        while i < self.tracks.len()
            invariant
                i <= self.tracks.len(),
                forall|j: int| 0 <= j < i ==> self@.tracks[j].mp3_file is Some,
            decreases self.tracks.len() - i,
        {
            if self.tracks[i].mp3_file.is_none() {
                proof {
                    assert(self@.tracks[i as int].mp3_file is None);
                }
                return false;
            }
            i = i + 1;
        }
        true
    }

    /// Whether every track records a rendered video file name.
    pub fn has_video(&self) -> (r: bool)
        ensures
            r == spec_all_have_video(self@.tracks),
    {
        let mut i: usize = 0;
        while i < self.tracks.len()
            invariant
                i <= self.tracks.len(),
                forall|j: int| 0 <= j < i ==> self@.tracks[j].video_file is Some,
            decreases self.tracks.len() - i,
        {
            if self.tracks[i].video_file.is_none() {
                proof {
                    assert(self@.tracks[i as int].video_file is None);
                }
                return false;
            }
            i = i + 1;
        }
        true
    }

    /// The on-disk paths of every track's audio file under `base_dir`, or
    /// `None` if some track records no audio file.
    pub fn audio_paths(&self, base_dir: &str) -> (r: Option<Vec<String>>)
        ensures
            r is Some <==> spec_all_have_mp3(self@.tracks),
            r matches Some(v) ==> {
                &&& v.len() == self@.tracks.len()
                &&& forall|i: int|
                    0 <= i < v.len() ==> v@[i]@ == spec_dirname(self@, base_dir@).add(
                        "/"@.add(self@.tracks[i].mp3_file.unwrap()),
                    )
            },
    {
        let dir = self.dirname(base_dir);
        let mut out: Vec<String> = Vec::new();
        let mut i: usize = 0;
        while i < self.tracks.len()
            invariant
                i <= self.tracks.len(),
                out.len() == i,
                dir@ == spec_dirname(self@, base_dir@),
                forall|j: int| 0 <= j < i ==> self@.tracks[j].mp3_file is Some,
                forall|j: int|
                    0 <= j < i ==> out@[j]@ == dir@.add(
                        "/"@.add(self@.tracks[j].mp3_file.unwrap()),
                    ),
            decreases self.tracks.len() - i,
        {
            match &self.tracks[i].mp3_file {
                Option::None => {
                    proof {
                        assert(self@.tracks[i as int].mp3_file is None);
                    }
                    return Option::None;
                },
                Option::Some(f) => {
                    let mut p = dir.clone();
                    p.append("/");
                    p.append(f.as_str());
                    proof {
                        assert(p@ =~= dir@.add("/"@.add(self@.tracks[i as int].mp3_file.unwrap())));
                    }
                    out.push(p);
                },
            }
            i = i + 1;
        }
        Option::Some(out)
    }

    /// The on-disk paths of every track's video file under `base_dir`, or
    /// `None` if some track records no video file.
    pub fn video_paths(&self, base_dir: &str) -> (r: Option<Vec<String>>)
        ensures
            r is Some <==> spec_all_have_video(self@.tracks),
            r matches Some(v) ==> {
                &&& v.len() == self@.tracks.len()
                &&& forall|i: int|
                    0 <= i < v.len() ==> v@[i]@ == spec_dirname(self@, base_dir@).add(
                        "/"@.add(self@.tracks[i].video_file.unwrap()),
                    )
            },
    {
        let dir = self.dirname(base_dir);
        let mut out: Vec<String> = Vec::new();
        let mut i: usize = 0;
        while i < self.tracks.len()
            invariant
                i <= self.tracks.len(),
                out.len() == i,
                dir@ == spec_dirname(self@, base_dir@),
                forall|j: int| 0 <= j < i ==> self@.tracks[j].video_file is Some,
                forall|j: int|
                    0 <= j < i ==> out@[j]@ == dir@.add(
                        "/"@.add(self@.tracks[j].video_file.unwrap()),
                    ),
            decreases self.tracks.len() - i,
        {
            match &self.tracks[i].video_file {
                Option::None => {
                    proof {
                        assert(self@.tracks[i as int].video_file is None);
                    }
                    return Option::None;
                },
                Option::Some(f) => {
                    let mut p = dir.clone();
                    p.append("/");
                    p.append(f.as_str());
                    proof {
                        assert(p@ =~= dir@.add(
                            "/"@.add(self@.tracks[i as int].video_file.unwrap()),
                        ));
                    }
                    out.push(p);
                },
            }
            i = i + 1;
        }
        Option::Some(out)
    }
}

/// One track of a re-fetched album, inheriting the stored provider video
/// identifier when the fresh track has none and still names the same artist
/// and title.
pub open spec fn spec_merge_track(new: TrackV, prior: TrackV) -> TrackV {
    if new.youtube_id is None && new.artist == prior.artist && new.title == prior.title {
        TrackV { youtube_id: prior.youtube_id, ..new }
    } else {
        new
    }
}

/// Merge-on-save: a re-fetched album keeps the stored record's
/// already-populated provider identifiers — the playlist identifier when
/// the fresh album has none, and each position-matched track's video
/// identifier — instead of blindly discarding them.  Every other field
/// comes from the fresh album.
pub open spec fn spec_merge(new: AlbumV, prior: AlbumV) -> AlbumV {
    AlbumV {
        youtube_id: if new.youtube_id is None {
            prior.youtube_id
        } else {
            new.youtube_id
        },
        tracks: Seq::new(
            new.tracks.len(),
            |i: int|
                if 0 <= i < prior.tracks.len() {
                    spec_merge_track(new.tracks[i], prior.tracks[i])
                } else {
                    new.tracks[i]
                },
        ),
        ..new
    }
}

impl Album {
    /// This album merged over a prior stored record: provider identifiers
    /// already populated in the prior record survive.
    pub fn merged_with(&self, prior: &Album) -> (r: Album)
        ensures
            r@ == spec_merge(self@, prior@),
    {
        let mut tracks: Vec<Track> = Vec::new();
        let mut i: usize = 0;
        while i < self.tracks.len()
            invariant
                i <= self.tracks.len(),
                tracks.len() == i,
                forall|j: int|
                    0 <= j < i ==> tracks@[j]@ == (if 0 <= j < prior@.tracks.len() {
                        spec_merge_track(self@.tracks[j], prior@.tracks[j])
                    } else {
                        self@.tracks[j]
                    }),
            decreases self.tracks.len() - i,
        {
            let mut t = self.tracks[i].duplicate();
            if i < prior.tracks.len() && t.youtube_id.is_none() && t.artist
                == prior.tracks[i].artist && t.title == prior.tracks[i].title {
                t.youtube_id = match &prior.tracks[i].youtube_id {
                    Option::None => Option::None,
                    Option::Some(v) => Option::Some(v.duplicate()),
                };
            }
            tracks.push(t);
            i = i + 1;
        }
        proof {
            assert(tracks_view(tracks@) =~= spec_merge(self@, prior@).tracks);
        }
        Album {
            url: self.url.clone(),
            artist: clone_opt_string(&self.artist),
            title: self.title.clone(),
            license: clone_opt_string(&self.license),
            year: self.year,
            labels: clone_string_vec(&self.labels),
            tags: clone_string_vec(&self.tags),
            tracks,
            youtube_id: match (&self.youtube_id, &prior.youtube_id) {
                (Option::None, Option::None) => Option::None,
                (Option::None, Option::Some(p)) => Option::Some(p.duplicate()),
                (Option::Some(p), _) => Option::Some(p.duplicate()),
            },
        }
    }
}

/// The pattern text wrapped so that it matches whole strings,
/// case-insensitively: `(?i)^` before, `$` after.
pub open spec fn spec_anchored(p: Seq<char>) -> Seq<char> {
    "(?i)^"@.add(p.add("$"@))
}

/// Whether every pattern, once anchored, compiles as a regex.
pub open spec fn spec_all_compile(patterns: Seq<Seq<char>>) -> bool {
    forall|i: int| 0 <= i < patterns.len() ==> regex_compiles(spec_anchored(#[trigger] patterns[i]))
}

/// Whether some pattern matches some candidate string.
pub open spec fn spec_any_match(pats: Seq<Seq<char>>, candidates: Seq<Seq<char>>) -> bool {
    exists|i: int, j: int|
        0 <= i < pats.len() && 0 <= j < candidates.len() && regex_match(pats[i], candidates[j])
}

/// The artist names of the album's tracks.
pub open spec fn spec_track_artists(tracks: Seq<TrackV>) -> Seq<Seq<char>> {
    tracks.map_values(|t: TrackV| t.artist)
}

/// The exclusion filter: compiled denylist patterns for artists and labels.
/// A pattern matches whole strings only, case-insensitively.
pub struct Blacklist {
    artists: Vec<Pattern>,
    labels: Vec<Pattern>,
}

impl Blacklist {
    /// The anchored artist pattern texts.
    pub closed spec fn artists_spec(&self) -> Seq<Seq<char>> {
        self.artists@.map_values(|p: Pattern| p.src_spec())
    }

    /// The anchored label pattern texts.
    pub closed spec fn labels_spec(&self) -> Seq<Seq<char>> {
        self.labels@.map_values(|p: Pattern| p.src_spec())
    }

    /// Compiles the denylists.  Each pattern is anchored to match whole
    /// strings, case-insensitively.  Malformed patterns fail here — exactly
    /// when some anchored pattern does not compile — never per match.
    pub fn new(artists: &Vec<String>, labels: &Vec<String>) -> (r: Result<
        Blacklist,
        util::Error,
    >)
        ensures
            r is Ok <==> spec_all_compile(artists.deep_view()) && spec_all_compile(
                labels.deep_view(),
            ),
            r matches Ok(b) ==> {
                &&& b.artists_spec().len() == artists.len()
                &&& forall|i: int|
                    0 <= i < artists.len() ==> b.artists_spec()[i] == spec_anchored(
                        artists.deep_view()[i],
                    )
                &&& b.labels_spec().len() == labels.len()
                &&& forall|i: int|
                    0 <= i < labels.len() ==> b.labels_spec()[i] == spec_anchored(
                        labels.deep_view()[i],
                    )
            },
    {
        let mut res = Blacklist { artists: Vec::new(), labels: Vec::new() };
        let mut i: usize = 0;
        while i < artists.len()
            invariant
                i <= artists.len(),
                res.artists@.len() == i,
                forall|j: int|
                    0 <= j < i ==> res.artists@.map_values(|p: Pattern| p.src_spec())[j]
                        == spec_anchored(artists.deep_view()[j]),
                forall|j: int| 0 <= j < i ==> regex_compiles(spec_anchored(artists.deep_view()[j])),
                res.labels@.len() == 0,
            decreases artists.len() - i,
        {
            let mut pat = String::from_str("(?i)^");
            pat.append(artists[i].as_str());
            pat.append("$");
            proof {
                assert(pat@ =~= spec_anchored(artists.deep_view()[i as int]));
            }
            match Pattern::compile(pat.as_str()) {
                Ok(p) => res.artists.push(p),
                Err(e) => {
                    proof {
                        assert(!regex_compiles(spec_anchored(artists.deep_view()[i as int])));
                    }
                    return Err(util::Error::new(e.as_str()));
                },
            }
            i = i + 1;
        }
        let mut i: usize = 0;
        while i < labels.len()
            invariant
                i <= labels.len(),
                res.labels@.len() == i,
                res.artists@.map_values(|p: Pattern| p.src_spec()).len() == artists.len(),
                forall|j: int|
                    0 <= j < artists.len() ==> res.artists@.map_values(|p: Pattern| p.src_spec())[j]
                        == spec_anchored(artists.deep_view()[j]),
                spec_all_compile(artists.deep_view()),
                forall|j: int|
                    0 <= j < i ==> res.labels@.map_values(|p: Pattern| p.src_spec())[j]
                        == spec_anchored(labels.deep_view()[j]),
                forall|j: int| 0 <= j < i ==> regex_compiles(spec_anchored(labels.deep_view()[j])),
            decreases labels.len() - i,
        {
            let mut pat = String::from_str("(?i)^");
            pat.append(labels[i].as_str());
            pat.append("$");
            proof {
                assert(pat@ =~= spec_anchored(labels.deep_view()[i as int]));
            }
            match Pattern::compile(pat.as_str()) {
                Ok(p) => res.labels.push(p),
                Err(e) => {
                    proof {
                        assert(!regex_compiles(spec_anchored(labels.deep_view()[i as int])));
                    }
                    return Err(util::Error::new(e.as_str()));
                },
            }
            i = i + 1;
        }
        Ok(res)
    }

    /// True iff some album label fully matches some label pattern, or some
    /// track artist fully matches some artist pattern.
    pub fn matches(&self, album: &Album) -> (r: bool)
        ensures
            r == (spec_any_match(self.labels_spec(), album@.labels) || spec_any_match(
                self.artists_spec(),
                spec_track_artists(album@.tracks),
            )),
    {
        let mut i: usize = 0;
        while i < self.labels.len()
            invariant
                i <= self.labels.len(),
                forall|a: int, b: int|
                    0 <= a < i && 0 <= b < album@.labels.len() ==> !regex_match(
                        self.labels_spec()[a],
                        album@.labels[b],
                    ),
            decreases self.labels.len() - i,
        {
            let mut j: usize = 0;
            while j < album.labels.len()
                invariant
                    i < self.labels.len(),
                    j <= album.labels.len(),
                    forall|b: int|
                        0 <= b < j ==> !regex_match(self.labels_spec()[i as int], album@.labels[b]),
                decreases album.labels.len() - j,
            {
                if self.labels[i].is_match(album.labels[j].as_str()) {
                    proof {
                        assert(regex_match(self.labels_spec()[i as int], album@.labels[j as int]));
                    }
                    return true;
                }
                j = j + 1;
            }
            i = i + 1;
        }
        let mut i: usize = 0;
        while i < self.artists.len()
            invariant
                i <= self.artists.len(),
                !spec_any_match(self.labels_spec(), album@.labels),
                forall|a: int, b: int|
                    0 <= a < i && 0 <= b < album@.tracks.len() ==> !regex_match(
                        self.artists_spec()[a],
                        spec_track_artists(album@.tracks)[b],
                    ),
            decreases self.artists.len() - i,
        {
            let mut j: usize = 0;
            while j < album.tracks.len()
                invariant
                    i < self.artists.len(),
                    j <= album.tracks.len(),
                    forall|b: int|
                        0 <= b < j ==> !regex_match(
                            self.artists_spec()[i as int],
                            spec_track_artists(album@.tracks)[b],
                        ),
                decreases album.tracks.len() - j,
            {
                if self.artists[i].is_match(album.tracks[j].artist.as_str()) {
                    proof {
                        assert(regex_match(
                            self.artists_spec()[i as int],
                            spec_track_artists(album@.tracks)[j as int],
                        ));
                    }
                    return true;
                }
                j = j + 1;
            }
            i = i + 1;
        }
        false
    }
}

} // verus!
