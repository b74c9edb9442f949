//! The album source: URL ownership, track descriptions, and the assembly of
//! an album from the tag data of its unpacked audio files.
//!
//! Downloading, unpacking and tag reading are collaborators outside this
//! library; they hand in plain values (`TagData`), and everything that
//! decides or formats is verified here.

use vstd::prelude::*;

use crate::model::{Album, AlbumV, Track, TrackV};
use crate::strutil;
use crate::util;

verus! {

/// A source site: whether a URL belongs to it, and how it words a track's
/// description.  The one built-in source is Ektoplazm; the trait anticipates
/// further sources.
pub trait Source {
    /// Whether this source owns the URL.
    spec fn spec_belongs(&self, url: Seq<char>) -> bool;

    /// The description text this source words for one track.
    spec fn spec_source_description(&self, album: AlbumV, track: TrackV) -> Seq<char>;

    fn belongs(&self, url: &str) -> (r: bool)
        ensures
            r == self.spec_belongs(url@),
    ;

    fn description(&self, album: &Album, track: &Track) -> (r: Result<String, util::Error>)
        ensures
            r matches Ok(s) ==> s@ == self.spec_source_description(album@, track@),
    ;
}

/// The Ektoplazm source site.
pub struct Ektoplazm {}

/// Whether a URL is an Ektoplazm free-music page.
pub open spec fn spec_ektoplazm_belongs(url: Seq<char>) -> bool {
    strutil::spec_starts_with(url, "https://ektoplazm.com/free-music/"@)
}

/// Position (plus one) of the first track equal to `t`, or 99 if absent —
/// the number printed into the track's description.
pub open spec fn first_track_index(tracks: Seq<TrackV>, t: TrackV) -> int
    decreases tracks.len(),
{
    if tracks.len() == 0 {
        -1
    } else if tracks[0] == t {
        0
    } else {
        let r = first_track_index(tracks.drop_first(), t);
        if r < 0 {
            -1
        } else {
            1 + r
        }
    }
}

/// The number shown for a track: its one-based position, or 99 when the
/// track is not in the list.
pub open spec fn spec_trackno(tracks: Seq<TrackV>, t: TrackV) -> nat {
    let i = first_track_index(tracks, t);
    if i >= 0 {
        (i + 1) as nat
    } else {
        99
    }
}

proof fn lemma_first_track_index(tracks: Seq<TrackV>, t: TrackV)
    ensures
        first_track_index(tracks, t) >= 0 ==> {
            let i = first_track_index(tracks, t);
            &&& 0 <= i < tracks.len()
            &&& tracks[i] == t
            &&& forall|j: int| 0 <= j < i ==> tracks[j] != t
        },
        first_track_index(tracks, t) < 0 ==> forall|j: int| 0 <= j < tracks.len() ==> tracks[j]
            != t,
    decreases tracks.len(),
{
    if tracks.len() > 0 {
        assert(forall|j: int| 1 <= j < tracks.len() ==> tracks[j] == tracks.drop_first()[j - 1]);
        if tracks[0] != t {
            lemma_first_track_index(tracks.drop_first(), t);
        }
    }
}

/// The description text published with a track's video.
pub open spec fn spec_description(a: crate::model::AlbumV, t: TrackV) -> Seq<char> {
    let head = "Download the full album from Ektoplazm: "@.add(a.url).add("\n"@);
    let artist = head.add("\nArtist: "@).add(t.artist);
    let track = artist.add("\nTrack: "@).add(t.title);
    let album_line = match a.year {
        Option::None => track.add("\nAlbum: "@).add(a.title),
        Option::Some(y) => track.add("\nAlbum: "@).add(a.title).add(" ("@).add(
            strutil::spec_dec(y as nat),
        ).add(")"@),
    };
    let number = album_line.add("\nTrack number: "@).add(
        strutil::spec_dec2(spec_trackno(a.tracks, t)),
    );
    let bpm = match t.bpm {
        Option::None => number,
        Option::Some(b) => number.add("\nBPM: "@).add(strutil::spec_dec(b as nat)),
    };
    let blank = bpm.add("\n"@);
    let tags = if a.tags.len() == 0 {
        blank
    } else {
        blank.add("\nTags: "@).add(strutil::spec_join(a.tags, ", "@))
    };
    let labels = if a.labels.len() == 0 {
        tags
    } else {
        tags.add("\nReleased by: "@).add(strutil::spec_join(a.labels, " & "@))
    };
    match a.license {
        Option::None => labels,
        Option::Some(l) => labels.add("\nLicense: "@).add(l),
    }
}

/// Builds the description published with one track's video.
pub fn ektoplazm_description(album: &Album, track: &Track) -> (r: String)
    ensures
        r@ == spec_description(album@, track@),
{
    let mut trackno: usize = 99;
    let mut i: usize = 0;
    let mut found = false;
    while i < album.tracks.len() && !found
        invariant
            i <= album.tracks.len(),
            !found ==> trackno == 99 && (forall|j: int| 0 <= j < i ==> album@.tracks[j] != track@),
            found ==> {
                &&& 0 < trackno <= album.tracks.len()
                &&& album@.tracks[trackno - 1] == track@
                &&& forall|j: int| 0 <= j < trackno - 1 ==> album@.tracks[j] != track@
            },
        decreases album.tracks.len() - i + (if found { 0int } else { 1int }),
    {
        if album.tracks[i].same_as(track) {
            trackno = i + 1;
            found = true;
        } else {
            i = i + 1;
        }
    }
    proof {
        lemma_first_track_index(album@.tracks, track@);
        if found {
            assert(first_track_index(album@.tracks, track@) == trackno - 1);
        } else {
            assert(first_track_index(album@.tracks, track@) < 0);
        }
        assert(spec_trackno(album@.tracks, track@) == trackno as nat);
    }
    let mut acc = String::from_str("Download the full album from Ektoplazm: ");
    acc.append(album.url.as_str());
    acc.append("\n");
    acc.append("\nArtist: ");
    acc.append(track.artist.as_str());
    acc.append("\nTrack: ");
    acc.append(track.title.as_str());
    acc.append("\nAlbum: ");
    acc.append(album.title.as_str());
    match &album.year {
        Option::None => {},
        Option::Some(y) => {
            acc.append(" (");
            let d = strutil::u64_string(*y as u64);
            acc.append(d.as_str());
            acc.append(")");
        },
    }
    acc.append("\nTrack number: ");
    let n = strutil::u64_string2(trackno as u64);
    acc.append(n.as_str());
    match &track.bpm {
        Option::None => {},
        Option::Some(b) => {
            acc.append("\nBPM: ");
            let d = strutil::u64_string(*b as u64);
            acc.append(d.as_str());
        },
    }
    acc.append("\n");
    if album.tags.len() > 0 {
        acc.append("\nTags: ");
        let j = strutil::join(&album.tags, ", ");
        acc.append(j.as_str());
    }
    if album.labels.len() > 0 {
        acc.append("\nReleased by: ");
        let j = strutil::join(&album.labels, " & ");
        acc.append(j.as_str());
    }
    match &album.license {
        Option::None => {},
        Option::Some(l) => {
            acc.append("\nLicense: ");
            acc.append(l.as_str());
        },
    }
    acc
}

impl Source for Ektoplazm {
    open spec fn spec_belongs(&self, url: Seq<char>) -> bool {
        spec_ektoplazm_belongs(url)
    }

    open spec fn spec_source_description(&self, album: AlbumV, track: TrackV) -> Seq<char> {
        spec_description(album, track)
    }

    fn belongs(&self, url: &str) -> (r: bool)
        ensures
            r == self.spec_belongs(url@),
    {
        strutil::starts_with(url, "https://ektoplazm.com/free-music/")
    }

    fn description(&self, album: &Album, track: &Track) -> (r: Result<String, util::Error>)
        ensures
            r matches Ok(s) ==> s@ == self.spec_source_description(album@, track@),
    {
        Ok(ektoplazm_description(album, track))
    }
}

/// Whether some registered source owns the URL.
pub fn known_source(url: &str) -> (r: bool)
    ensures
        r == spec_ektoplazm_belongs(url@),
{
    let ekto = Ektoplazm {};
    ekto.belongs(url)
}

/// The description for one track of an album, from the source that owns the
/// album's URL; an error if no registered source does.
pub fn description(album: &Album, track: &Track) -> (r: Result<String, util::Error>)
    ensures
        spec_ektoplazm_belongs(album@.url) ==> (r matches Ok(s) && s@ == spec_description(
            album@,
            track@,
        )),
        !spec_ektoplazm_belongs(album@.url) ==> (r matches Err(e) && e.msg_spec()
            == "No source known for "@.add(album@.url) && !e.retryable_spec()),
{
    if known_source(album.url.as_str()) {
        Ok(ektoplazm_description(album, track))
    } else {
        let msg = strutil::concat_str("No source known for ", album.url.as_str());
        Err(util::Error::new(msg.as_str()))
    }
}

/// The tag data of one audio file, as the ID3 reader hands it in.
#[derive(Debug)]
pub struct TagData {
    pub track_num: u32,
    pub artist: String,
    pub title: String,
    pub bpm: Option<u16>,
    pub file_name: String,
    pub album_artist: Option<String>,
    pub album: Option<String>,
    pub year: Option<u16>,
}

/// Mathematical view of one file's tag data.
pub ghost struct TagDataV {
    pub track_num: u32,
    pub artist: Seq<char>,
    pub title: Seq<char>,
    pub bpm: Option<u16>,
    pub file_name: Seq<char>,
    pub album_artist: Option<Seq<char>>,
    pub album: Option<Seq<char>>,
    pub year: Option<u16>,
}

impl DeepView for TagData {
    type V = TagDataV;

    open spec fn deep_view(&self) -> TagDataV {
        self.view()
    }
}

impl View for TagData {
    type V = TagDataV;

    open spec fn view(&self) -> TagDataV {
        TagDataV {
            track_num: self.track_num,
            artist: self.artist@,
            title: self.title@,
            bpm: self.bpm,
            file_name: self.file_name@,
            album_artist: crate::model::opt_view(self.album_artist),
            album: crate::model::opt_view(self.album),
            year: self.year,
        }
    }
}

/// The track a tag entry turns into.
pub open spec fn spec_track_of_tag(t: TagDataV) -> TrackV {
    TrackV {
        artist: t.artist,
        title: t.title,
        bpm: t.bpm,
        mp3_file: Option::Some(t.file_name),
        video_file: Option::None,
        youtube_id: Option::None,
    }
}

/// The first populated value in a sequence of optional strings.
pub open spec fn first_some(vals: Seq<Option<Seq<char>>>) -> Option<Seq<char>>
    decreases vals.len(),
{
    if vals.len() == 0 {
        Option::None
    } else if vals[0] is Some {
        vals[0]
    } else {
        first_some(vals.drop_first())
    }
}

/// Stable insertion of a numbered track, from the back: the new element
/// lands after every element with a key less than or equal to its own.
pub open spec fn spec_insert_track(s: Seq<(u32, TrackV)>, x: (u32, TrackV)) -> Seq<(u32, TrackV)>
    decreases s.len(),
{
    if s.len() == 0 {
        seq![x]
    } else if s.last().0 <= x.0 {
        s.push(x)
    } else {
        spec_insert_track(s.drop_last(), x).push(s.last())
    }
}

/// Stable sort of numbered tracks by their number.
pub open spec fn spec_sort_tracks(s: Seq<(u32, TrackV)>) -> Seq<(u32, TrackV)>
    decreases s.len(),
{
    if s.len() == 0 {
        Seq::empty()
    } else {
        spec_insert_track(spec_sort_tracks(s.drop_last()), s.last())
    }
}

/// The numbered-track views of the tag entries.
pub open spec fn spec_tag_pairs(tags: Seq<TagDataV>) -> Seq<(u32, TrackV)> {
    tags.map_values(|t: TagDataV| (t.track_num, spec_track_of_tag(t)))
}

/// The album title, artist, year and ordered track list assembled from the
/// tag data of the unpacked audio files, in the order the files were read:
///
/// - the title is the first populated album tag; with none, assembly fails;
/// - the artist is the first populated album-artist tag, except that the
///   marker "VA" (various artists) becomes absent;
/// - the year is the last file's year tag;
/// - the tracks are ordered by their track-number tag, stably.
pub fn album_from_tags(tags: &Vec<TagData>) -> (r: Result<
    (String, Option<String>, Option<u16>, Vec<Track>),
    util::Error,
>)
    ensures
        r is Ok <==> first_some(tags.deep_view().map_values(|t: TagDataV| t.album)) is Some,
        r matches Ok(out) ==> {
            &&& out.0@ == first_some(
                tags.deep_view().map_values(|t: TagDataV| t.album),
            ).unwrap()
            &&& crate::model::opt_view(out.1) == (
            if first_some(tags.deep_view().map_values(|t: TagDataV| t.album_artist))
                == Option::Some("VA"@) {
                Option::<Seq<char>>::None
            } else {
                first_some(tags.deep_view().map_values(|t: TagDataV| t.album_artist))
            })
            &&& out.2 == (if tags.len() == 0 {
                Option::<u16>::None
            } else {
                tags.deep_view().last().year
            })
            &&& crate::model::tracks_view(out.3@) == spec_sort_tracks(
                spec_tag_pairs(tags.deep_view()),
            ).map_values(|p: (u32, TrackV)| p.1)
        },
{
    proof {
        reveal_strlit("VA");
    }
    let ghost tv = tags.deep_view();
    let mut album_artist: Option<String> = Option::None;
    let mut album_title: Option<String> = Option::None;
    let mut album_year: Option<u16> = Option::None;
    let mut sorted: Vec<(u32, Track)> = Vec::new();

    let mut i: usize = 0;
    while i < tags.len()
        invariant
            i <= tags.len(),
            tv == tags.deep_view(),
            tv.len() == tags.len(),
            forall|j: int| 0 <= j < tags.len() ==> tv[j] == tags@[j]@,
            crate::model::opt_view(album_title) == first_some(
                tv.take(i as int).map_values(|t: TagDataV| t.album),
            ),
            crate::model::opt_view(album_artist) == first_some(
                tv.take(i as int).map_values(|t: TagDataV| t.album_artist),
            ),
            album_year == (if i == 0 {
                Option::<u16>::None
            } else {
                tv[i - 1].year
            }),
            sorted@.map_values(|p: (u32, Track)| (p.0, p.1@)) =~= spec_sort_tracks(
                spec_tag_pairs(tv.take(i as int)),
            ),
            forall|a: int, b: int|
                0 <= a <= b < sorted.len() ==> (#[trigger] sorted@[a]).0 <= (
                #[trigger] sorted@[b]).0,
        decreases tags.len() - i,
    {
        let tag = &tags[i];
        let tr = Track {
            artist: tag.artist.clone(),
            title: tag.title.clone(),
            bpm: tag.bpm,
            mp3_file: Option::Some(tag.file_name.clone()),
            video_file: Option::None,
            youtube_id: Option::None,
        };
        proof {
            assert(tr@ == spec_track_of_tag(tv[i as int]));
        }
        insert_sorted(&mut sorted, tag.track_num, tr);
        proof {
            assert(spec_tag_pairs(tv.take(i + 1)) =~= spec_tag_pairs(tv.take(i as int)).push(
                (tv[i as int].track_num, spec_track_of_tag(tv[i as int])),
            ));
            assert(spec_sort_tracks(spec_tag_pairs(tv.take(i + 1))) == spec_insert_track(
                spec_sort_tracks(spec_tag_pairs(tv.take(i as int))),
                (tv[i as int].track_num, spec_track_of_tag(tv[i as int])),
            )) by {
                let s = spec_tag_pairs(tv.take(i + 1));
                assert(s.drop_last() =~= spec_tag_pairs(tv.take(i as int)));
            }
        }
        if album_artist.is_none() {
            album_artist = crate::model::clone_opt_string(&tag.album_artist);
        }
        if album_title.is_none() {
            album_title = crate::model::clone_opt_string(&tag.album);
        }
        album_year = tag.year;
        proof {
            lemma_first_some_take_step(tv.map_values(|t: TagDataV| t.album), i as int);
            lemma_first_some_take_step(tv.map_values(|t: TagDataV| t.album_artist), i as int);
            assert(tv.take(i + 1).map_values(|t: TagDataV| t.album) =~= tv.map_values(
                |t: TagDataV| t.album,
            ).take(i + 1));
            assert(tv.take(i as int).map_values(|t: TagDataV| t.album) =~= tv.map_values(
                |t: TagDataV| t.album,
            ).take(i as int));
            assert(tv.take(i + 1).map_values(|t: TagDataV| t.album_artist) =~= tv.map_values(
                |t: TagDataV| t.album_artist,
            ).take(i + 1));
            assert(tv.take(i as int).map_values(|t: TagDataV| t.album_artist) =~= tv.map_values(
                |t: TagDataV| t.album_artist,
            ).take(i as int));
        }
        i = i + 1;
    }
    proof {
        assert(tv.take(tags.len() as int) =~= tv);
        assert(tv.take(tags.len() as int).map_values(|t: TagDataV| t.album) =~= tv.map_values(
            |t: TagDataV| t.album,
        ));
        assert(tv.take(tags.len() as int).map_values(|t: TagDataV| t.album_artist)
            =~= tv.map_values(|t: TagDataV| t.album_artist));
    }

    let va = String::from_str("VA");
    match &album_artist {
        Option::None => {},
        Option::Some(a) => {
            if *a == va {
                album_artist = Option::None;
            }
        },
    }

    let mut tracks: Vec<Track> = Vec::new();
    let mut k: usize = 0;
    while k < sorted.len()
        invariant
            k <= sorted.len(),
            tracks.len() == k,
            forall|j: int| 0 <= j < k ==> tracks@[j]@ == (#[trigger] sorted@[j]).1@,
        decreases sorted.len() - k,
    {
        tracks.push(sorted[k].1.duplicate());
        k = k + 1;
    }
    proof {
        assert(crate::model::tracks_view(tracks@) =~= sorted@.map_values(
            |p: (u32, Track)| (p.0, p.1@),
        ).map_values(|p: (u32, TrackV)| p.1));
    }

    match album_title {
        Option::None => Err(util::Error::new("Album artist cannot be determined")),
        Option::Some(t) => Ok((t, album_artist, album_year, tracks)),
    }
}

proof fn lemma_first_some_take_step(vals: Seq<Option<Seq<char>>>, i: int)
    requires
        0 <= i < vals.len(),
    ensures
        first_some(vals.take(i + 1)) == (if first_some(vals.take(i)) is Some {
            first_some(vals.take(i))
        } else {
            vals[i]
        }),
    decreases i,
{
    if i == 0 {
        assert(vals.take(0) =~= Seq::<Option<Seq<char>>>::empty());
        assert(vals.take(1) =~= seq![vals[0]]);
        assert(seq![vals[0]].drop_first() =~= Seq::<Option<Seq<char>>>::empty());
    } else {
        lemma_first_some_take_step(vals.drop_first(), i - 1);
        assert(vals.take(i + 1).drop_first() =~= vals.drop_first().take(i));
        assert(vals.take(i).drop_first() =~= vals.drop_first().take(i - 1));
        assert(vals.take(i + 1)[0] == vals[0]);
        assert(vals.take(i)[0] == vals[0]);
        assert(vals.drop_first()[i - 1] == vals[i]);
    }
}

/// Inserts a numbered track into a number-sorted vector, keeping it sorted;
/// the new element lands after every element with an equal number.
fn insert_sorted(sorted: &mut Vec<(u32, Track)>, num: u32, tr: Track)
    requires
        forall|a: int, b: int|
            0 <= a <= b < old(sorted).len() ==> (#[trigger] old(sorted)@[a]).0 <= (
            #[trigger] old(sorted)@[b]).0,
    ensures
        final(sorted)@.map_values(|p: (u32, Track)| (p.0, p.1@)) == spec_insert_track(
            old(sorted)@.map_values(|p: (u32, Track)| (p.0, p.1@)),
            (num, tr@),
        ),
        forall|a: int, b: int|
            0 <= a <= b < final(sorted).len() ==> (#[trigger] final(sorted)@[a]).0 <= (
            #[trigger] final(sorted)@[b]).0,
{
    let ghost orig = sorted@.map_values(|p: (u32, Track)| (p.0, p.1@));
    let mut j: usize = sorted.len();
    while j > 0 && sorted[j - 1].0 > num
        invariant
            j <= sorted.len(),
            *sorted == *old(sorted),
            forall|k: int| j <= k < sorted.len() ==> (#[trigger] sorted@[k]).0 > num,
        decreases j,
    {
        j = j - 1;
    }
    sorted.insert(j, (num, tr));
    proof {
        assert(forall|a: int, b: int|
            0 <= a <= b < old(sorted).len() ==> (#[trigger] old(sorted)@[a]).0 <= (
            #[trigger] old(sorted)@[b]).0);
        if j > 0 {
            assert((old(sorted)@[j - 1]).0 <= num);
        }
        lemma_insert_track_at(orig, (num, tr@), j as int);
        assert(sorted@.map_values(|p: (u32, Track)| (p.0, p.1@)) =~= orig.take(j as int).push(
            (num, tr@),
        ).add(orig.skip(j as int)));
        assert forall|a: int, b: int|
            0 <= a <= b < sorted.len() implies (#[trigger] sorted@[a]).0 <= (
        #[trigger] sorted@[b]).0 by {
            if a < j && b == j {
                assert((orig[a]).0 == (old(sorted)@[a]).0);
            } else if a == j && b > j {
            } else if a < j && b > j {
            }
        }
    }
}

/// Stable insertion at the found position equals the recursive insertion.
proof fn lemma_insert_track_at(s: Seq<(u32, TrackV)>, x: (u32, TrackV), j: int)
    requires
        0 <= j <= s.len(),
        forall|k: int| j <= k < s.len() ==> (#[trigger] s[k]).0 > x.0,
        j > 0 ==> (s[j - 1]).0 <= x.0,
    ensures
        spec_insert_track(s, x) == s.take(j).push(x).add(s.skip(j)),
    decreases s.len(),
{
    if j == s.len() {
        if s.len() == 0 {
            assert(spec_insert_track(s, x) =~= s.take(j).push(x).add(s.skip(j)));
        } else {
            assert(s.last().0 <= x.0);
            assert(spec_insert_track(s, x) == s.push(x));
            assert(s.take(j) =~= s);
            assert(s.skip(j) =~= Seq::<(u32, TrackV)>::empty());
            assert(spec_insert_track(s, x) =~= s.take(j).push(x).add(s.skip(j)));
        }
    } else {
        assert((s[s.len() - 1]).0 > x.0);
        assert(spec_insert_track(s, x) == spec_insert_track(s.drop_last(), x).push(s.last()));
        lemma_insert_track_at(s.drop_last(), x, j);
        assert(s.drop_last().take(j) =~= s.take(j));
        assert(spec_insert_track(s, x) =~= s.take(j).push(x).add(s.skip(j)));
    }
}

/// Walks the Ektoplazm free-music listing: which page to fetch next and the
/// URLs already fetched but not yet handed out.
pub struct EktoplazmScraper {
    next_page: u32,
    urls: Vec<String>,
}

impl EktoplazmScraper {
    /// The page the scraper will ask for next.
    pub closed spec fn next_page_spec(&self) -> u32 {
        self.next_page
    }

    /// The fetched URLs not yet handed out, oldest first.
    pub closed spec fn urls_spec(&self) -> Seq<Seq<char>> {
        self.urls.deep_view()
    }

    /// A scraper skipping roughly `offset` albums (five per listing page).
    pub fn from_offset(offset: u32) -> (s: EktoplazmScraper)
        ensures
            s.next_page_spec() == 1 + offset / 5,
            s.urls_spec() =~= Seq::<Seq<char>>::empty(),
    {
        EktoplazmScraper { next_page: 1 + offset / 5, urls: Vec::new() }
    }

    /// Whether the next page must be fetched before a URL can be handed out.
    pub fn needs_fetch(&self) -> (r: bool)
        ensures
            r == (self.urls_spec().len() == 0),
    {
        self.urls.len() == 0
    }

    /// The listing URL of the page to fetch next.
    pub fn next_list_url(&self) -> (r: String)
        ensures
            r@ == "https://ektoplazm.com/section/free-music/page/"@.add(
                strutil::spec_dec(self.next_page_spec() as nat),
            ),
    {
        let mut acc = String::from_str("https://ektoplazm.com/section/free-music/page/");
        let d = strutil::u64_string(self.next_page as u64);
        acc.append(d.as_str());
        acc
    }

    /// Records a fetched listing page: its album URLs replace the (empty)
    /// buffer and the page counter advances.
    pub fn supply_page(&mut self, urls: Vec<String>)
        requires
            old(self).next_page_spec() < u32::MAX,
        ensures
            final(self).next_page_spec() == old(self).next_page_spec() + 1,
            final(self).urls_spec() == urls.deep_view(),
    {
        self.urls = urls;
        self.next_page = self.next_page + 1;
    }

    /// Hands out the oldest buffered URL, if any.
    pub fn pop_url(&mut self) -> (r: Option<String>)
        ensures
            old(self).urls_spec().len() == 0 ==> r is None && *final(self) == *old(self),
            old(self).urls_spec().len() > 0 ==> {
                &&& r matches Some(u) && u@ == old(self).urls_spec()[0]
                &&& final(self).urls_spec() == old(self).urls_spec().drop_first()
                &&& final(self).next_page_spec() == old(self).next_page_spec()
            },
    {
        if self.urls.len() == 0 {
            Option::None
        } else {
            let u = self.urls.remove(0);
            proof {
                assert(final(self).urls_spec() =~= old(self).urls_spec().drop_first());
            }
            Option::Some(u)
        }
    }
}

} // verus!
