//! Provider-side value types: video and playlist identifiers and the
//! requests handed to the upload collaborator.

use vstd::prelude::*;

use crate::strutil;

verus! {

/// A provider-side failure message.
#[derive(Debug)]
pub struct Error {
    msg: String,
}

impl Error {
    pub closed spec fn msg_spec(&self) -> Seq<char> {
        self.msg@
    }

    pub fn new(msg: String) -> (e: Error)
        ensures
            e.msg_spec() == msg@,
    {
        Error { msg }
    }

    pub fn message(&self) -> (r: String)
        ensures
            r@ == self.msg_spec(),
    {
        self.msg.clone()
    }
}

/// Identifier of one published video.
#[derive(Debug)]
pub struct VideoID(pub String);

impl View for VideoID {
    type V = Seq<char>;

    open spec fn view(&self) -> Seq<char> {
        self.0@
    }
}

impl VideoID {
    /// The public watch URL of the video.
    pub fn as_url(&self) -> (r: String)
        ensures
            r@ == "https://www.youtube.com/watch?v="@.add(self@),
    {
        strutil::concat_str("https://www.youtube.com/watch?v=", self.0.as_str())
    }

    pub fn duplicate(&self) -> (r: VideoID)
        ensures
            r@ == self@,
    {
        VideoID(self.0.clone())
    }
}

/// Identifier of one published playlist.
#[derive(Debug)]
pub struct PlaylistID(pub String);

impl View for PlaylistID {
    type V = Seq<char>;

    open spec fn view(&self) -> Seq<char> {
        self.0@
    }
}

impl PlaylistID {
    /// The public URL of the playlist.
    pub fn as_url(&self) -> (r: String)
        ensures
            r@ == "https://www.youtube.com/playlist?list="@.add(self@),
    {
        strutil::concat_str("https://www.youtube.com/playlist?list=", self.0.as_str())
    }

    pub fn duplicate(&self) -> (r: PlaylistID)
        ensures
            r@ == self@,
    {
        PlaylistID(self.0.clone())
    }
}

/// An upload request for one video file.
#[derive(Debug)]
pub struct Video {
    pub title: String,
    pub description: String,
    pub tags: Vec<String>,
    pub filename: String,
}

/// A creation request for one playlist.
#[derive(Debug)]
pub struct Playlist {
    pub title: String,
    pub description: String,
    pub tags: Vec<String>,
    pub videos: Vec<VideoID>,
}

/// The playlist title built from album metadata: artist (or "VA"), a dash,
/// the title, then the year in parentheses when known, then the tags in
/// brackets when present.
pub open spec fn spec_playlist_title(
    title: Seq<char>,
    artist: Option<Seq<char>>,
    year: Option<u16>,
    tags: Seq<Seq<char>>,
) -> Seq<char> {
    let base = (match artist {
        Option::None => "VA"@,
        Option::Some(a) => a,
    }).add(" - "@.add(title));
    let with_year = match year {
        Option::None => base,
        Option::Some(y) => base.add(" ("@.add(strutil::spec_dec(y as nat).add(")"@))),
    };
    if tags.len() == 0 {
        with_year
    } else {
        with_year.add(" ["@.add(strutil::spec_join(tags, ", "@).add("]"@)))
    }
}

/// Builds the playlist title from album metadata.
pub fn playlist_title(
    title: &String,
    artist: &Option<String>,
    year: &Option<u16>,
    tags: &Vec<String>,
) -> (r: String)
    ensures
        r@ == spec_playlist_title(
            title@,
            match artist {
                Option::None => Option::None,
                Option::Some(a) => Option::Some(a@),
            },
            *year,
            tags.deep_view(),
        ),
{
    let mut acc = match artist {
        Option::None => String::from_str("VA"),
        Option::Some(a) => a.clone(),
    };
    acc.append(" - ");
    acc.append(title.as_str());
    match year {
        Option::None => {},
        Option::Some(y) => {
            acc.append(" (");
            let d = strutil::u64_string(*y as u64);
            acc.append(d.as_str());
            acc.append(")");
        },
    }
    if tags.len() > 0 {
        acc.append(" [");
        let j = strutil::join(tags, ", ");
        acc.append(j.as_str());
        acc.append("]");
    }
    acc
}

} // verus!
