//! Run configuration: the selected action and the paths the pipeline works
//! under.  Command-line parsing and directory creation are the caller's
//! concern; the path arithmetic is verified here.

use vstd::prelude::*;

use crate::youtube;

verus! {

/// One invocation's action.
#[derive(Debug)]
pub enum Action {
    Help,
    Scrape(u32),
    YTUpload(youtube::Video),
    YTPlaylist(youtube::Playlist),
    Fetch(String),
    Video { input: String, image: String, output: String },
    URL(String),
    Status(String),
}

/// The run configuration: verbosity, the state directory, and the action.
#[derive(Debug)]
pub struct Config {
    pub verbose: usize,
    pub appdir: String,
    pub action: Action,
}

/// A file name under the state directory.
pub open spec fn spec_filename(appdir: Seq<char>, basename: Seq<char>) -> Seq<char> {
    appdir.add("/"@.add(basename))
}

impl Config {
    /// The path of a file directly under the state directory.
    pub fn filename(&self, basename: &str) -> (r: String)
        ensures
            r@ == spec_filename(self.appdir@, basename@),
    {
        let mut acc = self.appdir.clone();
        acc.append("/");
        acc.append(basename);
        proof {
            assert(acc@ =~= spec_filename(self.appdir@, basename@));
        }
        acc
    }

    /// The OAuth client-secret file.
    pub fn client_secret(&self) -> (r: String)
        ensures
            r@ == spec_filename(self.appdir@, "client_secret.json"@),
    {
        self.filename("client_secret.json")
    }

    /// The state database file.
    pub fn db_path(&self) -> (r: String)
        ensures
            r@ == spec_filename(self.appdir@, "state.sqlite3"@),
    {
        self.filename("state.sqlite3")
    }

    /// The directory the audio archives are unpacked under.
    pub fn mp3_dir(&self) -> (r: String)
        ensures
            r@ == spec_filename(self.appdir@, "mp3"@),
    {
        self.filename("mp3")
    }

    /// The directory the rendered videos are written under.
    pub fn video_dir(&self) -> (r: String)
        ensures
            r@ == spec_filename(self.appdir@, "video"@),
    {
        self.filename("video")
    }
}

} // verus!
