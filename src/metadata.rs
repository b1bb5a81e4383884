//! Metadata of the track that is playing, with fallbacks taken from its file name.
use vstd::prelude::*;

verus! {

/// What `Path::file_stem` gives for a path: the file name without its last extension.
pub uninterp spec fn file_stem_of(path: Seq<char>) -> Option<Seq<char>>;

/// Relies on std::path::Path::file_stem (and `OsStr::to_str`, which cannot fail on text that
/// came from a `&str`).
#[verifier::external_body]
pub(crate) fn file_stem(path: &str) -> (r: Option<String>)
    ensures
        match r {
            Some(s) => file_stem_of(path@) == Some(s@),
            None => file_stem_of(path@) is None,
        },
{
    match std::path::Path::new(path).file_stem() {
        Some(s) => s.to_str().map(|t| t.to_string()),
        None => None,
    }
}

pub open spec fn unknown_track() -> Seq<char> {
    "Unknown Track"@
}

pub open spec fn unknown_artist() -> Seq<char> {
    "Unknown Artist"@
}

pub open spec fn unknown_album() -> Seq<char> {
    "Unknown Album"@
}

/// Title shown for a file without a title tag: its stem, else "Unknown Track".
pub open spec fn title_from_path(path: Seq<char>) -> Seq<char> {
    match file_stem_of(path) {
        Some(s) => s,
        None => unknown_track(),
    }
}

pub open spec fn or_default(v: Option<String>, d: Seq<char>) -> Seq<char> {
    match v {
        Some(s) => s@,
        None => d,
    }
}

#[derive(Debug, Clone)]
pub struct TrackMetadata {
    pub title: String,
    pub artist: String,
    pub album: String,
    pub file_path: String,
}

impl TrackMetadata {
    /// Metadata from the tags read from a file; each missing tag falls back to the file
    /// name (title) or to "Unknown Artist" / "Unknown Album".
    pub fn from_tags(
        path: &str,
        title: Option<String>,
        artist: Option<String>,
        album: Option<String>,
    ) -> (r: Self)
        ensures
            r.title@ == match title {
                Some(t) => t@,
                None => title_from_path(path@),
            },
            r.artist@ == or_default(artist, unknown_artist()),
            r.album@ == or_default(album, unknown_album()),
            r.file_path@ == path@,
    {
        let title = match title {
            Some(t) => t,
            None => Self::default_title(path),
        };
        let artist = match artist {
            Some(a) => a,
            None => String::from_str("Unknown Artist"),
        };
        let album = match album {
            Some(a) => a,
            None => String::from_str("Unknown Album"),
        };
        TrackMetadata { title, artist, album, file_path: String::from_str(path) }
    }

    /// Metadata when the file has no readable tags.
    pub fn from_filename(path: &str) -> (r: Self)
        ensures
            r.title@ == title_from_path(path@),
            r.artist@ == unknown_artist(),
            r.album@ == unknown_album(),
            r.file_path@ == path@,
    {
        TrackMetadata {
            title: Self::default_title(path),
            artist: String::from_str("Unknown Artist"),
            album: String::from_str("Unknown Album"),
            file_path: String::from_str(path),
        }
    }

    /// The file stem of `path`, or "Unknown Track" when it has none.
    pub fn default_title(path: &str) -> (r: String)
        ensures
            r@ == title_from_path(path@),
    {
        match file_stem(path) {
            Some(s) => s,
            None => String::from_str("Unknown Track"),
        }
    }

    /// The ICY title line: `"Artist - Title"`.
    pub fn to_icy_metadata(&self) -> (r: String)
        ensures
            r@ == self.artist@ + " - "@ + self.title@,
    {
        let mut s = self.artist.clone();
        s.append(" - ");
        s.append(self.title.as_str());
        s
    }
}

impl Default for TrackMetadata {
    fn default() -> (r: Self)
        ensures
            r.title@ == unknown_track(),
            r.artist@ == unknown_artist(),
            r.album@ == unknown_album(),
            r.file_path@ == Seq::<char>::empty(),
    {
        TrackMetadata {
            title: String::from_str("Unknown Track"),
            artist: String::from_str("Unknown Artist"),
            album: String::from_str("Unknown Album"),
            file_path: String::new(),
        }
    }
}

} // verus!
