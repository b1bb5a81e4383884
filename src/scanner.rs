//! Library scanning: which files are audio, the record kept for each, and how an
//! incremental scan reconciles the files on disk with the stored tracks.
use crate::metadata::{file_stem, file_stem_of};
use crate::text::{strings, lower_of, lowercase, same_text};
use vstd::prelude::*;

verus! {

/// What `Path::extension` gives for a path: the text after the last `.` of the file name.
pub uninterp spec fn extension_of(path: Seq<char>) -> Option<Seq<char>>;

/// Relies on std::path::Path::extension (and `OsStr::to_str`, which cannot fail on text
/// that came from a `&str`).
#[verifier::external_body]
fn file_extension(path: &str) -> (r: Option<String>)
    ensures
        match r {
            Some(s) => extension_of(path@) == Some(s@),
            None => extension_of(path@) is None,
        },
{
    match std::path::Path::new(path).extension() {
        Some(s) => s.to_str().map(|t| t.to_string()),
        None => None,
    }
}

pub open spec fn is_audio_extension(e: Seq<char>) -> bool {
    e == "mp3"@ || e == "wav"@ || e == "flac"@ || e == "ogg"@ || e == "aac"@ || e == "m4a"@ || e
        == "opus"@ || e == "wma"@
}

/// A file whose extension, in lower case, is one of the audio extensions.
pub open spec fn is_audio_path(path: Seq<char>) -> bool {
    match extension_of(path) {
        Some(e) => is_audio_extension(lower_of(e)),
        None => false,
    }
}

/// Whether the scanner takes `path` for an audio file.
pub fn is_audio_file(path: &str) -> (r: bool)
    ensures
        r == is_audio_path(path@),
{
    match file_extension(path) {
        Some(e) => {
            let l = lowercase(e.as_str());
            is_audio_extension_text(l.as_str())
        },
        None => false,
    }
}

/// Whether an extension, already in lower case, is one of the audio extensions.
pub fn is_audio_extension_text(s: &str) -> (r: bool)
    ensures
        r == is_audio_extension(s@),
{
    same_text(s, "mp3") || same_text(s, "wav") || same_text(s, "flac") || same_text(s, "ogg")
        || same_text(s, "aac") || same_text(s, "m4a") || same_text(s, "opus") || same_text(
        s,
        "wma",
    )
}

/// A stored track.
#[derive(Debug, Clone)]
pub struct TrackRecord {
    pub id: Option<i64>,
    pub file_path: String,
    pub title: String,
    pub artist: String,
    pub album: String,
    pub duration_seconds: Option<i64>,
    pub file_size: i64,
    pub last_modified: i64,
    pub file_extension: String,
    pub created_at: i64,
    pub updated_at: i64,
}

pub open spec fn text_or(v: Option<String>, d: Seq<char>) -> Seq<char> {
    match v {
        Some(s) => s@,
        None => d,
    }
}

impl TrackRecord {
    /// The record of a scanned file: tags where present, else the file stem (or "Unknown")
    /// as title and "Unknown" as artist and album; the extension in lower case.
    pub fn from_scan(
        path: &str,
        file_size: i64,
        last_modified: i64,
        title: Option<String>,
        artist: Option<String>,
        album: Option<String>,
        now: i64,
    ) -> (r: Self)
        ensures
            r.id is None,
            r.file_path@ == path@,
            r.title@ == match title {
                Some(t) => t@,
                None => match file_stem_of(path@) {
                    Some(s) => s,
                    None => "Unknown"@,
                },
            },
            r.artist@ == text_or(artist, "Unknown"@),
            r.album@ == text_or(album, "Unknown"@),
            r.duration_seconds is None,
            r.file_size == file_size,
            r.last_modified == last_modified,
            r.file_extension@ == match extension_of(path@) {
                Some(e) => lower_of(e),
                None => Seq::<char>::empty(),
            },
            r.created_at == now,
            r.updated_at == now,
    {
        let title = match title {
            Some(t) => t,
            None => match file_stem(path) {
                Some(s) => s,
                None => String::from_str("Unknown"),
            },
        };
        let artist = match artist {
            Some(a) => a,
            None => String::from_str("Unknown"),
        };
        let album = match album {
            Some(a) => a,
            None => String::from_str("Unknown"),
        };
        let extension = match file_extension(path) {
            Some(e) => lowercase(e.as_str()),
            None => String::new(),
        };
        TrackRecord {
            id: None,
            file_path: String::from_str(path),
            title,
            artist,
            album,
            duration_seconds: None,
            file_size,
            last_modified,
            file_extension: extension,
            created_at: now,
            updated_at: now,
        }
    }
}

/// Counts and errors of a scan.
pub struct ScanResult {
    pub added: usize,
    pub updated: usize,
    pub deleted: usize,
    pub unchanged: usize,
    pub errors: Vec<String>,
}

/// A stored track's key: id, path, modification time.
pub type TrackKey = (i64, String, i64);

/// A file found on disk: its path and modification time (`None` when it could not be read).
pub type FoundFile = (String, Option<i64>);

/// Whether some stored key has this path.
pub open spec fn known(keys: Seq<TrackKey>, path: Seq<char>) -> bool {
    exists|k: int| 0 <= k < keys.len() && (#[trigger] keys[k]).1@ == path
}

/// The stored modification time for a path: that of the first key with it.
pub open spec fn stored_mtime(keys: Seq<TrackKey>, path: Seq<char>) -> i64
    decreases keys.len(),
{
    if keys.len() == 0 {
        0
    } else if keys[0].1@ == path {
        keys[0].2
    } else {
        stored_mtime(keys.drop_first(), path)
    }
}

/// Whether the walk found the file at `path` and read its modification time.
pub open spec fn seen(found: Seq<FoundFile>, path: Seq<char>) -> bool {
    exists|i: int| 0 <= i < found.len() && (#[trigger] found[i]).1 is Some && found[i].0@ == path
}

#[derive(Debug, Clone, Copy, PartialEq, Eq, Structural)]
pub enum FileChange {
    /// Its modification time could not be read.
    Unreadable,
    /// Not in the library yet.
    New,
    /// In the library with another modification time.
    Modified,
    /// In the library with the same modification time.
    Unchanged,
}

pub open spec fn change_of(keys: Seq<TrackKey>, f: FoundFile) -> FileChange {
    match f.1 {
        None => FileChange::Unreadable,
        Some(m) => if !known(keys, f.0@) {
            FileChange::New
        } else if stored_mtime(keys, f.0@) != m {
            FileChange::Modified
        } else {
            FileChange::Unchanged
        },
    }
}

/// Paths of the first `n` found files with the given change, in walk order.
pub open spec fn paths_with(keys: Seq<TrackKey>, found: Seq<FoundFile>, c: FileChange, n: int) -> Seq<
    Seq<char>,
>
    decreases n,
{
    if n <= 0 {
        Seq::empty()
    } else if change_of(keys, found[n - 1]) == c {
        paths_with(keys, found, c, n - 1).push(found[n - 1].0@)
    } else {
        paths_with(keys, found, c, n - 1)
    }
}

/// Paths of the first `n` stored keys whose file the walk did not see, in key order.
pub open spec fn vanished(keys: Seq<TrackKey>, found: Seq<FoundFile>, n: int) -> Seq<Seq<char>>
    decreases n,
{
    if n <= 0 {
        Seq::empty()
    } else if !seen(found, keys[n - 1].1@) {
        vanished(keys, found, n - 1).push(keys[n - 1].1@)
    } else {
        vanished(keys, found, n - 1)
    }
}

/// What an incremental scan has to do.
pub struct ScanPlan {
    /// Files to read and insert.
    pub to_add: Vec<String>,
    /// Files to read again and update.
    pub to_update: Vec<String>,
    /// Number of files left as they are.
    pub unchanged: usize,
    /// Stored tracks whose file is gone.
    pub to_delete: Vec<String>,
    /// Files whose modification time could not be read.
    pub unreadable: Vec<String>,
}

fn lookup(keys: &Vec<TrackKey>, path: &String) -> (r: Option<i64>)
    ensures
        r is Some <==> known(keys@, path@),
        r matches Some(m) ==> m == stored_mtime(keys@, path@),
{
    let mut k: usize = 0;
    assert(keys@.subrange(0, keys@.len() as int) =~= keys@);
    while k < keys.len()
        invariant
            k <= keys@.len(),
            forall|j: int| 0 <= j < k ==> (#[trigger] keys@[j]).1@ != path@,
            stored_mtime(keys@, path@) == stored_mtime(keys@.subrange(k as int, keys@.len() as int), path@),
        decreases keys@.len() - k,
    {
        let ghost rest = keys@.subrange(k as int, keys@.len() as int);
        if same_text(keys[k].1.as_str(), path.as_str()) {
            assert(rest[0] == keys@[k as int]);
            return Some(keys[k].2);
        }
        assert(rest.drop_first() =~= keys@.subrange(k + 1, keys@.len() as int));
        k = k + 1;
    }
    None
}

fn seen_exec(found: &Vec<FoundFile>, path: &String) -> (r: bool)
    ensures
        r == seen(found@, path@),
{
    let mut i: usize = 0;
    while i < found.len()
        invariant
            i <= found@.len(),
            forall|j: int| 0 <= j < i ==> !((#[trigger] found@[j]).1 is Some && found@[j].0@ == path@),
        decreases found@.len() - i,
    {
        if found[i].1.is_some() && same_text(found[i].0.as_str(), path.as_str()) {
            return true;
        }
        i = i + 1;
    }
    false
}

/// Reconciles the stored keys with the files found on disk: unknown files are added,
/// known files with another modification time are updated, and stored tracks whose file
/// was not seen are deleted.
pub fn plan_incremental(keys: &Vec<TrackKey>, found: &Vec<FoundFile>) -> (r: ScanPlan)
    ensures
        strings(r.to_add@) == paths_with(keys@, found@, FileChange::New, found@.len() as int),
        strings(r.to_update@) == paths_with(
            keys@,
            found@,
            FileChange::Modified,
            found@.len() as int,
        ),
        r.unchanged == paths_with(keys@, found@, FileChange::Unchanged, found@.len() as int).len(),
        strings(r.unreadable@) == paths_with(
            keys@,
            found@,
            FileChange::Unreadable,
            found@.len() as int,
        ),
        strings(r.to_delete@) == vanished(keys@, found@, keys@.len() as int),
{
    let mut to_add: Vec<String> = Vec::new();
    let mut to_update: Vec<String> = Vec::new();
    let mut unreadable: Vec<String> = Vec::new();
    let mut unchanged: usize = 0;
    let mut i: usize = 0;
    while i < found.len()
        invariant
            i <= found@.len(),
            strings(to_add@) == paths_with(keys@, found@, FileChange::New, i as int),
            strings(to_update@) == paths_with(keys@, found@, FileChange::Modified, i as int),
            strings(unreadable@) == paths_with(keys@, found@, FileChange::Unreadable, i as int),
            unchanged == paths_with(keys@, found@, FileChange::Unchanged, i as int).len(),
            unchanged <= i,
        decreases found@.len() - i,
    {
        let f = &found[i];
        match f.1 {
            None => {
                unreadable.push(f.0.clone());
                assert(strings(unreadable@) =~= paths_with(
                    keys@,
                    found@,
                    FileChange::Unreadable,
                    i as int,
                ).push(f.0@));
            },
            Some(m) => {
                match lookup(keys, &f.0) {
                    None => {
                        to_add.push(f.0.clone());
                        assert(strings(to_add@) =~= paths_with(
                            keys@,
                            found@,
                            FileChange::New,
                            i as int,
                        ).push(f.0@));
                    },
                    Some(stored) => {
                        if stored != m {
                            to_update.push(f.0.clone());
                            assert(strings(to_update@) =~= paths_with(
                                keys@,
                                found@,
                                FileChange::Modified,
                                i as int,
                            ).push(f.0@));
                        } else {
                            unchanged = unchanged + 1;
                        }
                    },
                }
            },
        }
        i = i + 1;
    }
    let mut to_delete: Vec<String> = Vec::new();
    let mut k: usize = 0;
    while k < keys.len()
        invariant
            k <= keys@.len(),
            strings(to_delete@) == vanished(keys@, found@, k as int),
        decreases keys@.len() - k,
    {
        if !seen_exec(found, &keys[k].1) {
            to_delete.push(keys[k].1.clone());
            assert(strings(to_delete@) =~= vanished(keys@, found@, k as int).push(keys@[k as int].1@));
        }
        k = k + 1;
    }
    ScanPlan { to_add, to_update, unchanged, to_delete, unreadable }
}

proof fn lemma_vanished_contains(keys: Seq<TrackKey>, found: Seq<FoundFile>, n: int, p: Seq<char>)
    requires
        0 <= n <= keys.len(),
    ensures
        vanished(keys, found, n).contains(p) <==> (exists|k: int|
            0 <= k < n && (#[trigger] keys[k]).1@ == p && !seen(found, p)),
    decreases n,
{
    if n > 0 {
        lemma_vanished_contains(keys, found, n - 1, p);
        let prev = vanished(keys, found, n - 1);
        if !seen(found, keys[n - 1].1@) {
            let x = keys[n - 1].1@;
            let q = prev.push(x);
            if q.contains(p) {
                let j = choose|j: int| 0 <= j < q.len() && #[trigger] q[j] == p;
                if j < prev.len() {
                    assert(prev[j] == p);
                }
            }
            if prev.contains(p) {
                let j = choose|j: int| 0 <= j < prev.len() && #[trigger] prev[j] == p;
                assert(q[j] == p);
            }
            if x == p {
                assert(q[prev.len() as int] == p);
            }
        }
    }
}

/// After an incremental scan, a stored track is deleted exactly when the walk did not see
/// its file; so every track that stays has its file on disk, and is either unchanged (same
/// modification time) or among the files to update.
pub proof fn lemma_scan_keeps_present_files(
    keys: Seq<TrackKey>,
    found: Seq<FoundFile>,
    k: int,
)
    requires
        0 <= k < keys.len(),
    ensures
        vanished(keys, found, keys.len() as int).contains(keys[k].1@) <==> !seen(
            found,
            keys[k].1@,
        ),
        forall|i: int|
            0 <= i < found.len() && found[i].0@ == keys[k].1@ && found[i].1 is Some ==> (
            #[trigger] change_of(keys, found[i]) == FileChange::Unchanged || change_of(
                keys,
                found[i],
            ) == FileChange::Modified),
{
    lemma_vanished_contains(keys, found, keys.len() as int, keys[k].1@);
    assert forall|i: int|
        0 <= i < found.len() && found[i].0@ == keys[k].1@ && found[i].1 is Some implies (
        #[trigger] change_of(keys, found[i]) == FileChange::Unchanged || change_of(
            keys,
            found[i],
        ) == FileChange::Modified) by {
        assert(known(keys, found[i].0@));
    }
}

} // verus!
