//! The playlist sequencer: which track plays next, from the library or from a scheduled
//! program, and what happens at the end of a playlist.
use crate::schedule::{end_time, PlaylistCommand};
use vstd::prelude::*;

verus! {

/// The index that position `i` is swapped with in a shuffle seeded with `seed`.
pub open spec fn shuffle_partner(seed: u64, i: int) -> int {
    (seed.wrapping_add((i as u64).wrapping_mul(17)) as int) % (i + 1)
}

pub open spec fn swapped<T>(s: Seq<T>, i: int, j: int) -> Seq<T> {
    s.update(i, s[j]).update(j, s[i])
}

/// The order after swapping each position `i`, from `from` down to 1, with its partner.
pub open spec fn shuffled_from<T>(s: Seq<T>, seed: u64, from: int) -> Seq<T>
    decreases from,
{
    if from <= 0 || from >= s.len() {
        s
    } else {
        shuffled_from(swapped(s, from, shuffle_partner(seed, from)), seed, from - 1)
    }
}

/// A playlist shuffled with `seed`; not uniform, but a different seed gives another order.
pub open spec fn shuffled<T>(s: Seq<T>, seed: u64) -> Seq<T> {
    shuffled_from(s, seed, s.len() - 1)
}

/// Shuffles `playlist` in place with the swaps of a seeded Fisher-Yates pass.
pub fn shuffle_playlist(playlist: &mut Vec<String>, seed: u64)
    ensures
        final(playlist)@ == shuffled(old(playlist)@, seed),
{
    let n = playlist.len();
    if n < 2 {
        return ;
    }
    let mut i: usize = n - 1;
    while i > 0
        invariant
            n == playlist@.len(),
            n >= 2,
            i < n,
            shuffled_from(playlist@, seed, i as int) == shuffled(old(playlist)@, seed),
        decreases i,
    {
        let j = (seed.wrapping_add((i as u64).wrapping_mul(17)) % (i as u64 + 1)) as usize;
        let ghost before = playlist@;
        if i != j {
            let mut tmp = String::new();
            playlist.set_and_swap(i, &mut tmp);
            playlist.set_and_swap(j, &mut tmp);
            playlist.set_and_swap(i, &mut tmp);
            assert(playlist@ =~= swapped(before, i as int, j as int));
        } else {
            assert(swapped(before, i as int, j as int) =~= before);
        }
        i = i - 1;
    }
}

#[derive(Debug, Clone, Copy, PartialEq, Eq, Structural)]
pub enum PlaylistSource {
    Library,
    /// A scheduled program, until `end` (seconds since the epoch).
    Scheduled { end: i64 },
}

/// What the sequencer yields when asked for the next track.
pub enum NextTrack {
    Track(String),
    /// Nothing more to play.
    Finished,
    /// The scheduled program is over: reload the library with `return_to_library` and ask
    /// again.
    LibraryNeeded,
}

/// What handling a schedule command leaves for the caller to do.
pub enum CommandOutcome {
    /// The sequencer switched playlists.
    Applied,
    /// Reload the library's tracks and hand them to `return_to_library`.
    LibraryNeeded,
    /// Resolve a liveset for these genres, then play its URL with
    /// `switch_to_scheduled_playlist`.
    FetchLiveset { name: String, genres: Vec<String>, duration_secs: u64 },
}

pub struct AudioReader {
    library_shuffle: bool,
    library_repeat: bool,
    playlist: Vec<String>,
    current_index: usize,
    playlist_source: PlaylistSource,
}

impl AudioReader {
    pub closed spec fn tracks(&self) -> Seq<String> {
        self.playlist@
    }

    pub closed spec fn cursor(&self) -> nat {
        self.current_index as nat
    }

    pub closed spec fn source(&self) -> PlaylistSource {
        self.playlist_source
    }

    pub closed spec fn shuffle(&self) -> bool {
        self.library_shuffle
    }

    pub closed spec fn repeat(&self) -> bool {
        self.library_repeat
    }

    /// The cursor points into the playlist, or just past it once a non-repeating library
    /// playlist is exhausted.
    pub closed spec fn wf(&self) -> bool {
        ||| self.playlist@.len() == 0
        ||| self.current_index < self.playlist@.len()
        ||| (self.current_index == self.playlist@.len() && self.playlist_source
            == PlaylistSource::Library && !self.library_repeat)
    }

    /// A sequencer over the library's tracks, shuffled with `seed` if asked; fails when the
    /// library is empty.
    pub fn new(tracks: Vec<String>, shuffle: bool, repeat: bool, seed: u64) -> (r: Result<
        Self,
        String,
    >)
        ensures
            r is Err <==> tracks@.len() == 0,
            r matches Err(m) ==> m@ == "No tracks found in library database"@,
            r matches Ok(a) ==> {
                &&& a.wf()
                &&& a.tracks() == if shuffle {
                    shuffled(tracks@, seed)
                } else {
                    tracks@
                }
                &&& a.cursor() == 0
                &&& a.source() == PlaylistSource::Library
                &&& a.shuffle() == shuffle
                &&& a.repeat() == repeat
            },
    {
        if tracks.len() == 0 {
            return Err(String::from_str("No tracks found in library database"));
        }
        let mut playlist = tracks;
        if shuffle {
            shuffle_playlist(&mut playlist, seed);
        }
        Ok(
            AudioReader {
                library_shuffle: shuffle,
                library_repeat: repeat,
                playlist,
                current_index: 0,
                playlist_source: PlaylistSource::Library,
            },
        )
    }

    /// What `next_track` does, from state `s` to state `t`, yielding `r`.
    pub open spec fn next_outcome(
        s: AudioReader,
        t: AudioReader,
        r: NextTrack,
        now: i64,
        seed: u64,
    ) -> bool {
        let n = s.tracks().len();
        if n == 0 || s.cursor() >= n {
            r is Finished && t == s
        } else if s.cursor() + 1 < n {
            r matches NextTrack::Track(p) && p == s.tracks()[s.cursor() as int]
                && t.cursor() == s.cursor() + 1 && t.tracks() == s.tracks()
                && t.source() == s.source()
        } else {
            match s.source() {
                PlaylistSource::Library => {
                    &&& r matches NextTrack::Track(p) && p == s.tracks()[s.cursor() as int]
                    &&& t.source() == s.source()
                    &&& if s.repeat() {
                        &&& t.cursor() == 0
                        &&& t.tracks() == if s.shuffle() {
                            shuffled(s.tracks(), seed)
                        } else {
                            s.tracks()
                        }
                    } else {
                        t.cursor() == n && t.tracks() == s.tracks()
                    }
                },
                PlaylistSource::Scheduled { end } => if now >= end {
                    r is LibraryNeeded && t == s
                } else {
                    r matches NextTrack::Track(p) && p == s.tracks()[s.cursor() as int]
                        && t.cursor() == 0 && t.tracks() == s.tracks() && t.source()
                        == s.source()
                },
            }
        }
    }

    /// The track at the cursor, advancing it. At the end of the playlist a repeating library
    /// starts over (reshuffled with `seed` if shuffling), a non-repeating one is exhausted, a
    /// scheduled playlist wraps until its end time and then asks for the library.
    pub fn next_track(&mut self, now: i64, seed: u64) -> (r: NextTrack)
        requires
            old(self).wf(),
        ensures
            final(self).wf(),
            final(self).shuffle() == old(self).shuffle(),
            final(self).repeat() == old(self).repeat(),
            Self::next_outcome(*old(self), *final(self), r, now, seed),
    {
        let n = self.playlist.len();
        if n == 0 || self.current_index >= n {
            return NextTrack::Finished;
        }
        let idx = self.current_index;
        if idx + 1 < n {
            self.current_index = idx + 1;
            return NextTrack::Track(self.playlist[idx].clone());
        }
        match self.playlist_source {
            PlaylistSource::Library => {
                let track = self.playlist[idx].clone();
                if self.library_repeat {
                    self.current_index = 0;
                    if self.library_shuffle {
                        shuffle_playlist(&mut self.playlist, seed);
                    }
                } else {
                    self.current_index = n;
                }
                NextTrack::Track(track)
            },
            PlaylistSource::Scheduled { end } => {
                if now >= end {
                    NextTrack::LibraryNeeded
                } else {
                    self.current_index = 0;
                    NextTrack::Track(self.playlist[idx].clone())
                }
            },
        }
    }

    /// Plays `tracks` from the start until `duration_secs` after `now`.
    pub fn switch_to_scheduled_playlist(
        &mut self,
        tracks: Vec<String>,
        duration_secs: u64,
        now: i64,
    )
        ensures
            final(self).wf(),
            final(self).tracks() == tracks@,
            final(self).cursor() == 0,
            final(self).source() == (PlaylistSource::Scheduled {
                end: end_time(now, duration_secs),
            }),
            final(self).shuffle() == old(self).shuffle(),
            final(self).repeat() == old(self).repeat(),
    {
        let sum: i128 = now as i128 + duration_secs as i128;
        let end: i64 = if sum <= i64::MAX as i128 {
            sum as i64
        } else {
            i64::MAX
        };
        self.playlist = tracks;
        self.current_index = 0;
        self.playlist_source = PlaylistSource::Scheduled { end };
    }

    /// Goes back to the library's tracks (shuffled with `seed` if shuffling). With an empty
    /// library the playlist is left empty.
    pub fn return_to_library(&mut self, tracks: Vec<String>, seed: u64)
        ensures
            final(self).wf(),
            final(self).shuffle() == old(self).shuffle(),
            final(self).repeat() == old(self).repeat(),
            tracks@.len() > 0 ==> {
                &&& final(self).tracks() == if old(self).shuffle() {
                    shuffled(tracks@, seed)
                } else {
                    tracks@
                }
                &&& final(self).cursor() == 0
                &&& final(self).source() == PlaylistSource::Library
            },
            tracks@.len() == 0 ==> final(self).tracks().len() == 0 && final(self).source()
                == old(self).source(),
    {
        if tracks.len() > 0 {
            let mut playlist = tracks;
            if self.library_shuffle {
                shuffle_playlist(&mut playlist, seed);
            }
            self.playlist = playlist;
            self.current_index = 0;
            self.playlist_source = PlaylistSource::Library;
        } else {
            self.playlist = Vec::new();
        }
    }

    /// Handles a command of the schedule controller at `now`.
    pub fn handle_command(&mut self, command: PlaylistCommand, now: i64) -> (r: CommandOutcome)
        requires
            old(self).wf(),
        ensures
            final(self).wf(),
            final(self).shuffle() == old(self).shuffle(),
            final(self).repeat() == old(self).repeat(),
            match command {
                PlaylistCommand::SwitchToPlaylist { name, tracks, duration_secs } => {
                    &&& r is Applied
                    &&& final(self).tracks() == tracks@
                    &&& final(self).cursor() == 0
                    &&& final(self).source() == (PlaylistSource::Scheduled {
                        end: end_time(now, duration_secs),
                    })
                },
                PlaylistCommand::SwitchToLiveset { name, genres, duration_secs } => {
                    &&& r matches CommandOutcome::FetchLiveset { name: n, genres: g, duration_secs: d }
                        && n@ == name@ && g@ == genres@ && d == duration_secs
                    &&& *final(self) == *old(self)
                },
                PlaylistCommand::ReturnToLibrary => r is LibraryNeeded && *final(self) == *old(
                    self,
                ),
            },
    {
        match command {
            PlaylistCommand::SwitchToPlaylist { name, tracks, duration_secs } => {
                self.switch_to_scheduled_playlist(tracks, duration_secs, now);
                CommandOutcome::Applied
            },
            PlaylistCommand::SwitchToLiveset { name, genres, duration_secs } => {
                CommandOutcome::FetchLiveset { name, genres, duration_secs }
            },
            PlaylistCommand::ReturnToLibrary => CommandOutcome::LibraryNeeded,
        }
    }

    /// Whether the sequencer has nothing more to play and never will: a non-repeating
    /// library playlist that is used up.
    pub fn is_exhausted(&self) -> (r: bool)
        ensures
            r == (self.source() == PlaylistSource::Library && !self.repeat() && self.cursor()
                >= self.tracks().len()),
    {
        self.playlist_source == PlaylistSource::Library && !self.library_repeat
            && self.current_index >= self.playlist.len()
    }
}

/// A scheduled playlist of one track, switched to at `t0` for `d` seconds, plays that track
/// when asked before its end.
pub proof fn lemma_scheduled_track_plays(
    s: AudioReader,
    t: AudioReader,
    r: NextTrack,
    x: String,
    t0: i64,
    d: u64,
    now: i64,
    seed: u64,
)
    requires
        s.tracks() == seq![x],
        s.cursor() == 0,
        s.source() == (PlaylistSource::Scheduled { end: end_time(t0, d) }),
        t0 + d <= i64::MAX,
        now < t0 + d,
        AudioReader::next_outcome(s, t, r, now, seed),
    ensures
        r matches NextTrack::Track(p) && p == x,
{
}

} // verus!
