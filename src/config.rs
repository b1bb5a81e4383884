//! Station configuration and the rules an accepted configuration obeys.
use crate::text::{decimal, fmt_decimal, lower_of, lowercase, same_text};
use vstd::prelude::*;

verus! {

pub struct ServerConfig {
    pub port: u16,
    pub bind_address: String,
    pub ffmpeg_path: Option<String>,
}

pub struct LibraryConfig {
    pub music_directory: String,
    pub shuffle: bool,
    pub repeat: bool,
}

pub struct StationConfig {
    pub station_name: String,
    pub description: String,
    pub genre: String,
    pub url: String,
}

/// Configuration for one output stream.
///
/// Supported formats: mp3, aac, opus, ogg.
pub struct StreamConfig {
    pub bitrate: u32,
    pub format: String,
    pub sample_rate: u32,
    pub channels: u8,
    pub enabled: bool,
}

pub struct ScheduleConfig {
    pub programs: Vec<ScheduleProgram>,
}

pub struct ScheduleProgram {
    pub name: String,
    pub active: bool,
    pub cron: String,
    pub duration: String,
    pub program_type: Option<String>,
    pub playlist: Option<String>,
    pub genres: Option<Vec<String>>,
}

#[derive(Debug, Clone, Copy, PartialEq, Eq, Structural)]
pub enum ProgramType {
    Playlist,
    Liveset,
}

/// The whole configuration. Streams are kept as `(name, settings)` entries.
pub struct Config {
    pub server: ServerConfig,
    pub library: LibraryConfig,
    pub station: StationConfig,
    pub stream: Vec<(String, StreamConfig)>,
    pub schedule: Option<ScheduleConfig>,
}

pub open spec fn is_supported_format(f: Seq<char>) -> bool {
    f == "mp3"@ || f == "aac"@ || f == "opus"@ || f == "ogg"@
}

pub open spec fn is_supported_bitrate(b: u32) -> bool {
    32 <= b && b <= 320
}

pub open spec fn is_supported_sample_rate(r: u32) -> bool {
    r == 8000 || r == 11025 || r == 16000 || r == 22050 || r == 32000 || r == 44100 || r == 48000
}

pub open spec fn is_supported_channels(c: u8) -> bool {
    c == 1 || c == 2
}

pub open spec fn format_message(f: Seq<char>) -> Seq<char> {
    "Unsupported audio format '"@ + f + "'. Supported formats: mp3, aac, opus, ogg"@
}

pub open spec fn bitrate_message(b: u32) -> Seq<char> {
    "Bitrate "@ + decimal(b as nat) + " is out of range. Valid range: 32-320 kbps"@
}

pub open spec fn sample_rate_message(r: u32) -> Seq<char> {
    "Unsupported sample rate "@ + decimal(r as nat)
        + ". Valid rates: 8000, 11025, 16000, 22050, 32000, 44100, 48000"@
}

pub open spec fn channels_message(c: u8) -> Seq<char> {
    "Invalid channel count "@ + decimal(c as nat) + ". Valid values: 1 (mono) or 2 (stereo)"@
}

/// The first rule that a stream's settings break, given its format in lower case.
pub open spec fn stream_error_with(c: StreamConfig, lower_format: Seq<char>) -> Option<Seq<char>> {
    if !is_supported_format(lower_format) {
        Some(format_message(c.format@))
    } else if !is_supported_bitrate(c.bitrate) {
        Some(bitrate_message(c.bitrate))
    } else if !is_supported_sample_rate(c.sample_rate) {
        Some(sample_rate_message(c.sample_rate))
    } else if !is_supported_channels(c.channels) {
        Some(channels_message(c.channels))
    } else {
        None
    }
}

/// The first rule that a stream's settings break, as its message; `None` when valid.
pub open spec fn stream_error(c: StreamConfig) -> Option<Seq<char>> {
    stream_error_with(c, lower_of(c.format@))
}

pub open spec fn is_name_char(c: char) -> bool {
    ('a' <= c && c <= 'z') || ('A' <= c && c <= 'Z') || ('0' <= c && c <= '9') || c == '_' || c
        == '-'
}

/// A stream name: non-empty, made of ASCII letters, digits, `_` and `-`.
pub open spec fn is_valid_stream_name(name: Seq<char>) -> bool {
    name.len() > 0 && forall|i: int| 0 <= i < name.len() ==> is_name_char(#[trigger] name[i])
}

pub open spec fn empty_name_message() -> Seq<char> {
    "Stream name cannot be empty"@
}

pub open spec fn invalid_name_message(name: Seq<char>) -> Seq<char> {
    "Invalid stream name '"@ + name
        + "'. Stream names must contain only alphanumeric characters, underscores, or hyphens"@
}

pub open spec fn no_streams_message() -> Seq<char> {
    "No streams configured. At least one stream must be defined in [stream.NAME] section"@
}

pub open spec fn none_enabled_message() -> Seq<char> {
    "At least one stream must be enabled"@
}

/// The first rule that one named stream entry breaks, as its message.
pub open spec fn entry_error(name: Seq<char>, c: StreamConfig) -> Option<Seq<char>> {
    if name.len() == 0 {
        Some(empty_name_message())
    } else if !is_valid_stream_name(name) {
        Some(invalid_name_message(name))
    } else {
        match stream_error(c) {
            Some(e) => Some("Stream '"@ + name + "': "@ + e),
            None => None,
        }
    }
}

/// The error of the first entry that breaks a rule.
pub open spec fn first_entry_error(entries: Seq<(String, StreamConfig)>) -> Option<Seq<char>>
    decreases entries.len(),
{
    if entries.len() == 0 {
        None
    } else {
        match entry_error(entries[0].0@, entries[0].1) {
            Some(e) => Some(e),
            None => first_entry_error(entries.drop_first()),
        }
    }
}

/// Whether entry `j` repeats the name of an earlier entry.
pub open spec fn repeats_earlier(entries: Seq<(String, StreamConfig)>, j: int) -> bool {
    exists|i: int| 0 <= i < j && (#[trigger] entries[i]).0@ == entries[j].0@
}

/// The first entry, from `j` on, that repeats an earlier name.
pub open spec fn first_repeat_from(entries: Seq<(String, StreamConfig)>, j: int) -> Option<int>
    decreases entries.len() - j,
{
    if j < 0 || j >= entries.len() {
        None
    } else if repeats_earlier(entries, j) {
        Some(j)
    } else {
        first_repeat_from(entries, j + 1)
    }
}

pub open spec fn duplicate_name_message(name: Seq<char>) -> Seq<char> {
    "Duplicate stream name '"@ + name + "'"@
}

pub open spec fn any_enabled(entries: Seq<(String, StreamConfig)>) -> bool {
    exists|i: int| 0 <= i < entries.len() && (#[trigger] entries[i]).1.enabled
}

/// The error that validation reports for a configuration; `None` when it is accepted.
pub open spec fn config_error(c: Config) -> Option<Seq<char>> {
    if c.stream@.len() == 0 {
        Some(no_streams_message())
    } else {
        match first_entry_error(c.stream@) {
            Some(e) => Some(e),
            None => match first_repeat_from(c.stream@, 0) {
                Some(j) => Some(duplicate_name_message(c.stream@[j].0@)),
                None => if !any_enabled(c.stream@) {
                    Some(none_enabled_message())
                } else {
                    None
                },
            },
        }
    }
}

pub open spec fn program_type_of(t: Option<String>) -> ProgramType {
    match t {
        Some(s) => if s@ == "liveset"@ {
            ProgramType::Liveset
        } else {
            ProgramType::Playlist
        },
        None => ProgramType::Playlist,
    }
}

pub open spec fn missing_playlist_message() -> Seq<char> {
    "Playlist programs must specify a 'playlist' field"@
}

pub open spec fn missing_genres_message() -> Seq<char> {
    "Liveset programs must specify a 'genres' field (use empty array [] for all genres)"@
}

/// The error of a program's own fields; `None` when they fit its type.
pub open spec fn program_error(p: ScheduleProgram) -> Option<Seq<char>> {
    match program_type_of(p.program_type) {
        ProgramType::Playlist => if p.playlist is None {
            Some(missing_playlist_message())
        } else {
            None
        },
        ProgramType::Liveset => if p.genres is None {
            Some(missing_genres_message())
        } else {
            None
        },
    }
}

proof fn lemma_first_entry_error_skip(entries: Seq<(String, StreamConfig)>, i: int)
    requires
        0 <= i <= entries.len(),
        forall|j: int| 0 <= j < i ==> entry_error(entries[j].0@, entries[j].1) is None,
    ensures
        first_entry_error(entries) == first_entry_error(
            entries.subrange(i, entries.len() as int),
        ),
    decreases i,
{
    if i == 0 {
        assert(entries.subrange(0, entries.len() as int) =~= entries);
    } else {
        assert(entries.drop_first().subrange(i - 1, entries.len() - 1) =~= entries.subrange(
            i,
            entries.len() as int,
        ));
        assert forall|j: int| 0 <= j < i - 1 implies entry_error(
            entries.drop_first()[j].0@,
            entries.drop_first()[j].1,
        ) is None by {
            assert(entries.drop_first()[j] == entries[j + 1]);
        }
        lemma_first_entry_error_skip(entries.drop_first(), i - 1);
    }
}

/// Without a first error, no entry has an error.
proof fn lemma_no_first_entry_error(entries: Seq<(String, StreamConfig)>, i: int)
    requires
        first_entry_error(entries) is None,
        0 <= i < entries.len(),
    ensures
        entry_error(entries[i].0@, entries[i].1) is None,
    decreases i,
{
    if i > 0 {
        assert(entries.drop_first()[i - 1] == entries[i]);
        lemma_no_first_entry_error(entries.drop_first(), i - 1);
    }
}

proof fn lemma_no_repeat(entries: Seq<(String, StreamConfig)>, a: int, j: int)
    requires
        0 <= a <= j < entries.len(),
        first_repeat_from(entries, a) is None,
    ensures
        !repeats_earlier(entries, j),
    decreases j - a,
{
    if a < j {
        lemma_no_repeat(entries, a + 1, j);
    }
}

/// Every stream of an accepted configuration has a legal name, a supported format
/// (compared in lower case), a bitrate within 32..=320, a supported sample rate and one or
/// two channels; no two streams share a name; and at least one stream is enabled.
pub proof fn lemma_accepted_config_streams_valid(c: Config)
    requires
        config_error(c) is None,
    ensures
        any_enabled(c.stream@),
        forall|i: int, j: int|
            0 <= i < j < c.stream@.len() ==> (#[trigger] c.stream@[i]).0@ != (
            #[trigger] c.stream@[j]).0@,
        forall|i: int|
            0 <= i < c.stream@.len() ==> {
                let (name, s) = #[trigger] c.stream@[i];
                &&& is_valid_stream_name(name@)
                &&& is_supported_format(lower_of(s.format@))
                &&& is_supported_bitrate(s.bitrate)
                &&& is_supported_sample_rate(s.sample_rate)
                &&& is_supported_channels(s.channels)
            },
{
    assert forall|i: int| 0 <= i < c.stream@.len() implies {
        let (name, s) = #[trigger] c.stream@[i];
        &&& is_valid_stream_name(name@)
        &&& is_supported_format(lower_of(s.format@))
        &&& is_supported_bitrate(s.bitrate)
        &&& is_supported_sample_rate(s.sample_rate)
        &&& is_supported_channels(s.channels)
    } by {
        lemma_no_first_entry_error(c.stream@, i);
    }
    assert forall|i: int, j: int| 0 <= i < j < c.stream@.len() implies (
    #[trigger] c.stream@[i]).0@ != (#[trigger] c.stream@[j]).0@ by {
        lemma_no_repeat(c.stream@, 0, j);
    }
}

fn is_name_char_exec(c: char) -> (r: bool)
    ensures
        r == is_name_char(c),
{
    ('a' <= c && c <= 'z') || ('A' <= c && c <= 'Z') || ('0' <= c && c <= '9') || c == '_' || c
        == '-'
}

/// Whether `name` is a legal stream name.
pub fn valid_stream_name(name: &str) -> (r: bool)
    ensures
        r == is_valid_stream_name(name@),
{
    let n = name.unicode_len();
    if n == 0 {
        return false;
    }
    let mut i: usize = 0;
    while i < n
        invariant
            n == name@.len(),
            i <= n,
            forall|j: int| 0 <= j < i ==> is_name_char(#[trigger] name@[j]),
        decreases n - i,
    {
        if !is_name_char_exec(name.get_char(i)) {
            return false;
        }
        i = i + 1;
    }
    true
}

impl StreamConfig {
    /// Checks format, bitrate, sample rate and channel count, in that order.
    pub fn validate(&self) -> (r: Result<(), String>)
        ensures
            r is Ok <==> stream_error(*self) is None,
            r matches Err(e) ==> stream_error(*self) == Some(e@),
    {
        let lower = lowercase(self.format.as_str());
        self.check_settings(lower.as_str())
    }

    /// The checks of `validate`, given the format already in lower case.
    pub fn check_settings(&self, lower_format: &str) -> (r: Result<(), String>)
        ensures
            r is Ok <==> stream_error_with(*self, lower_format@) is None,
            r matches Err(e) ==> stream_error_with(*self, lower_format@) == Some(e@),
    {
        let known = same_text(lower_format, "mp3") || same_text(lower_format, "aac")
            || same_text(lower_format, "opus") || same_text(lower_format, "ogg");
        if !known {
            let mut m = String::from_str("Unsupported audio format '");
            m.append(self.format.as_str());
            m.append("'. Supported formats: mp3, aac, opus, ogg");
            return Err(m);
        }
        if self.bitrate < 32 || self.bitrate > 320 {
            let mut m = String::from_str("Bitrate ");
            m.append(fmt_decimal(self.bitrate as u64).as_str());
            m.append(" is out of range. Valid range: 32-320 kbps");
            return Err(m);
        }
        let sr = self.sample_rate;
        if !(sr == 8000 || sr == 11025 || sr == 16000 || sr == 22050 || sr == 32000 || sr == 44100
            || sr == 48000) {
            let mut m = String::from_str("Unsupported sample rate ");
            m.append(fmt_decimal(sr as u64).as_str());
            m.append(". Valid rates: 8000, 11025, 16000, 22050, 32000, 44100, 48000");
            return Err(m);
        }
        if self.channels != 1 && self.channels != 2 {
            let mut m = String::from_str("Invalid channel count ");
            m.append(fmt_decimal(self.channels as u64).as_str());
            m.append(". Valid values: 1 (mono) or 2 (stereo)");
            return Err(m);
        }
        Ok(())
    }
}

/// The error of one named stream entry, if any.
fn check_entry(name: &String, c: &StreamConfig) -> (r: Option<String>)
    ensures
        r matches Some(e) ==> entry_error(name@, *c) == Some(e@),
        r is None ==> entry_error(name@, *c) is None,
{
    if name.unicode_len() == 0 {
        return Some(String::from_str("Stream name cannot be empty"));
    }
    if !valid_stream_name(name.as_str()) {
        let mut m = String::from_str("Invalid stream name '");
        m.append(name.as_str());
        m.append(
            "'. Stream names must contain only alphanumeric characters, underscores, or hyphens",
        );
        return Some(m);
    }
    match c.validate() {
        Ok(()) => None,
        Err(e) => {
            let mut m = String::from_str("Stream '");
            m.append(name.as_str());
            m.append("': ");
            m.append(e.as_str());
            Some(m)
        },
    }
}

impl ScheduleProgram {
    /// The program's type; anything but `"liveset"` counts as a playlist program.
    pub fn get_type(&self) -> (r: ProgramType)
        ensures
            r == program_type_of(self.program_type),
    {
        match &self.program_type {
            Some(t) => {
                if same_text(t.as_str(), "liveset") {
                    ProgramType::Liveset
                } else {
                    ProgramType::Playlist
                }
            },
            None => ProgramType::Playlist,
        }
    }

    /// A playlist program needs a playlist path; a liveset program needs a genre list.
    pub fn validate(&self) -> (r: Result<(), String>)
        ensures
            r is Ok <==> program_error(*self) is None,
            r matches Err(e) ==> program_error(*self) == Some(e@),
    {
        match self.get_type() {
            ProgramType::Playlist => {
                if self.playlist.is_none() {
                    return Err(
                        String::from_str("Playlist programs must specify a 'playlist' field"),
                    );
                }
            },
            ProgramType::Liveset => {
                if self.genres.is_none() {
                    return Err(
                        String::from_str(
                            "Liveset programs must specify a 'genres' field (use empty array [] for all genres)",
                        ),
                    );
                }
            },
        }
        Ok(())
    }
}

impl Config {
    /// Checks that there is a stream, that every entry is legal, and that one is enabled.
    pub fn validate(&self) -> (r: Result<(), String>)
        ensures
            r is Ok <==> config_error(*self) is None,
            r matches Err(e) ==> config_error(*self) == Some(e@),
    {
        let n = self.stream.len();
        if n == 0 {
            return Err(
                String::from_str(
                    "No streams configured. At least one stream must be defined in [stream.NAME] section",
                ),
            );
        }
        let mut i: usize = 0;
        while i < n
            invariant
                n == self.stream@.len(),
                i <= n,
                forall|j: int|
                    0 <= j < i ==> entry_error(
                        (#[trigger] self.stream@[j]).0@,
                        self.stream@[j].1,
                    ) is None,
            decreases n - i,
        {
            let entry = &self.stream[i];
            match check_entry(&entry.0, &entry.1) {
                Some(e) => {
                    proof {
                        lemma_first_entry_error_skip(self.stream@, i as int);
                    }
                    return Err(e);
                },
                None => {},
            }
            i = i + 1;
        }
        proof {
            lemma_first_entry_error_skip(self.stream@, n as int);
            assert(self.stream@.subrange(n as int, n as int).len() == 0);
        }
        let mut j: usize = 0;
        while j < n
            invariant
                n == self.stream@.len(),
                j <= n,
                first_entry_error(self.stream@) is None,
                first_repeat_from(self.stream@, 0) == first_repeat_from(self.stream@, j as int),
            decreases n - j,
        {
            let mut i: usize = 0;
            while i < j
                invariant
                    n == self.stream@.len(),
                    i <= j < n,
                    first_entry_error(self.stream@) is None,
                    first_repeat_from(self.stream@, 0) == first_repeat_from(self.stream@, j as int),
                    forall|k: int| 0 <= k < i ==> (#[trigger] self.stream@[k]).0@
                        != self.stream@[j as int].0@,
                decreases j - i,
            {
                if same_text(self.stream[i].0.as_str(), self.stream[j].0.as_str()) {
                    assert(self.stream@[i as int].0@ == self.stream@[j as int].0@);
                    assert(repeats_earlier(self.stream@, j as int));
                    assert(first_repeat_from(self.stream@, 0) == Some(j as int));
                    let mut m = String::from_str("Duplicate stream name '");
                    m.append(self.stream[j].0.as_str());
                    m.append("'");
                    return Err(m);
                }
                i = i + 1;
            }
            assert(!repeats_earlier(self.stream@, j as int));
            j = j + 1;
        }
        assert(first_repeat_from(self.stream@, n as int) is None);
        let mut k: usize = 0;
        while k < n
            invariant
                n == self.stream@.len(),
                k <= n,
                forall|j: int| 0 <= j < k ==> !(#[trigger] self.stream@[j]).1.enabled,
                first_entry_error(self.stream@) is None,
                first_repeat_from(self.stream@, 0) is None,
            decreases n - k,
        {
            if self.stream[k].1.enabled {
                assert(self.stream@[k as int].1.enabled);
                return Ok(());
            }
            k = k + 1;
        }
        Err(String::from_str("At least one stream must be enabled"))
    }
}

impl Default for Config {
    fn default() -> (r: Self)
        ensures
            r.stream@.len() == 1,
            r.stream@[0].0@ == "default"@,
            r.stream@[0].1.bitrate == 128,
            r.stream@[0].1.format@ == "mp3"@,
            r.stream@[0].1.sample_rate == 44100,
            r.stream@[0].1.channels == 2,
            r.stream@[0].1.enabled,
            r.server.port == 8284,
            r.server.ffmpeg_path is None,
            r.library.shuffle && r.library.repeat,
            r.schedule is None,
    {
        let mut streams: Vec<(String, StreamConfig)> = Vec::new();
        streams.push(
            (
                String::from_str("default"),
                StreamConfig {
                    bitrate: 128,
                    format: String::from_str("mp3"),
                    sample_rate: 44100,
                    channels: 2,
                    enabled: true,
                },
            ),
        );
        Config {
            server: ServerConfig {
                port: 8284,
                bind_address: String::from_str("127.0.0.1"),
                ffmpeg_path: None,
            },
            library: LibraryConfig {
                music_directory: String::from_str("/path/to/music"),
                shuffle: true,
                repeat: true,
            },
            station: StationConfig {
                station_name: String::from_str("My Radio Station"),
                description: String::from_str("Great music 24/7"),
                genre: String::from_str("Various"),
                url: String::from_str("http://localhost:8000"),
            },
            stream: streams,
            schedule: None,
        }
    }
}

} // verus!
