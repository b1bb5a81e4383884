//! Settings of one transcoder child process and the command line it is started with.
use crate::text::{decimal, fmt_decimal, same_text, starts_with};
use vstd::prelude::*;

verus! {

/// The encoder that the transcoder uses for a container format.
pub open spec fn codec_for(format: Seq<char>) -> Seq<char> {
    if format == "mp3"@ {
        "libmp3lame"@
    } else if format == "opus"@ {
        "libopus"@
    } else if format == "aac"@ {
        "aac"@
    } else if format == "vorbis"@ || format == "ogg"@ {
        "libvorbis"@
    } else if format == "flac"@ {
        "flac"@
    } else {
        "libmp3lame"@
    }
}

pub open spec fn has_prefix(s: Seq<char>, p: Seq<char>) -> bool {
    p.len() <= s.len() && s.subrange(0, p.len() as int) == p
}

/// An input that the transcoder fetches itself, over HTTP or HTTPS.
pub open spec fn is_remote(input: Seq<char>) -> bool {
    has_prefix(input, "http://"@) || has_prefix(input, "https://"@)
}

/// Whether `input` is a URL rather than a local file.
pub fn is_remote_input(input: &str) -> (r: bool)
    ensures
        r == is_remote(input@),
{
    starts_with(input, "http://") || starts_with(input, "https://")
}

pub struct FFmpegProcessor {
    ffmpeg_path: String,
    sample_rate: u32,
    bitrate: u32,
    channels: u8,
    format: String,
}

impl FFmpegProcessor {
    pub closed spec fn binary(&self) -> Seq<char> {
        self.ffmpeg_path@
    }

    pub closed spec fn format_spec(&self) -> Seq<char> {
        self.format@
    }

    pub closed spec fn sample_rate_spec(&self) -> u32 {
        self.sample_rate
    }

    pub closed spec fn bitrate_spec(&self) -> u32 {
        self.bitrate
    }

    pub closed spec fn channels_spec(&self) -> u8 {
        self.channels
    }

    /// A transcoder for one stream; the binary defaults to `ffmpeg` on the search path.
    pub fn new(
        ffmpeg_path: Option<String>,
        sample_rate: u32,
        bitrate: u32,
        channels: u8,
        format: String,
    ) -> (r: Self)
        ensures
            r.binary() == match ffmpeg_path {
                Some(p) => p@,
                None => "ffmpeg"@,
            },
            r.sample_rate_spec() == sample_rate,
            r.bitrate_spec() == bitrate,
            r.channels_spec() == channels,
            r.format_spec() == format@,
    {
        let ffmpeg_path = match ffmpeg_path {
            Some(p) => p,
            None => String::from_str("ffmpeg"),
        };
        FFmpegProcessor { ffmpeg_path, sample_rate, bitrate, channels, format }
    }

    pub fn ffmpeg_path(&self) -> (r: &str)
        ensures
            r@ == self.binary(),
    {
        self.ffmpeg_path.as_str()
    }

    /// The encoder for `format`; an unknown format falls back to `libmp3lame`.
    pub fn get_codec_for_format(&self, format: &str) -> (r: &'static str)
        ensures
            r@ == codec_for(format@),
    {
        if same_text(format, "mp3") {
            "libmp3lame"
        } else if same_text(format, "opus") {
            "libopus"
        } else if same_text(format, "aac") {
            "aac"
        } else if same_text(format, "vorbis") || same_text(format, "ogg") {
            "libvorbis"
        } else if same_text(format, "flac") {
            "flac"
        } else {
            "libmp3lame"
        }
    }

    /// Arguments of the transcoder for one input: read it, encode it with the stream's
    /// settings, and write the result to standard output.
    pub fn command_args(&self, input: &str) -> (r: Vec<String>)
        ensures
            r@.map_values(|s: String| s@) == seq![
                "-i"@,
                input@,
                "-f"@,
                self.format_spec(),
                "-acodec"@,
                codec_for(self.format_spec()),
                "-ab"@,
                decimal(self.bitrate_spec() as nat) + "k"@,
                "-ar"@,
                decimal(self.sample_rate_spec() as nat),
                "-ac"@,
                decimal(self.channels_spec() as nat),
                "-loglevel"@,
                "error"@,
                "-"@,
            ],
    {
        let mut args: Vec<String> = Vec::new();
        args.push(String::from_str("-i"));
        args.push(String::from_str(input));
        args.push(String::from_str("-f"));
        args.push(self.format.clone());
        args.push(String::from_str("-acodec"));
        args.push(String::from_str(self.get_codec_for_format(self.format.as_str())));
        args.push(String::from_str("-ab"));
        let mut rate = fmt_decimal(self.bitrate as u64);
        rate.append("k");
        args.push(rate);
        args.push(String::from_str("-ar"));
        args.push(fmt_decimal(self.sample_rate as u64));
        args.push(String::from_str("-ac"));
        args.push(fmt_decimal(self.channels as u64));
        args.push(String::from_str("-loglevel"));
        args.push(String::from_str("error"));
        args.push(String::from_str("-"));
        assert(args@.map_values(|s: String| s@) =~= seq![
            "-i"@,
            input@,
            "-f"@,
            self.format@,
            "-acodec"@,
            codec_for(self.format@),
            "-ab"@,
            decimal(self.bitrate as nat) + "k"@,
            "-ar"@,
            decimal(self.sample_rate as nat),
            "-ac"@,
            decimal(self.channels as nat),
            "-loglevel"@,
            "error"@,
            "-"@,
        ]);
        args
    }
}

/// Milliseconds between two turns of a supervisor's loop, so that it never spins.
pub const SUPERVISOR_TICK_MS: u64 = 10;

/// What a supervisor observed on one turn of its loop.
#[derive(Debug, Clone, Copy, PartialEq, Eq, Structural)]
pub enum SupervisorEvent {
    /// No track is waiting and no child runs.
    NoTrack,
    /// A track is waiting.
    TrackReady,
    /// Starting the transcoder for the track failed.
    SpawnFailed,
    /// The child produced a chunk.
    Chunk,
    /// The child's output ended.
    Eof,
    /// Reading the child's output failed.
    ReadError,
    /// Whoever consumes the chunks has gone.
    ConsumerGone,
}

/// What the supervisor does about it.
#[derive(Debug, Clone, Copy, PartialEq, Eq, Structural)]
pub enum SupervisorAction {
    Wait,
    /// Start a transcoder child for the waiting track.
    Spawn,
    /// Give up on the track and go on with the next one.
    SkipTrack,
    /// Send the chunk on.
    Forward,
    /// Stop and reap the child; the next track follows on a later turn.
    ClearSlot,
    /// Stop the child and end the supervisor.
    Stop,
}

/// The supervisor's rules: a child is started only into an empty slot; a failed start skips
/// the track; the slot is cleared at the end of the output or on a read error; the
/// supervisor ends when its consumer is gone. The first component says whether a child
/// runs afterwards.
pub open spec fn supervisor_rule(child_running: bool, event: SupervisorEvent) -> (
    bool,
    SupervisorAction,
) {
    match event {
        SupervisorEvent::NoTrack => (child_running, SupervisorAction::Wait),
        SupervisorEvent::TrackReady => if child_running {
            (true, SupervisorAction::Wait)
        } else {
            (true, SupervisorAction::Spawn)
        },
        SupervisorEvent::SpawnFailed => (false, SupervisorAction::SkipTrack),
        SupervisorEvent::Chunk => if child_running {
            (true, SupervisorAction::Forward)
        } else {
            (false, SupervisorAction::Wait)
        },
        SupervisorEvent::Eof => (false, SupervisorAction::ClearSlot),
        SupervisorEvent::ReadError => (false, SupervisorAction::ClearSlot),
        SupervisorEvent::ConsumerGone => (false, SupervisorAction::Stop),
    }
}

/// One decision of a transcoder supervisor.
pub fn supervisor_step(child_running: bool, event: SupervisorEvent) -> (r: (bool, SupervisorAction))
    ensures
        r == supervisor_rule(child_running, event),
{
    match event {
        SupervisorEvent::NoTrack => (child_running, SupervisorAction::Wait),
        SupervisorEvent::TrackReady => {
            if child_running {
                (true, SupervisorAction::Wait)
            } else {
                (true, SupervisorAction::Spawn)
            }
        },
        SupervisorEvent::SpawnFailed => (false, SupervisorAction::SkipTrack),
        SupervisorEvent::Chunk => {
            if child_running {
                (true, SupervisorAction::Forward)
            } else {
                (false, SupervisorAction::Wait)
            }
        },
        SupervisorEvent::Eof => (false, SupervisorAction::ClearSlot),
        SupervisorEvent::ReadError => (false, SupervisorAction::ClearSlot),
        SupervisorEvent::ConsumerGone => (false, SupervisorAction::Stop),
    }
}

} // verus!
