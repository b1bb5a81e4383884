use funkstrom::transcoder::{
    is_remote_input, supervisor_step, FFmpegProcessor, SupervisorAction, SupervisorEvent,
};

#[test]
fn given_mp3_format_when_getting_codec_then_returns_libmp3lame() {
    let processor = FFmpegProcessor::new(None, 48000, 192, 2, "mp3".to_string());
    assert_eq!(processor.get_codec_for_format("mp3"), "libmp3lame");
}

#[test]
fn given_opus_format_when_getting_codec_then_returns_libopus() {
    let processor = FFmpegProcessor::new(None, 48000, 192, 2, "opus".to_string());
    assert_eq!(processor.get_codec_for_format("opus"), "libopus");
}

#[test]
fn given_aac_format_when_getting_codec_then_returns_aac() {
    let processor = FFmpegProcessor::new(None, 48000, 192, 2, "aac".to_string());
    assert_eq!(processor.get_codec_for_format("aac"), "aac");
}

#[test]
fn given_vorbis_format_when_getting_codec_then_returns_libvorbis() {
    let processor = FFmpegProcessor::new(None, 48000, 192, 2, "vorbis".to_string());
    assert_eq!(processor.get_codec_for_format("vorbis"), "libvorbis");
}

#[test]
fn given_ogg_format_when_getting_codec_then_returns_libvorbis() {
    let processor = FFmpegProcessor::new(None, 48000, 192, 2, "ogg".to_string());
    assert_eq!(processor.get_codec_for_format("ogg"), "libvorbis");
}

#[test]
fn given_flac_format_when_getting_codec_then_returns_flac() {
    let processor = FFmpegProcessor::new(None, 48000, 192, 2, "flac".to_string());
    assert_eq!(processor.get_codec_for_format("flac"), "flac");
}

#[test]
fn given_unknown_format_when_getting_codec_then_returns_default_libmp3lame() {
    let processor = FFmpegProcessor::new(None, 48000, 192, 2, "unknown".to_string());
    assert_eq!(processor.get_codec_for_format("unknown"), "libmp3lame");
}

#[test]
fn default_binary_is_ffmpeg() {
    let p = FFmpegProcessor::new(None, 44100, 128, 2, "mp3".to_string());
    assert_eq!(p.ffmpeg_path(), "ffmpeg");
    let p = FFmpegProcessor::new(Some("/opt/ff".to_string()), 44100, 128, 2, "mp3".to_string());
    assert_eq!(p.ffmpeg_path(), "/opt/ff");
}

#[test]
fn command_args_encode_stream_settings() {
    let p = FFmpegProcessor::new(None, 44100, 128, 2, "mp3".to_string());
    let args = p.command_args("/music/a.mp3");
    let expected = vec![
        "-i", "/music/a.mp3", "-f", "mp3", "-acodec", "libmp3lame", "-ab", "128k", "-ar",
        "44100", "-ac", "2", "-loglevel", "error", "-",
    ];
    assert_eq!(args, expected);
}

#[test]
fn urls_are_remote_and_paths_are_not() {
    assert!(is_remote_input("http://example.com/a"));
    assert!(is_remote_input("https://example.com/a"));
    assert!(!is_remote_input("/music/http://x"));
    assert!(!is_remote_input("http:/x"));
}

#[test]
fn supervisor_spawns_only_into_an_empty_slot() {
    assert_eq!(supervisor_step(false, SupervisorEvent::TrackReady), (true, SupervisorAction::Spawn));
    assert_eq!(supervisor_step(true, SupervisorEvent::TrackReady), (true, SupervisorAction::Wait));
    assert_eq!(supervisor_step(false, SupervisorEvent::NoTrack), (false, SupervisorAction::Wait));
}

#[test]
fn supervisor_skips_failed_tracks_and_clears_finished_children() {
    assert_eq!(supervisor_step(true, SupervisorEvent::SpawnFailed), (false, SupervisorAction::SkipTrack));
    assert_eq!(supervisor_step(true, SupervisorEvent::Chunk), (true, SupervisorAction::Forward));
    assert_eq!(supervisor_step(true, SupervisorEvent::Eof), (false, SupervisorAction::ClearSlot));
    assert_eq!(supervisor_step(true, SupervisorEvent::ReadError), (false, SupervisorAction::ClearSlot));
    assert_eq!(supervisor_step(true, SupervisorEvent::ConsumerGone), (false, SupervisorAction::Stop));
}
