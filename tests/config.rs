use funkstrom::config::{Config, ProgramType, ScheduleProgram, StreamConfig};

fn stream(bitrate: u32, format: &str, sample_rate: u32, channels: u8) -> StreamConfig {
    StreamConfig {
        bitrate,
        format: format.to_string(),
        sample_rate,
        channels,
        enabled: true,
    }
}

#[test]
fn test_stream_config_validation_valid() {
    let config = stream(128, "mp3", 44100, 2);

    assert!(config.validate().is_ok());
}

#[test]
fn test_stream_config_validation_invalid_format() {
    let config = stream(128, "flac", 44100, 2);

    let result = config.validate();
    assert!(result.is_err());
    assert!(result.unwrap_err().contains("Unsupported audio format"));
}

#[test]
fn test_stream_config_validation_invalid_bitrate() {
    let config = stream(512, "mp3", 44100, 2);

    let result = config.validate();
    assert!(result.is_err());
    assert!(result.unwrap_err().contains("out of range"));
}

#[test]
fn test_stream_config_validation_invalid_sample_rate() {
    let config = stream(128, "mp3", 99999, 2);

    let result = config.validate();
    assert!(result.is_err());
    assert!(result.unwrap_err().contains("Unsupported sample rate"));
}

#[test]
fn test_stream_config_validation_invalid_channels() {
    let config = stream(128, "mp3", 44100, 5);

    let result = config.validate();
    assert!(result.is_err());
    assert!(result.unwrap_err().contains("Invalid channel count"));
}

#[test]
fn test_config_validation_empty_streams() {
    let mut config = Config::default();
    config.stream.clear();

    let result = config.validate();
    assert!(result.is_err());
    assert!(result.unwrap_err().contains("No streams configured"));
}

#[test]
fn test_config_validation_invalid_stream_name() {
    let mut config = Config::default();
    config.stream.clear();
    config
        .stream
        .push(("test@stream".to_string(), stream(128, "mp3", 44100, 2)));

    let result = config.validate();
    assert!(result.is_err());
    assert!(result.unwrap_err().contains("Invalid stream name"));
}

#[test]
fn test_config_validation_all_streams_disabled() {
    let mut config = Config::default();
    for (_, stream) in config.stream.iter_mut() {
        stream.enabled = false;
    }

    let result = config.validate();
    assert!(result.is_err());
    assert!(result
        .unwrap_err()
        .contains("At least one stream must be enabled"));
}

#[test]
fn test_multiple_formats_validation() {
    for format in &["mp3", "aac", "opus", "ogg"] {
        let config = stream(128, format, 44100, 2);
        assert!(
            config.validate().is_ok(),
            "Format {} should be valid",
            format
        );
    }
}

#[test]
fn test_valid_stream_names() {
    let mut config = Config::default();

    for name in &["stream1", "high-quality", "low_bitrate", "Stream_123"] {
        config.stream.clear();
        config
            .stream
            .push((name.to_string(), stream(128, "mp3", 44100, 2)));
        assert!(
            config.validate().is_ok(),
            "Stream name '{}' should be valid",
            name
        );
    }
}

fn program(program_type: Option<&str>, playlist: Option<&str>, genres: Option<Vec<String>>) -> ScheduleProgram {
    ScheduleProgram {
        name: "test".to_string(),
        active: true,
        cron: "0 0 * * * *".to_string(),
        duration: "30m".to_string(),
        program_type: program_type.map(|s| s.to_string()),
        playlist: playlist.map(|s| s.to_string()),
        genres,
    }
}

#[test]
fn test_playlist_program_validation_success() {
    let program = program(Some("playlist"), Some("test.m3u"), None);

    assert!(program.validate().is_ok());
}

#[test]
fn test_playlist_program_validation_missing_playlist() {
    let program = program(Some("playlist"), None, None);

    let result = program.validate();
    assert!(result.is_err());
    assert!(result
        .unwrap_err()
        .contains("must specify a 'playlist' field"));
}

#[test]
fn test_liveset_program_validation_success() {
    let program = program(
        Some("liveset"),
        None,
        Some(vec!["techno".to_string(), "house".to_string()]),
    );

    assert!(program.validate().is_ok());
}

#[test]
fn test_liveset_program_validation_empty_genres() {
    let program = program(Some("liveset"), None, Some(vec![]));

    assert!(program.validate().is_ok());
}

#[test]
fn test_liveset_program_validation_missing_genres() {
    let program = program(Some("liveset"), None, None);

    let result = program.validate();
    assert!(result.is_err());
    assert!(result
        .unwrap_err()
        .contains("must specify a 'genres' field"));
}

#[test]
fn test_program_type_defaults_to_playlist() {
    let program = program(None, Some("test.m3u"), None);

    assert_eq!(program.get_type(), ProgramType::Playlist);
}

#[test]
fn test_program_type_liveset() {
    let program = program(Some("liveset"), None, Some(vec![]));

    assert_eq!(program.get_type(), ProgramType::Liveset);
}

#[test]
fn stream_errors_carry_exact_messages() {
    assert_eq!(
        stream(512, "mp3", 44100, 2).validate().unwrap_err(),
        "Bitrate 512 is out of range. Valid range: 32-320 kbps"
    );
    assert_eq!(
        stream(128, "wav", 44100, 2).validate().unwrap_err(),
        "Unsupported audio format 'wav'. Supported formats: mp3, aac, opus, ogg"
    );
    assert_eq!(
        stream(128, "mp3", 12345, 2).validate().unwrap_err(),
        "Unsupported sample rate 12345. Valid rates: 8000, 11025, 16000, 22050, 32000, 44100, 48000"
    );
    assert_eq!(
        stream(128, "mp3", 44100, 0).validate().unwrap_err(),
        "Invalid channel count 0. Valid values: 1 (mono) or 2 (stereo)"
    );
}

#[test]
fn format_is_compared_in_lower_case() {
    assert!(stream(128, "MP3", 44100, 2).validate().is_ok());
    assert!(stream(128, "Opus", 48000, 1).validate().is_ok());
}

#[test]
fn bitrate_bounds_are_inclusive() {
    assert!(stream(32, "mp3", 44100, 2).validate().is_ok());
    assert!(stream(320, "mp3", 44100, 2).validate().is_ok());
    assert!(stream(31, "mp3", 44100, 2).validate().is_err());
    assert!(stream(321, "mp3", 44100, 2).validate().is_err());
}

#[test]
fn bad_stream_entry_is_named_in_the_error() {
    let mut config = Config::default();
    config.stream.clear();
    config.stream.push(("main".to_string(), stream(128, "flac", 44100, 2)));
    assert_eq!(
        config.validate().unwrap_err(),
        "Stream 'main': Unsupported audio format 'flac'. Supported formats: mp3, aac, opus, ogg"
    );
}

#[test]
fn empty_and_non_ascii_stream_names_are_rejected() {
    let mut config = Config::default();
    config.stream.clear();
    config.stream.push((String::new(), stream(128, "mp3", 44100, 2)));
    assert_eq!(config.validate().unwrap_err(), "Stream name cannot be empty");
    config.stream.clear();
    config.stream.push(("caf\u{e9}".to_string(), stream(128, "mp3", 44100, 2)));
    assert!(config.validate().unwrap_err().contains("Invalid stream name"));
}

#[test]
fn accepted_config_has_only_valid_streams() {
    let mut config = Config::default();
    config.stream.clear();
    config.stream.push(("main".to_string(), stream(128, "mp3", 44100, 2)));
    let mut off = stream(64, "aac", 22050, 1);
    off.enabled = false;
    config.stream.push(("low".to_string(), off));
    assert!(config.validate().is_ok());
    for (name, s) in &config.stream {
        assert!(funkstrom::config::valid_stream_name(name));
        assert!(s.validate().is_ok());
    }
}

#[test]
fn settings_are_checked_against_the_lowered_format() {
    let s = stream(128, "MP3", 44100, 2);
    assert!(s.check_settings("mp3").is_ok());
    assert!(s.check_settings("MP3").is_err());
}

#[test]
fn repeated_stream_name_is_rejected() {
    let mut config = Config::default();
    config.stream.clear();
    config.stream.push(("main".to_string(), stream(128, "mp3", 44100, 2)));
    config.stream.push(("main".to_string(), stream(64, "aac", 22050, 1)));
    assert_eq!(config.validate().unwrap_err(), "Duplicate stream name 'main'");
}
