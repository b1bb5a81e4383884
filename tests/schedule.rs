use chrono::{DateTime, Local, TimeZone, Timelike};
use funkstrom::config::ScheduleProgram;
use funkstrom::playlist::{AudioReader, NextTrack};
use funkstrom::schedule::{
    decide, earliest_fire, format_duration, parse_duration, validate_and_convert, ActiveProgram,
    PlaylistCommand, ScheduleAction, ScheduleEngine,
};

fn program(name: &str, cron: &str, duration: &str) -> ScheduleProgram {
    ScheduleProgram {
        name: name.to_string(),
        active: true,
        cron: cron.to_string(),
        duration: duration.to_string(),
        program_type: Some("playlist".to_string()),
        playlist: Some("test.m3u".to_string()),
        genres: None,
    }
}

#[test]
fn given_duration_string_with_minutes_when_parsed_then_returns_correct_duration() {
    let result = parse_duration("30m").unwrap();

    assert_eq!(result, 30 * 60);
}

#[test]
fn given_duration_string_with_hours_when_parsed_then_returns_correct_duration() {
    let result = parse_duration("2h").unwrap();

    assert_eq!(result, 2 * 3600);
}

#[test]
fn given_duration_string_with_whitespace_when_parsed_then_trims_and_parses_correctly() {
    let result = parse_duration(" 45m ").unwrap();

    assert_eq!(result, 45 * 60);
}

#[test]
fn given_duration_without_suffix_when_parsed_then_returns_error() {
    let result = parse_duration("30");

    assert!(result.is_err());
}

#[test]
fn given_duration_with_invalid_suffix_when_parsed_then_returns_error() {
    let result = parse_duration("30s");

    assert!(result.is_err());
}

#[test]
fn given_duration_with_non_numeric_value_when_parsed_then_returns_error() {
    let result = parse_duration("abcm");

    assert!(result.is_err());
}

#[test]
fn given_duration_in_minutes_when_formatted_then_returns_minutes_string() {
    let formatted = format_duration(45 * 60);

    assert_eq!(formatted, "45m");
}

#[test]
fn given_duration_in_exact_hours_when_formatted_then_returns_hours_string() {
    let formatted = format_duration(2 * 3600);

    assert_eq!(formatted, "2h");
}

#[test]
fn given_duration_in_hours_and_minutes_when_formatted_then_returns_combined_string() {
    let formatted = format_duration(150 * 60);

    assert_eq!(formatted, "2h 30m");
}

#[test]
fn given_program_with_invalid_cron_when_validated_then_returns_error_about_cron() {
    let program = program("test", "invalid cron", "30m");

    let result = validate_and_convert(&program);

    assert!(result.is_err());
    assert!(result.err().unwrap().contains("Invalid cron"));
}

#[test]
fn given_program_with_invalid_duration_when_validated_then_returns_error_about_duration() {
    let program = program("test", "0 0 * * * *", "invalid");

    let result = validate_and_convert(&program);

    assert!(result.is_err());
    assert!(result.err().unwrap().contains("Invalid duration format"));
}

#[test]
fn duration_error_messages() {
    assert_eq!(
        parse_duration(" 30s ").unwrap_err(),
        "Invalid duration format: 30s. Use '30m' or '2h'"
    );
    assert_eq!(parse_duration("abcm").unwrap_err(), "Invalid duration format: abcm");
    assert!(parse_duration("-5m").is_err());
    assert!(parse_duration("m").is_err());
    assert!(parse_duration("99999999999999999999m").is_err());
}

#[test]
fn zero_minute_duration_is_accepted_and_ends_at_once() {
    assert_eq!(parse_duration("0m").unwrap(), 0);
    let now = 1_700_000_040;
    let current = Some(ActiveProgram { name: "p".to_string(), end: now });
    assert_eq!(
        decide(&current, now, None).action,
        ScheduleAction::ReturnToLibrary
    );
}

#[test]
fn program_fires_within_two_seconds_of_its_time() {
    let fire = 1_700_000_040;
    for late in 0..=2 {
        let d = decide(&None, fire + late, Some((0, fire)));
        assert_eq!(d.action, ScheduleAction::StartProgram(0));
        assert_eq!(d.sleep_secs, 1);
    }
    let d = decide(&None, fire + 3, Some((0, fire)));
    assert_eq!(d.action, ScheduleAction::Wait);
}

#[test]
fn waiting_sleeps_are_capped() {
    let now = 1_000;
    assert_eq!(decide(&None, now, Some((0, now + 100))).sleep_secs, 30);
    assert_eq!(decide(&None, now, Some((0, now + 7))).sleep_secs, 7);
    assert_eq!(decide(&None, now, None).sleep_secs, 30);
    let running = Some(ActiveProgram { name: "p".to_string(), end: now + 3 });
    let d = decide(&running, now, None);
    assert_eq!(d.action, ScheduleAction::Wait);
    assert_eq!(d.sleep_secs, 3);
    let running = Some(ActiveProgram { name: "p".to_string(), end: now + 60 });
    assert_eq!(decide(&running, now, None).sleep_secs, 5);
}

#[test]
fn earliest_fire_prefers_the_first_of_equal_times() {
    assert_eq!(earliest_fire(&vec![None, Some(50), Some(40), Some(40)]), Some((2, 40)));
    assert_eq!(earliest_fire(&vec![None, None]), None);
    assert_eq!(earliest_fire(&vec![]), None);
}

#[test]
fn engine_keeps_active_programs_that_validate() {
    let mut inactive = program("off", "0 0 * * * *", "30m");
    inactive.active = false;
    let programs = vec![
        program("bad_cron", "nope", "30m"),
        inactive,
        program("good", "0 0 * * * *", "1h"),
        program("no_playlist_file", "0 0 * * * *", "1h"),
    ];
    let engine = ScheduleEngine::new(&programs, &vec![true, true, true, false]).ok().unwrap();
    assert_eq!(engine.programs.len(), 1);
    assert_eq!(engine.programs[0].name, "good");
    assert_eq!(engine.programs[0].duration_secs, 3600);

    let none = ScheduleEngine::new(&vec![program("bad", "nope", "1h")], &vec![true]);
    assert_eq!(
        none.err().unwrap(),
        "No active and valid programs found for scheduling"
    );
}

#[test]
fn scheduled_program_preempts_and_returns_to_library() {
    let engine = ScheduleEngine::new(&vec![program("hourly", "0 * * * * *", "1m")], &vec![true])
        .ok()
        .unwrap();
    let top_of_minute: i64 = 1_700_000_040;
    let next = engine.find_next_program(top_of_minute, 0);
    assert_eq!(next, Some((0, top_of_minute)));

    let decision = decide(&None, top_of_minute, next);
    assert_eq!(decision.action, ScheduleAction::StartProgram(0));
    let (command, active) =
        engine.start_program(0, Some(vec!["/music/x.mp3".to_string()]), top_of_minute);
    let active = active.unwrap();
    assert_eq!(active.end, top_of_minute + 60);

    let mut reader = AudioReader::new(
        vec!["/music/a.mp3".to_string(), "/music/b.mp3".to_string()],
        false,
        true,
        7,
    )
    .ok()
    .unwrap();
    match command.unwrap() {
        PlaylistCommand::SwitchToPlaylist { tracks, duration_secs, .. } => {
            reader.switch_to_scheduled_playlist(tracks, duration_secs, top_of_minute);
        }
        _ => panic!("expected a playlist switch"),
    }
    match reader.next_track(top_of_minute, 1) {
        NextTrack::Track(t) => assert_eq!(t, "/music/x.mp3"),
        _ => panic!("expected the scheduled track"),
    }

    let later = top_of_minute + 60;
    let current = Some(active);
    assert_eq!(decide(&current, later, None).action, ScheduleAction::ReturnToLibrary);
    match reader.next_track(later, 1) {
        NextTrack::LibraryNeeded => {}
        _ => panic!("expected the library to be needed"),
    }
    reader.return_to_library(vec!["/music/a.mp3".to_string(), "/music/b.mp3".to_string()], 1);
    match reader.next_track(later, 1) {
        NextTrack::Track(t) => assert_eq!(t, "/music/a.mp3"),
        _ => panic!("expected a library track"),
    }
}

#[test]
fn playlist_program_without_tracks_does_not_start() {
    let engine = ScheduleEngine::new(&vec![program("p", "0 0 * * * *", "30m")], &vec![true])
        .ok()
        .unwrap();
    let (command, active) = engine.start_program(0, None, 100);
    assert!(command.is_none());
    assert!(active.is_none());
}

#[test]
fn liveset_program_starts_with_its_genres() {
    let mut p = program("live", "0 0 * * * *", "2h");
    p.program_type = Some("liveset".to_string());
    p.playlist = None;
    p.genres = Some(vec!["techno".to_string()]);
    let engine = ScheduleEngine::new(&vec![p], &vec![false]).ok().unwrap();
    let (command, active) = engine.start_program(0, None, 100);
    match command.unwrap() {
        PlaylistCommand::SwitchToLiveset { name, genres, duration_secs } => {
            assert_eq!(name, "live");
            assert_eq!(genres, vec!["techno".to_string()]);
            assert_eq!(duration_secs, 7200);
        }
        _ => panic!("expected a liveset switch"),
    }
    assert_eq!(active.unwrap().end, 7300);
}

fn today_at(h: u32, m: u32, sec: u32) -> DateTime<Local> {
    Local::now()
        .date_naive()
        .and_hms_opt(h, m, sec)
        .unwrap()
        .and_local_timezone(Local)
        .unwrap()
}

fn local(t: i64) -> DateTime<Local> {
    Local.timestamp_opt(t, 0).unwrap()
}

#[test]
fn given_program_scheduled_at_exact_minute_when_queried_at_same_time_then_finds_program() {
    let program = program("exact_time", "0 0 20 * * *", "1h");
    let engine = ScheduleEngine::new(&vec![program], &vec![true]).ok().unwrap();

    let now = today_at(20, 0, 0);
    let result = engine.find_next_program(now.timestamp(), now.offset().local_minus_utc());

    assert!(result.is_some());
    let (index, scheduled) = result.unwrap();
    assert_eq!(engine.programs[index].name, "exact_time");
    let scheduled_time = local(scheduled);
    assert_eq!(scheduled_time.hour(), 20);
    assert_eq!(scheduled_time.minute(), 0);
    assert_eq!(scheduled_time.second(), 0);
}

#[test]
fn given_program_scheduled_when_queried_within_tolerance_then_finds_program() {
    let program = program("tolerance_test", "0 0 20 * * *", "30m");
    let engine = ScheduleEngine::new(&vec![program], &vec![true]).ok().unwrap();

    let now = today_at(20, 0, 1);
    let result = engine.find_next_program(now.timestamp(), now.offset().local_minus_utc());

    assert!(result.is_some());
    let (index, scheduled) = result.unwrap();
    assert_eq!(engine.programs[index].name, "tolerance_test");
    let scheduled_time = local(scheduled);
    assert_eq!(scheduled_time.hour(), 20);
    assert_eq!(scheduled_time.minute(), 0);
    assert_eq!(scheduled_time.second(), 0);
}

#[test]
fn program_observed_two_seconds_late_still_starts() {
    let engine = ScheduleEngine::new(&vec![program("edge", "0 0 20 * * *", "30m")], &vec![true])
        .ok()
        .unwrap();
    let at = today_at(20, 0, 2);
    let now = at.timestamp();
    let next = engine.find_next_program(now, at.offset().local_minus_utc());
    assert_eq!(next, Some((0, today_at(20, 0, 0).timestamp())));
    assert_eq!(decide(&None, now, next).action, ScheduleAction::StartProgram(0));
}

#[test]
fn given_program_scheduled_when_queried_outside_tolerance_then_finds_next_occurrence() {
    let program = program("outside_tolerance", "0 0 20 * * *", "30m");
    let engine = ScheduleEngine::new(&vec![program], &vec![true]).ok().unwrap();

    let now = today_at(20, 0, 3);
    let result = engine.find_next_program(now.timestamp(), now.offset().local_minus_utc());

    if let Some((_, scheduled)) = result {
        let scheduled_time = local(scheduled);
        assert!(scheduled_time > now);
        assert!((scheduled_time - now).num_hours() >= 23);
    }
}

#[test]
fn given_multiple_programs_when_finding_next_then_returns_nearest_program() {
    let program1 = program("program1", "0 0 21 * * *", "1h");
    let program2 = program("program2", "0 30 20 * * *", "30m");
    let engine = ScheduleEngine::new(&vec![program1, program2], &vec![true, true])
        .ok()
        .unwrap();

    let now = today_at(20, 0, 0);
    let result = engine.find_next_program(now.timestamp(), now.offset().local_minus_utc());

    assert!(result.is_some());
    let (index, scheduled) = result.unwrap();
    assert_eq!(engine.programs[index].name, "program2");
    let scheduled_time = local(scheduled);
    assert_eq!(scheduled_time.hour(), 20);
    assert_eq!(scheduled_time.minute(), 30);
}

#[test]
fn given_future_program_when_finding_next_then_returns_next_occurrence() {
    let program = program("future_program", "0 37 3 1 1 *", "1h");
    let engine = ScheduleEngine::new(&vec![program], &vec![true]).ok().unwrap();

    let now = Local::now();
    let result = engine.find_next_program(now.timestamp(), now.offset().local_minus_utc());

    assert!(result.is_some());
    let (_, scheduled) = result.unwrap();
    assert!(scheduled > now.timestamp());
}

#[test]
fn engine_keeps_each_program_as_converted() {
    let mut live = program("live", "0 0 * * * *", "2h");
    live.program_type = Some("liveset".to_string());
    live.playlist = None;
    live.genres = Some(vec!["techno".to_string(), "house".to_string()]);
    let engine = ScheduleEngine::new(&vec![program("list", "0 0 * * * *", "30m"), live], &vec![true, false])
        .ok()
        .unwrap();
    assert_eq!(engine.programs.len(), 2);
    assert_eq!(engine.programs[0].playlist_path.as_deref(), Some("test.m3u"));
    assert!(engine.programs[0].genres.is_none());
    assert_eq!(engine.programs[1].duration_secs, 7200);
    assert_eq!(engine.programs[1].genres, Some(vec!["techno".to_string(), "house".to_string()]));
    assert!(engine.programs[1].playlist_path.is_none());
}

#[test]
fn no_fire_times_are_looked_for_past_the_cron_years() {
    let engine = ScheduleEngine::new(&vec![program("p", "0 0 * * * *", "30m")], &vec![true])
        .ok()
        .unwrap();
    assert_eq!(engine.find_next_program(i64::MAX, 0), None);
    assert_eq!(funkstrom::schedule::search_start(100), 97);
    assert_eq!(funkstrom::schedule::search_start(i64::MIN), i64::MIN);
}
