use funkstrom::scanner::{is_audio_file, plan_incremental, TrackRecord};

#[test]
fn incremental_scan_deletes_tracks_whose_file_is_gone() {
    let keys = vec![(1, "/music/a.mp3".to_string(), 1000)];
    let plan = plan_incremental(&keys, &vec![]);
    assert_eq!(plan.to_delete, vec!["/music/a.mp3"]);
    assert!(plan.to_add.is_empty());
    assert!(plan.to_update.is_empty());
    assert_eq!(plan.unchanged, 0);
}

#[test]
fn incremental_scan_sorts_files_into_new_modified_and_unchanged() {
    let keys = vec![
        (1, "/m/same.mp3".to_string(), 10),
        (2, "/m/changed.mp3".to_string(), 10),
        (3, "/m/gone.mp3".to_string(), 10),
    ];
    let found = vec![
        ("/m/new.mp3".to_string(), Some(5)),
        ("/m/changed.mp3".to_string(), Some(11)),
        ("/m/same.mp3".to_string(), Some(10)),
        ("/m/broken.mp3".to_string(), None),
    ];
    let plan = plan_incremental(&keys, &found);
    assert_eq!(plan.to_add, vec!["/m/new.mp3"]);
    assert_eq!(plan.to_update, vec!["/m/changed.mp3"]);
    assert_eq!(plan.unchanged, 1);
    assert_eq!(plan.to_delete, vec!["/m/gone.mp3"]);
    assert_eq!(plan.unreadable, vec!["/m/broken.mp3"]);
}

#[test]
fn audio_files_are_recognised_by_extension() {
    assert!(is_audio_file("/m/a.mp3"));
    assert!(is_audio_file("/m/a.FLAC"));
    assert!(is_audio_file("/m/a.m4a"));
    assert!(!is_audio_file("/m/a.txt"));
    assert!(!is_audio_file("/m/noext"));
}

#[test]
fn scanned_record_falls_back_to_file_name() {
    let r = TrackRecord::from_scan("/m/Song One.MP3", 1234, 99, None, None, None, 500);
    assert_eq!(r.title, "Song One");
    assert_eq!(r.artist, "Unknown");
    assert_eq!(r.album, "Unknown");
    assert_eq!(r.file_extension, "mp3");
    assert_eq!(r.file_size, 1234);
    assert_eq!(r.last_modified, 99);
    assert_eq!(r.created_at, 500);
    assert!(r.id.is_none());
    let r = TrackRecord::from_scan(
        "/m/x.ogg",
        1,
        2,
        Some("T".to_string()),
        Some("A".to_string()),
        Some("B".to_string()),
        3,
    );
    assert_eq!((r.title.as_str(), r.artist.as_str(), r.album.as_str()), ("T", "A", "B"));
}

#[test]
fn audio_extensions_are_matched_exactly() {
    assert!(funkstrom::scanner::is_audio_extension_text("wma"));
    assert!(!funkstrom::scanner::is_audio_extension_text("WMA"));
    assert!(!funkstrom::scanner::is_audio_extension_text("mp4"));
}
