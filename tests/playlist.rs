use funkstrom::playlist::{shuffle_playlist, AudioReader, CommandOutcome, NextTrack};
use funkstrom::schedule::PlaylistCommand;

fn tracks(names: &[&str]) -> Vec<String> {
    names.iter().map(|s| s.to_string()).collect()
}

fn expect_track(n: NextTrack) -> String {
    match n {
        NextTrack::Track(t) => t,
        NextTrack::Finished => panic!("finished"),
        NextTrack::LibraryNeeded => panic!("library needed"),
    }
}

#[test]
fn empty_library_is_refused() {
    let r = AudioReader::new(vec![], false, true, 0);
    assert_eq!(r.err().unwrap(), "No tracks found in library database");
}

#[test]
fn repeating_library_starts_over() {
    let mut r = AudioReader::new(tracks(&["a", "b"]), false, true, 0).ok().unwrap();
    assert_eq!(expect_track(r.next_track(0, 0)), "a");
    assert_eq!(expect_track(r.next_track(0, 0)), "b");
    assert_eq!(expect_track(r.next_track(0, 0)), "a");
}

#[test]
fn non_repeating_library_plays_every_track_then_finishes() {
    let mut r = AudioReader::new(tracks(&["a", "b"]), false, false, 0).ok().unwrap();
    assert_eq!(expect_track(r.next_track(0, 0)), "a");
    assert_eq!(expect_track(r.next_track(0, 0)), "b");
    assert!(r.is_exhausted());
    assert!(matches!(r.next_track(0, 0), NextTrack::Finished));
}

#[test]
fn scheduled_playlist_wraps_until_its_end() {
    let mut r = AudioReader::new(tracks(&["lib"]), false, true, 0).ok().unwrap();
    r.switch_to_scheduled_playlist(tracks(&["x", "y"]), 60, 1000);
    assert_eq!(expect_track(r.next_track(1000, 0)), "x");
    assert_eq!(expect_track(r.next_track(1010, 0)), "y");
    assert_eq!(expect_track(r.next_track(1020, 0)), "x");
    assert_eq!(expect_track(r.next_track(1030, 0)), "y");
    // The end time is checked when the scheduled playlist runs out.
    assert_eq!(expect_track(r.next_track(1060, 0)), "x");
    assert!(matches!(r.next_track(1060, 0), NextTrack::LibraryNeeded));
    r.return_to_library(tracks(&["lib"]), 0);
    assert_eq!(expect_track(r.next_track(1060, 0)), "lib");
}

#[test]
fn empty_library_on_return_leaves_nothing_to_play() {
    let mut r = AudioReader::new(tracks(&["lib"]), false, true, 0).ok().unwrap();
    r.return_to_library(vec![], 0);
    assert!(matches!(r.next_track(0, 0), NextTrack::Finished));
}

#[test]
fn shuffle_is_a_seeded_permutation() {
    let unshuffled = tracks(&["a", "b", "c", "d", "e"]);
    let mut v = unshuffled.clone();
    shuffle_playlist(&mut v, 3);
    let mut w = unshuffled.clone();
    shuffle_playlist(&mut w, 3);
    assert_eq!(v, w);
    let mut sorted = v.clone();
    sorted.sort();
    assert_eq!(sorted, unshuffled);
    // seed 3, five tracks: swaps (4, 1), (3, 2), (2, 1), (1, 0)
    assert_eq!(v, tracks(&["d", "a", "e", "c", "b"]));
}

#[test]
fn shuffled_library_holds_the_same_tracks() {
    let mut r = AudioReader::new(tracks(&["a", "b", "c"]), true, true, 11).ok().unwrap();
    let mut seen = vec![
        expect_track(r.next_track(0, 5)),
        expect_track(r.next_track(0, 5)),
        expect_track(r.next_track(0, 5)),
    ];
    seen.sort();
    assert_eq!(seen, tracks(&["a", "b", "c"]));
}

#[test]
fn schedule_commands_switch_or_defer() {
    let mut r = AudioReader::new(tracks(&["lib"]), false, true, 0).ok().unwrap();
    let out = r.handle_command(
        PlaylistCommand::SwitchToPlaylist {
            name: "p".to_string(),
            tracks: tracks(&["x"]),
            duration_secs: 60,
        },
        100,
    );
    assert!(matches!(out, CommandOutcome::Applied));
    assert_eq!(expect_track(r.next_track(100, 0)), "x");
    let out = r.handle_command(
        PlaylistCommand::SwitchToLiveset {
            name: "l".to_string(),
            genres: tracks(&["techno"]),
            duration_secs: 30,
        },
        100,
    );
    match out {
        CommandOutcome::FetchLiveset { name, genres, duration_secs } => {
            assert_eq!(name, "l");
            assert_eq!(genres, tracks(&["techno"]));
            assert_eq!(duration_secs, 30);
        }
        _ => panic!("expected a liveset fetch"),
    }
    assert!(matches!(
        r.handle_command(PlaylistCommand::ReturnToLibrary, 100),
        CommandOutcome::LibraryNeeded
    ));
}
