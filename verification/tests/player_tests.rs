use syncstream::message::CommandCode;
use syncstream::player::{
    playlist_lines, progress_fill, progress_line, Dispatch, Phase, PlaybackState, Watch,
    BAR_WIDTH,
};
use syncstream::track::Track;
use syncstream::utils::SinkAction;

fn track(name: &str, duration: u64) -> Track {
    Track { name: name.to_string(), duration }
}

fn three() -> PlaybackState {
    PlaybackState::new(vec![track("a", 1000), track("b", 2000), track("c", 3000)])
}

#[test]
fn session_begins_at_the_first_track() {
    let state = three();
    assert_eq!(state.current_track_index(), 0);
    assert!(!state.should_reset());
    assert_eq!(state.phase(), Phase::AwaitingStart);
    assert!(!state.is_stopped());
    assert_eq!(state.tracks().len(), 3);
    assert_eq!(state.current_track(), Some(&track("a", 1000)));
}

#[test]
fn session_without_tracks_has_ended() {
    let mut state = PlaybackState::new(Vec::new());
    assert_eq!(state.phase(), Phase::Stopped);
    assert!(state.is_stopped());
    assert_eq!(state.current_track(), None);
    assert_eq!(state.handle_mode(0), Dispatch::Ignore);
    assert_eq!(state.check_position(0), Watch::Idle);
}

#[test]
fn toggle_follows_the_sink() {
    let mut state = three();
    assert_eq!(state.handle_mode(0), Dispatch::Schedule(CommandCode::Toggle));
    assert_eq!(state.phase(), Phase::AwaitingStart);
    assert_eq!(state.fire(CommandCode::Toggle, true), SinkAction::Play);
    assert_eq!(state.phase(), Phase::Playing);
    assert_eq!(state.fire(CommandCode::Toggle, false), SinkAction::Pause);
    assert_eq!(state.phase(), Phase::Paused);
    assert_eq!(state.fire(CommandCode::Toggle, true), SinkAction::Play);
    assert_eq!(state.phase(), Phase::Playing);
    assert_eq!(state.current_track_index(), 0);
    assert!(!state.should_reset());
}

#[test]
fn next_moves_on_at_once_and_resets_when_fired() {
    let mut state = three();
    assert_eq!(state.handle_mode(2), Dispatch::Schedule(CommandCode::Next));
    assert_eq!(state.current_track_index(), 1);
    assert!(!state.should_reset());
    assert_eq!(state.fire(CommandCode::Next, false), SinkAction::SkipOne);
    assert!(state.should_reset());
    assert_eq!(state.current_track_index(), 1);
    assert_eq!(state.current_track(), Some(&track("b", 2000)));
    assert_eq!(state.phase(), Phase::AwaitingStart);
}

#[test]
fn restart_leaves_the_state_alone() {
    let mut state = three();
    assert_eq!(state.handle_mode(4), Dispatch::Schedule(CommandCode::Restart));
    assert_eq!(state.fire(CommandCode::Restart, false), SinkAction::SeekToStart);
    assert_eq!(state.current_track_index(), 0);
    assert_eq!(state.phase(), Phase::AwaitingStart);
    assert!(!state.should_reset());
}

#[test]
fn stop_ends_the_session_when_fired() {
    let mut state = three();
    assert_eq!(state.handle_mode(3), Dispatch::Schedule(CommandCode::Stop));
    assert_eq!(state.phase(), Phase::AwaitingStart);
    assert_eq!(state.fire(CommandCode::Stop, false), SinkAction::Exit);
    assert_eq!(state.phase(), Phase::Stopped);
    assert!(state.is_stopped());
}

#[test]
fn unknown_modes_are_ignored() {
    let mut state = three();
    for mode in [1u64, 5, 6, 100, u64::MAX] {
        assert_eq!(state.handle_mode(mode), Dispatch::Ignore);
    }
    assert_eq!(state.current_track_index(), 0);
    assert_eq!(state.phase(), Phase::AwaitingStart);
}

#[test]
fn next_at_the_last_track_ends_the_session() {
    let mut state = three();
    assert_eq!(state.handle_mode(2), Dispatch::Schedule(CommandCode::Next));
    assert_eq!(state.handle_mode(2), Dispatch::Schedule(CommandCode::Next));
    assert_eq!(state.current_track_index(), 2);
    assert_eq!(state.handle_mode(2), Dispatch::Exhausted);
    assert_eq!(state.current_track_index(), 3);
    assert_eq!(state.phase(), Phase::Stopped);
    assert_eq!(state.current_track(), None);
}

#[test]
fn nothing_leads_out_of_the_end() {
    let mut state = three();
    state.handle_mode(3);
    state.fire(CommandCode::Stop, false);
    for mode in [0u64, 1, 2, 3, 4] {
        assert_eq!(state.handle_mode(mode), Dispatch::Ignore);
    }
    for code in [CommandCode::Toggle, CommandCode::Next, CommandCode::Stop, CommandCode::Restart] {
        assert_eq!(state.fire(code, true), SinkAction::Nothing);
        assert_eq!(state.fire(code, false), SinkAction::Nothing);
    }
    assert_eq!(state.check_position(u64::MAX), Watch::Idle);
    assert_eq!(state.current_track_index(), 0);
    assert_eq!(state.phase(), Phase::Stopped);
    assert!(!state.should_reset());
}

#[test]
fn a_skip_that_falls_due_after_the_end_does_nothing() {
    let mut state = three();
    assert_eq!(state.handle_mode(2), Dispatch::Schedule(CommandCode::Next));
    assert_eq!(state.handle_mode(3), Dispatch::Schedule(CommandCode::Stop));
    assert_eq!(state.fire(CommandCode::Stop, false), SinkAction::Exit);
    assert_eq!(state.fire(CommandCode::Next, false), SinkAction::Nothing);
    assert!(!state.should_reset());
}

#[test]
fn watchdog_advances_at_the_end_of_a_track() {
    let mut state = three();
    assert_eq!(state.check_position(0), Watch::Idle);
    assert_eq!(state.check_position(999), Watch::Idle);
    assert_eq!(state.current_track_index(), 0);
    assert!(!state.should_reset());
    assert_eq!(state.check_position(1000), Watch::Advanced);
    assert_eq!(state.current_track_index(), 1);
    assert!(state.should_reset());
    assert!(state.take_reset());
    assert_eq!(state.check_position(1999), Watch::Idle);
    assert_eq!(state.check_position(5000), Watch::Advanced);
    assert_eq!(state.current_track_index(), 2);
    assert_eq!(state.check_position(2999), Watch::Idle);
    assert_eq!(state.check_position(3000), Watch::Exhausted);
    assert_eq!(state.current_track_index(), 3);
    assert_eq!(state.phase(), Phase::Stopped);
    assert!(state.should_reset());
    assert_eq!(state.check_position(3000), Watch::Idle);
}

#[test]
fn reset_flag_is_read_once() {
    let mut state = three();
    assert!(!state.take_reset());
    state.handle_mode(2);
    state.fire(CommandCode::Next, false);
    assert!(state.should_reset());
    assert!(state.take_reset());
    assert!(!state.should_reset());
    assert!(!state.take_reset());
    assert_eq!(state.current_track_index(), 1);
}

#[test]
fn index_never_goes_back() {
    let mut state = three();
    let mut last = state.current_track_index();
    let modes = [0u64, 4, 2, 1, 0, 4, 2, 3, 2, 2, 0];
    for (step, mode) in modes.iter().enumerate() {
        if let Dispatch::Schedule(code) = state.handle_mode(*mode) {
            if code != CommandCode::Stop {
                state.fire(code, step % 2 == 0);
            }
        }
        state.check_position(500);
        assert!(state.current_track_index() >= last);
        assert!(state.current_track_index() <= 3);
        assert_eq!(state.current_track_index() == 3, state.is_stopped());
        last = state.current_track_index();
    }
    assert_eq!(last, 3);
}

#[test]
fn bar_is_filled_in_proportion() {
    assert_eq!(BAR_WIDTH, 50);
    assert_eq!(progress_fill(0, 1000), 0);
    assert_eq!(progress_fill(9, 1000), 0);
    assert_eq!(progress_fill(10, 1000), 1);
    assert_eq!(progress_fill(20, 1000), 1);
    assert_eq!(progress_fill(29, 1000), 1);
    assert_eq!(progress_fill(30, 1000), 2);
    assert_eq!(progress_fill(500, 1000), 25);
    assert_eq!(progress_fill(989, 1000), 49);
    assert_eq!(progress_fill(990, 1000), 50);
    assert_eq!(progress_fill(999, 1000), 50);
    assert_eq!(progress_fill(1000, 1000), 50);
    assert_eq!(progress_fill(5000, 1000), 50);
    assert_eq!(progress_fill(0, 0), 50);
    assert_eq!(progress_fill(u64::MAX - 1, u64::MAX), 50);
    assert_eq!(progress_fill(u64::MAX / 2, u64::MAX), 25);
    assert_eq!(progress_fill(1, 3), 17);
}

#[test]
fn bar_rounds_to_the_nearest_character() {
    for duration in [1u64, 7, 60, 999, 1000, 180_000, 3_600_000] {
        for step in 0..=200u64 {
            let position = duration * step / 200;
            let filled = progress_fill(position, duration) as u64;
            // filled is the whole number nearest to 50 * position / duration, halves up
            assert!(2 * filled * duration <= 100 * position + duration);
            assert!(100 * position + duration < 2 * (filled + 1) * duration || filled == 50);
            let float = position as f64 / duration as f64 * 50.0;
            assert!((filled as f64 - float).abs() <= 0.5 + 1e-9, "{} of {}", position, duration);
        }
    }
}

#[test]
fn bar_never_shrinks_as_the_track_plays() {
    for duration in [0u64, 1, 3, 1000, 61_000] {
        let mut last = 0;
        for position in 0..=(duration + 10) {
            let filled = progress_fill(position, duration);
            assert!(filled >= last);
            assert!(filled <= BAR_WIDTH);
            last = filled;
        }
        assert_eq!(last, BAR_WIDTH);
    }
}

#[test]
fn progress_line_is_rendered() {
    assert_eq!(
        progress_line(true, "Intro", 0, 61_000),
        format!("\rPaused: Intro [{}] 00:00 / 01:01\t", " ".repeat(50))
    );
    assert_eq!(
        progress_line(false, "日本", 30_500, 61_000),
        format!("\rPlaying: 日本 [{}{}] 00:30 / 01:01\t", "=".repeat(25), " ".repeat(25))
    );
    assert_eq!(
        progress_line(false, "", 61_000, 61_000),
        format!("\rPlaying:  [{}] 01:01 / 01:01\t", "=".repeat(50))
    );
    assert_eq!(
        progress_line(false, "x", 700_000, 600_000),
        format!("\rPlaying: x [{}] 11:40 / 10:00\t", "=".repeat(50))
    );
}

#[test]
fn playlist_is_listed() {
    let tracks = vec![track("Intro", 61_999), track("日本", 600_000), track("Outro", 0)];
    assert_eq!(
        playlist_lines(&tracks),
        vec![
            "\t1: Intro (01:01)".to_string(),
            "\t2: 日本 (10:00)".to_string(),
            "\t3: Outro (00:00)".to_string(),
        ]
    );
    assert_eq!(playlist_lines(&Vec::new()), Vec::<String>::new());
    let many: Vec<Track> = (0..12).map(|i| track("t", i * 1000)).collect();
    let lines = playlist_lines(&many);
    assert_eq!(lines[9], "\t10: t (00:09)");
    assert_eq!(lines[11], "\t12: t (00:11)");
}
