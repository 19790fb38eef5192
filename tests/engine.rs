use tyrs_tunes::audio::AudioCommand;
use tyrs_tunes::deck::{Deck, PlayState, PlaybackError, SinkAction, MAX_VOLUME};
use tyrs_tunes::player::{AudioPlayer, DECK_COUNT};

fn load(path: &str) -> SinkAction {
    SinkAction::Load(path.to_string())
}

fn deck_with(paths: &[&str]) -> Deck {
    let mut d = Deck::new();
    for p in paths {
        d.add_to_playlist(p.to_string());
    }
    d
}

#[test]
fn fresh_deck_is_idle() {
    let d = Deck::new();
    assert_eq!(d.state(), PlayState::Idle);
    assert_eq!(d.current_index(), None);
    assert_eq!(d.current_track(), None);
    assert!(!d.is_looping());
    assert_eq!(d.volume(), MAX_VOLUME);
    assert_eq!(d.queue_len(), 0);
}

#[test]
fn first_enqueue_starts_playing_later_ones_wait() {
    let mut d = Deck::new();
    assert_eq!(d.add_to_playlist("a.mp3".to_string()), load("a.mp3"));
    assert!(d.is_playing());
    assert_eq!(d.current_index(), Some(0));
    assert_eq!(d.add_to_playlist("b.mp3".to_string()), SinkAction::Nothing);
    assert_eq!(d.current_track(), Some("a.mp3".to_string()));
    assert_eq!(d.queue_len(), 2);
}

#[test]
fn ticks_play_tracks_in_enqueue_order_then_wrap() {
    let mut d = deck_with(&["a", "b", "c"]);
    assert_eq!(d.current_track(), Some("a".to_string()));
    assert_eq!(d.tick(true), load("b"));
    assert_eq!(d.current_index(), Some(1));
    assert_eq!(d.tick(true), load("c"));
    assert_eq!(d.current_index(), Some(2));
    assert_eq!(d.tick(true), load("a"));
    assert_eq!(d.current_index(), Some(0));
    assert!(d.is_playing());
}

#[test]
fn tick_with_sound_left_does_nothing() {
    let mut d = deck_with(&["a", "b"]);
    assert_eq!(d.tick(false), SinkAction::Nothing);
    assert_eq!(d.current_index(), Some(0));
}

#[test]
fn ticks_leave_an_empty_deck_idle() {
    let mut d = Deck::new();
    for _ in 0..3 {
        assert_eq!(d.tick(true), SinkAction::Nothing);
    }
    assert_eq!(d.state(), PlayState::Idle);
}

#[test]
fn play_or_resume_twice_while_playing_changes_nothing() {
    let mut d = deck_with(&["a", "b"]);
    assert_eq!(d.play_or_resume(), SinkAction::Nothing);
    assert_eq!(d.play_or_resume(), SinkAction::Nothing);
    assert!(d.is_playing());
    assert_eq!(d.current_index(), Some(0));
    assert_eq!(d.queue_len(), 2);
}

#[test]
fn stop_pauses_and_play_resumes() {
    let mut d = deck_with(&["a"]);
    assert_eq!(d.stop(), SinkAction::Pause);
    assert_eq!(d.state(), PlayState::Paused);
    assert_eq!(d.current_index(), Some(0));
    assert_eq!(d.tick(true), SinkAction::Nothing);
    assert_eq!(d.play_or_resume(), SinkAction::Resume);
    assert!(d.is_playing());
}

#[test]
fn stop_on_fresh_deck_pauses_and_enqueue_only_appends() {
    let mut d = Deck::new();
    assert_eq!(d.stop(), SinkAction::Pause);
    assert_eq!(d.state(), PlayState::Paused);
    assert_eq!(d.add_to_playlist("a".to_string()), SinkAction::Nothing);
    assert_eq!(d.state(), PlayState::Paused);
    assert_eq!(d.current_index(), None);
    assert_eq!(d.tick(true), SinkAction::Nothing);
    assert_eq!(d.play_or_resume(), load("a"));
    assert!(d.is_playing());
    assert_eq!(d.current_index(), Some(0));
}

#[test]
fn play_on_stopped_empty_deck_ends_idle() {
    let mut d = Deck::new();
    d.stop();
    assert_eq!(d.play_or_resume(), SinkAction::Resume);
    assert_eq!(d.state(), PlayState::Idle);
}

#[test]
fn track_end_on_paused_looping_deck_plays_again() {
    let mut d = deck_with(&["a", "b"]);
    d.toggle_loop();
    d.stop();
    assert_eq!(d.handle_track_end(), load("a"));
    assert!(d.is_playing());
    assert_eq!(d.current_index(), Some(0));
}

#[test]
fn looping_replays_the_current_track() {
    let mut d = deck_with(&["a", "b", "c"]);
    d.tick(true);
    d.toggle_loop();
    assert!(d.is_looping());
    for _ in 0..5 {
        assert_eq!(d.tick(true), load("b"));
        assert_eq!(d.current_index(), Some(1));
    }
    d.toggle_loop();
    assert_eq!(d.tick(true), load("c"));
}

#[test]
fn skip_wraps_on_three_tracks() {
    let mut d = deck_with(&["a", "b", "c"]);
    d.skip();
    d.skip();
    assert_eq!(d.current_index(), Some(2));
    assert_eq!(d.skip(), load("a"));
    assert_eq!(d.current_index(), Some(0));
    assert!(d.is_playing());
}

#[test]
fn skip_from_paused_plays_next() {
    let mut d = deck_with(&["a", "b"]);
    d.stop();
    assert_eq!(d.skip(), load("b"));
    assert!(d.is_playing());
}

#[test]
fn empty_queue_skip_and_play_stay_idle() {
    let mut d = Deck::new();
    assert_eq!(d.skip(), SinkAction::Stop);
    assert_eq!(d.state(), PlayState::Idle);
    assert_eq!(d.current_index(), None);
    assert_eq!(d.play_or_resume(), SinkAction::Nothing);
    assert_eq!(d.state(), PlayState::Idle);
}

#[test]
fn set_volume_clamps() {
    let mut d = Deck::new();
    assert_eq!(d.set_volume(250), SinkAction::SetVolume(250));
    assert_eq!(d.volume(), 250);
    assert_eq!(d.set_volume(5000), SinkAction::SetVolume(MAX_VOLUME));
    assert_eq!(d.volume(), MAX_VOLUME);
    assert_eq!(d.set_volume(0), SinkAction::SetVolume(0));
}

#[test]
fn failed_load_leaves_deck_idle() {
    let mut d = Deck::new();
    assert_eq!(d.add_to_playlist("/nonexistent.mp3".to_string()), load("/nonexistent.mp3"));
    assert_eq!(d.finish_load(Err(PlaybackError::FileNotFound)), Err(PlaybackError::FileNotFound));
    assert_eq!(d.state(), PlayState::Idle);
    assert_eq!(d.current_index(), None);
    assert_eq!(d.tick(true), SinkAction::Nothing);
}

#[test]
fn successful_load_changes_nothing() {
    let mut d = deck_with(&["a"]);
    assert_eq!(d.finish_load(Ok(())), Ok(()));
    assert!(d.is_playing());
    assert_eq!(d.current_index(), Some(0));
}

#[test]
fn idle_deck_with_queue_restarts_from_first_track() {
    let mut d = deck_with(&["a", "b"]);
    d.tick(true);
    d.finish_load(Err(PlaybackError::UndecodableStream)).unwrap_err();
    assert_eq!(d.add_to_playlist("c".to_string()), SinkAction::Nothing);
    assert_eq!(d.play_or_resume(), load("a"));
    assert_eq!(d.current_index(), Some(0));
}

#[test]
fn commands_map_onto_deck_operations() {
    let mut d = Deck::new();
    assert_eq!(d.apply(AudioCommand::Play("a".to_string())), load("a"));
    assert_eq!(d.apply(AudioCommand::Pause), SinkAction::Pause);
    assert_eq!(d.apply(AudioCommand::Resume), SinkAction::Resume);
    assert_eq!(d.apply(AudioCommand::Stop), SinkAction::Pause);
    assert_eq!(d.state(), PlayState::Paused);
    assert_eq!(Deck::new().apply(AudioCommand::Stop), SinkAction::Pause);
}

#[test]
fn player_has_two_decks() {
    let p = AudioPlayer::new();
    assert_eq!(p.deck_count(), DECK_COUNT);
    assert!(!p.is_valid_id(0));
    assert!(p.is_valid_id(1));
    assert!(p.is_valid_id(2));
    assert!(!p.is_valid_id(3));
    assert_eq!(AudioPlayer::with_decks(4).deck_count(), 4);
}

#[test]
fn player_scenario_advances_and_wraps() {
    let mut p = AudioPlayer::new();
    assert_eq!(p.add_to_playlist(1, "A".to_string()), load("A"));
    assert_eq!(p.add_to_playlist(1, "B".to_string()), SinkAction::Nothing);
    assert_eq!(p.play_or_resume(1), SinkAction::Nothing);
    assert!(p.is_playing(1));
    assert_eq!(p.current_track(1), Some("A".to_string()));
    let actions = p.update(&vec![true, false]);
    assert_eq!(actions, vec![load("B"), SinkAction::Nothing]);
    assert_eq!(p.current_track(1), Some("B".to_string()));
    let actions = p.update(&vec![true, false]);
    assert_eq!(actions, vec![load("A"), SinkAction::Nothing]);
    assert_eq!(p.current_track(1), Some("A".to_string()));
    assert!(p.is_playing(1));
}

#[test]
fn player_resumes_after_stop() {
    let mut p = AudioPlayer::new();
    p.add_to_playlist(1, "A".to_string());
    assert_eq!(p.stop(1), SinkAction::Pause);
    assert!(!p.is_playing(1));
    assert_eq!(p.play_or_resume(1), SinkAction::Resume);
    assert!(p.is_playing(1));
    assert_eq!(p.current_track(1), Some("A".to_string()));
}

#[test]
fn decks_are_independent() {
    let mut p = AudioPlayer::new();
    p.add_to_playlist(2, "x".to_string());
    p.set_volume(2, 300);
    p.add_to_playlist(1, "a".to_string());
    p.add_to_playlist(1, "b".to_string());
    p.skip(1);
    p.toggle_loop(1);
    p.set_volume(1, 700);
    p.stop(1);
    p.play_or_resume(1);
    assert!(p.is_playing(2));
    assert_eq!(p.current_track(2), Some("x".to_string()));
    assert_eq!(p.get_volume(2), 300);
    assert!(!p.is_looping(2));
    assert_eq!(p.get_volume(1), 700);
    assert!(p.is_looping(1));
    assert_eq!(p.get_backend(2).queue_len(), 1);
}

#[test]
fn bad_file_surfaces_error_and_is_not_retried() {
    let mut p = AudioPlayer::new();
    assert_eq!(p.add_to_playlist(1, "/nonexistent.mp3".to_string()), load("/nonexistent.mp3"));
    assert_eq!(p.finish_load(1, Err(PlaybackError::FileNotFound)), Err(PlaybackError::FileNotFound));
    assert!(!p.is_playing(1));
    assert_eq!(p.get_backend(1).state(), PlayState::Idle);
    for _ in 0..3 {
        assert_eq!(p.update(&vec![true, true]), vec![SinkAction::Nothing, SinkAction::Nothing]);
    }
    assert_eq!(p.play_or_resume(1), load("/nonexistent.mp3"));
    assert_eq!(p.finish_load(1, Err(PlaybackError::FileNotFound)), Err(PlaybackError::FileNotFound));
    assert_eq!(p.get_backend(1).state(), PlayState::Idle);
}

#[test]
fn dispatch_routes_commands() {
    let mut p = AudioPlayer::new();
    assert_eq!(p.dispatch(2, AudioCommand::Play("z".to_string())), load("z"));
    assert!(p.is_playing(2));
    assert!(!p.is_playing(1));
}
