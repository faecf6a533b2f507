use sound_break::music_controller::MusicAction;
use sound_break::music_controller::MusicController;
use sound_break::music_controller::ProbeSignal;

#[test]
fn first_definite_probe_answer_wins() {
    let controller = MusicController::new();
    let playing = controller
        .get_music_status(&vec![ProbeSignal::Unknown, ProbeSignal::Playing]);
    assert!(playing.is_playing);

    let paused = controller.get_music_status(&vec![
        ProbeSignal::NotPlaying,
        ProbeSignal::Playing,
    ]);
    assert!(!paused.is_playing);
}

#[test]
fn unknown_probe_answers_collapse_to_not_playing() {
    let controller = MusicController::new();
    let all_unknown = controller
        .get_music_status(&vec![ProbeSignal::Unknown, ProbeSignal::Unknown]);
    assert!(!all_unknown.is_playing);

    let empty = controller.get_music_status(&vec![]);
    assert!(!empty.is_playing);
}

#[test]
fn probe_answer_after_an_unknown_is_used() {
    let controller = MusicController::new();
    let status = controller.get_music_status(&vec![
        ProbeSignal::Unknown,
        ProbeSignal::NotPlaying,
        ProbeSignal::Playing,
    ]);
    assert!(!status.is_playing);
}

#[test]
fn first_successful_stage_answers_the_command() {
    let controller = MusicController::new();
    let outcome = controller.play_music(&vec![
        Err("media api absent".to_string()),
        Ok("sent through the key simulation".to_string()),
    ]);
    assert_eq!(outcome, Ok("sent through the key simulation".to_string()));

    let direct = controller.pause_music(&vec![
        Ok("sent through the media api".to_string()),
        Err("never reached".to_string()),
    ]);
    assert_eq!(direct, Ok("sent through the media api".to_string()));
}

#[test]
fn exhausted_chain_fails_with_the_last_stage_error() {
    let controller = MusicController::new();
    let outcome = controller.play_music(&vec![
        Err("media api absent".to_string()),
        Err("key simulation failed".to_string()),
    ]);
    assert_eq!(outcome, Err("key simulation failed".to_string()));
}

#[test]
fn single_stage_chain_answers_that_stage() {
    let controller = MusicController::new();
    assert_eq!(
        controller.pause_music(&vec![Ok("done".to_string())]),
        Ok("done".to_string())
    );
    assert_eq!(
        controller.pause_music(&vec![Err("broken".to_string())]),
        Err("broken".to_string())
    );
}

#[test]
fn execute_action_resolves_either_command() {
    let controller = MusicController::new();
    let play = controller.execute_action(
        MusicAction::Play,
        &vec![Ok("playing again".to_string())],
    );
    assert_eq!(play, Ok("playing again".to_string()));
    let pause = controller.execute_action(
        MusicAction::Pause,
        &vec![Err("no mechanism".to_string())],
    );
    assert_eq!(pause, Err("no mechanism".to_string()));
}
