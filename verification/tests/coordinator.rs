use sound_break::meeting_detector::MeetingConfig;
use sound_break::monitoring_service::has_status_changed;
use sound_break::monitoring_service::MonitoringService;
use sound_break::music_controller::MusicAction;

fn configured(names: &[&str]) -> MonitoringService {
    let mut service = MonitoringService::new();
    service.update_meeting_config(MeetingConfig {
        process_names: names.iter().map(|n| n.to_string()).collect(),
    });
    service
}

#[test]
fn start_stop_and_toggle_are_idempotent_safe() {
    let mut service = MonitoringService::new();
    assert_eq!(
        service.start_monitoring(10),
        Ok("Monitoring started successfully".to_string())
    );
    assert_eq!(
        service.start_monitoring(11),
        Ok("Monitoring is already running".to_string())
    );
    // The repeated start changed nothing: the recorded check time is still
    // that of the first start.
    assert_eq!(service.get_status().last_check, 10);
    assert!(service.get_status().is_active);

    assert_eq!(
        service.stop_monitoring(12),
        Ok("Monitoring stopped successfully".to_string())
    );
    assert_eq!(
        service.stop_monitoring(13),
        Ok("Monitoring is not running".to_string())
    );
    assert_eq!(service.get_status().last_check, 12);
    assert!(!service.get_status().is_active);
}

#[test]
fn toggle_flips_the_activity_each_time() {
    let mut service = MonitoringService::new();
    assert_eq!(
        service.toggle_monitoring(5),
        Ok("Monitoring started successfully".to_string())
    );
    assert!(service.get_status().is_active);
    assert_eq!(
        service.toggle_monitoring(6),
        Ok("Monitoring stopped successfully".to_string())
    );
    assert!(!service.get_status().is_active);
    // An even number of toggles from inactive lands on inactive; one more
    // lands on active — the XOR-fold.
    service.toggle_monitoring(7);
    assert!(service.get_status().is_active);
}

#[test]
fn stopped_service_never_checks() {
    let mut service = configured(&["ZoomHelper"]);
    assert!(!service.check_due(1_000));
    let cmd = service.perform_monitoring_check(1_000, &vec![true], true);
    assert!(cmd.is_none());
    assert!(service.get_status().meeting_status.is_none());
    assert!(service.get_status().music_status.is_none());
}

#[test]
fn full_meeting_episode_with_music_playing() {
    let mut service = configured(&["ZoomHelper"]);
    let started = service.start_monitoring(100);
    assert!(started.is_ok());
    assert!(service.get_status().is_active);

    // ZoomHelper absent, playback on: no action.
    let cmd = service.perform_monitoring_check(101, &vec![false], true);
    assert!(cmd.is_none());
    let status = service.get_status();
    assert!(!status.meeting_status.as_ref().unwrap().in_meeting);
    assert!(status.music_status.as_ref().unwrap().is_playing);

    // ZoomHelper appears while music plays: pause is issued.
    let cmd = service.perform_monitoring_check(102, &vec![true], true);
    assert_eq!(cmd, Some(MusicAction::Pause));
    service.record_action_outcome(MusicAction::Pause, &Ok("music paused".to_string()));
    let status = service.get_status();
    assert!(status.meeting_status.as_ref().unwrap().in_meeting);
    assert_eq!(
        status.last_action,
        Some("Meeting started: music paused".to_string())
    );

    // Meeting continues: no further command.
    let cmd = service.perform_monitoring_check(104, &vec![true], false);
    assert!(cmd.is_none());

    // ZoomHelper disappears: resume is issued once.
    let cmd = service.perform_monitoring_check(106, &vec![false], false);
    assert_eq!(cmd, Some(MusicAction::Play));
    service.record_action_outcome(MusicAction::Play, &Ok("music resumed".to_string()));
    let status = service.get_status();
    assert!(!status.meeting_status.as_ref().unwrap().in_meeting);
    assert_eq!(
        status.last_action,
        Some("Meeting ended: music resumed".to_string())
    );

    // The record of music before the meeting was cleared: a second end
    // edge cannot arise, and later idle cycles issue nothing.
    let cmd = service.perform_monitoring_check(108, &vec![false], false);
    assert!(cmd.is_none());
}

#[test]
fn music_already_paused_is_never_resumed() {
    let mut service = configured(&["ZoomHelper"]);
    service.start_monitoring(200).unwrap();

    // Meeting starts while nothing plays: no pause.
    let cmd = service.perform_monitoring_check(201, &vec![true], false);
    assert!(cmd.is_none());

    // Meeting ends: no resume either.
    let cmd = service.perform_monitoring_check(203, &vec![false], false);
    assert!(cmd.is_none());
    let status = service.get_status();
    assert!(!status.meeting_status.as_ref().unwrap().in_meeting);
    // No playback command was recorded: the start itself is still the last
    // action.
    assert_eq!(status.last_action, Some("Monitoring started".to_string()));
}

#[test]
fn checks_within_the_minimum_interval_are_dropped() {
    let mut service = configured(&["ZoomHelper"]);
    service.start_monitoring(300).unwrap();

    let cmd = service.perform_monitoring_check(301, &vec![false], true);
    assert!(cmd.is_none());
    assert_eq!(service.get_status().last_check, 301);

    // Same second again: the cycle is dropped, even though the process
    // appeared — no queries are consumed, no transition happens.
    assert!(!service.check_due(301));
    let cmd = service.perform_monitoring_check(301, &vec![true], true);
    assert!(cmd.is_none());
    let status = service.get_status();
    assert_eq!(status.last_check, 301);
    assert!(!status.meeting_status.as_ref().unwrap().in_meeting);

    // One second later the cycle runs and sees the meeting.
    assert!(service.check_due(302));
    let cmd = service.perform_monitoring_check(302, &vec![true], true);
    assert_eq!(cmd, Some(MusicAction::Pause));
}

#[test]
fn clock_jumping_backwards_reads_as_too_soon() {
    let mut service = configured(&["ZoomHelper"]);
    service.start_monitoring(400).unwrap();
    service.perform_monitoring_check(401, &vec![false], false);
    assert!(!service.check_due(350));
    let cmd = service.perform_monitoring_check(350, &vec![true], true);
    assert!(cmd.is_none());
    assert_eq!(service.get_status().last_check, 401);
}

#[test]
fn config_update_takes_effect_on_the_next_check_only() {
    let mut service = configured(&["ZoomHelper"]);
    service.start_monitoring(500).unwrap();
    service.perform_monitoring_check(501, &vec![true], false);
    let before = service.get_status();
    assert!(before.meeting_status.as_ref().unwrap().in_meeting);

    service.update_meeting_config(MeetingConfig {
        process_names: vec!["TeamsHelper".to_string(), "WebexHelper".to_string()],
    });
    // The reported status still shows the pre-update snapshot.
    let after_update = service.get_status();
    assert!(after_update.meeting_status.as_ref().unwrap().in_meeting);
    assert_eq!(
        after_update.meeting_status.as_ref().unwrap().active_apps[0].name,
        "ZoomHelper"
    );
    assert_eq!(
        service.get_meeting_config().process_names,
        vec!["TeamsHelper".to_string(), "WebexHelper".to_string()]
    );

    // The next check samples the new list.
    service.perform_monitoring_check(503, &vec![false, true], false);
    let next = service.get_status();
    let apps = &next.meeting_status.as_ref().unwrap().active_apps;
    assert_eq!(apps.len(), 2);
    assert_eq!(apps[0].name, "TeamsHelper");
    assert!(!apps[0].is_running);
    assert_eq!(apps[1].name, "WebexHelper");
    assert!(apps[1].is_running);
}

#[test]
fn failed_command_outcome_is_recorded_too() {
    let mut service = configured(&["ZoomHelper"]);
    service.start_monitoring(600).unwrap();
    let cmd = service.perform_monitoring_check(601, &vec![true], true);
    assert_eq!(cmd, Some(MusicAction::Pause));
    service.record_action_outcome(
        MusicAction::Pause,
        &Err("no media mechanism answered".to_string()),
    );
    // The failure is surfaced as the last action; the state flags are
    // untouched, so the meeting end still resumes.
    assert_eq!(
        service.get_status().last_action,
        Some("Meeting started: pause failed: no media mechanism answered".to_string())
    );
    let cmd = service.perform_monitoring_check(603, &vec![false], false);
    assert_eq!(cmd, Some(MusicAction::Play));
    service.record_action_outcome(MusicAction::Play, &Err("still nothing".to_string()));
    assert_eq!(
        service.get_status().last_action,
        Some("Meeting ended: resume failed: still nothing".to_string())
    );
}

#[test]
fn status_change_detection_tracks_the_displayed_fields() {
    let mut service = configured(&["ZoomHelper"]);
    service.start_monitoring(700).unwrap();
    service.perform_monitoring_check(701, &vec![false], false);
    let first = service.get_status();

    // Nothing shown yet: always counts as changed.
    assert!(has_status_changed(&None, &first));

    // An identical snapshot: unchanged.
    let same = service.get_status();
    assert!(!has_status_changed(&Some(first), &same));

    // Only the in-meeting answer flips.
    service.perform_monitoring_check(703, &vec![true], false);
    let in_meeting = service.get_status();
    assert!(has_status_changed(&Some(same), &in_meeting));

    // Only the playback answer flips.
    service.perform_monitoring_check(705, &vec![true], true);
    let playing = service.get_status();
    assert!(has_status_changed(&Some(in_meeting.clone()), &playing));

    // Activity flips.
    service.stop_monitoring(706).unwrap();
    let stopped = service.get_status();
    assert!(has_status_changed(&Some(playing), &stopped));
}

#[test]
fn default_service_equals_a_fresh_one() {
    let service = MonitoringService::default();
    let status = service.get_status();
    assert!(!status.is_active);
    assert_eq!(status.last_check, 0);
}

#[test]
fn fresh_service_reports_an_empty_status() {
    let service = MonitoringService::new();
    let status = service.get_status();
    assert!(!status.is_active);
    assert!(status.meeting_status.is_none());
    assert!(status.music_status.is_none());
    assert!(status.last_action.is_none());
    assert_eq!(status.last_check, 0);
}
