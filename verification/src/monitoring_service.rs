//! The monitoring coordinator: the pause/resume state machine.
//!
//! A `MonitoringService` owns the canonical mutable state. One caller at a
//! time drives it (the surrounding process serialises access): commands
//! start, stop or toggle monitoring, and `perform_monitoring_check` runs one
//! detection cycle from the observations of this cycle — which configured
//! processes are present and whether audio is playing. The cycle is
//! rate-limited, detects meeting-start and meeting-end edges, and answers
//! with the playback command to issue, if any: pause on a meeting-start edge
//! while music plays, play on a meeting-end edge when music had been playing
//! when the meeting began. Music the user had already paused is never
//! force-resumed.
//!
//! Every operation's outcome is fixed by a spec-level transition function
//! over `ServiceView`; the laws at the end of the module are proved over
//! those transitions.

use vstd::prelude::*;
use crate::meeting_detector::MeetingConfig;
use crate::meeting_detector::MeetingDetector;
use crate::meeting_detector::MeetingStatus;
use crate::meeting_detector::MeetingStatusView;
use crate::meeting_detector::MeetingApp;
use crate::meeting_detector::default_process_names;
use crate::meeting_detector::in_meeting_of;
use crate::meeting_detector::snapshot_of;
use crate::music_controller::MusicAction;
use crate::music_controller::MusicStatus;

verus! {

/// Checks run at most once per this many seconds, however often a caller
/// polls.
pub const MIN_CHECK_INTERVAL_SECS: u64 = 1;

/// The status snapshot callers read: whether monitoring is active, the last
/// detection and playback snapshots, the last playback action's outcome, and
/// when the last check ran.
#[derive(Debug, Clone)]
pub struct MonitoringStatus {
    pub is_active: bool,
    pub meeting_status: Option<MeetingStatus>,
    pub music_status: Option<MusicStatus>,
    pub last_action: Option<String>,
    pub last_check: u64,
}

/// Mathematical image of a `MonitoringStatus`.
#[verifier::ext_equal]
pub struct MonitoringStatusView {
    pub is_active: bool,
    pub meeting_status: Option<MeetingStatusView>,
    pub music_status: Option<bool>,
    pub last_action: Option<Seq<char>>,
    pub last_check: u64,
}

impl View for MonitoringStatus {
    type V = MonitoringStatusView;

    open spec fn view(&self) -> MonitoringStatusView {
        MonitoringStatusView {
            is_active: self.is_active,
            meeting_status: match self.meeting_status {
                Some(m) => Some(m@),
                None => None,
            },
            music_status: match self.music_status {
                Some(m) => Some(m@),
                None => None,
            },
            last_action: match self.last_action {
                Some(a) => Some(a@),
                None => None,
            },
            last_check: self.last_check,
        }
    }
}

/// The whole coordinator state as the contracts speak of it.
#[verifier::ext_equal]
pub struct ServiceView {
    pub process_names: Seq<Seq<char>>,
    pub is_running: bool,
    pub was_in_meeting: bool,
    pub music_was_playing_before_meeting: bool,
    pub status: MonitoringStatusView,
    pub last_check_time: u64,
}

/// The state a fresh coordinator starts in: stopped, outside any meeting,
/// nothing observed yet, watching the default process names.
pub open spec fn init_service() -> ServiceView {
    ServiceView {
        process_names: default_process_names(),
        is_running: false,
        was_in_meeting: false,
        music_was_playing_before_meeting: false,
        status: MonitoringStatusView {
            is_active: false,
            meeting_status: None,
            music_status: None,
            last_action: None,
            last_check: 0,
        },
        last_check_time: 0,
    }
}

/// What starting monitoring does: nothing when already running; otherwise
/// the coordinator becomes active and the status records the start.
pub open spec fn start_step(s: ServiceView, now: u64) -> ServiceView {
    if s.is_running {
        s
    } else {
        ServiceView {
            is_running: true,
            status: MonitoringStatusView {
                is_active: true,
                last_action: Some("Monitoring started"@),
                last_check: now,
                ..s.status
            },
            ..s
        }
    }
}

/// What stopping monitoring does: nothing when already stopped; otherwise
/// the coordinator freezes in its last observed state, with no forced
/// resume.
pub open spec fn stop_step(s: ServiceView, now: u64) -> ServiceView {
    if !s.is_running {
        s
    } else {
        ServiceView {
            is_running: false,
            status: MonitoringStatusView {
                is_active: false,
                last_action: Some("Monitoring stopped"@),
                last_check: now,
                ..s.status
            },
            ..s
        }
    }
}

/// Toggling stops an active coordinator and starts a stopped one.
pub open spec fn toggle_step(s: ServiceView, now: u64) -> ServiceView {
    if s.is_running {
        stop_step(s, now)
    } else {
        start_step(s, now)
    }
}

/// Whether a check at `now` is due: monitoring must be running and the
/// minimum interval must have passed since the last check. A clock that
/// jumped backwards reads as "too soon".
pub open spec fn check_due_spec(s: ServiceView, now: u64) -> bool {
    s.is_running && now >= s.last_check_time + MIN_CHECK_INTERVAL_SECS
}

/// The state after one detection cycle at `now` with this cycle's
/// observations. A cycle that is not due changes nothing. A due cycle
/// refreshes the snapshots and the timestamps, and on a meeting-start edge
/// records whether music was playing; on a meeting-end edge it clears that
/// record. Which command the cycle issues is `check_command`.
pub open spec fn check_step(s: ServiceView, now: u64, presences: Seq<bool>, playing: bool) -> ServiceView {
    if !check_due_spec(s, now) {
        s
    } else {
        let now_in = in_meeting_of(presences);
        ServiceView {
            was_in_meeting: now_in,
            music_was_playing_before_meeting: if now_in && !s.was_in_meeting {
                playing
            } else if !now_in && s.was_in_meeting {
                false
            } else {
                s.music_was_playing_before_meeting
            },
            last_check_time: now,
            status: MonitoringStatusView {
                meeting_status: Some(snapshot_of(s.process_names, presences, now)),
                music_status: Some(playing),
                last_check: now,
                ..s.status
            },
            ..s
        }
    }
}

/// The playback command a detection cycle issues: pause on a meeting-start
/// edge while music plays; play on a meeting-end edge when music had been
/// playing when the meeting began; nothing otherwise.
pub open spec fn check_command(s: ServiceView, now: u64, presences: Seq<bool>, playing: bool) -> Option<MusicAction> {
    if !check_due_spec(s, now) {
        None
    } else {
        let now_in = in_meeting_of(presences);
        if now_in && !s.was_in_meeting {
            if playing {
                Some(MusicAction::Pause)
            } else {
                None
            }
        } else if !now_in && s.was_in_meeting {
            if s.music_was_playing_before_meeting {
                Some(MusicAction::Play)
            } else {
                None
            }
        } else {
            None
        }
    }
}

/// What replacing the configuration does: only the watched names change;
/// the reported status is untouched until the next check.
pub open spec fn update_config_step(s: ServiceView, names: Seq<Seq<char>>) -> ServiceView {
    ServiceView { process_names: names, ..s }
}

/// `s` with the outcome of a playback command recorded as the last action.
pub open spec fn with_last_action(s: ServiceView, message: Seq<char>) -> ServiceView {
    ServiceView {
        status: MonitoringStatusView { last_action: Some(message), ..s.status },
        ..s
    }
}

/// The words the recorded outcome of a command starts with: a pause is
/// issued when a meeting starts, a play when one ends.
pub open spec fn action_prefix(action: MusicAction) -> Seq<char> {
    match action {
        MusicAction::Pause => "Meeting started: "@,
        MusicAction::Play => "Meeting ended: "@,
    }
}

/// The words the recorded outcome of a failed command starts with: the edge
/// that issued it, and which command could not be sent.
pub open spec fn action_failure_prefix(action: MusicAction) -> Seq<char> {
    match action {
        MusicAction::Pause => "Meeting started: pause failed: "@,
        MusicAction::Play => "Meeting ended: resume failed: "@,
    }
}

/// Owns the coordinator state and drives the detection-and-reaction cycle.
pub struct MonitoringService {
    detector: MeetingDetector,
    is_running: bool,
    was_in_meeting: bool,
    music_was_playing_before_meeting: bool,
    status: MonitoringStatus,
    last_check_time: u64,
}

impl View for MonitoringService {
    type V = ServiceView;

    closed spec fn view(&self) -> ServiceView {
        ServiceView {
            process_names: self.detector@,
            is_running: self.is_running,
            was_in_meeting: self.was_in_meeting,
            music_was_playing_before_meeting: self.music_was_playing_before_meeting,
            status: self.status@,
            last_check_time: self.last_check_time,
        }
    }
}

impl MonitoringService {
    /// A stopped coordinator watching the default process names.
    pub fn new() -> (r: Self)
        ensures
            r@ == init_service(),
    {
        let r = MonitoringService {
            detector: MeetingDetector::new(),
            is_running: false,
            was_in_meeting: false,
            music_was_playing_before_meeting: false,
            status: MonitoringStatus {
                is_active: false,
                meeting_status: None,
                music_status: None,
                last_action: None,
                last_check: 0,
            },
            last_check_time: 0,
        };
        proof {
            assert(r@ =~~= init_service());
        }
        r
    }

    /// Starts monitoring. Idempotent: starting an active coordinator
    /// answers success with an informational message and changes nothing.
    pub fn start_monitoring(&mut self, now: u64) -> (r: Result<String, String>)
        ensures
            final(self)@ == start_step(old(self)@, now),
            r is Ok,
            old(self)@.is_running ==> r->Ok_0@ == "Monitoring is already running"@,
            !old(self)@.is_running ==> r->Ok_0@ == "Monitoring started successfully"@,
    {
        if self.is_running {
            return Ok(String::from_str("Monitoring is already running"));
        }
        self.is_running = true;
        self.status.is_active = true;
        self.status.last_action = Some(String::from_str("Monitoring started"));
        self.status.last_check = now;
        proof {
            assert(self@ =~~= start_step(old(self)@, now));
        }
        Ok(String::from_str("Monitoring started successfully"))
    }

    /// Stops monitoring. Idempotent likewise; stopping never forces a
    /// resume.
    pub fn stop_monitoring(&mut self, now: u64) -> (r: Result<String, String>)
        ensures
            final(self)@ == stop_step(old(self)@, now),
            r is Ok,
            !old(self)@.is_running ==> r->Ok_0@ == "Monitoring is not running"@,
            old(self)@.is_running ==> r->Ok_0@ == "Monitoring stopped successfully"@,
    {
        if !self.is_running {
            return Ok(String::from_str("Monitoring is not running"));
        }
        self.is_running = false;
        self.status.is_active = false;
        self.status.last_action = Some(String::from_str("Monitoring stopped"));
        self.status.last_check = now;
        proof {
            assert(self@ =~~= stop_step(old(self)@, now));
        }
        Ok(String::from_str("Monitoring stopped successfully"))
    }

    /// Stops when active, starts when stopped.
    pub fn toggle_monitoring(&mut self, now: u64) -> (r: Result<String, String>)
        ensures
            final(self)@ == toggle_step(old(self)@, now),
            r is Ok,
            old(self)@.is_running ==> r->Ok_0@ == "Monitoring stopped successfully"@,
            !old(self)@.is_running ==> r->Ok_0@ == "Monitoring started successfully"@,
    {
        if self.is_running {
            self.stop_monitoring(now)
        } else {
            self.start_monitoring(now)
        }
    }

    /// Whether a check at `now` would run: callers use this to avoid
    /// querying the OS when the cycle would be dropped by the rate limiter.
    pub fn check_due(&self, now: u64) -> (r: bool)
        ensures
            r == check_due_spec(self@, now),
    {
        self.is_running && now >= self.last_check_time
            && now - self.last_check_time >= MIN_CHECK_INTERVAL_SECS
    }

    /// Runs one detection cycle from this cycle's observations: `presences`
    /// answers, in configuration order, whether each watched process is
    /// present, and `music_playing` whether audio plays. Answers the
    /// playback command to issue now, if any; the command's outcome is
    /// recorded afterwards with `record_action_outcome`.
    pub fn perform_monitoring_check(&mut self, now: u64, presences: &Vec<bool>, music_playing: bool) -> (cmd: Option<MusicAction>)
        requires
            presences@.len() == old(self)@.process_names.len(),
        ensures
            final(self)@ == check_step(old(self)@, now, presences@, music_playing),
            cmd == check_command(old(self)@, now, presences@, music_playing),
    {
        if !self.check_due(now) {
            return None;
        }
        self.last_check_time = now;

        let meeting_status = self.detector.detect_meetings(presences, now);
        let now_in_meeting = meeting_status.in_meeting;
        let was_previously_in_meeting = self.was_in_meeting;

        let mut cmd: Option<MusicAction> = None;
        if now_in_meeting && !was_previously_in_meeting {
            self.music_was_playing_before_meeting = music_playing;
            if music_playing {
                cmd = Some(MusicAction::Pause);
            }
            self.was_in_meeting = true;
        } else if !now_in_meeting && was_previously_in_meeting {
            if self.music_was_playing_before_meeting {
                cmd = Some(MusicAction::Play);
            }
            self.music_was_playing_before_meeting = false;
            self.was_in_meeting = false;
        }

        self.status.meeting_status = Some(meeting_status);
        self.status.music_status = Some(MusicStatus { is_playing: music_playing });
        self.status.last_check = now;
        proof {
            assert(self@ =~~= check_step(old(self)@, now, presences@, music_playing));
        }
        cmd
    }

    /// Records how an issued playback command went, success or failure: the
    /// outcome's message becomes the last action, behind the words for the
    /// edge that issued it, so that a failed command is surfaced to callers
    /// too. Nothing else changes: a failure never alters the state flags.
    pub fn record_action_outcome(&mut self, action: MusicAction, outcome: &Result<String, String>)
        ensures
            outcome is Ok ==> final(self)@ == with_last_action(
                old(self)@,
                action_prefix(action) + outcome->Ok_0@,
            ),
            outcome is Err ==> final(self)@ == with_last_action(
                old(self)@,
                action_failure_prefix(action) + outcome->Err_0@,
            ),
    {
        match outcome {
            Ok(message) => {
                let prefix = match action {
                    MusicAction::Pause => "Meeting started: ",
                    MusicAction::Play => "Meeting ended: ",
                };
                self.status.last_action = Some(String::from_str(prefix).concat(message.as_str()));
                proof {
                    assert(self@ =~~= with_last_action(old(self)@, action_prefix(action) + outcome->Ok_0@));
                }
            },
            Err(error) => {
                let prefix = match action {
                    MusicAction::Pause => "Meeting started: pause failed: ",
                    MusicAction::Play => "Meeting ended: resume failed: ",
                };
                self.status.last_action = Some(String::from_str(prefix).concat(error.as_str()));
                proof {
                    assert(self@ =~~= with_last_action(old(self)@, action_failure_prefix(action) + outcome->Err_0@));
                }
            },
        }
    }

    /// A copy of the current status snapshot. Driving a detection cycle is
    /// the caller's step before this, when one is due.
    pub fn get_status(&self) -> (r: MonitoringStatus)
        ensures
            r@ == self@.status,
    {
        let meeting_status = match &self.status.meeting_status {
            Some(m) => Some(duplicate_meeting_status(m)),
            None => None,
        };
        let last_action = match &self.status.last_action {
            Some(a) => Some(a.clone()),
            None => None,
        };
        let r = MonitoringStatus {
            is_active: self.status.is_active,
            meeting_status,
            music_status: match &self.status.music_status {
                Some(m) => Some(MusicStatus { is_playing: m.is_playing }),
                None => None,
            },
            last_action,
            last_check: self.status.last_check,
        };
        proof {
            assert(r@ =~~= self@.status);
        }
        r
    }

    /// A copy of the configuration the next check will use.
    pub fn get_meeting_config(&self) -> (r: MeetingConfig)
        ensures
            r@ == self@.process_names,
    {
        let names = &self.detector.get_config().process_names;
        let mut copied: Vec<String> = Vec::new();
        let n = names.len();
        for i in 0..n
            invariant
                n == names@.len(),
                copied@.len() == i,
                forall|j: int| 0 <= j < i ==> copied@[j]@ == names@[j]@,
        {
            copied.push(names[i].clone());
        }
        let r = MeetingConfig { process_names: copied };
        proof {
            assert(r@ =~~= self@.process_names);
        }
        r
    }

    /// Replaces the watched names. The change shows only in later checks:
    /// the reported status keeps its pre-update snapshots.
    pub fn update_meeting_config(&mut self, config: MeetingConfig)
        ensures
            final(self)@ == update_config_step(old(self)@, config@),
    {
        self.detector.update_config(config);
        proof {
            assert(self@ =~~= update_config_step(old(self)@, config@));
        }
    }
}

impl Default for MonitoringService {
    fn default() -> (r: Self)
        ensures
            r@ == init_service(),
    {
        MonitoringService::new()
    }
}

/// A deep copy of one detection snapshot.
fn duplicate_meeting_status(status: &MeetingStatus) -> (r: MeetingStatus)
    ensures
        r@ == status@,
{
    let mut active_apps: Vec<MeetingApp> = Vec::new();
    let n = status.active_apps.len();
    for i in 0..n
        invariant
            n == status.active_apps@.len(),
            active_apps@.len() == i,
            forall|j: int| 0 <= j < i ==> active_apps@[j]@ == status.active_apps@[j]@,
    {
        let app = MeetingApp {
            name: status.active_apps[i].name.clone(),
            process_name: status.active_apps[i].process_name.clone(),
            is_running: status.active_apps[i].is_running,
        };
        active_apps.push(app);
    }
    let r = MeetingStatus {
        in_meeting: status.in_meeting,
        active_apps,
        timestamp: status.timestamp,
    };
    proof {
        assert(r@ =~~= status@);
    }
    r
}

/// Whether a freshly read status differs from the one last shown, in what a
/// display cares about: activity, the aggregate in-meeting answer, the
/// playback answer. Nothing shown yet counts as changed.
pub fn has_status_changed(previous: &Option<MonitoringStatus>, current: &MonitoringStatus) -> (r: bool)
    ensures
        r == status_changed(opt_status_view(*previous), current@),
{
    match previous {
        None => true,
        Some(prev) => {
            let meeting_changed = match (&prev.meeting_status, &current.meeting_status) {
                (Some(a), Some(b)) => a.in_meeting != b.in_meeting,
                (None, None) => false,
                _ => true,
            };
            let music_changed = match (&prev.music_status, &current.music_status) {
                (Some(a), Some(b)) => a.is_playing != b.is_playing,
                (None, None) => false,
                _ => true,
            };
            prev.is_active != current.is_active || meeting_changed || music_changed
        },
    }
}

/// The image of an optional status.
pub open spec fn opt_status_view(status: Option<MonitoringStatus>) -> Option<MonitoringStatusView> {
    match status {
        Some(s) => Some(s@),
        None => None,
    }
}

/// The aggregate in-meeting answer of an optional snapshot.
pub open spec fn opt_in_meeting(meeting: Option<MeetingStatusView>) -> Option<bool> {
    match meeting {
        Some(m) => Some(m.in_meeting),
        None => None,
    }
}

/// What `has_status_changed` answers.
pub open spec fn status_changed(previous: Option<MonitoringStatusView>, current: MonitoringStatusView) -> bool {
    match previous {
        None => true,
        Some(prev) => prev.is_active != current.is_active
            || opt_in_meeting(prev.meeting_status) != opt_in_meeting(current.meeting_status)
            || prev.music_status != current.music_status,
    }
}

/// One of the three monitoring commands, for speaking about whole call
/// sequences.
pub enum ControlCall {
    Start,
    Stop,
    Toggle,
}

/// The state transition of one control call at one time.
pub open spec fn control_step(s: ServiceView, call: ControlCall, now: u64) -> ServiceView {
    match call {
        ControlCall::Start => start_step(s, now),
        ControlCall::Stop => stop_step(s, now),
        ControlCall::Toggle => toggle_step(s, now),
    }
}

/// The state after a whole sequence of control calls, each paired with its
/// time.
pub open spec fn run_control(s: ServiceView, calls: Seq<(ControlCall, u64)>) -> ServiceView
    decreases calls.len(),
{
    if calls.len() == 0 {
        s
    } else {
        control_step(run_control(s, calls.drop_last()), calls.last().0, calls.last().1)
    }
}

/// The activity bit a sequence of control calls folds to, from a given
/// starting activity: a start sets it, a stop clears it, a toggle flips it
/// — the XOR-fold.
pub open spec fn active_fold(active: bool, calls: Seq<ControlCall>) -> bool
    decreases calls.len(),
{
    if calls.len() == 0 {
        active
    } else {
        match calls.last() {
            ControlCall::Start => true,
            ControlCall::Stop => false,
            ControlCall::Toggle => !active_fold(active, calls.drop_last()),
        }
    }
}

/// Law: after any sequence of start, stop and toggle calls, whether
/// monitoring is active is exactly the fold of those calls over the
/// activity before them — the times of the calls play no part.
pub proof fn lemma_is_active_fold(s: ServiceView, calls: Seq<(ControlCall, u64)>)
    ensures
        run_control(s, calls).is_running == active_fold(
            s.is_running,
            calls.map_values(|c: (ControlCall, u64)| c.0),
        ),
    decreases calls.len(),
{
    let names = calls.map_values(|c: (ControlCall, u64)| c.0);
    if calls.len() > 0 {
        lemma_is_active_fold(s, calls.drop_last());
        assert(calls.drop_last().map_values(|c: (ControlCall, u64)| c.0) =~= names.drop_last());
        assert(names.last() == calls.last().0);
    }
}

/// Law: a sequence of nothing but toggles, folded from inactive, leaves
/// monitoring active exactly when the number of toggles is odd — the
/// XOR-fold of the toggles from an initial false.
pub proof fn lemma_toggle_xor_fold(calls: Seq<ControlCall>)
    requires
        forall|i: int| #![trigger calls[i]] 0 <= i < calls.len() ==> calls[i] is Toggle,
    ensures
        active_fold(false, calls) == (calls.len() % 2 == 1),
    decreases calls.len(),
{
    if calls.len() > 0 {
        assert(forall|i: int| #![trigger calls.drop_last()[i]]
            0 <= i < calls.len() - 1 ==> calls.drop_last()[i] == calls[i]);
        lemma_toggle_xor_fold(calls.drop_last());
    }
}

/// Law: repeating a start changes nothing the first start has not done,
/// whenever the repeat comes.
pub proof fn lemma_start_idempotent(s: ServiceView, first: u64, again: u64)
    ensures
        start_step(start_step(s, first), again) == start_step(s, first),
{
}

/// Law: repeating a stop changes nothing the first stop has not done,
/// whenever the repeat comes.
pub proof fn lemma_stop_idempotent(s: ServiceView, first: u64, again: u64)
    ensures
        stop_step(stop_step(s, first), again) == stop_step(s, first),
{
}

/// Law: once a check has run at `first`, a second check within the minimum
/// interval is dropped by the rate limiter: it changes nothing and issues
/// no command, whatever it would have observed.
pub proof fn lemma_rate_limited_check(
    s: ServiceView,
    first: u64,
    presences1: Seq<bool>,
    playing1: bool,
    again: u64,
    presences2: Seq<bool>,
    playing2: bool,
)
    requires
        check_due_spec(s, first),
        again < first + MIN_CHECK_INTERVAL_SECS,
    ensures
        check_step(check_step(s, first, presences1, playing1), again, presences2, playing2)
            == check_step(s, first, presences1, playing1),
        check_command(check_step(s, first, presences1, playing1), again, presences2, playing2) is None,
{
    let after_first = check_step(s, first, presences1, playing1);
    assert(after_first.last_check_time == first);
}

/// Law: replacing the configuration touches nothing but the watched names
/// — in particular not the reported status — and the next due check builds
/// its snapshot from the new names, where a check before the replacement
/// used the old ones.
pub proof fn lemma_config_update_deferred(
    s: ServiceView,
    names: Seq<Seq<char>>,
    now: u64,
    presences: Seq<bool>,
    playing: bool,
)
    requires
        check_due_spec(s, now),
    ensures
        update_config_step(s, names).status == s.status,
        check_step(update_config_step(s, names), now, presences, playing).status.meeting_status
            == Some(snapshot_of(names, presences, now)),
        check_step(s, now, presences, playing).status.meeting_status
            == Some(snapshot_of(s.process_names, presences, now)),
{
}

/// One detection cycle's observations: when it ran, which watched
/// processes were present, and whether audio was playing.
pub struct Observation {
    pub now: u64,
    pub presences: Seq<bool>,
    pub playing: bool,
}

/// The state after a run of detection cycles, one per observation in
/// order.
pub open spec fn run_checks(s: ServiceView, observations: Seq<Observation>) -> ServiceView
    decreases observations.len(),
{
    if observations.len() == 0 {
        s
    } else {
        let prefix = observations.drop_last();
        let o = observations.last();
        check_step(run_checks(s, prefix), o.now, o.presences, o.playing)
    }
}

/// The commands such a run issues, one slot per cycle.
pub open spec fn check_commands(s: ServiceView, observations: Seq<Observation>) -> Seq<Option<MusicAction>>
    decreases observations.len(),
{
    if observations.len() == 0 {
        Seq::empty()
    } else {
        let prefix = observations.drop_last();
        let o = observations.last();
        check_commands(s, prefix).push(
            check_command(run_checks(s, prefix), o.now, o.presences, o.playing),
        )
    }
}

/// How often a run issues one particular command.
pub open spec fn command_count(commands: Seq<Option<MusicAction>>, action: MusicAction) -> int
    decreases commands.len(),
{
    if commands.len() == 0 {
        0
    } else {
        command_count(commands.drop_last(), action)
            + (if commands.last() == Some(action) { 1int } else { 0int })
    }
}

/// A run issues one command slot per observation.
pub proof fn lemma_check_commands_len(s: ServiceView, observations: Seq<Observation>)
    ensures
        check_commands(s, observations).len() == observations.len(),
    decreases observations.len(),
{
    if observations.len() > 0 {
        lemma_check_commands_len(s, observations.drop_last());
    }
}

/// Observations spaced so that every cycle of the run is due: the first
/// leaves the minimum interval behind the last check, and each further one
/// behind its predecessor.
pub open spec fn well_spaced(s: ServiceView, observations: Seq<Observation>) -> bool {
    &&& observations.len() > 0 ==> observations[0].now >= s.last_check_time + MIN_CHECK_INTERVAL_SECS
    &&& forall|i: int, j: int| #![trigger observations[i], observations[j]]
        0 <= i && j == i + 1 && j < observations.len()
            ==> observations[j].now >= observations[i].now + MIN_CHECK_INTERVAL_SECS
}

/// While the meeting lasts, due checks change no flag and issue no
/// command: activity, the in-meeting mark and the record of earlier music
/// stay as they were, and only the clock of the last check advances.
proof fn lemma_run_in_meeting(s: ServiceView, observations: Seq<Observation>)
    requires
        s.is_running,
        s.was_in_meeting,
        well_spaced(s, observations),
        forall|i: int| #![trigger observations[i]]
            0 <= i < observations.len() ==> in_meeting_of(observations[i].presences),
    ensures
        run_checks(s, observations).is_running,
        run_checks(s, observations).was_in_meeting,
        run_checks(s, observations).music_was_playing_before_meeting
            == s.music_was_playing_before_meeting,
        run_checks(s, observations).last_check_time
            == (if observations.len() == 0 { s.last_check_time } else { observations.last().now }),
        forall|i: int| #![trigger check_commands(s, observations)[i]]
            0 <= i < observations.len() ==> check_commands(s, observations)[i] is None,
    decreases observations.len(),
{
    lemma_check_commands_len(s, observations);
    if observations.len() > 0 {
        let prefix = observations.drop_last();
        assert(forall|i: int| #![trigger prefix[i]] 0 <= i < prefix.len() ==> prefix[i] == observations[i]);
        lemma_run_in_meeting(s, prefix);
        let before_last = run_checks(s, prefix);
        let o = observations.last();
        if prefix.len() > 0 {
            assert(o.now >= observations[prefix.len() - 1].now + MIN_CHECK_INTERVAL_SECS);
        }
        assert(check_due_spec(before_last, o.now));
        assert(in_meeting_of(o.presences));
        lemma_check_commands_len(s, prefix);
        assert(forall|i: int| #![trigger check_commands(s, observations)[i]]
            0 <= i < prefix.len()
                ==> check_commands(s, observations)[i] == check_commands(s, prefix)[i]);
    }
}

/// A run of observations peels from the front: running them all is running
/// the first cycle and then the rest from the state it left, and the
/// commands line up the same way.
proof fn lemma_run_checks_drop_first(s: ServiceView, observations: Seq<Observation>)
    requires
        observations.len() > 0,
    ensures
        run_checks(s, observations) == run_checks(
            check_step(s, observations[0].now, observations[0].presences, observations[0].playing),
            observations.drop_first(),
        ),
        check_commands(s, observations) =~= seq![
            check_command(s, observations[0].now, observations[0].presences, observations[0].playing),
        ] + check_commands(
            check_step(s, observations[0].now, observations[0].presences, observations[0].playing),
            observations.drop_first(),
        ),
    decreases observations.len(),
{
    let s1 = check_step(s, observations[0].now, observations[0].presences, observations[0].playing);
    let rest = observations.drop_first();
    lemma_check_commands_len(s, observations);
    lemma_check_commands_len(s1, rest);
    if observations.len() == 1 {
        assert(observations.drop_last() =~= Seq::<Observation>::empty());
        assert(rest =~= Seq::<Observation>::empty());
    } else {
        let prefix = observations.drop_last();
        lemma_run_checks_drop_first(s, prefix);
        assert(prefix[0] == observations[0]);
        assert(prefix.drop_first() =~= rest.drop_last());
        assert(rest.last() == observations.last());
        lemma_check_commands_len(s, prefix);
        lemma_check_commands_len(s1, prefix.drop_first());
    }
}

/// No slot of an all-`None` command sequence counts.
proof fn lemma_command_count_none(commands: Seq<Option<MusicAction>>, action: MusicAction)
    requires
        forall|i: int| #![trigger commands[i]] 0 <= i < commands.len() ==> commands[i] != Some(action),
    ensures
        command_count(commands, action) == 0,
    decreases commands.len(),
{
    if commands.len() > 0 {
        let prefix = commands.drop_last();
        assert(forall|i: int| #![trigger prefix[i]] 0 <= i < prefix.len() ==> prefix[i] == commands[i]);
        lemma_command_count_none(prefix, action);
    }
}

/// A command sequence whose one slot `k` holds the action, and no other
/// slot does, counts it once.
proof fn lemma_command_count_single(commands: Seq<Option<MusicAction>>, action: MusicAction, k: int)
    requires
        0 <= k < commands.len(),
        commands[k] == Some(action),
        forall|i: int| #![trigger commands[i]]
            0 <= i < commands.len() && i != k ==> commands[i] != Some(action),
    ensures
        command_count(commands, action) == 1,
    decreases commands.len(),
{
    let prefix = commands.drop_last();
    assert(forall|i: int| #![trigger prefix[i]] 0 <= i < prefix.len() ==> prefix[i] == commands[i]);
    if k == commands.len() - 1 {
        lemma_command_count_none(prefix, action);
    } else {
        lemma_command_count_single(prefix, action, k);
    }
}

/// Law: when music plays as a meeting starts, the run pauses it on the
/// start edge, issues a resume exactly once — on the matching end edge —
/// and the record that music had been playing is false immediately after,
/// whatever became of the command.
pub proof fn lemma_resume_exactly_once(s: ServiceView, observations: Seq<Observation>)
    requires
        s.is_running,
        !s.was_in_meeting,
        observations.len() >= 2,
        well_spaced(s, observations),
        in_meeting_of(observations[0].presences),
        observations[0].playing,
        forall|i: int| #![trigger observations[i]]
            1 <= i < observations.len() - 1 ==> in_meeting_of(observations[i].presences),
        !in_meeting_of(observations.last().presences),
    ensures
        check_commands(s, observations)[0] == Some(MusicAction::Pause),
        check_commands(s, observations).last() == Some(MusicAction::Play),
        command_count(check_commands(s, observations), MusicAction::Play) == 1,
        !run_checks(s, observations).music_was_playing_before_meeting,
        !run_checks(s, observations).was_in_meeting,
{
    let o0 = observations[0];
    let s1 = check_step(s, o0.now, o0.presences, o0.playing);
    let rest = observations.drop_first();
    let middle = rest.drop_last();
    let olast = observations.last();
    lemma_check_commands_len(s, observations);
    lemma_check_commands_len(s1, rest);
    lemma_check_commands_len(s1, middle);
    lemma_run_checks_drop_first(s, observations);
    assert(check_due_spec(s, o0.now));
    assert(s1.was_in_meeting && s1.music_was_playing_before_meeting && s1.is_running);
    assert(s1.last_check_time == o0.now);
    assert(check_command(s, o0.now, o0.presences, o0.playing) == Some(MusicAction::Pause));

    assert(forall|i: int| #![trigger rest[i]] 0 <= i < rest.len() ==> rest[i] == observations[i + 1]);
    assert(forall|i: int| #![trigger middle[i]] 0 <= i < middle.len() ==> middle[i] == observations[i + 1]);
    assert(well_spaced(s1, middle)) by {
        if middle.len() > 0 {
            assert(middle[0] == observations[1]);
            assert(observations[1].now >= observations[0].now + MIN_CHECK_INTERVAL_SECS);
        }
    }
    lemma_run_in_meeting(s1, middle);
    let before_last = run_checks(s1, middle);
    assert(check_due_spec(before_last, olast.now)) by {
        if middle.len() == 0 {
            assert(observations[1].now >= observations[0].now + MIN_CHECK_INTERVAL_SECS);
            assert(rest.last() == olast);
        } else {
            assert(middle.last() == observations[observations.len() - 2]);
            assert(olast.now >= observations[observations.len() - 2].now + MIN_CHECK_INTERVAL_SECS);
        }
    }
    assert(rest.drop_last() =~= middle);
    assert(rest.last() == olast);
    assert(check_command(before_last, olast.now, olast.presences, olast.playing)
        == Some(MusicAction::Play));
    assert(run_checks(s, observations) == check_step(before_last, olast.now, olast.presences, olast.playing));

    let cmds = check_commands(s, observations);
    assert(cmds[0] == Some(MusicAction::Pause));
    assert(cmds.last() == Some(MusicAction::Play));
    assert(forall|i: int| #![trigger cmds[i]] 1 <= i < cmds.len() - 1 ==> cmds[i] is None) by {
        assert(forall|i: int| #![trigger check_commands(s1, middle)[i]]
            0 <= i < middle.len() ==> check_commands(s1, rest)[i] == check_commands(s1, middle)[i]);
    }
    lemma_command_count_single(cmds, MusicAction::Play, cmds.len() - 1);
}

/// Law: playback already paused when the meeting starts is left alone for
/// the whole episode — no pause on the start edge, no resume on the end
/// edge, no command at all — and the record that music had been playing
/// stays false.
pub proof fn lemma_no_resume_when_music_paused(s: ServiceView, observations: Seq<Observation>)
    requires
        s.is_running,
        !s.was_in_meeting,
        !s.music_was_playing_before_meeting,
        observations.len() >= 2,
        well_spaced(s, observations),
        in_meeting_of(observations[0].presences),
        !observations[0].playing,
        forall|i: int| #![trigger observations[i]]
            1 <= i < observations.len() - 1 ==> in_meeting_of(observations[i].presences),
        !in_meeting_of(observations.last().presences),
    ensures
        forall|i: int| #![trigger check_commands(s, observations)[i]]
            0 <= i < observations.len() ==> check_commands(s, observations)[i] is None,
        command_count(check_commands(s, observations), MusicAction::Play) == 0,
        !run_checks(s, observations).music_was_playing_before_meeting,
        !run_checks(s, observations).was_in_meeting,
{
    let o0 = observations[0];
    let s1 = check_step(s, o0.now, o0.presences, o0.playing);
    let rest = observations.drop_first();
    let middle = rest.drop_last();
    let olast = observations.last();
    lemma_check_commands_len(s, observations);
    lemma_check_commands_len(s1, rest);
    lemma_check_commands_len(s1, middle);
    lemma_run_checks_drop_first(s, observations);
    assert(check_due_spec(s, o0.now));
    assert(s1.was_in_meeting && !s1.music_was_playing_before_meeting && s1.is_running);
    assert(check_command(s, o0.now, o0.presences, o0.playing) is None);

    assert(forall|i: int| #![trigger rest[i]] 0 <= i < rest.len() ==> rest[i] == observations[i + 1]);
    assert(forall|i: int| #![trigger middle[i]] 0 <= i < middle.len() ==> middle[i] == observations[i + 1]);
    assert(well_spaced(s1, middle)) by {
        if middle.len() > 0 {
            assert(middle[0] == observations[1]);
            assert(observations[1].now >= observations[0].now + MIN_CHECK_INTERVAL_SECS);
        }
    }
    lemma_run_in_meeting(s1, middle);
    let before_last = run_checks(s1, middle);
    assert(check_due_spec(before_last, olast.now)) by {
        if middle.len() == 0 {
            assert(observations[1].now >= observations[0].now + MIN_CHECK_INTERVAL_SECS);
            assert(rest.last() == olast);
        } else {
            assert(middle.last() == observations[observations.len() - 2]);
            assert(olast.now >= observations[observations.len() - 2].now + MIN_CHECK_INTERVAL_SECS);
        }
    }
    assert(rest.drop_last() =~= middle);
    assert(rest.last() == olast);
    assert(check_command(before_last, olast.now, olast.presences, olast.playing) is None);

    let cmds = check_commands(s, observations);
    assert(forall|i: int| #![trigger cmds[i]] 0 <= i < cmds.len() ==> cmds[i] is None) by {
        assert(forall|i: int| #![trigger check_commands(s1, middle)[i]]
            0 <= i < middle.len() ==> check_commands(s1, rest)[i] == check_commands(s1, middle)[i]);
    }
    assert(forall|i: int| #![trigger cmds[i]]
        0 <= i < cmds.len() ==> cmds[i] != Some(MusicAction::Play));
    lemma_command_count_none(cmds, MusicAction::Play);
}

} // verus!
