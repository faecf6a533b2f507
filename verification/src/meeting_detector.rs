//! Detection of running meeting applications.
//!
//! A `MeetingDetector` holds the configured list of process names and turns
//! one round of per-process presence answers into a `MeetingStatus` snapshot.
//! Matching against the live process table is an OS query and happens outside
//! the library; `exact_match_pattern` builds the anchored, escaped pattern
//! such a query must use so that names match exactly, never as substrings.

use vstd::prelude::*;

verus! {

/// One configured meeting application and whether it was seen running in the
/// current detection cycle.
#[derive(Debug, Clone)]
pub struct MeetingApp {
    pub name: String,
    pub process_name: String,
    pub is_running: bool,
}

/// Mathematical image of a `MeetingApp`.
pub struct MeetingAppView {
    pub name: Seq<char>,
    pub process_name: Seq<char>,
    pub is_running: bool,
}

impl View for MeetingApp {
    type V = MeetingAppView;

    open spec fn view(&self) -> MeetingAppView {
        MeetingAppView {
            name: self.name@,
            process_name: self.process_name@,
            is_running: self.is_running,
        }
    }
}

/// Snapshot of one detection cycle: the aggregate in-meeting answer, the
/// per-application answers, and when the cycle ran.
#[derive(Debug, Clone)]
pub struct MeetingStatus {
    pub in_meeting: bool,
    pub active_apps: Vec<MeetingApp>,
    pub timestamp: u64,
}

/// Mathematical image of a `MeetingStatus`.
#[verifier::ext_equal]
pub struct MeetingStatusView {
    pub in_meeting: bool,
    pub active_apps: Seq<MeetingAppView>,
    pub timestamp: u64,
}

impl View for MeetingStatus {
    type V = MeetingStatusView;

    open spec fn view(&self) -> MeetingStatusView {
        MeetingStatusView {
            in_meeting: self.in_meeting,
            active_apps: self.active_apps@.map_values(|a: MeetingApp| a@),
            timestamp: self.timestamp,
        }
    }
}

/// The ordered list of process names that count as meetings.
#[derive(Debug, Clone)]
pub struct MeetingConfig {
    pub process_names: Vec<String>,
}

impl View for MeetingConfig {
    type V = Seq<Seq<char>>;

    open spec fn view(&self) -> Seq<Seq<char>> {
        self.process_names@.map_values(|s: String| s@)
    }
}

/// The process names watched when nothing else has been configured.
pub open spec fn default_process_names() -> Seq<Seq<char>> {
    seq!["Lark Helper (Iron)"@, "TencentMeeting"@]
}

impl Default for MeetingConfig {
    fn default() -> (r: Self)
        ensures
            r@ == default_process_names(),
    {
        let names = vec![
            String::from_str("Lark Helper (Iron)"),
            String::from_str("TencentMeeting"),
        ];
        let r = MeetingConfig { process_names: names };
        proof {
            assert(r@ =~= default_process_names());
        }
        r
    }
}

/// Whether any configured application was present: the OR over one cycle's
/// presence answers.
pub open spec fn in_meeting_of(presences: Seq<bool>) -> bool {
    exists|i: int| 0 <= i < presences.len() && presences[i]
}

/// The snapshot one detection cycle produces from the configured names and
/// their presence answers.
pub open spec fn snapshot_of(names: Seq<Seq<char>>, presences: Seq<bool>, timestamp: u64) -> MeetingStatusView {
    MeetingStatusView {
        in_meeting: in_meeting_of(presences),
        active_apps: Seq::new(
            names.len(),
            |i: int| MeetingAppView { name: names[i], process_name: names[i], is_running: presences[i] },
        ),
        timestamp,
    }
}

/// Extending the presence answers by one extends their OR by that answer.
proof fn lemma_in_meeting_push(presences: Seq<bool>, b: bool)
    ensures
        in_meeting_of(presences.push(b)) == (in_meeting_of(presences) || b),
{
    let pushed = presences.push(b);
    if b {
        assert(pushed[presences.len() as int]);
    }
    if in_meeting_of(presences) {
        let i = choose|i: int| 0 <= i < presences.len() && presences[i];
        assert(pushed[i]);
    }
    if in_meeting_of(pushed) && !b {
        let i = choose|i: int| 0 <= i < pushed.len() && pushed[i];
        assert(presences[i]);
    }
}

/// Holds the configured names and builds detection snapshots.
pub struct MeetingDetector {
    config: MeetingConfig,
}

impl View for MeetingDetector {
    type V = Seq<Seq<char>>;

    closed spec fn view(&self) -> Seq<Seq<char>> {
        self.config@
    }
}

impl MeetingDetector {
    /// A detector watching the default process names.
    pub fn new() -> (r: Self)
        ensures
            r@ == default_process_names(),
    {
        MeetingDetector { config: MeetingConfig::default() }
    }

    /// Replaces the watched names; the next detection cycle uses the new list.
    pub fn update_config(&mut self, config: MeetingConfig)
        ensures
            final(self)@ == config@,
    {
        self.config = config;
    }

    pub fn get_config(&self) -> (r: &MeetingConfig)
        ensures
            r@ == self@,
    {
        &self.config
    }

    /// Builds the snapshot for one detection cycle. `presences` holds, in
    /// configuration order, whether each watched process was seen running;
    /// the snapshot's aggregate answer is their OR.
    pub fn detect_meetings(&self, presences: &Vec<bool>, timestamp: u64) -> (r: MeetingStatus)
        requires
            presences@.len() == self@.len(),
        ensures
            r@ == snapshot_of(self@, presences@, timestamp),
    {
        let mut active_apps: Vec<MeetingApp> = Vec::new();
        let mut in_meeting = false;
        let n = self.config.process_names.len();
        for i in 0..n
            invariant
                n == self.config.process_names.len(),
                presences@.len() == self@.len(),
                active_apps@.len() == i,
                forall|j: int| 0 <= j < i ==> active_apps@[j]@ == (MeetingAppView {
                    name: self@[j],
                    process_name: self@[j],
                    is_running: presences@[j],
                }),
                in_meeting == in_meeting_of(presences@.subrange(0, i as int)),
        {
            let is_running = presences[i];
            active_apps.push(MeetingApp {
                name: self.config.process_names[i].clone(),
                process_name: self.config.process_names[i].clone(),
                is_running,
            });
            if is_running {
                in_meeting = true;
            }
            proof {
                assert(presences@.subrange(0, i + 1) =~= presences@.subrange(0, i as int).push(presences@[i as int]));
                lemma_in_meeting_push(presences@.subrange(0, i as int), presences@[i as int]);
            }
        }
        let r = MeetingStatus { in_meeting, active_apps, timestamp };
        proof {
            assert(presences@.subrange(0, presences@.len() as int) =~= presences@);
            assert(r@ =~~= snapshot_of(self@, presences@, timestamp));
        }
        r
    }
}

impl Default for MeetingDetector {
    fn default() -> (r: Self)
        ensures
            r@ == default_process_names(),
    {
        MeetingDetector::new()
    }
}

/// True of the characters that carry meaning in a regex pattern.
pub open spec fn regex_meta_char(c: char) -> bool {
    c == '\\' || c == '.' || c == '+' || c == '*' || c == '?' || c == '(' || c == ')'
        || c == '|' || c == '[' || c == ']' || c == '{' || c == '}' || c == '^' || c == '$'
        || c == '#' || c == '&' || c == '-' || c == '~'
}

/// The characters of `s` with a backslash put before each regex meta
/// character, so that the result matches `s` literally inside a pattern.
pub open spec fn regex_escaped(s: Seq<char>) -> Seq<char>
    decreases s.len(),
{
    if s.len() == 0 {
        Seq::empty()
    } else {
        (if regex_meta_char(s[0]) {
            seq!['\\', s[0]]
        } else {
            seq![s[0]]
        }) + regex_escaped(s.subrange(1, s.len() as int))
    }
}

/// Relies on regex::escape: it walks the characters in order and puts a
/// backslash before each regex meta character, leaving every other character
/// unchanged.
#[verifier::external_body]
fn escape_regex_literal(s: &str) -> (r: String)
    ensures
        r@ == regex_escaped(s@),
{
    regex::escape(s)
}

/// The pattern an OS process query must use so that `name` matches a process
/// name exactly: the name escaped to a literal, anchored at both ends.
pub fn exact_match_pattern(name: &str) -> (r: String)
    ensures
        r@ == seq!['^'] + regex_escaped(name@) + seq!['$'],
{
    let escaped = escape_regex_literal(name);
    let r = String::from_str("^").concat(escaped.as_str()).concat("$");
    proof {
        reveal_strlit("^");
        reveal_strlit("$");
        assert(r@ =~= seq!['^'] + regex_escaped(name@) + seq!['$']);
    }
    r
}

} // verus!
