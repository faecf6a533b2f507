//! Playback probing and control policy.
//!
//! Whether audio is playing is probed through a ranked chain of OS
//! strategies, each answering playing, not playing, or unknown; the first
//! usable answer wins and a chain with no usable answer collapses to "not
//! playing", never to an error. A play or pause command likewise runs an
//! ordered fallback chain of OS mechanisms: the first stage that succeeds
//! answers, and only when every stage fails does the command fail, with the
//! last stage's error. Running the OS strategies happens outside the
//! library; this module fixes what their answers mean.

use vstd::prelude::*;

verus! {

/// Whether audio was playing when the probe chain ran.
#[derive(Debug, Clone)]
pub struct MusicStatus {
    pub is_playing: bool,
}

impl View for MusicStatus {
    type V = bool;

    open spec fn view(&self) -> bool {
        self.is_playing
    }
}

/// A playback command.
#[derive(Clone, Copy, Debug, PartialEq, Eq, Structural)]
pub enum MusicAction {
    Play,
    Pause,
}

/// One probe strategy's answer: a definite answer, or unknown when the
/// strategy could not tell (its mechanism absent or erroring).
#[derive(Clone, Copy, Debug, PartialEq, Eq, Structural)]
pub enum ProbeSignal {
    Playing,
    NotPlaying,
    Unknown,
}

/// What a ranked probe chain concludes: the first definite answer decides;
/// a chain of nothing but unknowns means "not playing".
pub open spec fn probe_conclusion(signals: Seq<ProbeSignal>) -> bool
    decreases signals.len(),
{
    if signals.len() == 0 {
        false
    } else {
        match signals[0] {
            ProbeSignal::Playing => true,
            ProbeSignal::NotPlaying => false,
            ProbeSignal::Unknown => probe_conclusion(signals.drop_first()),
        }
    }
}

/// The image of a command stage's outcome.
pub open spec fn outcome_view(outcome: Result<String, String>) -> Result<Seq<char>, Seq<char>> {
    match outcome {
        Ok(message) => Ok(message@),
        Err(error) => Err(error@),
    }
}

/// What an ordered fallback chain of command stages answers: the first
/// success, or, when every stage failed, the last stage's error.
pub open spec fn chain_outcome(outcomes: Seq<Result<Seq<char>, Seq<char>>>) -> Result<Seq<char>, Seq<char>>
    decreases outcomes.len(),
{
    if outcomes.len() == 0 {
        Err(Seq::empty())
    } else if outcomes[0] is Ok || outcomes.len() == 1 {
        outcomes[0]
    } else {
        chain_outcome(outcomes.drop_first())
    }
}

/// The images of a sequence of command stage outcomes.
pub open spec fn outcome_views(outcomes: Seq<Result<String, String>>) -> Seq<Result<Seq<char>, Seq<char>>> {
    outcomes.map_values(|outcome: Result<String, String>| outcome_view(outcome))
}

/// Issues best-effort play and pause commands through whatever OS mechanism
/// answers first.
pub struct MusicController;

impl MusicController {
    pub fn new() -> (r: Self) {
        MusicController
    }

    /// Collapses one round of probe answers, ranked most authoritative
    /// first, to the playback status of this cycle.
    pub fn get_music_status(&self, signals: &Vec<ProbeSignal>) -> (r: MusicStatus)
        ensures
            r@ == probe_conclusion(signals@),
    {
        let n = signals.len();
        let mut i: usize = 0;
        proof {
            assert(signals@.subrange(0, n as int) =~= signals@);
        }
        while i < n
            invariant
                i <= n,
                n == signals@.len(),
                probe_conclusion(signals@) == probe_conclusion(signals@.subrange(i as int, n as int)),
            decreases n - i,
        {
            proof {
                assert(signals@.subrange(i as int, n as int)[0] == signals@[i as int]);
                assert(signals@.subrange(i as int, n as int).drop_first() =~= signals@.subrange(i + 1, n as int));
            }
            match signals[i] {
                ProbeSignal::Playing => {
                    return MusicStatus { is_playing: true };
                },
                ProbeSignal::NotPlaying => {
                    return MusicStatus { is_playing: false };
                },
                ProbeSignal::Unknown => {},
            }
            i = i + 1;
        }
        proof {
            assert(signals@.subrange(n as int, n as int) =~= Seq::<ProbeSignal>::empty());
        }
        MusicStatus { is_playing: false }
    }

    /// Resolves the recorded outcomes of the play command's fallback
    /// stages, ordered as the stages ran.
    pub fn play_music(&self, stage_outcomes: &Vec<Result<String, String>>) -> (r: Result<String, String>)
        requires
            stage_outcomes@.len() >= 1,
        ensures
            outcome_view(r) == chain_outcome(outcome_views(stage_outcomes@)),
    {
        self.resolve_command_chain(stage_outcomes)
    }

    /// Resolves the recorded outcomes of the pause command's fallback
    /// stages, ordered as the stages ran.
    pub fn pause_music(&self, stage_outcomes: &Vec<Result<String, String>>) -> (r: Result<String, String>)
        requires
            stage_outcomes@.len() >= 1,
        ensures
            outcome_view(r) == chain_outcome(outcome_views(stage_outcomes@)),
    {
        self.resolve_command_chain(stage_outcomes)
    }

    /// Dispatches a command to its fallback chain resolution.
    pub fn execute_action(&self, action: MusicAction, stage_outcomes: &Vec<Result<String, String>>) -> (r: Result<String, String>)
        requires
            stage_outcomes@.len() >= 1,
        ensures
            outcome_view(r) == chain_outcome(outcome_views(stage_outcomes@)),
    {
        match action {
            MusicAction::Play => self.play_music(stage_outcomes),
            MusicAction::Pause => self.pause_music(stage_outcomes),
        }
    }

    fn resolve_command_chain(&self, stage_outcomes: &Vec<Result<String, String>>) -> (r: Result<String, String>)
        requires
            stage_outcomes@.len() >= 1,
        ensures
            outcome_view(r) == chain_outcome(outcome_views(stage_outcomes@)),
    {
        let n = stage_outcomes.len();
        let mut i: usize = 0;
        proof {
            assert(outcome_views(stage_outcomes@).subrange(0, n as int) =~= outcome_views(stage_outcomes@));
        }
        while i < n - 1
            invariant
                i < n,
                n == stage_outcomes@.len(),
                n >= 1,
                chain_outcome(outcome_views(stage_outcomes@))
                    == chain_outcome(outcome_views(stage_outcomes@).subrange(i as int, n as int)),
            decreases n - i,
        {
            proof {
                assert(outcome_views(stage_outcomes@).subrange(i as int, n as int)[0]
                    == outcome_view(stage_outcomes@[i as int]));
                assert(outcome_views(stage_outcomes@).subrange(i as int, n as int).drop_first()
                    =~= outcome_views(stage_outcomes@).subrange(i + 1, n as int));
            }
            match &stage_outcomes[i] {
                Ok(message) => {
                    return Ok(message.clone());
                },
                Err(_) => {},
            }
            i = i + 1;
        }
        proof {
            assert(outcome_views(stage_outcomes@).subrange(i as int, n as int)[0]
                == outcome_view(stage_outcomes@[i as int]));
            assert(outcome_views(stage_outcomes@).subrange(i as int, n as int).len() == 1);
        }
        match &stage_outcomes[n - 1] {
            Ok(message) => Ok(message.clone()),
            Err(error) => Err(error.clone()),
        }
    }
}

impl Default for MusicController {
    fn default() -> (r: Self) {
        MusicController::new()
    }
}

} // verus!
