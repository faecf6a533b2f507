//! The application-level configuration value.
//!
//! Loading and saving it is a persistence concern outside the library; the
//! coordination logic only needs the in-memory value.

use vstd::prelude::*;
use crate::meeting_detector::MeetingConfig;
use crate::meeting_detector::default_process_names;

verus! {

/// Everything the application persists: currently just the meeting
/// detection settings.
#[derive(Debug, Clone)]
pub struct AppConfig {
    pub meeting_config: MeetingConfig,
}

impl View for AppConfig {
    type V = Seq<Seq<char>>;

    open spec fn view(&self) -> Seq<Seq<char>> {
        self.meeting_config@
    }
}

impl Default for AppConfig {
    fn default() -> (r: Self)
        ensures
            r@ == default_process_names(),
    {
        AppConfig { meeting_config: MeetingConfig::default() }
    }
}

} // verus!
