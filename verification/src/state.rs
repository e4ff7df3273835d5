//! The state the application's commands share: the configuration and the
//! capabilities of the platform it runs on.
use vstd::prelude::*;

use crate::commands::{mark_applied, mark_cleared};
use crate::models::{AppConfig, CommandResult, PlatformCapabilities};

verus! {

/// Shared application state. The application keeps it behind a lock; the
/// configuration is loaded and the capabilities are detected at start.
pub struct AppState {
    pub config: AppConfig,
    pub caps: PlatformCapabilities,
}

impl AppState {
    /// The state for a loaded configuration and the detected capabilities.
    pub fn new(config: AppConfig, caps: PlatformCapabilities) -> (s: Self)
        ensures
            s.config == config,
            s.caps == caps,
    {
        AppState { config, caps }
    }

    /// Record the result of applying the profile `profile_id`: a successful
    /// change makes it the active profile and marks DNS as connected; a
    /// failed one changes nothing.
    pub fn record_apply(&mut self, profile_id: &str, result: &CommandResult)
        ensures
            final(self).caps == old(self).caps,
            !result.ok ==> final(self).config == old(self).config,
            result.ok ==> final(self).config.active_profile_id.deep_view() == Some(profile_id@),
            result.ok ==> final(self).config == (AppConfig {
                active_profile_id: final(self).config.active_profile_id,
                is_connected: true,
                ..old(self).config
            }),
    {
        if result.ok {
            mark_applied(&mut self.config, profile_id);
        }
    }

    /// Record the result of resetting DNS to automatic: a successful change
    /// clears the active profile and the connected mark; a failed one changes
    /// nothing.
    pub fn record_clear(&mut self, result: &CommandResult)
        ensures
            final(self).caps == old(self).caps,
            !result.ok ==> final(self).config == old(self).config,
            result.ok ==> final(self).config == (AppConfig {
                active_profile_id: None,
                is_connected: false,
                ..old(self).config
            }),
    {
        if result.ok {
            mark_cleared(&mut self.config);
        }
    }
}

} // verus!
