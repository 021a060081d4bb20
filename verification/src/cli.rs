//! Command line arguments, as plain values.

use vstd::prelude::*;

verus! {

/// Media Organizer - organize video files with AI.
#[derive(Debug)]
pub struct Cli {
    /// Enable verbose output.
    pub verbose: bool,
    /// Skip preflight checks.
    pub skip_preflight: bool,
    pub command: Commands,
}

/// The subcommands.
#[derive(Debug)]
pub enum Commands {
    /// Generate an organization plan.
    Plan { media_type: PlanType },
    /// Execute a plan file.
    Execute {
        /// Path to the plan.json file.
        plan_file: String,
        /// Output path for rollback.json.
        output: Option<String>,
    },
    /// Roll back a previous execution.
    Rollback {
        /// Path to the rollback.json file.
        rollback_file: String,
        /// Dry run: show what would be done.
        dry_run: bool,
    },
    /// Manage sessions.
    Sessions { action: SessionsAction },
    /// Verify video file integrity.
    Verify {
        /// Path to verify.
        path: String,
    },
}

/// What to plan for.
#[derive(Debug)]
pub enum PlanType {
    /// Plan for movies.
    Movies { source: String, target: Option<String>, output: Option<String> },
    /// Plan for TV shows.
    Tvshows { source: String, target: Option<String>, output: Option<String> },
}

/// Session actions.
#[derive(Debug)]
pub enum SessionsAction {
    /// List all sessions.
    List,
    /// Show details of a specific session.
    Show { session_id: String },
}

} // verus!
