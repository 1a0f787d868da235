//! The plain data carried in the tool's structured command output.
//!
//! These records hold only plain values; the envelope that serializes
//! them and prints them lives with the tool's I/O, outside this
//! crate.

use vstd::prelude::*;

verus! {

/// The outcome of checking the whole development environment.
pub struct EnvCheckResult {
    /// `"ok"`, `"warnings"`, or `"errors"`.
    pub overall_status: String,
    pub checks: Vec<EnvCheck>,
    pub summary: String,
}

/// The outcome of checking one development tool.
pub struct EnvCheck {
    pub name: String,
    pub ok: bool,
    pub version: Option<String>,
    pub error: Option<String>,
    pub fix: Option<String>,
    /// The platforms that need this tool: `"ios"`, `"android"`, or
    /// both; empty for optional tools.
    pub required_for: Vec<String>,
}

/// The React Native version found in the project.
pub struct RnVersionResult {
    pub version: String,
    /// `"npm"` or `"yarn"`.
    pub package_manager: String,
    pub notes: Vec<String>,
}

/// The available iOS simulators.
pub struct SimulatorListResult {
    pub simulators: Vec<Simulator>,
}

/// One iOS simulator.
pub struct Simulator {
    pub name: String,
    pub udid: String,
    /// `"Booted"` or `"Shutdown"`.
    pub state: String,
    pub runtime: String,
}

/// The available Android emulators.
pub struct EmulatorListResult {
    pub emulators: Vec<String>,
}

/// The outcome of a simple action.
pub struct ActionResult {
    pub action: String,
    pub message: String,
}

/// The outcome of taking a screenshot.
pub struct ScreenshotResult {
    pub platform: String,
    pub path: String,
    pub message: String,
}

/// The outcome of a self-update check.
pub struct UpdateResultOutput {
    pub current_version: String,
    pub latest_version: String,
    pub updated: bool,
    pub message: String,
}

} // verus!
