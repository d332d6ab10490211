//! Lifecycle of the Swift accessibility agent on an iOS Simulator: the
//! `xcodebuild` and `simctl` commands that build, launch and stop it, how
//! their outcomes are classified, and when a startup attempt is retried.
//!
//! Running the commands, polling and sleeping are left to the caller; the
//! decisions between them stand here. Durations are held in nanoseconds.

use vstd::prelude::*;
use crate::android_lifecycle::strings_are;
use crate::config::path_exists;
use crate::io_error::io_error_text;
use crate::text::{join_path, join_path_exec, push_str, starts_with};

verus! {

/// The Xcode project of the agent, inside its project directory.
pub open spec fn xcodeproj_name() -> Seq<char> {
    "QorvexAgent.xcodeproj"@
}

/// The derived-data directory of the build, inside the project directory.
pub open spec fn derived_data_name() -> Seq<char> {
    ".build"@
}

/// Configuration for the agent lifecycle manager.
#[derive(Debug, Clone)]
pub struct AgentLifecycleConfig {
    /// Path to the Swift agent project directory (containing the `.xcodeproj`).
    pub project_dir: String,
    /// TCP port the agent listens on.
    pub agent_port: u16,
    /// Maximum time to wait for the agent to become ready, in nanoseconds.
    pub startup_timeout_nanos: u128,
    /// Maximum number of launch retries before giving up.
    pub max_retries: u32,
}

impl AgentLifecycleConfig {
    /// A configuration for the given project: port 8080, a 30 s startup
    /// timeout, 3 retries.
    pub fn new(project_dir: String) -> (r: Self)
        ensures
            r.project_dir == project_dir,
            r.agent_port == 8080,
            r.startup_timeout_nanos == 30_000_000_000,
            r.max_retries == 3,
    {
        AgentLifecycleConfig {
            project_dir,
            agent_port: 8080,
            startup_timeout_nanos: 30_000_000_000,
            max_retries: 3,
        }
    }
}

/// Errors of the agent lifecycle.
#[derive(Debug)]
pub enum AgentLifecycleError {
    /// The agent project directory or `.xcodeproj` was not found.
    ProjectNotFound(String),
    /// `xcodebuild build-for-testing` failed.
    BuildFailed(String),
    /// `xcodebuild test-without-building` failed to spawn.
    LaunchFailed(String),
    /// The agent did not answer a heartbeat within the startup timeout.
    StartupTimeout,
    /// An operation needs the agent to be running.
    NotRunning,
    /// An I/O error occurred.
    Io(std::io::Error),
}

/// The text of a lifecycle error; for an I/O error, the prefix before the
/// platform's own text.
pub open spec fn agent_lifecycle_error_message(e: AgentLifecycleError) -> Seq<char> {
    match e {
        AgentLifecycleError::ProjectNotFound(p) => "Agent project not found: "@ + p@,
        AgentLifecycleError::BuildFailed(m) => "Failed to build agent: "@ + m@,
        AgentLifecycleError::LaunchFailed(m) => "Failed to launch agent: "@ + m@,
        AgentLifecycleError::StartupTimeout => "Agent failed to become ready within timeout"@,
        AgentLifecycleError::NotRunning => "Agent is not running"@,
        AgentLifecycleError::Io(_) => "IO error: "@,
    }
}

impl AgentLifecycleError {
    /// The human-readable description of the error.
    pub fn message(&self) -> (r: String)
        ensures
            self is Io ==> starts_with(r@, agent_lifecycle_error_message(*self)),
            !(self is Io) ==> r@ == agent_lifecycle_error_message(*self),
    {
        match self {
            AgentLifecycleError::ProjectNotFound(p) => {
                let mut s = String::from_str("Agent project not found: ");
                push_str(&mut s, p.as_str());
                s
            },
            AgentLifecycleError::BuildFailed(m) => {
                let mut s = String::from_str("Failed to build agent: ");
                push_str(&mut s, m.as_str());
                s
            },
            AgentLifecycleError::LaunchFailed(m) => {
                let mut s = String::from_str("Failed to launch agent: ");
                push_str(&mut s, m.as_str());
                s
            },
            AgentLifecycleError::StartupTimeout => String::from_str(
                "Agent failed to become ready within timeout",
            ),
            AgentLifecycleError::NotRunning => String::from_str("Agent is not running"),
            AgentLifecycleError::Io(err) => {
                let mut s = String::from_str("IO error: ");
                let ghost pre = s@;
                let t = io_error_text(err);
                push_str(&mut s, t.as_str());
                assert(s@.subrange(0, pre.len() as int) =~= pre);
                s
            },
        }
    }
}

/// The arguments of `xcodebuild build-for-testing`.
pub open spec fn build_args(project_dir: Seq<char>, udid: Seq<char>) -> Seq<Seq<char>> {
    seq![
        "build-for-testing"@,
        "-project"@,
        join_path(project_dir, xcodeproj_name()),
        "-scheme"@,
        "QorvexAgentUITests"@,
        "-destination"@,
        "id="@ + udid,
        "-derivedDataPath"@,
        join_path(project_dir, derived_data_name()),
    ]
}

/// The arguments of `xcodebuild test-without-building` that launch the agent.
pub open spec fn launch_args(project_dir: Seq<char>, udid: Seq<char>) -> Seq<Seq<char>> {
    seq![
        "test-without-building"@,
        "-project"@,
        join_path(project_dir, xcodeproj_name()),
        "-scheme"@,
        "QorvexAgentUITests"@,
        "-destination"@,
        "id="@ + udid,
        "-derivedDataPath"@,
        join_path(project_dir, derived_data_name()),
        "-only-testing"@,
        "QorvexAgentUITests/QorvexAgentTests/testRunAgent"@,
    ]
}

/// The arguments of `xcrun` that terminate the agent app on the simulator.
pub open spec fn terminate_args(udid: Seq<char>) -> Seq<Seq<char>> {
    seq!["simctl"@, "terminate"@, udid, "com.qorvex.agent"@]
}

fn destination(udid: &str) -> (r: String)
    ensures
        r@ == "id="@ + udid@,
{
    let mut s = String::from_str("id=");
    push_str(&mut s, udid);
    s
}

impl AgentLifecycleConfig {
    /// Path to the `.xcodeproj` inside the project directory.
    pub fn xcodeproj_path(&self) -> (r: String)
        ensures
            r@ == join_path(self.project_dir@, xcodeproj_name()),
    {
        join_path_exec(self.project_dir.as_str(), "QorvexAgent.xcodeproj")
    }

    /// Checks before a build, given whether the project directory and its
    /// `.xcodeproj` exist: each missing one is a project-not-found error
    /// naming it.
    pub fn build_preflight_given(&self, project_exists: bool, xcodeproj_exists: bool) -> (r:
        Result<(), AgentLifecycleError>)
        ensures
            !project_exists ==> (r matches Err(AgentLifecycleError::ProjectNotFound(p)) && p@
                == self.project_dir@),
            project_exists && !xcodeproj_exists ==> (r matches Err(
                AgentLifecycleError::ProjectNotFound(p),
            ) && p@ == join_path(self.project_dir@, xcodeproj_name())),
            project_exists && xcodeproj_exists ==> r is Ok,
    {
        if !project_exists {
            return Err(AgentLifecycleError::ProjectNotFound(self.project_dir.clone()));
        }
        if !xcodeproj_exists {
            return Err(AgentLifecycleError::ProjectNotFound(self.xcodeproj_path()));
        }
        Ok(())
    }

    /// Checks on the filesystem that the project directory and its
    /// `.xcodeproj` exist (see [`Self::build_preflight_given`]).
    pub fn build_preflight(&self) -> (r: Result<(), AgentLifecycleError>)
        ensures
            r is Ok || (r matches Err(AgentLifecycleError::ProjectNotFound(p)) && (p@
                == self.project_dir@ || p@ == join_path(self.project_dir@, xcodeproj_name()))),
    {
        let project_exists = path_exists(self.project_dir.as_str());
        let xcodeproj_exists = if project_exists {
            let x = self.xcodeproj_path();
            path_exists(x.as_str())
        } else {
            false
        };
        self.build_preflight_given(project_exists, xcodeproj_exists)
    }

    /// The arguments of the build for the simulator `udid`.
    pub fn build_command_args(&self, udid: &str) -> (r: Vec<String>)
        ensures
            strings_are(r@, build_args(self.project_dir@, udid@)),
    {
        let mut r: Vec<String> = Vec::new();
        r.push(String::from_str("build-for-testing"));
        r.push(String::from_str("-project"));
        r.push(self.xcodeproj_path());
        r.push(String::from_str("-scheme"));
        r.push(String::from_str("QorvexAgentUITests"));
        r.push(String::from_str("-destination"));
        r.push(destination(udid));
        r.push(String::from_str("-derivedDataPath"));
        r.push(join_path_exec(self.project_dir.as_str(), ".build"));
        r
    }

    /// The arguments that launch the agent on the simulator `udid`.
    pub fn launch_command_args(&self, udid: &str) -> (r: Vec<String>)
        ensures
            strings_are(r@, launch_args(self.project_dir@, udid@)),
    {
        let mut r: Vec<String> = Vec::new();
        r.push(String::from_str("test-without-building"));
        r.push(String::from_str("-project"));
        r.push(self.xcodeproj_path());
        r.push(String::from_str("-scheme"));
        r.push(String::from_str("QorvexAgentUITests"));
        r.push(String::from_str("-destination"));
        r.push(destination(udid));
        r.push(String::from_str("-derivedDataPath"));
        r.push(join_path_exec(self.project_dir.as_str(), ".build"));
        r.push(String::from_str("-only-testing"));
        r.push(String::from_str("QorvexAgentUITests/QorvexAgentTests/testRunAgent"));
        r
    }
}

/// The arguments that terminate the agent app on the simulator `udid`.
pub fn terminate_command_args(udid: &str) -> (r: Vec<String>)
    ensures
        strings_are(r@, terminate_args(udid@)),
{
    let mut r: Vec<String> = Vec::new();
    r.push(String::from_str("simctl"));
    r.push(String::from_str("terminate"));
    r.push(udid.to_string());
    r.push(String::from_str("com.qorvex.agent"));
    r
}

/// The outcome of the build: success, or a build failure carrying the
/// error output.
pub fn build_outcome(success: bool, stderr: String) -> (r: Result<(), AgentLifecycleError>)
    ensures
        success ==> r is Ok,
        !success ==> (r matches Err(AgentLifecycleError::BuildFailed(m)) && m == stderr),
{
    if success {
        Ok(())
    } else {
        Err(AgentLifecycleError::BuildFailed(stderr))
    }
}

/// What to do after one readiness poll.
#[derive(Debug, Clone, Copy, PartialEq, Eq, Structural)]
pub enum PollNext {
    /// The agent answered a heartbeat.
    Ready,
    /// The startup timeout has passed.
    TimedOut,
    /// Sleep 500 ms and poll again.
    Wait,
}

/// Decides after one readiness poll: a heartbeat means ready, otherwise the
/// deadline decides.
pub fn poll_next(heartbeat_ok: bool, past_deadline: bool) -> (r: PollNext)
    ensures
        heartbeat_ok ==> r == PollNext::Ready,
        !heartbeat_ok && past_deadline ==> r == PollNext::TimedOut,
        !heartbeat_ok && !past_deadline ==> r == PollNext::Wait,
{
    if heartbeat_ok {
        PollNext::Ready
    } else if past_deadline {
        PollNext::TimedOut
    } else {
        PollNext::Wait
    }
}

/// What to do after a startup attempt.
#[derive(Debug)]
pub enum StartupNext {
    /// The agent is running.
    Done,
    /// Stop the agent and spawn it again for another attempt.
    Respawn,
    /// Give up with this error.
    GiveUp(AgentLifecycleError),
}

/// Decides after waiting for readiness on attempt `attempt` (counted from
/// 0): a timeout is retried while attempts remain (`attempt < max_retries`);
/// any other error, or a timeout on the last attempt, is final.
pub fn startup_next(attempt: u32, max_retries: u32, outcome: Result<(), AgentLifecycleError>) -> (r:
    StartupNext)
    ensures
        match outcome {
            Ok(()) => r is Done,
            Err(e) => if e is StartupTimeout && attempt < max_retries {
                r is Respawn
            } else {
                r == StartupNext::GiveUp(e)
            },
        },
{
    match outcome {
        Ok(()) => StartupNext::Done,
        Err(AgentLifecycleError::StartupTimeout) if attempt < max_retries => StartupNext::Respawn,
        Err(e) => StartupNext::GiveUp(e),
    }
}

} // verus!
