//! Persistent configuration (`~/.qorvex/config.json`): defaults, resolution of
//! the agent project directories, and validation of the Android settings.
//!
//! Paths are held as strings; reading and writing the file is left to the
//! caller.

use vstd::prelude::*;
use crate::text::{join_path_exec, push_str};

verus! {

/// Persistent qorvex configuration.
#[derive(Debug, Clone)]
pub struct QorvexConfig {
    /// Path to the Swift agent project directory (containing `project.yml`).
    pub agent_source_dir: Option<String>,
    /// TCP port the Swift agent listens on. Defaults to 8080 if absent.
    pub agent_port: Option<u16>,
    /// Apple Development Team ID for code-signing on physical devices.
    pub development_team: Option<String>,
    /// Override bundle ID for the agent app when signing for physical devices.
    pub agent_bundle_id: Option<String>,
    /// Path to the Android Kotlin agent project directory (containing `gradlew`).
    pub android_agent_source_dir: Option<String>,
    /// Path to the Android SDK root.
    pub android_sdk_root: Option<String>,
    /// TCP port the Android agent serves on inside the device. Defaults to 8080.
    pub android_device_port: Option<u16>,
}

impl Default for QorvexConfig {
    fn default() -> (r: Self)
        ensures
            r.agent_source_dir is None,
            r.agent_port is None,
            r.development_team is None,
            r.agent_bundle_id is None,
            r.android_agent_source_dir is None,
            r.android_sdk_root is None,
            r.android_device_port is None,
    {
        QorvexConfig {
            agent_source_dir: None,
            agent_port: None,
            development_team: None,
            agent_bundle_id: None,
            android_agent_source_dir: None,
            android_sdk_root: None,
            android_device_port: None,
        }
    }
}

/// Errors returned when validating Android-related configuration.
#[derive(Debug, Clone, PartialEq, Eq)]
pub enum AndroidConfigError {
    /// No Android agent project directory is configured.
    MissingAgentSourceDir,
    /// The configured Android agent project directory does not exist.
    AgentSourceDirNotFound(String),
    /// The configured Android agent project directory has no `gradlew` wrapper.
    GradlewNotFound(String),
    /// The configured Android SDK root does not exist.
    SdkRootNotFound(String),
}

/// The mathematical form of an [`AndroidConfigError`].
pub enum AndroidConfigErrorView {
    MissingAgentSourceDir,
    AgentSourceDirNotFound(Seq<char>),
    GradlewNotFound(Seq<char>),
    SdkRootNotFound(Seq<char>),
}

impl View for AndroidConfigError {
    type V = AndroidConfigErrorView;

    open spec fn view(&self) -> AndroidConfigErrorView {
        match self {
            AndroidConfigError::MissingAgentSourceDir => AndroidConfigErrorView::MissingAgentSourceDir,
            AndroidConfigError::AgentSourceDirNotFound(p) => AndroidConfigErrorView::AgentSourceDirNotFound(p@),
            AndroidConfigError::GradlewNotFound(p) => AndroidConfigErrorView::GradlewNotFound(p@),
            AndroidConfigError::SdkRootNotFound(p) => AndroidConfigErrorView::SdkRootNotFound(p@),
        }
    }
}

/// The text that describes an Android configuration error.
pub open spec fn android_config_error_message(e: AndroidConfigErrorView) -> Seq<char> {
    match e {
        AndroidConfigErrorView::MissingAgentSourceDir => "Android agent project directory is not configured. Set `android_agent_source_dir` in ~/.qorvex/config.json (the path to the Kotlin agent project containing `gradlew`)."@,
        AndroidConfigErrorView::AgentSourceDirNotFound(p) => "Configured Android agent project directory does not exist: "@ + p,
        AndroidConfigErrorView::GradlewNotFound(p) => "Android agent project directory is missing its Gradle wrapper (expected `gradlew` at "@ + p + ")"@,
        AndroidConfigErrorView::SdkRootNotFound(p) => "Configured Android SDK root does not exist: "@ + p,
    }
}

impl AndroidConfigError {
    /// The human-readable, actionable description of the error.
    pub fn message(&self) -> (r: String)
        ensures
            r@ == android_config_error_message(self@),
    {
        match self {
            AndroidConfigError::MissingAgentSourceDir => String::from_str(
                "Android agent project directory is not configured. Set `android_agent_source_dir` in ~/.qorvex/config.json (the path to the Kotlin agent project containing `gradlew`).",
            ),
            AndroidConfigError::AgentSourceDirNotFound(p) => {
                let mut s = String::from_str(
                    "Configured Android agent project directory does not exist: ",
                );
                push_str(&mut s, p.as_str());
                s
            },
            AndroidConfigError::GradlewNotFound(p) => {
                let mut s = String::from_str(
                    "Android agent project directory is missing its Gradle wrapper (expected `gradlew` at ",
                );
                push_str(&mut s, p.as_str());
                push_str(&mut s, ")");
                s
            },
            AndroidConfigError::SdkRootNotFound(p) => {
                let mut s = String::from_str("Configured Android SDK root does not exist: ");
                push_str(&mut s, p.as_str());
                s
            },
        }
    }
}

/// Whether a path exists on the filesystem (`std::path::Path::exists`).
///
/// Nothing is stated of the answer: it depends on the filesystem.
#[verifier::external_body]
pub(crate) fn path_exists(path: &str) -> bool {
    std::path::Path::new(path).exists()
}

/// The optional string's characters.
pub open spec fn opt_chars(o: Option<String>) -> Option<Seq<char>> {
    match o {
        Some(s) => Some(s@),
        None => None,
    }
}

/// The outcome of validating the Android configuration, given which of the
/// configured paths exist: the SDK root is checked first (only when
/// configured), then that a project directory is configured, that it exists,
/// and that it holds `gradlew`.
pub open spec fn android_validation(
    c: QorvexConfig,
    sdk_root_exists: bool,
    project_dir_exists: bool,
    gradlew_present: bool,
) -> Result<Seq<char>, AndroidConfigErrorView> {
    match c.android_sdk_root {
        Some(sdk) if !sdk_root_exists => Err(AndroidConfigErrorView::SdkRootNotFound(sdk@)),
        _ => match c.android_agent_source_dir {
            None => Err(AndroidConfigErrorView::MissingAgentSourceDir),
            Some(dir) => if !project_dir_exists {
                Err(AndroidConfigErrorView::AgentSourceDirNotFound(dir@))
            } else if !gradlew_present {
                Err(AndroidConfigErrorView::GradlewNotFound(dir@))
            } else {
                Ok(dir@)
            },
        },
    }
}

/// The view of a validation outcome.
pub open spec fn validation_view(r: Result<String, AndroidConfigError>) -> Result<
    Seq<char>,
    AndroidConfigErrorView,
> {
    match r {
        Ok(p) => Ok(p@),
        Err(e) => Err(e@),
    }
}

/// The Homebrew locations probed for the agent source, in order.
pub open spec fn homebrew_agent_candidates() -> Seq<Seq<char>> {
    seq!["/opt/homebrew/share/qorvex/agent"@, "/usr/local/share/qorvex/agent"@]
}

impl QorvexConfig {
    /// The configured agent port, defaulting to 8080.
    pub fn agent_port(&self) -> (r: u16)
        ensures
            r == match self.agent_port {
                Some(p) => p,
                None => 8080,
            },
    {
        match self.agent_port {
            Some(p) => p,
            None => 8080,
        }
    }

    /// The configured Android agent device port, defaulting to 8080.
    pub fn android_device_port(&self) -> (r: u16)
        ensures
            r == match self.android_device_port {
                Some(p) => p,
                None => 8080,
            },
    {
        match self.android_device_port {
            Some(p) => p,
            None => 8080,
        }
    }

    /// The effective agent source directory: the configured one, else the
    /// first Homebrew share path that exists (`/opt/homebrew`, then
    /// `/usr/local`).
    pub fn effective_agent_source_dir(&self) -> (r: Option<String>)
        ensures
            self.agent_source_dir is Some ==> opt_chars(r) == opt_chars(self.agent_source_dir),
            self.agent_source_dir is None ==> (r is None || (r matches Some(p)
                && homebrew_agent_candidates().contains(p@))),
    {
        match &self.agent_source_dir {
            Some(d) => Some(d.clone()),
            None => homebrew_agent_path(),
        }
    }

    /// The effective Android agent project directory: the configured value.
    pub fn effective_android_agent_source_dir(&self) -> (r: Option<String>)
        ensures
            opt_chars(r) == opt_chars(self.android_agent_source_dir),
    {
        match &self.android_agent_source_dir {
            Some(d) => Some(d.clone()),
            None => None,
        }
    }

    /// Validates the Android configuration against the filesystem facts given:
    /// whether the SDK root, the project directory and its `gradlew` exist.
    pub fn validate_android_given(
        &self,
        sdk_root_exists: bool,
        project_dir_exists: bool,
        gradlew_present: bool,
    ) -> (r: Result<String, AndroidConfigError>)
        ensures
            validation_view(r) == android_validation(
                *self,
                sdk_root_exists,
                project_dir_exists,
                gradlew_present,
            ),
    {
        if let Some(sdk) = &self.android_sdk_root {
            if !sdk_root_exists {
                return Err(AndroidConfigError::SdkRootNotFound(sdk.clone()));
            }
        }
        let project_dir = match self.effective_android_agent_source_dir() {
            Some(d) => d,
            None => return Err(AndroidConfigError::MissingAgentSourceDir),
        };
        if !project_dir_exists {
            return Err(AndroidConfigError::AgentSourceDirNotFound(project_dir));
        }
        if !gradlew_present {
            return Err(AndroidConfigError::GradlewNotFound(project_dir));
        }
        Ok(project_dir)
    }

    /// Validates the Android configuration required to build and launch the
    /// agent, checking the filesystem: returns the project directory when the
    /// configuration is complete and the paths exist, otherwise the error that
    /// names what is missing.
    pub fn validate_android(&self) -> (r: Result<String, AndroidConfigError>)
        ensures
            exists|a: bool, b: bool, c: bool|
                validation_view(r) == #[trigger] android_validation(*self, a, b, c),
    {
        let sdk_ok = match &self.android_sdk_root {
            Some(sdk) => path_exists(sdk.as_str()),
            None => true,
        };
        let (project_ok, gradlew_ok) = match &self.android_agent_source_dir {
            Some(d) => {
                let p = path_exists(d.as_str());
                let g = if p {
                    let g = join_path_exec(d.as_str(), "gradlew");
                    path_exists(g.as_str())
                } else {
                    false
                };
                (p, g)
            },
            None => (false, false),
        };
        let r = self.validate_android_given(sdk_ok, project_ok, gradlew_ok);
        assert(validation_view(r) == android_validation(*self, sdk_ok, project_ok, gradlew_ok));
        r
    }
}

/// The Homebrew share path chosen, given whether the `/opt/homebrew` and
/// the `/usr/local` one exist: the first that does.
pub open spec fn homebrew_agent_choice(first_exists: bool, second_exists: bool) -> Option<
    Seq<char>,
> {
    if first_exists {
        Some(homebrew_agent_candidates()[0])
    } else if second_exists {
        Some(homebrew_agent_candidates()[1])
    } else {
        None
    }
}

/// The Homebrew share path of the agent source, given which of the two
/// locations exist (see [`homebrew_agent_choice`]).
pub fn homebrew_agent_path_given(first_exists: bool, second_exists: bool) -> (r: Option<String>)
    ensures
        opt_chars(r) == homebrew_agent_choice(first_exists, second_exists),
{
    if first_exists {
        let p = String::from_str("/opt/homebrew/share/qorvex/agent");
        proof {
            reveal_strlit("/opt/homebrew/share/qorvex/agent");
        }
        Some(p)
    } else if second_exists {
        let p = String::from_str("/usr/local/share/qorvex/agent");
        proof {
            reveal_strlit("/usr/local/share/qorvex/agent");
        }
        Some(p)
    } else {
        None
    }
}

/// The Homebrew share path of the agent source, if one exists.
fn homebrew_agent_path() -> (r: Option<String>)
    ensures
        r is None || (r matches Some(p) && homebrew_agent_candidates().contains(p@)),
{
    let first = String::from_str("/opt/homebrew/share/qorvex/agent");
    let first_exists = path_exists(first.as_str());
    let second_exists = if first_exists {
        false
    } else {
        let second = String::from_str("/usr/local/share/qorvex/agent");
        path_exists(second.as_str())
    };
    let r = homebrew_agent_path_given(first_exists, second_exists);
    proof {
        if r is Some {
            let p = r->0;
            if first_exists {
                assert(homebrew_agent_candidates()[0] == p@);
            } else {
                assert(homebrew_agent_candidates()[1] == p@);
            }
        }
    }
    r
}

} // verus!
