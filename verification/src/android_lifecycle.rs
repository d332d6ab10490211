//! Lifecycle of the Kotlin UiAutomator agent on an Android device: the
//! commands that build, install, spawn and stop it, how their outcomes are
//! classified (each failure mode has its own error), when a startup attempt
//! is retried, and how a JDK for the Gradle build is chosen.
//!
//! Running the commands, polling and sleeping are left to the caller; the
//! decisions between them stand here. Durations are held in nanoseconds.

use vstd::prelude::*;
use crate::android_driver::DEFAULT_ANDROID_AGENT_PORT;
use crate::config::path_exists;
use crate::io_error::io_error_text;
use crate::text::{
    chars_of, contains, contains_chars, dec, join_path, join_path_exec, lemma_split_on_nonempty,
    parse_unsigned, parse_unsigned_chars, push_chars, push_dec, push_str, split_chars, split_on,
    starts_with, string_of, trim, trim_chars, trim_end, trim_end_chars,
};

verus! {

/// The Gradle wrapper script at the agent project root.
pub open spec fn gradlew_name() -> Seq<char> {
    "gradlew"@
}

/// The host app APK produced by `assembleDebug`, relative to the project.
pub open spec fn app_apk() -> Seq<char> {
    "build/outputs/apk/debug/qorvex-agent-android-debug.apk"@
}

/// The instrumentation APK produced by `assembleDebugAndroidTest`.
pub open spec fn test_apk() -> Seq<char> {
    "build/outputs/apk/androidTest/debug/qorvex-agent-android-debug-androidTest.apk"@
}

/// Lowest Java major version the Gradle build runs on.
pub const MIN_BUILD_JAVA: u32 = 17;

/// Highest Java major version the Gradle build runs on.
pub const MAX_BUILD_JAVA: u32 = 23;

/// Lines of a failed command's error output kept in a diagnostic.
pub const DIAGNOSTIC_TAIL_LINES: usize = 20;

/// Milliseconds between readiness polls.
pub const READY_POLL_INTERVAL_MS: u64 = 500;

/// Configuration for the Android agent lifecycle manager.
#[derive(Debug, Clone)]
pub struct AndroidLifecycleConfig {
    /// Path to the Kotlin agent project directory (containing `gradlew`).
    pub project_dir: String,
    /// Device-side TCP port the agent's server binds.
    pub device_port: u16,
    /// Maximum time to wait for the agent to become ready, in nanoseconds.
    pub startup_timeout_nanos: u128,
    /// Maximum number of launch retries before giving up.
    pub max_retries: u32,
    /// JDK home forwarded by the client to pin the Gradle build's Java.
    pub java_home: Option<String>,
}

impl AndroidLifecycleConfig {
    /// A configuration for the given project: port 8080, a 60 s startup
    /// timeout, 3 retries, no forwarded JDK.
    pub fn new(project_dir: String) -> (r: Self)
        ensures
            r.project_dir == project_dir,
            r.device_port == DEFAULT_ANDROID_AGENT_PORT,
            r.startup_timeout_nanos == 60_000_000_000,
            r.max_retries == 3,
            r.java_home is None,
    {
        AndroidLifecycleConfig {
            project_dir,
            device_port: DEFAULT_ANDROID_AGENT_PORT,
            startup_timeout_nanos: 60_000_000_000,
            max_retries: 3,
            java_home: None,
        }
    }
}

/// Errors of the Android agent lifecycle; each failure mode has its own
/// variant.
#[derive(Debug)]
pub enum AndroidLifecycleError {
    /// The agent project directory or `gradlew` was not found.
    ProjectNotFound(String),
    /// The Gradle build failed.
    BuildFailed(String),
    /// `adb install` rejected one of the APKs.
    InstallFailed(String),
    /// `am instrument` failed to spawn.
    LaunchFailed(String),
    /// `am instrument` exited before the agent became reachable.
    InstrumentFailed(String),
    /// The agent never answered a heartbeat within the startup timeout.
    StartupTimeout,
    /// An operation needs the agent to be running.
    NotRunning,
    /// An I/O error occurred.
    Io(std::io::Error),
}

/// The text of a lifecycle error; for an I/O error, the prefix before the
/// platform's own text.
pub open spec fn android_lifecycle_error_message(e: AndroidLifecycleError) -> Seq<char> {
    match e {
        AndroidLifecycleError::ProjectNotFound(p) => "Android agent project not found: "@ + p@,
        AndroidLifecycleError::BuildFailed(m) => "Failed to build Android agent (Gradle): "@ + m@,
        AndroidLifecycleError::InstallFailed(m) => "Failed to install Android agent APK: "@ + m@,
        AndroidLifecycleError::LaunchFailed(m) => "Failed to launch Android agent (am instrument): "@
            + m@,
        AndroidLifecycleError::InstrumentFailed(m) => "Android agent instrumentation exited: "@
            + m@,
        AndroidLifecycleError::StartupTimeout => "Android agent failed to become ready within timeout (port never opened)"@,
        AndroidLifecycleError::NotRunning => "Android agent is not running"@,
        AndroidLifecycleError::Io(_) => "IO error: "@,
    }
}

impl AndroidLifecycleError {
    /// The human-readable description of the error.
    pub fn message(&self) -> (r: String)
        ensures
            self is Io ==> starts_with(r@, android_lifecycle_error_message(*self)),
            !(self is Io) ==> r@ == android_lifecycle_error_message(*self),
    {
        match self {
            AndroidLifecycleError::ProjectNotFound(p) => {
                let mut s = String::from_str("Android agent project not found: ");
                push_str(&mut s, p.as_str());
                s
            },
            AndroidLifecycleError::BuildFailed(m) => {
                let mut s = String::from_str("Failed to build Android agent (Gradle): ");
                push_str(&mut s, m.as_str());
                s
            },
            AndroidLifecycleError::InstallFailed(m) => {
                let mut s = String::from_str("Failed to install Android agent APK: ");
                push_str(&mut s, m.as_str());
                s
            },
            AndroidLifecycleError::LaunchFailed(m) => {
                let mut s = String::from_str("Failed to launch Android agent (am instrument): ");
                push_str(&mut s, m.as_str());
                s
            },
            AndroidLifecycleError::InstrumentFailed(m) => {
                let mut s = String::from_str("Android agent instrumentation exited: ");
                push_str(&mut s, m.as_str());
                s
            },
            AndroidLifecycleError::StartupTimeout => String::from_str(
                "Android agent failed to become ready within timeout (port never opened)",
            ),
            AndroidLifecycleError::NotRunning => String::from_str("Android agent is not running"),
            AndroidLifecycleError::Io(err) => {
                let mut s = String::from_str("IO error: ");
                let ghost pre = s@;
                let t = io_error_text(err);
                push_str(&mut s, t.as_str());
                assert(s@.subrange(0, pre.len() as int) =~= pre);
                s
            },
        }
    }
}

/// The three failure modes of a startup (build failure, early
/// instrumentation exit, port never opened) are told apart by their
/// messages, whatever their details.
pub proof fn lemma_failure_messages_distinct(build: String, instrument: String)
    ensures
        android_lifecycle_error_message(AndroidLifecycleError::BuildFailed(build))
            != android_lifecycle_error_message(AndroidLifecycleError::InstrumentFailed(instrument)),
        android_lifecycle_error_message(AndroidLifecycleError::InstrumentFailed(instrument))
            != android_lifecycle_error_message(AndroidLifecycleError::StartupTimeout),
        android_lifecycle_error_message(AndroidLifecycleError::BuildFailed(build))
            != android_lifecycle_error_message(AndroidLifecycleError::StartupTimeout),
{
    reveal_strlit("Failed to build Android agent (Gradle): ");
    reveal_strlit("Android agent instrumentation exited: ");
    reveal_strlit("Android agent failed to become ready within timeout (port never opened)");
    let b = android_lifecycle_error_message(AndroidLifecycleError::BuildFailed(build));
    let i = android_lifecycle_error_message(AndroidLifecycleError::InstrumentFailed(instrument));
    let t = android_lifecycle_error_message(AndroidLifecycleError::StartupTimeout);
    assert(b[0] == 'F');
    assert(i[0] == 'A');
    assert(t[0] == 'A');
    assert(i[14] == 'i');
    assert(t[14] == 'f');
}

// ---------------------------------------------------------------------------
// Paths and commands
// ---------------------------------------------------------------------------

/// Whether the pieces of `a` are those of the view `v`, in order.
pub open spec fn strings_are(a: Seq<String>, v: Seq<Seq<char>>) -> bool {
    a.len() == v.len() && forall|k: int| 0 <= k < a.len() ==> (#[trigger] a[k])@ == v[k]
}

/// The arguments of `adb -s <serial> install -r <apk>`.
pub open spec fn install_args(serial: Seq<char>, apk: Seq<char>) -> Seq<Seq<char>> {
    seq!["-s"@, serial, "install"@, "-r"@, apk]
}

/// The arguments of `adb` that spawn the agent: `am instrument -w` with the
/// device port passed as the `qorvex_port` instrumentation argument.
pub open spec fn spawn_args(serial: Seq<char>, port: u16) -> Seq<Seq<char>> {
    seq![
        "-s"@,
        serial,
        "shell"@,
        "am"@,
        "instrument"@,
        "-w"@,
        "-e"@,
        "qorvex_port"@,
        dec(port as nat),
        "-e"@,
        "class"@,
        "com.qorvex.agent.QorvexAgentTest#runAgent"@,
        "com.qorvex.agent.test/androidx.test.runner.AndroidJUnitRunner"@,
    ]
}

/// The arguments of `adb` that force-stop the agent package.
pub open spec fn force_stop_args(serial: Seq<char>) -> Seq<Seq<char>> {
    seq!["-s"@, serial, "shell"@, "am"@, "force-stop"@, "com.qorvex.agent"@]
}

/// The Gradle tasks that build the agent and instrumentation APKs.
pub open spec fn gradle_tasks() -> Seq<Seq<char>> {
    seq!["assembleDebug"@, "assembleDebugAndroidTest"@]
}

fn strings(items: &[&str]) -> (r: Vec<String>)
    ensures
        r@.len() == items@.len(),
        forall|k: int| 0 <= k < items@.len() ==> (#[trigger] r@[k])@ == items@[k]@,
{
    let mut r: Vec<String> = Vec::new();
    let mut i: usize = 0;
    while i < items.len()
        invariant
            i <= items@.len(),
            r@.len() == i,
            forall|k: int| 0 <= k < i ==> (#[trigger] r@[k])@ == items@[k]@,
        decreases items@.len() - i,
    {
        r.push(items[i].to_string());
        i = i + 1;
    }
    r
}

fn dec_string(n: u64) -> (r: String)
    ensures
        r@ == dec(n as nat),
{
    let mut s = String::new();
    push_dec(&mut s, n);
    s
}

impl AndroidLifecycleConfig {
    /// Path to the Gradle wrapper at the project root.
    pub fn gradlew_path(&self) -> (r: String)
        ensures
            r@ == join_path(self.project_dir@, gradlew_name()),
    {
        join_path_exec(self.project_dir.as_str(), "gradlew")
    }

    /// Paths of the two APKs to install, host app first.
    pub fn apk_paths(&self) -> (r: (String, String))
        ensures
            r.0@ == join_path(self.project_dir@, app_apk()),
            r.1@ == join_path(self.project_dir@, test_apk()),
    {
        (
            join_path_exec(
                self.project_dir.as_str(),
                "build/outputs/apk/debug/qorvex-agent-android-debug.apk",
            ),
            join_path_exec(
                self.project_dir.as_str(),
                "build/outputs/apk/androidTest/debug/qorvex-agent-android-debug-androidTest.apk",
            ),
        )
    }

    /// Checks before a build, given whether the project directory and its
    /// Gradle wrapper exist: each missing one is a project-not-found error
    /// naming it.
    pub fn build_preflight_given(&self, project_exists: bool, gradlew_exists: bool) -> (r: Result<
        (),
        AndroidLifecycleError,
    >)
        ensures
            !project_exists ==> (r matches Err(AndroidLifecycleError::ProjectNotFound(p)) && p@
                == self.project_dir@),
            project_exists && !gradlew_exists ==> (r matches Err(
                AndroidLifecycleError::ProjectNotFound(p),
            ) && p@ == join_path(self.project_dir@, gradlew_name())),
            project_exists && gradlew_exists ==> r is Ok,
    {
        if !project_exists {
            return Err(AndroidLifecycleError::ProjectNotFound(self.project_dir.clone()));
        }
        if !gradlew_exists {
            return Err(AndroidLifecycleError::ProjectNotFound(self.gradlew_path()));
        }
        Ok(())
    }

    /// Checks on the filesystem that the project directory and its Gradle
    /// wrapper exist (see [`Self::build_preflight_given`]).
    pub fn build_preflight(&self) -> (r: Result<(), AndroidLifecycleError>)
        ensures
            r is Ok || (r matches Err(AndroidLifecycleError::ProjectNotFound(p)) && (p@
                == self.project_dir@ || p@ == join_path(self.project_dir@, gradlew_name()))),
    {
        let project_exists = path_exists(self.project_dir.as_str());
        let gradlew_exists = if project_exists {
            let g = self.gradlew_path();
            path_exists(g.as_str())
        } else {
            false
        };
        self.build_preflight_given(project_exists, gradlew_exists)
    }
}

/// The arguments of `adb -s <serial> install -r <apk>`.
pub fn install_command_args(serial: &str, apk: &str) -> (r: Vec<String>)
    ensures
        strings_are(r@, install_args(serial@, apk@)),
{
    let r = strings(&["-s", serial, "install", "-r", apk]);
    assert(strings_are(r@, install_args(serial@, apk@))) by {
        reveal_strlit("-s");
    }
    r
}

/// The arguments of the `adb` call that spawns the agent.
pub fn spawn_command_args(serial: &str, device_port: u16) -> (r: Vec<String>)
    ensures
        strings_are(r@, spawn_args(serial@, device_port)),
{
    let port = dec_string(device_port as u64);
    let mut r = strings(
        &[
            "-s",
            serial,
            "shell",
            "am",
            "instrument",
            "-w",
            "-e",
            "qorvex_port",
            port.as_str(),
            "-e",
            "class",
            "com.qorvex.agent.QorvexAgentTest#runAgent",
            "com.qorvex.agent.test/androidx.test.runner.AndroidJUnitRunner",
        ],
    );
    r
}

/// The arguments of the `adb` call that force-stops the agent.
pub fn force_stop_command_args(serial: &str) -> (r: Vec<String>)
    ensures
        strings_are(r@, force_stop_args(serial@)),
{
    strings(&["-s", serial, "shell", "am", "force-stop", "com.qorvex.agent"])
}

/// The Gradle tasks of the build.
pub fn gradle_task_args() -> (r: Vec<String>)
    ensures
        strings_are(r@, gradle_tasks()),
{
    strings(&["assembleDebug", "assembleDebugAndroidTest"])
}

// ---------------------------------------------------------------------------
// Diagnostics
// ---------------------------------------------------------------------------

/// The non-blank lines of `parts`, each without trailing whitespace.
pub open spec fn kept_lines(parts: Seq<Seq<char>>) -> Seq<Seq<char>>
    decreases parts.len(),
{
    if parts.len() == 0 {
        Seq::empty()
    } else {
        let rest = kept_lines(parts.drop_last());
        let l = trim_end(parts.last());
        if trim(l).len() > 0 {
            rest.push(l)
        } else {
            rest
        }
    }
}

/// The last `n` members of `xs` (all of them when there are fewer).
pub open spec fn last_n(xs: Seq<Seq<char>>, n: nat) -> Seq<Seq<char>> {
    if xs.len() <= n {
        xs
    } else {
        xs.subrange(xs.len() - n, xs.len() as int)
    }
}

/// Keeping the last `n` lines keeps `min(n, len)` of them, those at the end
/// of the list, in their order.
pub proof fn lemma_last_n_is_suffix(xs: Seq<Seq<char>>, n: nat)
    ensures
        last_n(xs, n).len() == if xs.len() <= n {
            xs.len()
        } else {
            n
        },
        forall|i: int|
            0 <= i < last_n(xs, n).len() ==> #[trigger] last_n(xs, n)[i] == xs[xs.len() - last_n(
                xs,
                n,
            ).len() + i],
{
}

/// The members of `xs` joined with newlines.
pub open spec fn join_lines(xs: Seq<Seq<char>>) -> Seq<char>
    decreases xs.len(),
{
    if xs.len() == 0 {
        Seq::empty()
    } else if xs.len() == 1 {
        xs[0]
    } else {
        join_lines(xs.drop_last()) + seq!['\n'] + xs.last()
    }
}

/// A one-line(-ish) diagnostic for a failed command: its exit status, then,
/// when the error output has non-blank lines, ` — ` and the last twenty of
/// them.
pub open spec fn tail_diagnostic_text(stderr: Seq<char>, status: Seq<char>) -> Seq<char> {
    let t = join_lines(last_n(kept_lines(split_on(stderr, '\n')), 20));
    if t.len() == 0 {
        status
    } else {
        status + " — "@ + trim(t)
    }
}

/// Reduces captured error output to a diagnostic: the exit status plus the
/// last twenty non-blank lines (see [`tail_diagnostic_text`]).
pub fn tail_diagnostic(stderr: &str, status: String) -> (r: String)
    ensures
        r@ == tail_diagnostic_text(stderr@, status@),
{
    let cs = chars_of(stderr);
    let parts = split_chars(cs.as_slice(), '\n');
    let ghost sp = split_on(cs@, '\n');
    let ghost mut kept_v: Seq<Seq<char>> = Seq::empty();
    let mut kept: Vec<Vec<char>> = Vec::new();
    let mut i: usize = 0;
    assert(sp.subrange(0, 0) =~= Seq::<Seq<char>>::empty());
    while i < parts.len()
        invariant
            i <= parts@.len(),
            parts@.len() == sp.len(),
            forall|k: int| 0 <= k < parts@.len() ==> (#[trigger] parts@[k])@ == sp[k],
            kept_v == kept_lines(sp.subrange(0, i as int)),
            kept@.len() == kept_v.len(),
            forall|k: int| 0 <= k < kept@.len() ==> (#[trigger] kept@[k])@ == kept_v[k],
        decreases parts@.len() - i,
    {
        assert(sp.subrange(0, i + 1).drop_last() =~= sp.subrange(0, i as int));
        assert(sp.subrange(0, i + 1).last() == sp[i as int]);
        let l = trim_end_chars(parts[i].as_slice());
        let t = trim_chars(l.as_slice());
        if t.len() > 0 {
            proof {
                kept_v = kept_v.push(l@);
            }
            kept.push(l);
        }
        i = i + 1;
    }
    assert(sp.subrange(0, sp.len() as int) =~= sp);
    let n = kept.len();
    let start: usize = if n > DIAGNOSTIC_TAIL_LINES {
        n - DIAGNOSTIC_TAIL_LINES
    } else {
        0
    };
    let ghost tail = last_n(kept_v, 20);
    assert(tail =~= kept_v.subrange(start as int, n as int));
    let mut out: Vec<char> = Vec::new();
    let mut j: usize = start;
    assert(kept_v.subrange(start as int, start as int) =~= Seq::<Seq<char>>::empty());
    while j < n
        invariant
            start <= j <= n,
            n == kept@.len(),
            n == kept_v.len(),
            forall|k: int| 0 <= k < kept@.len() ==> (#[trigger] kept@[k])@ == kept_v[k],
            out@ == join_lines(kept_v.subrange(start as int, j as int)),
        decreases n - j,
    {
        let ghost xs = kept_v.subrange(start as int, j + 1);
        assert(xs.drop_last() =~= kept_v.subrange(start as int, j as int));
        assert(xs.last() == kept_v[j as int]);
        if j > start {
            out.push('\n');
        }
        let piece = &kept[j];
        let mut k: usize = 0;
        let ghost before = out@;
        while k < piece.len()
            invariant
                k <= piece@.len(),
                out@ == before + piece@.subrange(0, k as int),
            decreases piece@.len() - k,
        {
            out.push(piece[k]);
            k = k + 1;
            assert(out@ =~= before + piece@.subrange(0, k as int));
        }
        assert(piece@.subrange(0, piece@.len() as int) =~= piece@);
        proof {
            if j > start {
                assert(out@ =~= join_lines(xs.drop_last()) + seq!['\n'] + xs.last());
            } else {
                assert(xs.len() == 1);
                assert(out@ =~= xs[0]);
            }
        }
        j = j + 1;
    }
    if out.len() == 0 {
        status
    } else {
        let trimmed = trim_chars(out.as_slice());
        let mut s = status;
        push_str(&mut s, " — ");
        push_chars(&mut s, trimmed.as_slice());
        s
    }
}

/// The note added to a build failure when no compatible JDK could be pinned.
pub open spec fn no_jdk_hint() -> Seq<char> {
    "\n(hint: no JDK 17 found — Gradle 8.10.2 needs Java 17–23. Install a JDK 17, then set QORVEX_ANDROID_JAVA_HOME (or JAVA_HOME) to it in the shell you run qorvex from — it is forwarded to the server, so no server restart is needed.)"@
}

/// The outcome of the Gradle build: success, or a build failure whose
/// diagnostic is the exit status and error tail, with a hint when no JDK was
/// pinned.
pub fn build_outcome(success: bool, stderr: &str, status: String, jdk_pinned: bool) -> (r: Result<
    (),
    AndroidLifecycleError,
>)
    ensures
        success ==> r is Ok,
        !success ==> (r matches Err(AndroidLifecycleError::BuildFailed(m)) && m@ == if jdk_pinned {
            tail_diagnostic_text(stderr@, status@)
        } else {
            tail_diagnostic_text(stderr@, status@) + no_jdk_hint()
        }),
{
    if success {
        return Ok(());
    }
    let mut diag = tail_diagnostic(stderr, status);
    if !jdk_pinned {
        push_str(
            &mut diag,
            "\n(hint: no JDK 17 found — Gradle 8.10.2 needs Java 17–23. Install a JDK 17, then set QORVEX_ANDROID_JAVA_HOME (or JAVA_HOME) to it in the shell you run qorvex from — it is forwarded to the server, so no server restart is needed.)",
        );
    }
    Err(AndroidLifecycleError::BuildFailed(diag))
}

/// The error for an APK that is not there to install.
pub fn missing_apk_error(apk: &str) -> (r: AndroidLifecycleError)
    ensures
        r matches AndroidLifecycleError::InstallFailed(m) && m@ == "APK not found (run build first): "@
            + apk@,
{
    let mut m = String::from_str("APK not found (run build first): ");
    push_str(&mut m, apk);
    AndroidLifecycleError::InstallFailed(m)
}

/// Whether an `adb install` failed: a non-zero exit, or a `Failure` report in
/// either output (adb sometimes exits 0 on one).
pub open spec fn install_failed(success: bool, stdout: Seq<char>, stderr: Seq<char>) -> bool {
    !success || contains(stdout, "Failure"@) || contains(stderr, "Failure"@)
}

/// The outcome of one `adb install`: on failure, the APK and the trimmed
/// error output (or, when that is blank, the trimmed standard output).
pub fn install_outcome(apk: &str, success: bool, stdout: &str, stderr: &str) -> (r: Result<
    (),
    AndroidLifecycleError,
>)
    ensures
        !install_failed(success, stdout@, stderr@) ==> r is Ok,
        install_failed(success, stdout@, stderr@) ==> (r matches Err(
            AndroidLifecycleError::InstallFailed(m),
        ) && m@ == apk@ + ": "@ + if trim(stderr@).len() > 0 {
            trim(stderr@)
        } else {
            trim(stdout@)
        }),
{
    let out = chars_of(stdout);
    let err = chars_of(stderr);
    let needle = chars_of("Failure");
    let failed = !success || contains_chars(out.as_slice(), needle.as_slice()) || contains_chars(
        err.as_slice(),
        needle.as_slice(),
    );
    if !failed {
        return Ok(());
    }
    let err_t = trim_chars(err.as_slice());
    let detail = if err_t.len() > 0 {
        err_t
    } else {
        trim_chars(out.as_slice())
    };
    let mut m = String::new();
    push_str(&mut m, apk);
    push_str(&mut m, ": ");
    push_chars(&mut m, detail.as_slice());
    Err(AndroidLifecycleError::InstallFailed(m))
}

// ---------------------------------------------------------------------------
// Startup
// ---------------------------------------------------------------------------

/// What to do after one readiness poll.
#[derive(Debug)]
pub enum ReadyPoll {
    /// The agent answered a heartbeat.
    Ready,
    /// Give up with this error.
    Fail(AndroidLifecycleError),
    /// Sleep [`READY_POLL_INTERVAL_MS`] and poll again.
    Wait,
}

/// Decides after one readiness poll: a heartbeat means ready; otherwise an
/// exited instrumentation process (with its diagnostic) is an instrumentation
/// failure, checked before the deadline; past the deadline is a timeout.
pub fn ready_poll_next(heartbeat_ok: bool, child_exit: Option<String>, past_deadline: bool) -> (r:
    ReadyPoll)
    ensures
        heartbeat_ok ==> r is Ready,
        !heartbeat_ok ==> match child_exit {
            Some(d) => r matches ReadyPoll::Fail(AndroidLifecycleError::InstrumentFailed(m)) && m
                == d,
            None => if past_deadline {
                r matches ReadyPoll::Fail(AndroidLifecycleError::StartupTimeout)
            } else {
                r is Wait
            },
        },
{
    if heartbeat_ok {
        return ReadyPoll::Ready;
    }
    if let Some(d) = child_exit {
        return ReadyPoll::Fail(AndroidLifecycleError::InstrumentFailed(d));
    }
    if past_deadline {
        ReadyPoll::Fail(AndroidLifecycleError::StartupTimeout)
    } else {
        ReadyPoll::Wait
    }
}

/// What to do after a startup attempt.
#[derive(Debug)]
pub enum StartupNext {
    /// The agent is running.
    Done,
    /// Stop the agent and spawn it again for another attempt.
    Respawn,
    /// Give up with this error.
    GiveUp(AndroidLifecycleError),
}

/// Decides after waiting for readiness on attempt `attempt` (counted from
/// 0): a timeout or early instrumentation exit is retried while attempts
/// remain (`attempt < max_retries`); any other error, or one on the last
/// attempt, is final.
pub fn startup_next(attempt: u32, max_retries: u32, outcome: Result<(), AndroidLifecycleError>) -> (r:
    StartupNext)
    ensures
        match outcome {
            Ok(()) => r is Done,
            Err(e) => if (e is StartupTimeout || e is InstrumentFailed) && attempt < max_retries {
                r is Respawn
            } else {
                r == StartupNext::GiveUp(e)
            },
        },
{
    match outcome {
        Ok(()) => StartupNext::Done,
        Err(e) => {
            let respawnable = match e {
                AndroidLifecycleError::StartupTimeout | AndroidLifecycleError::InstrumentFailed(
                    _,
                ) => true,
                _ => false,
            };
            if respawnable && attempt < max_retries {
                StartupNext::Respawn
            } else {
                StartupNext::GiveUp(e)
            }
        },
    }
}

/// How to make sure the agent is ready.
#[derive(Debug, Clone, Copy, PartialEq, Eq, Structural)]
pub enum ReadyPlan {
    /// Reuse the running agent.
    Reuse,
    /// Run the full build, install and spawn cycle, first stopping a stale
    /// agent if `stop_first`.
    Relaunch { stop_first: bool },
}

/// Whether a running agent can be reused: only one that is reachable and
/// whose accessibility bridge is healthy; a reachable agent with a dead
/// bridge (an orphan of an earlier server) is stopped and relaunched.
pub fn ready_plan(reachable: bool, bridge_healthy: bool) -> (r: ReadyPlan)
    ensures
        reachable && bridge_healthy ==> r == ReadyPlan::Reuse,
        reachable && !bridge_healthy ==> r == (ReadyPlan::Relaunch { stop_first: true }),
        !reachable ==> r == (ReadyPlan::Relaunch { stop_first: false }),
{
    if reachable {
        if bridge_healthy {
            ReadyPlan::Reuse
        } else {
            ReadyPlan::Relaunch { stop_first: true }
        }
    } else {
        ReadyPlan::Relaunch { stop_first: false }
    }
}

// ---------------------------------------------------------------------------
// JDK for the Gradle build
// ---------------------------------------------------------------------------

/// The major version in `java -version` output: the first field of the
/// quoted version string, or, in the legacy `1.x` scheme, the second.
pub open spec fn java_major(out: Seq<char>) -> Option<nat> {
    let q = split_on(out, '"');
    if q.len() < 2 {
        None
    } else {
        let p = split_on(q[1], '.');
        match parse_unsigned(p[0], u32::MAX as nat) {
            None => None,
            Some(first) => if first == 1 {
                if p.len() < 2 {
                    None
                } else {
                    parse_unsigned(p[1], u32::MAX as nat)
                }
            } else {
                Some(first)
            },
        }
    }
}

/// Parses the major version out of `java -version` output: `"17.0.19"` gives
/// 17, the legacy `"1.8.0_302"` gives 8.
pub fn parse_java_major(version_output: &str) -> (r: Option<u32>)
    ensures
        match java_major(version_output@) {
            Some(v) => r == Some(v as u32),
            None => r is None,
        },
{
    let cs = chars_of(version_output);
    let q = split_chars(cs.as_slice(), '"');
    if q.len() < 2 {
        return None;
    }
    let version = &q[1];
    let p = split_chars(version.as_slice(), '.');
    proof {
        lemma_split_on_nonempty(version@, '.');
    }
    let first = match parse_unsigned_chars(p[0].as_slice(), u32::MAX) {
        Some(v) => v,
        None => return None,
    };
    if first == 1 {
        if p.len() < 2 {
            None
        } else {
            parse_unsigned_chars(p[1].as_slice(), u32::MAX)
        }
    } else {
        Some(first)
    }
}

/// Whether a JDK of this major version can run the Gradle build (17 to 23).
pub fn java_version_supported(major: Option<u32>) -> (r: bool)
    ensures
        r == (major matches Some(m) && MIN_BUILD_JAVA <= m <= MAX_BUILD_JAVA),
{
    match major {
        Some(m) => MIN_BUILD_JAVA <= m && m <= MAX_BUILD_JAVA,
        None => false,
    }
}

/// The Homebrew `openjdk@17` keg prefixes probed as JDK candidates.
pub open spec fn brew_prefixes() -> Seq<Seq<char>> {
    seq!["/opt/homebrew/opt/openjdk@17"@, "/usr/local/opt/openjdk@17"@]
}

/// The Homebrew `openjdk@17` keg prefixes, Apple silicon first.
pub fn brew_openjdk17_prefixes() -> (r: Vec<String>)
    ensures
        strings_are(r@, brew_prefixes()),
{
    strings(&["/opt/homebrew/opt/openjdk@17", "/usr/local/opt/openjdk@17"])
}

/// The optional value as a sequence of at most one member.
pub open spec fn opt_seq(o: Option<Seq<char>>) -> Seq<Seq<char>> {
    match o {
        Some(x) => seq![x],
        None => Seq::empty(),
    }
}

/// The characters of an optional string.
pub open spec fn opt_text(o: Option<String>) -> Option<Seq<char>> {
    match o {
        Some(s) => Some(s@),
        None => None,
    }
}

/// The characters of an optional string slice.
pub open spec fn opt_str_text(o: Option<&str>) -> Option<Seq<char>> {
    match o {
        Some(s) => Some(s@),
        None => None,
    }
}

fn push_opt(v: &mut Vec<String>, o: Option<String>)
    ensures
        final(v)@.len() == old(v)@.len() + opt_seq(opt_text(o)).len(),
        forall|k: int| 0 <= k < old(v)@.len() ==> (#[trigger] final(v)@[k]) == old(v)@[k],
        forall|k: int| 0 <= k < opt_seq(opt_text(o)).len() ==> (#[trigger] final(v)@[old(v)@.len() + k])@
            == opt_seq(opt_text(o))[k],
{
    if let Some(s) = o {
        v.push(s);
    }
}

/// The ordered JDK candidates: the client's override, the explicit
/// environment override, the ambient `JAVA_HOME`, the Homebrew kegs, then
/// the system's JDK-17 home.
pub open spec fn java_home_candidates(
    client: Option<Seq<char>>,
    explicit: Option<Seq<char>>,
    ambient: Option<Seq<char>>,
    brew: Seq<Seq<char>>,
    system: Option<Seq<char>>,
) -> Seq<Seq<char>> {
    opt_seq(client) + opt_seq(explicit) + opt_seq(ambient) + brew + opt_seq(system)
}

proof fn lemma_strings_extend(
    old: Seq<String>,
    new: Seq<String>,
    v: Seq<Seq<char>>,
    extra: Seq<Seq<char>>,
)
    requires
        strings_are(old, v),
        new.len() == old.len() + extra.len(),
        forall|k: int| 0 <= k < old.len() ==> (#[trigger] new[k]) == old[k],
        forall|k: int| 0 <= k < extra.len() ==> (#[trigger] new[old.len() + k])@ == extra[k],
    ensures
        strings_are(new, v + extra),
{
    assert forall|k: int| 0 <= k < new.len() implies (#[trigger] new[k])@ == (v + extra)[k] by {
        if k >= old.len() {
            assert(new[old.len() + (k - old.len())]@ == extra[k - old.len()]);
        }
    }
}

/// Assembles the ordered list of JDK candidates (none validated yet).
pub fn build_java_home_candidates(
    client_override: Option<&str>,
    explicit_env: Option<String>,
    ambient_env: Option<String>,
    brew_prefixes: &[String],
    system_java_home: Option<String>,
) -> (r: Vec<String>)
    ensures
        strings_are(
            r@,
            java_home_candidates(
                opt_str_text(client_override),
                opt_text(explicit_env),
                opt_text(ambient_env),
                brew_prefixes@.map_values(|s: String| s@),
                opt_text(system_java_home),
            ),
        ),
{
    let mut r: Vec<String> = Vec::new();
    let ghost v0 = Seq::<Seq<char>>::empty();
    let c = match client_override {
        Some(s) => Some(s.to_string()),
        None => None,
    };
    assert(opt_text(c) == opt_str_text(client_override));
    let ghost old0 = r@;
    push_opt(&mut r, c);
    proof {
        lemma_strings_extend(old0, r@, v0, opt_seq(opt_text(c)));
    }
    let ghost v1 = v0 + opt_seq(opt_text(c));
    let ghost old1 = r@;
    push_opt(&mut r, explicit_env);
    proof {
        lemma_strings_extend(old1, r@, v1, opt_seq(opt_text(explicit_env)));
    }
    let ghost v2 = v1 + opt_seq(opt_text(explicit_env));
    let ghost old2 = r@;
    push_opt(&mut r, ambient_env);
    proof {
        lemma_strings_extend(old2, r@, v2, opt_seq(opt_text(ambient_env)));
    }
    let ghost v3 = v2 + opt_seq(opt_text(ambient_env));
    let ghost base = r@;
    let ghost brew = brew_prefixes@.map_values(|s: String| s@);
    let mut i: usize = 0;
    while i < brew_prefixes.len()
        invariant
            i <= brew_prefixes@.len(),
            r@.len() == base.len() + i,
            forall|k: int| 0 <= k < base.len() ==> (#[trigger] r@[k]) == base[k],
            forall|k: int| 0 <= k < i ==> (#[trigger] r@[base.len() + k])@ == brew_prefixes@[k]@,
        decreases brew_prefixes@.len() - i,
    {
        r.push(brew_prefixes[i].clone());
        i = i + 1;
    }
    proof {
        assert forall|k: int| 0 <= k < brew.len() implies (#[trigger] r@[base.len() + k])@
            == brew[k] by {
            assert(brew[k] == brew_prefixes@[k]@);
        }
        lemma_strings_extend(base, r@, v3, brew);
    }
    let ghost v4 = v3 + brew;
    let ghost old4 = r@;
    push_opt(&mut r, system_java_home);
    proof {
        lemma_strings_extend(old4, r@, v4, opt_seq(opt_text(system_java_home)));
        assert(v4 + opt_seq(opt_text(system_java_home)) =~= java_home_candidates(
            opt_str_text(client_override),
            opt_text(explicit_env),
            opt_text(ambient_env),
            brew,
            opt_text(system_java_home),
        ));
    }
    r
}

/// The JDK home a client forwards for the Gradle build: the explicit
/// override when set and non-empty, else the ambient `JAVA_HOME` when set
/// and non-empty.
pub fn choose_client_java_home(explicit: Option<String>, ambient: Option<String>) -> (r: Option<
    String,
>)
    ensures
        match explicit {
            Some(e) if e@.len() > 0 => r == Some(e),
            _ => match ambient {
                Some(a) if a@.len() > 0 => r == Some(a),
                _ => r is None,
            },
        },
{
    match explicit {
        Some(e) => {
            if e.unicode_len() > 0 {
                return Some(e);
            }
        },
        None => {},
    }
    match ambient {
        Some(a) => if a.unicode_len() > 0 {
            Some(a)
        } else {
            None
        },
        None => None,
    }
}

} // verus!
