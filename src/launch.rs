//! What to run, and how a launch attempt ends.

use vstd::prelude::*;
use crate::events::Supervisor;

verus! {

/// What to run: fixed once the launch is requested.
pub struct ProcessSpec {
    pub executable: String,
    pub args: Vec<String>,
    pub cwd: Option<String>,
    /// Overrides of the environment, in the order given.
    pub env: Vec<(String, String)>,
}

impl ProcessSpec {
    pub fn new(executable: String) -> (r: ProcessSpec)
        ensures
            r.executable == executable,
            r.args@.len() == 0,
            r.cwd is None,
            r.env@.len() == 0,
    {
        ProcessSpec { executable, args: Vec::new(), cwd: None, env: Vec::new() }
    }

    /// Appends one argument.
    pub fn arg(self, a: String) -> (r: ProcessSpec)
        ensures
            r.executable == self.executable,
            r.args@ == self.args@.push(a),
            r.cwd == self.cwd,
            r.env@ == self.env@,
    {
        let mut s = self;
        s.args.push(a);
        s
    }

    pub fn current_dir(self, dir: String) -> (r: ProcessSpec)
        ensures
            r.executable == self.executable,
            r.args@ == self.args@,
            r.cwd == Some(dir),
            r.env@ == self.env@,
    {
        let mut s = self;
        s.cwd = Some(dir);
        s
    }

    /// Adds one environment override.
    pub fn env(self, name: String, value: String) -> (r: ProcessSpec)
        ensures
            r.executable == self.executable,
            r.args@ == self.args@,
            r.cwd == self.cwd,
            r.env@ == self.env@.push((name, value)),
    {
        let mut s = self;
        s.env.push((name, value));
        s
    }
}

/// The kinds of launch failure that callers tell apart.
#[derive(Debug, PartialEq, Eq)]
pub enum LaunchError {
    NotFound,
    PermissionDenied,
    /// Any other failure of the operating system, with its description.
    SpawnFailed(String),
}

/// How the operating system classified a failed launch.
#[derive(Debug, PartialEq, Eq)]
pub enum OsErrorKind {
    NotFound,
    PermissionDenied,
    Other,
}

pub struct OsFailure {
    pub kind: OsErrorKind,
    pub detail: String,
}

/// A process that was started, and the stream of its events.
pub struct ProcessHandle {
    pub pid: u32,
    pub events: Supervisor,
}

pub open spec fn classified(f: OsFailure) -> LaunchError {
    match f.kind {
        OsErrorKind::NotFound => LaunchError::NotFound,
        OsErrorKind::PermissionDenied => LaunchError::PermissionDenied,
        OsErrorKind::Other => LaunchError::SpawnFailed(f.detail),
    }
}

/// The kind of launch failure that an operating-system failure is.
pub fn classify(f: OsFailure) -> (r: LaunchError)
    ensures
        r == classified(f),
{
    match f.kind {
        OsErrorKind::NotFound => LaunchError::NotFound,
        OsErrorKind::PermissionDenied => LaunchError::PermissionDenied,
        OsErrorKind::Other => LaunchError::SpawnFailed(f.detail),
    }
}

/// Whether to attempt the launch at all: an empty executable path, or one
/// that is known to be absent, cannot be located.
pub fn preflight(spec: &ProcessSpec, present: bool) -> (r: Result<(), LaunchError>)
    ensures
        r is Ok <==> (spec.executable@.len() > 0 && present),
        r is Err ==> r == Err::<(), LaunchError>(LaunchError::NotFound),
{
    if spec.executable.as_str().is_empty() || !present {
        Err(LaunchError::NotFound)
    } else {
        Ok(())
    }
}

/// Ends a launch attempt: a started process gets a handle with a fresh event
/// stream; a failure gets its kind, and no handle.
pub fn launch_outcome(started: Result<u32, OsFailure>) -> (r: Result<ProcessHandle, LaunchError>)
    ensures
        match started {
            Ok(pid) => match r {
                Ok(h) => {
                    &&& h.pid == pid
                    &&& h.events.wf()
                    &&& h.events@.stdout.len() == 0
                    &&& h.events@.stderr.len() == 0
                    &&& !h.events@.stdout_closed
                    &&& !h.events@.stderr_closed
                    &&& h.events@.exit is None
                    &&& h.events@.log.len() == 0
                },
                Err(_) => false,
            },
            Err(f) => r == Err::<ProcessHandle, LaunchError>(classified(f)),
        },
{
    match started {
        Ok(pid) => Ok(ProcessHandle { pid, events: Supervisor::new() }),
        Err(f) => Err(classify(f)),
    }
}

impl LaunchError {
    /// A message for the user, distinct for each kind.
    pub fn message(&self) -> (r: String)
        ensures
            r@ == match self {
                LaunchError::NotFound => "the executable could not be found"@,
                LaunchError::PermissionDenied => "the executable may not be run (permission denied)"@,
                LaunchError::SpawnFailed(d) => "the process could not be started: "@ + d@,
            },
    {
        match self {
            LaunchError::NotFound => String::from_str("the executable could not be found"),
            LaunchError::PermissionDenied => String::from_str("the executable may not be run (permission denied)"),
            LaunchError::SpawnFailed(d) => {
                let mut m = String::from_str("the process could not be started: ");
                m.append(d.as_str());
                m
            },
        }
    }
}

} // verus!
