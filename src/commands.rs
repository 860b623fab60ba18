//! The commands that the desktop front end invokes. Probing the disk and
//! running the launch script are left to the caller, which reports what it
//! observed; these functions decide what the command answers.

use vstd::prelude::*;
use crate::events::{decode_lossy, lossy_text};

verus! {

/// Where the browser is installed on macOS.
pub const CHROME_PATH: &'static str = "/Applications/Google Chrome.app/Contents/MacOS/Google Chrome";

/// The launch script bundled with the application's resources.
pub const LAUNCH_SCRIPT: &'static str = "launch-chrome-debug.sh";

pub fn greet(name: &str) -> (r: String)
    ensures
        r@ == "Hello, "@ + name@ + "! You've been greeted from Rust!"@,
{
    let mut r = String::from_str("Hello, ");
    r.append(name);
    r.append("! You've been greeted from Rust!");
    r
}

/// The first of several candidate locations that is present, given whether
/// each one is.
pub fn first_present(present: &Vec<bool>) -> (r: Option<usize>)
    ensures
        match r {
            Some(i) => i < present@.len() && present@[i as int]
                && forall|j: int| 0 <= j < i ==> !present@[j],
            None => forall|j: int| 0 <= j < present@.len() ==> !present@[j],
        },
{
    let mut i: usize = 0;
    while i < present.len()
        invariant
            i <= present@.len(),
            forall|j: int| 0 <= j < i ==> !present@[j],
        decreases present@.len() - i,
    {
        if present[i] {
            return Some(i);
        }
        i = i + 1;
    }
    None
}

/// What the launch script left behind.
pub struct ScriptOutput {
    pub success: bool,
    pub stderr: Vec<u8>,
}

/// One observation of the launch of the browser in debugging mode, in the
/// order they are made: installation, resource directory, script, its run.
pub enum ChromeLaunchStep {
    Installed(bool),
    /// The resource directory was found, or why not.
    ResourceDir(Result<(), String>),
    ScriptPresent(bool),
    /// The script ran, or why it could not be run.
    ScriptRan(Result<ScriptOutput, String>),
}

pub open spec fn not_installed_message() -> Seq<char> {
    "Chrome is not installed. Please install Chrome from https://www.google.com/chrome/"@
}

/// The command's answer once `step` has been observed, or `None` where the
/// next observation is to be made.
pub open spec fn chrome_launch_answer(step: ChromeLaunchStep) -> Option<Result<Seq<char>, Seq<char>>> {
    match step {
        ChromeLaunchStep::Installed(true) => None,
        ChromeLaunchStep::Installed(false) => Some(Err(not_installed_message())),
        ChromeLaunchStep::ResourceDir(Ok(())) => None,
        ChromeLaunchStep::ResourceDir(Err(e)) => Some(Err("Failed to get resource directory: "@ + e@)),
        ChromeLaunchStep::ScriptPresent(true) => None,
        ChromeLaunchStep::ScriptPresent(false) => Some(Err("Chrome launch script not found in app bundle"@)),
        ChromeLaunchStep::ScriptRan(Err(e)) => Some(Err("Failed to execute launch script: "@ + e@)),
        ChromeLaunchStep::ScriptRan(Ok(out)) => if out.success {
            Some(Ok("Chrome launched successfully with remote debugging enabled"@))
        } else {
            Some(Err("Failed to launch Chrome: "@ + lossy_text(out.stderr@)))
        },
    }
}

pub open spec fn answer_view(r: Option<Result<String, String>>) -> Option<Result<Seq<char>, Seq<char>>> {
    match r {
        None => None,
        Some(Ok(m)) => Some(Ok(m@)),
        Some(Err(m)) => Some(Err(m@)),
    }
}

/// The answer when the launch script failed, given the text of what it
/// wrote to standard error.
pub fn script_failed_message(stderr_text: &str) -> (r: String)
    ensures
        r@ == "Failed to launch Chrome: "@ + stderr_text@,
{
    prefixed("Failed to launch Chrome: ", stderr_text)
}

fn prefixed(prefix: &str, rest: &str) -> (r: String)
    ensures
        r@ == prefix@ + rest@,
{
    let mut r = String::from_str(prefix);
    r.append(rest);
    r
}

/// Decides after one observation of the launch of the browser.
pub fn chrome_launch_decision(step: ChromeLaunchStep) -> (r: Option<Result<String, String>>)
    ensures
        answer_view(r) == chrome_launch_answer(step),
{
    match step {
        ChromeLaunchStep::Installed(true) => None,
        ChromeLaunchStep::Installed(false) => Some(
            Err(String::from_str("Chrome is not installed. Please install Chrome from https://www.google.com/chrome/")),
        ),
        ChromeLaunchStep::ResourceDir(Ok(())) => None,
        ChromeLaunchStep::ResourceDir(Err(e)) => Some(
            Err(prefixed("Failed to get resource directory: ", e.as_str())),
        ),
        ChromeLaunchStep::ScriptPresent(true) => None,
        ChromeLaunchStep::ScriptPresent(false) => Some(
            Err(String::from_str("Chrome launch script not found in app bundle")),
        ),
        ChromeLaunchStep::ScriptRan(Err(e)) => Some(
            Err(prefixed("Failed to execute launch script: ", e.as_str())),
        ),
        ChromeLaunchStep::ScriptRan(Ok(out)) => {
            if out.success {
                Some(Ok(String::from_str("Chrome launched successfully with remote debugging enabled")))
            } else {
                let text = decode_lossy(out.stderr.as_slice());
                Some(Err(script_failed_message(text.as_str())))
            }
        },
    }
}

} // verus!
