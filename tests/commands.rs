use screenshot_app::commands::{
    chrome_launch_decision, first_present, greet, script_failed_message, ChromeLaunchStep, ScriptOutput,
};
use screenshot_app::events::OutputEvent;
use screenshot_app::forward::{backend_log_entry, line_entry, LogStream};

#[test]
fn greets_by_name() {
    assert_eq!(greet("World"), "Hello, World! You've been greeted from Rust!");
    assert_eq!(greet(""), "Hello, ! You've been greeted from Rust!");
}

#[test]
fn first_present_location() {
    assert_eq!(first_present(&vec![false, true, true]), Some(1));
    assert_eq!(first_present(&vec![false, false]), None);
    assert_eq!(first_present(&vec![]), None);
}

#[test]
fn chrome_not_installed() {
    assert_eq!(
        chrome_launch_decision(ChromeLaunchStep::Installed(false)),
        Some(Err("Chrome is not installed. Please install Chrome from https://www.google.com/chrome/".to_string()))
    );
    assert_eq!(chrome_launch_decision(ChromeLaunchStep::Installed(true)), None);
}

#[test]
fn chrome_resource_and_script_failures() {
    assert_eq!(
        chrome_launch_decision(ChromeLaunchStep::ResourceDir(Err("unknown path".to_string()))),
        Some(Err("Failed to get resource directory: unknown path".to_string()))
    );
    assert_eq!(chrome_launch_decision(ChromeLaunchStep::ResourceDir(Ok(()))), None);
    assert_eq!(
        chrome_launch_decision(ChromeLaunchStep::ScriptPresent(false)),
        Some(Err("Chrome launch script not found in app bundle".to_string()))
    );
    assert_eq!(chrome_launch_decision(ChromeLaunchStep::ScriptPresent(true)), None);
    assert_eq!(
        chrome_launch_decision(ChromeLaunchStep::ScriptRan(Err("no bash".to_string()))),
        Some(Err("Failed to execute launch script: no bash".to_string()))
    );
}

#[test]
fn chrome_script_outcomes() {
    let ok = ScriptOutput { success: true, stderr: Vec::new() };
    assert_eq!(
        chrome_launch_decision(ChromeLaunchStep::ScriptRan(Ok(ok))),
        Some(Ok("Chrome launched successfully with remote debugging enabled".to_string()))
    );
    let bad = ScriptOutput { success: false, stderr: vec![b'p', b'o', b'r', b't', 0xfe] };
    assert_eq!(
        chrome_launch_decision(ChromeLaunchStep::ScriptRan(Ok(bad))),
        Some(Err("Failed to launch Chrome: port\u{FFFD}".to_string()))
    );
}

#[test]
fn backend_lines_are_trimmed() {
    let e = backend_log_entry(&OutputEvent::StdoutLine("  started on 8000 \r".to_string()));
    assert_eq!(e.stream, LogStream::Stdout);
    assert_eq!(e.text, "Backend: started on 8000");
    assert!(!e.last);
    let e = backend_log_entry(&OutputEvent::StderrLine("\twarning".to_string()));
    assert_eq!(e.stream, LogStream::Stderr);
    assert_eq!(e.text, "Backend Error: warning");
    assert!(!e.last);
}

#[test]
fn backend_termination_entry() {
    let e = backend_log_entry(&OutputEvent::Terminated(Some(0)));
    assert_eq!(e.text, "Backend terminated with code: Some(0)");
    assert!(e.last);
    assert_eq!(backend_log_entry(&OutputEvent::Terminated(Some(-15))).text, "Backend terminated with code: Some(-15)");
    assert_eq!(backend_log_entry(&OutputEvent::Terminated(None)).text, "Backend terminated with code: None");
    assert_eq!(backend_log_entry(&OutputEvent::Terminated(Some(127))).stream, LogStream::Stdout);
}

#[test]
fn trimmed_line_entries() {
    let e = line_entry(LogStream::Stderr, "disk full");
    assert_eq!(e.text, "Backend Error: disk full");
    assert_eq!(e.stream, LogStream::Stderr);
    assert!(!e.last);
    assert_eq!(line_entry(LogStream::Stdout, "").text, "Backend: ");
}

#[test]
fn script_failure_text() {
    assert_eq!(script_failed_message("port in use"), "Failed to launch Chrome: port in use");
}
