//! Forwarding the companion process's events to the application log.

use vstd::prelude::*;
use crate::events::OutputEvent;

verus! {

/// What `str::trim` leaves of a text.
pub uninterp spec fn trimmed_of(s: Seq<char>) -> Seq<char>;

/// Relies on `str::trim`: the text without leading and trailing white space,
/// which depends on the characters alone.
#[verifier::external_body]
fn trim_text(s: &str) -> (r: String)
    ensures
        r@ == trimmed_of(s@),
{
    s.trim().to_string()
}

pub open spec fn digit_chars() -> Seq<char> {
    seq!['0', '1', '2', '3', '4', '5', '6', '7', '8', '9']
}

/// The decimal digits of `n`, without leading zeros.
pub open spec fn digits(n: nat) -> Seq<char>
    decreases n,
{
    if n < 10 {
        seq![digit_chars()[n as int]]
    } else {
        digits(n / 10).push(digit_chars()[(n % 10) as int])
    }
}

/// `n` written in decimal, with a leading minus sign when negative.
pub open spec fn decimal(n: int) -> Seq<char> {
    if n < 0 {
        seq!['-'] + digits((-n) as nat)
    } else {
        digits(n as nat)
    }
}

/// Relies on `i32::to_string` (its `Display`): the decimal form of `n`.
#[verifier::external_body]
fn int_text(n: i32) -> (r: String)
    ensures
        r@ == decimal(n as int),
{
    n.to_string()
}

/// How an optional exit code is written in the log.
pub open spec fn code_text(code: Option<i32>) -> Seq<char> {
    match code {
        Some(c) => "Some("@ + decimal(c as int) + ")"@,
        None => "None"@,
    }
}

#[derive(Debug, PartialEq, Eq)]
pub enum LogStream {
    Stdout,
    Stderr,
}

/// One line for the application log.
pub struct LogEntry {
    pub stream: LogStream,
    pub text: String,
    /// Whether this is the last entry of the process.
    pub last: bool,
}

/// The prefix of a log line of `stream`.
pub open spec fn line_prefix(stream: LogStream) -> Seq<char> {
    match stream {
        LogStream::Stdout => "Backend: "@,
        LogStream::Stderr => "Backend Error: "@,
    }
}

/// The log entry for an output line of `stream`, already trimmed.
pub fn line_entry(stream: LogStream, trimmed: &str) -> (r: LogEntry)
    ensures
        r.stream == stream,
        !r.last,
        r.text@ == line_prefix(stream) + trimmed@,
{
    let mut text = match stream {
        LogStream::Stdout => String::from_str("Backend: "),
        LogStream::Stderr => String::from_str("Backend Error: "),
    };
    text.append(trimmed);
    LogEntry { stream, text, last: false }
}

/// The log entry for one event of the companion process: its output lines,
/// trimmed, on the matching stream, and the exit code as the final entry.
pub fn backend_log_entry(ev: &OutputEvent) -> (r: LogEntry)
    ensures
        match ev {
            OutputEvent::StdoutLine(t) => r.stream is Stdout && !r.last
                && r.text@ == "Backend: "@ + trimmed_of(t@),
            OutputEvent::StderrLine(t) => r.stream is Stderr && !r.last
                && r.text@ == "Backend Error: "@ + trimmed_of(t@),
            OutputEvent::Terminated(c) => r.stream is Stdout && r.last
                && r.text@ == "Backend terminated with code: "@ + code_text(*c),
        },
{
    match ev {
        OutputEvent::StdoutLine(t) => line_entry(LogStream::Stdout, trim_text(t.as_str()).as_str()),
        OutputEvent::StderrLine(t) => line_entry(LogStream::Stderr, trim_text(t.as_str()).as_str()),
        OutputEvent::Terminated(c) => {
            let mut text = String::from_str("Backend terminated with code: ");
            match c {
                Some(n) => {
                    text.append("Some(");
                    let digits = int_text(*n);
                    text.append(digits.as_str());
                    text.append(")");
                },
                None => {
                    text.append("None");
                },
            }
            proof {
                assert(text@ =~= "Backend terminated with code: "@ + code_text(*c));
            }
            LogEntry { stream: LogStream::Stdout, text, last: true }
        },
    }
}

} // verus!
