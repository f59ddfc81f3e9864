//! Decisions of the command-line host: what is supported, what is reported
//! and how, and how a run ends. Reading, writing and logging themselves are
//! the host's business.

use crate::text::{append_decimal, decimal, lowercase, to_lowercase, trim, trimmed};
use vstd::prelude::*;
use vstd::string::StringExecFns;

verus! {

/// How severe a logged message is.
#[derive(Clone, Copy, Debug, PartialEq, Eq, Structural)]
pub enum Severity {
    Error,
    Warn,
    Info,
    Debug,
    Trace,
}

/// What a run reports at the end of one of its steps.
#[derive(Debug)]
pub struct Report {
    pub severity: Severity,
    pub message: String,
}

/// The prefix that marks a message of the given severity.
pub open spec fn prefix_text(severity: Severity) -> Seq<char> {
    match severity {
        Severity::Error => "Error: "@,
        Severity::Warn => "Warning: "@,
        Severity::Info => ""@,
        Severity::Debug => "Debug info: "@,
        Severity::Trace => "TRACING: "@,
    }
}

/// The prefix that marks a message of the given severity.
pub fn severity_prefix(severity: Severity) -> (r: &'static str)
    ensures
        r@ == prefix_text(severity),
{
    match severity {
        Severity::Error => "Error: ",
        Severity::Warn => "Warning: ",
        Severity::Info => "",
        Severity::Debug => "Debug info: ",
        Severity::Trace => "TRACING: ",
    }
}

/// The least severe messages that are shown: everything in a verbose run,
/// else nothing below information.
pub fn severity_filter(verbose: bool) -> (r: Severity)
    ensures
        r == if verbose {
            Severity::Trace
        } else {
            Severity::Info
        },
{
    if verbose {
        Severity::Trace
    } else {
        Severity::Info
    }
}

/// A logged line: prefix and message, wrapped in the escape sequences of the
/// colour if there is one.
pub open spec fn log_line_text(color: Option<&str>, severity: Severity, message: Seq<char>) -> Seq<
    char,
> {
    match color {
        Some(code) => "\x1B["@ + code@ + "m"@ + prefix_text(severity) + message + " \x1B[0m"@,
        None => prefix_text(severity) + message,
    }
}

/// Formats a logged line; `color` is the escape code of the foreground
/// colour, if the line is to be coloured.
pub fn log_line(color: Option<&str>, severity: Severity, message: &str) -> (r: String)
    ensures
        r@ == log_line_text(color, severity, message@),
{
    let mut out = String::new();
    match color {
        Some(code) => {
            out.append("\x1B[");
            out.append(code);
            out.append("m");
            out.append(severity_prefix(severity));
            out.append(message);
            out.append(" \x1B[0m");
        },
        None => {
            out.append(severity_prefix(severity));
            out.append(message);
        },
    }
    out
}

/// The one renderer of the documentation build tool that is supported.
pub open spec fn supported_renderer() -> Seq<char> {
    seq!['h', 't', 'm', 'l']
}

/// Whether the documentation build tool's renderer of this name is
/// supported: only `html` is, in any letter case and with white space around
/// it.
pub fn mdexec_supports(renderer: &str) -> (b: bool)
    ensures
        b == (lowercase(trimmed(renderer@)) == supported_renderer()),
{
    proof {
        reveal_strlit("html");
        assert("html"@ =~= supported_renderer());
    }
    to_lowercase(trim(renderer)) == "html".to_owned()
}

/// What is reported about a renderer that is, or is not, supported.
pub open spec fn support_report_text(renderer: Seq<char>, supported: bool) -> Seq<char> {
    "the given renderer '"@ + renderer + (if supported {
        "' is supported"@
    } else {
        "' is not supported"@
    })
}

/// What is reported about a renderer: information if it is supported, a
/// warning if it is not.
pub fn support_report(renderer: &str, supported: bool) -> (r: Report)
    ensures
        r.severity == if supported {
            Severity::Info
        } else {
            Severity::Warn
        },
        r.message@ == support_report_text(renderer@, supported),
{
    let mut message = "the given renderer '".to_owned();
    message.append(renderer);
    if supported {
        message.append("' is supported");
        Report { severity: Severity::Info, message }
    } else {
        message.append("' is not supported");
        Report { severity: Severity::Warn, message }
    }
}

/// Preprocessing a book for the documentation build tool changes nothing and
/// always succeeds.
pub fn mdexec_preprocess() -> (ok: bool)
    ensures
        ok,
{
    true
}

/// What a check reports about a file with the given number of warnings.
pub open spec fn check_report_text(warnings: nat) -> Seq<char> {
    if warnings == 0 {
        "file ok"@
    } else {
        "file has warning(s): "@ + decimal(warnings)
    }
}

/// What a check reports about a file that was loaded: information if there
/// was nothing to warn about, else a warning with the number of warnings.
pub fn check_report(warnings: usize) -> (r: Report)
    ensures
        r.severity == if warnings == 0 {
            Severity::Info
        } else {
            Severity::Warn
        },
        r.message@ == check_report_text(warnings as nat),
{
    if warnings == 0 {
        Report { severity: Severity::Info, message: "file ok".to_owned() }
    } else {
        let mut message = "file has warning(s): ".to_owned();
        append_decimal(&mut message, warnings as u64);
        Report { severity: Severity::Warn, message }
    }
}

/// The name that stands for the standard output where a destination is
/// asked for.
pub open spec fn standard_output_name() -> Seq<char> {
    "(stdout)"@
}

/// Whether a destination is the standard output rather than a file.
pub fn is_standard_output(destination: &str) -> (b: bool)
    ensures
        b == (destination@ == standard_output_name()),
{
    destination.to_owned() == "(stdout)".to_owned()
}

/// The exit code of a run: 3 if logging could not be set up, else 0 if the
/// command succeeded and 1 if it failed.
pub fn exit_code(logging_ready: bool, success: bool) -> (code: i32)
    ensures
        code == if !logging_ready {
            3int
        } else if success {
            0int
        } else {
            1int
        },
{
    if !logging_ready {
        3
    } else if success {
        0
    } else {
        1
    }
}

} // verus!
