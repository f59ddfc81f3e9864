use mdbook_xmldoc::host::{
    check_report, exit_code, is_standard_output, log_line, mdexec_preprocess, mdexec_supports,
    severity_filter, severity_prefix, support_report, Severity,
};
use mdbook_xmldoc::text::{append_decimal, append_signed_decimal, join};

fn decimal_of(n: u64) -> String {
    let mut out = String::new();
    append_decimal(&mut out, n);
    out
}

fn signed_decimal_of(n: i32) -> String {
    let mut out = String::new();
    append_signed_decimal(&mut out, n);
    out
}

#[test]
fn decimal_notation() {
    assert_eq!(decimal_of(0), "0");
    assert_eq!(decimal_of(7), "7");
    assert_eq!(decimal_of(9), "9");
    assert_eq!(decimal_of(10), "10");
    assert_eq!(decimal_of(109), "109");
    assert_eq!(decimal_of(1234567890), "1234567890");
    assert_eq!(decimal_of(u64::MAX), "18446744073709551615");
}

#[test]
fn decimal_is_appended() {
    let mut out = String::from("n=");
    append_decimal(&mut out, 42);
    append_signed_decimal(&mut out, -42);
    assert_eq!(out, "n=42-42");
}

#[test]
fn signed_decimal_notation() {
    assert_eq!(signed_decimal_of(0), "0");
    assert_eq!(signed_decimal_of(5), "5");
    assert_eq!(signed_decimal_of(-5), "-5");
    assert_eq!(signed_decimal_of(i32::MAX), "2147483647");
    assert_eq!(signed_decimal_of(i32::MIN), "-2147483648");
}

#[test]
fn join_puts_the_separator_between_neighbours() {
    assert_eq!(join(&vec![], ", "), "");
    assert_eq!(join(&vec!["one".to_string()], ", "), "one");
    assert_eq!(
        join(&vec!["one".to_string(), "two".to_string(), "three".to_string()], ", "),
        "one, two, three"
    );
    assert_eq!(join(&vec!["".to_string(), "".to_string()], "-"), "-");
    assert_eq!(join(&vec!["a".to_string(), "b".to_string()], ""), "ab");
}

#[test]
fn only_the_html_renderer_is_supported() {
    assert!(mdexec_supports("html"));
    assert!(mdexec_supports("HTML"));
    assert!(mdexec_supports("  Html\n"));
    assert!(!mdexec_supports("markdown"));
    assert!(!mdexec_supports("ht ml"));
    assert!(!mdexec_supports(""));
    assert!(!mdexec_supports("html5"));
}

#[test]
fn preprocessing_always_succeeds() {
    assert!(mdexec_preprocess());
}

#[test]
fn severity_prefixes() {
    assert_eq!(severity_prefix(Severity::Error), "Error: ");
    assert_eq!(severity_prefix(Severity::Warn), "Warning: ");
    assert_eq!(severity_prefix(Severity::Info), "");
    assert_eq!(severity_prefix(Severity::Debug), "Debug info: ");
    assert_eq!(severity_prefix(Severity::Trace), "TRACING: ");
}

#[test]
fn verbose_runs_show_everything() {
    assert_eq!(severity_filter(true), Severity::Trace);
    assert_eq!(severity_filter(false), Severity::Info);
}

#[test]
fn log_lines_with_and_without_colour() {
    assert_eq!(log_line(None, Severity::Warn, "careful"), "Warning: careful");
    assert_eq!(log_line(None, Severity::Info, "fine"), "fine");
    assert_eq!(
        log_line(Some("31"), Severity::Error, "broken"),
        "\x1B[31mError: broken \x1B[0m"
    );
    assert_eq!(log_line(Some("90"), Severity::Trace, ""), "\x1B[90mTRACING:  \x1B[0m");
}

#[test]
fn reports_about_renderers() {
    let yes = support_report("html", true);
    assert_eq!(yes.severity, Severity::Info);
    assert_eq!(yes.message, "the given renderer 'html' is supported");
    let no = support_report("epub", false);
    assert_eq!(no.severity, Severity::Warn);
    assert_eq!(no.message, "the given renderer 'epub' is not supported");
}

#[test]
fn reports_about_checked_files() {
    let clean = check_report(0);
    assert_eq!(clean.severity, Severity::Info);
    assert_eq!(clean.message, "file ok");
    let one = check_report(1);
    assert_eq!(one.severity, Severity::Warn);
    assert_eq!(one.message, "file has warning(s): 1");
    assert_eq!(check_report(250).message, "file has warning(s): 250");
}

#[test]
fn standard_output_has_a_name_of_its_own() {
    assert!(is_standard_output("(stdout)"));
    assert!(!is_standard_output("stdout"));
    assert!(!is_standard_output("(STDOUT)"));
    assert!(!is_standard_output("out.md"));
    assert!(!is_standard_output(""));
}

#[test]
fn exit_codes() {
    assert_eq!(exit_code(true, true), 0);
    assert_eq!(exit_code(true, false), 1);
    assert_eq!(exit_code(false, false), 3);
    assert_eq!(exit_code(false, true), 3);
}

#[test]
fn default_options_are_top_level_and_line_feed() {
    let options = mdbook_xmldoc::generator::GeneratorOptions::default();
    assert_eq!(options.level.get(), 1);
    assert!(!options.crlf);
}
