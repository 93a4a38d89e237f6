use game_utils::severity::{
    add_context, context_message, none_message, option_context, option_err, set_severity, Report,
    Severity,
};

fn report(severity: Severity, message: &str) -> Report {
    Report { severity, message: message.to_string() }
}

#[test]
fn none_message_names_the_type() {
    assert_eq!(none_message("u32"), "`Option<u32>` is `None`");
    assert_eq!(none_message("alloc::string::String"), "`Option<alloc::string::String>` is `None`");
}

#[test]
fn context_message_prefixes() {
    assert_eq!(context_message("loading level", "file not found\n"), "loading level: file not found\n");
    assert_eq!(context_message("", ""), ": ");
}

#[test]
fn context_keeps_severity_and_wraps_the_displayed_error() {
    let r: Result<u8, Report> = Err(report(Severity::Warning, "bad input"));
    assert_eq!(add_context(r, "parsing"), Err(report(Severity::Warning, "parsing: bad input\n")));
    let ok: Result<u8, Report> = Ok(3);
    assert_eq!(add_context(ok, "parsing"), Ok(3));
}

#[test]
fn severity_replaces_and_keeps_message() {
    let r: Result<u8, Report> = Err(report(Severity::Panic, "boom"));
    assert_eq!(set_severity(r, Severity::Trace), Err(report(Severity::Trace, "boom")));
    let r: Result<u8, Report> = Err(report(Severity::Panic, "boom"));
    let once = set_severity(r, Severity::Info);
    assert_eq!(set_severity(once, Severity::Error), Err(report(Severity::Error, "boom")));
    let ok: Result<u8, Report> = Ok(1);
    assert_eq!(set_severity(ok, Severity::Ignore), Ok(1));
}

#[test]
fn option_errors() {
    assert_eq!(option_err(Some(5u8), Severity::Debug, "u8"), Ok(5));
    assert_eq!(
        option_err::<u8>(None, Severity::Debug, "u8"),
        Err(report(Severity::Debug, "`Option<u8>` is `None`"))
    );
    assert_eq!(option_context(Some('x'), "missing"), Ok('x'));
    assert_eq!(option_context::<char>(None, "missing"), Err(report(Severity::Panic, "missing")));
}
