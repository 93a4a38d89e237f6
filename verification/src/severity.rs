//! Turning results and options into errors of a chosen severity.
//!
//! `Report` stands for an engine error: its severity, and the message of the error it
//! wraps. Such an error displays its message followed by a line break (when no backtrace
//! was captured).
use vstd::prelude::*;

verus! {

/// How severe an error is, from least to most.
#[derive(Clone, Copy, PartialEq, Eq, Structural, Debug)]
pub enum Severity {
    Ignore,
    Trace,
    Debug,
    Info,
    Warning,
    Error,
    Panic,
}

/// An error with a severity and a message.
#[derive(PartialEq, Eq, Debug)]
pub struct Report {
    pub severity: Severity,
    pub message: String,
}

/// What an error displays: its message and a line break.
pub open spec fn displayed(r: Report) -> Seq<char> {
    r.message@ + seq!['\n']
}

/// The message of an error that adds `context` to an error that displays `shown`.
pub open spec fn context_text(context: Seq<char>, shown: Seq<char>) -> Seq<char> {
    context + seq![':', ' '] + shown
}

/// The message for a missing value of type `type_label`: `` `Option<type_label>` is `None` ``.
pub open spec fn none_text(type_label: Seq<char>) -> Seq<char> {
    "`Option<"@ + type_label + ">` is `None`"@
}

/// `err` with its severity replaced by `severity`.
pub open spec fn with_severity<T>(r: Result<T, Report>, severity: Severity) -> Result<T, Report> {
    match r {
        Ok(v) => Ok(v),
        Err(e) => Err(Report { severity, message: e.message }),
    }
}

/// The message that adds `context` to an error that displays `shown`: `"<context>: <shown>"`.
pub fn context_message(context: &str, shown: &str) -> (r: String)
    ensures
        r@ == context_text(context@, shown@),
{
    let mut r = context.to_owned();
    r.append(": ");
    r.append(shown);
    proof {
        reveal_strlit(": ");
        assert(r@ =~= context_text(context@, shown@));
    }
    r
}

/// The message for a missing value of type `type_label`.
pub fn none_message(type_label: &str) -> (r: String)
    ensures
        r@ == none_text(type_label@),
{
    let mut r = "`Option<".to_owned();
    r.append(type_label);
    r.append(">` is `None`");
    r
}

/// What the error of `r` displays.
fn display_report(r: &Report) -> (s: String)
    ensures
        s@ == displayed(*r),
{
    let mut s = r.message.clone();
    s.append("\n");
    proof {
        reveal_strlit("\n");
        assert(s@ =~= displayed(*r));
    }
    s
}

/// `r` with the severity of its error replaced by `severity`; the message stays.
pub fn set_severity<T>(r: Result<T, Report>, severity: Severity) -> (out: Result<T, Report>)
    ensures
        out == with_severity(r, severity),
        r matches Ok(v) ==> out == Ok::<T, Report>(v),
        r matches Err(e) ==> out matches Err(f) && f.severity == severity && f.message == e.message,
{
    match r {
        Ok(v) => Ok(v),
        Err(e) => Err(Report { severity, message: e.message }),
    }
}

/// `r` with `context` added to its error: the error keeps its severity, and its message
/// becomes `"<context>: <what the error displayed>"`.
pub fn add_context<T>(r: Result<T, Report>, context: &str) -> (out: Result<T, Report>)
    ensures
        match r {
            Ok(v) => out == Ok::<T, Report>(v),
            Err(e) => out matches Err(f) && f.severity == e.severity && f.message@
                == context_text(context@, displayed(e)),
        },
{
    match r {
        Ok(v) => Ok(v),
        Err(e) => {
            let shown = display_report(&e);
            Err(Report { severity: e.severity, message: context_message(context, &shown) })
        },
    }
}

/// `val`, or a fatal error with `message`.
pub fn option_context<T>(val: Option<T>, message: &str) -> (out: Result<T, Report>)
    ensures
        match val {
            Some(v) => out == Ok::<T, Report>(v),
            None => out matches Err(e) && e.severity == Severity::Panic && e.message@ == message@,
        },
{
    match val {
        Some(v) => Ok(v),
        None => Err(Report { severity: Severity::Panic, message: message.to_owned() }),
    }
}

/// `val`, or an error of severity `severity` saying that a value of the type written
/// `type_label` is missing.
pub fn option_err<T>(val: Option<T>, severity: Severity, type_label: &str) -> (out: Result<
    T,
    Report,
>)
    ensures
        match val {
            Some(v) => out == Ok::<T, Report>(v),
            None => out matches Err(e) && e.severity == severity && e.message@ == none_text(
                type_label@,
            ),
        },
{
    match val {
        Some(v) => Ok(v),
        None => Err(Report { severity, message: none_message(type_label) }),
    }
}

/// Giving an error a severity sets exactly that severity and keeps the message, whatever
/// severity the error had; a value stays as it is.
pub proof fn lemma_severity_is_set<T>(r: Result<T, Report>, severity: Severity)
    ensures
        r matches Err(e) ==> with_severity(r, severity) == Err::<T, Report>(
            Report { severity, message: e.message },
        ),
        r matches Ok(v) ==> with_severity(r, severity) == Ok::<T, Report>(v),
{
}

/// Setting two severities in a row leaves the second one: the last severity wins, and the
/// message is the one the error started with.
pub proof fn lemma_last_severity_wins<T>(r: Result<T, Report>, first: Severity, second: Severity)
    ensures
        with_severity(with_severity(r, first), second) == with_severity(r, second),
        r matches Err(e) ==> with_severity(with_severity(r, first), second) matches Err(f)
            && f.severity == second && f.message == e.message,
{
}

} // verus!
