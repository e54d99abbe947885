//! The interactive session as a state machine.
//!
//! The loop around it reads input, parses and runs queries, renders results,
//! and launches the external viewer; this module fixes what happens next
//! after each of those outcomes. A query syntax error returns the session to
//! the prompt without ending it; a quit command or end of input ends it; a
//! viewer failure is reported and the session returns to the prompt.

use vstd::prelude::*;

verus! {

/// Where the session stands.
#[derive(Debug, Clone, Copy, PartialEq, Eq, Structural)]
pub enum SessionState {
    /// Awaiting input at the prompt.
    Idle,
    /// A query line was taken and is being parsed and run.
    Evaluating,
    /// Ranked results are on display, awaiting a selection.
    Displaying,
    /// A result was chosen; the external viewer runs and the session waits.
    Selected,
    /// The session is over.
    Exiting,
}

/// What the loop around the session observed.
#[derive(Debug, Clone, Copy, PartialEq, Eq, Structural)]
pub enum SessionEvent {
    /// A query line was entered at the prompt.
    QueryEntered,
    /// The quit command was entered at the prompt.
    QuitRequested,
    /// Input ended at the prompt.
    EndOfInput,
    /// The query parsed and was evaluated.
    QueryParsed,
    /// The query was rejected with a syntax error.
    QueryRejected,
    /// A result was chosen from the display.
    ResultChosen,
    /// The display was dismissed without a selection.
    DismissResults,
    /// The external viewer exited.
    ViewerExited,
    /// The external viewer could not be launched.
    ViewerFailed,
}

/// What the loop around the session must do next.
#[derive(Debug, Clone, Copy, PartialEq, Eq, Structural)]
pub enum SessionAction {
    /// Prompt for the next query.
    AwaitInput,
    /// Parse the entered line and evaluate it against the index.
    RunQuery,
    /// Report the syntax error, then prompt again.
    ReportSyntaxError,
    /// Render the ranked results.
    RenderResults,
    /// Launch the external viewer on the chosen result and wait for it.
    LaunchViewer,
    /// Report that the viewer failed, then prompt again.
    ReportViewerError,
    /// Leave the loop.
    Shutdown,
    /// The event does not apply in this state; stay put.
    Ignore,
}

/// The transition table. An event that does not apply in the current state
/// changes nothing; `Exiting` is terminal.
pub open spec fn spec_step(s: SessionState, e: SessionEvent) -> (SessionState, SessionAction) {
    match (s, e) {
        (SessionState::Idle, SessionEvent::QueryEntered) => (
            SessionState::Evaluating,
            SessionAction::RunQuery,
        ),
        (SessionState::Idle, SessionEvent::QuitRequested) => (
            SessionState::Exiting,
            SessionAction::Shutdown,
        ),
        (SessionState::Idle, SessionEvent::EndOfInput) => (
            SessionState::Exiting,
            SessionAction::Shutdown,
        ),
        (SessionState::Evaluating, SessionEvent::QueryParsed) => (
            SessionState::Displaying,
            SessionAction::RenderResults,
        ),
        (SessionState::Evaluating, SessionEvent::QueryRejected) => (
            SessionState::Idle,
            SessionAction::ReportSyntaxError,
        ),
        (SessionState::Displaying, SessionEvent::ResultChosen) => (
            SessionState::Selected,
            SessionAction::LaunchViewer,
        ),
        (SessionState::Displaying, SessionEvent::DismissResults) => (
            SessionState::Idle,
            SessionAction::AwaitInput,
        ),
        (SessionState::Selected, SessionEvent::ViewerExited) => (
            SessionState::Idle,
            SessionAction::AwaitInput,
        ),
        (SessionState::Selected, SessionEvent::ViewerFailed) => (
            SessionState::Idle,
            SessionAction::ReportViewerError,
        ),
        _ => (s, SessionAction::Ignore),
    }
}

/// Advances the session by one observed event, per `spec_step`.
pub fn step(s: SessionState, e: SessionEvent) -> (r: (SessionState, SessionAction))
    ensures
        r == spec_step(s, e),
{
    match (s, e) {
        (SessionState::Idle, SessionEvent::QueryEntered) => (
            SessionState::Evaluating,
            SessionAction::RunQuery,
        ),
        (SessionState::Idle, SessionEvent::QuitRequested) => (
            SessionState::Exiting,
            SessionAction::Shutdown,
        ),
        (SessionState::Idle, SessionEvent::EndOfInput) => (
            SessionState::Exiting,
            SessionAction::Shutdown,
        ),
        (SessionState::Evaluating, SessionEvent::QueryParsed) => (
            SessionState::Displaying,
            SessionAction::RenderResults,
        ),
        (SessionState::Evaluating, SessionEvent::QueryRejected) => (
            SessionState::Idle,
            SessionAction::ReportSyntaxError,
        ),
        (SessionState::Displaying, SessionEvent::ResultChosen) => (
            SessionState::Selected,
            SessionAction::LaunchViewer,
        ),
        (SessionState::Displaying, SessionEvent::DismissResults) => (
            SessionState::Idle,
            SessionAction::AwaitInput,
        ),
        (SessionState::Selected, SessionEvent::ViewerExited) => (
            SessionState::Idle,
            SessionAction::AwaitInput,
        ),
        (SessionState::Selected, SessionEvent::ViewerFailed) => (
            SessionState::Idle,
            SessionAction::ReportViewerError,
        ),
        _ => (s, SessionAction::Ignore),
    }
}

/// A rejected query returns the session to the prompt with the error
/// reported: the loop recovers in place and never ends on a syntax error.
pub proof fn lemma_syntax_error_recovers()
    ensures
        spec_step(SessionState::Evaluating, SessionEvent::QueryRejected) == (
            SessionState::Idle,
            SessionAction::ReportSyntaxError,
        ),
{
}

/// `Exiting` is terminal: no event leaves it.
pub proof fn lemma_exiting_terminal(e: SessionEvent)
    ensures
        spec_step(SessionState::Exiting, e).0 == SessionState::Exiting,
{
}

} // verus!
