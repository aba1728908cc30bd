//! The console session as a state machine: each input event moves it on and
//! names the one thing the caller is to do.
use vstd::prelude::*;
use crate::command::{
    command_model, line_spec, parse_line, CommandModel, ConsoleCommand, MainCommand, ParseError,
};

verus! {

/// Whether the session still reads lines.
#[derive(PartialEq, Eq, Structural, Debug, Clone, Copy)]
pub enum SessionState {
    Idle,
    Exited,
}

/// What the line reader produced.
#[derive(PartialEq, Eq, Debug, Clone)]
pub enum InputEvent {
    Line(String),
    /// The read was interrupted (Ctrl-C).
    Interrupted,
    /// The input ended (Ctrl-D, or a closed stream).
    EndOfInput,
    /// The input stream failed for good.
    StreamError,
}

/// An input event with its line as a character sequence.
pub enum EventModel {
    Line(Seq<char>),
    Interrupted,
    EndOfInput,
    StreamError,
}

/// What the caller does after one event.
#[derive(PartialEq, Eq, Debug, Clone)]
pub enum Action {
    /// Nothing: a blank line, or the session is over.
    Nothing,
    /// Tell the user why the line is not a command.
    Report(ParseError),
    /// Carry out a command.
    Execute(MainCommand),
    /// Show the help text.
    ShowHelp,
    /// Remind the user that `exit` leaves, after an interrupt.
    InterruptNotice,
    /// Stop reading: the input ended or failed.
    Stop,
}

pub open spec fn event_model(e: InputEvent) -> EventModel {
    match e {
        InputEvent::Line(l) => EventModel::Line(l@),
        InputEvent::Interrupted => EventModel::Interrupted,
        InputEvent::EndOfInput => EventModel::EndOfInput,
        InputEvent::StreamError => EventModel::StreamError,
    }
}

/// The state after an event: the session ends on `exit` and when the input
/// ends or fails, and nothing else ends it.
pub open spec fn next_state(s: SessionState, e: EventModel) -> SessionState {
    match s {
        SessionState::Exited => SessionState::Exited,
        SessionState::Idle => match e {
            EventModel::Line(l) => match line_spec(l) {
                Ok(CommandModel::Exit) => SessionState::Exited,
                _ => SessionState::Idle,
            },
            EventModel::Interrupted => SessionState::Idle,
            EventModel::EndOfInput => SessionState::Exited,
            EventModel::StreamError => SessionState::Exited,
        },
    }
}

/// The action due for an event in a state.
pub open spec fn action_spec(s: SessionState, e: EventModel, a: Action) -> bool {
    match s {
        SessionState::Exited => a == Action::Nothing,
        SessionState::Idle => match e {
            EventModel::Line(l) => match line_spec(l) {
                Err(err) => a == Action::Report(err),
                Ok(CommandModel::Nothing) => a == Action::Nothing,
                Ok(CommandModel::Help) => a == Action::ShowHelp,
                Ok(m) => match a {
                    Action::Execute(c) => command_model(
                        ConsoleCommand { command: Some(c), help: false },
                    ) == m,
                    _ => false,
                },
            },
            EventModel::Interrupted => a == Action::InterruptNotice,
            EventModel::EndOfInput => a == Action::Stop,
            EventModel::StreamError => a == Action::Stop,
        },
    }
}

/// Moves the session on by one event.
pub fn step(state: SessionState, event: &InputEvent) -> (r: (SessionState, Action))
    ensures
        r.0 == next_state(state, event_model(*event)),
        action_spec(state, event_model(*event), r.1),
{
    if state == SessionState::Exited {
        return (SessionState::Exited, Action::Nothing);
    }
    match event {
        InputEvent::Line(l) => match parse_line(l.as_str()) {
            Err(e) => (SessionState::Idle, Action::Report(e)),
            Ok(ConsoleCommand { command: None, help }) => {
                if help {
                    (SessionState::Idle, Action::ShowHelp)
                } else {
                    (SessionState::Idle, Action::Nothing)
                }
            },
            Ok(ConsoleCommand { command: Some(c), help }) => {
                let ghost m = command_model(ConsoleCommand { command: Some(c), help: false });
                assert(line_spec(l@) == Ok::<CommandModel, ParseError>(m));
                let exits = match c {
                    MainCommand::Exit => true,
                    _ => false,
                };
                if exits {
                    (SessionState::Exited, Action::Execute(c))
                } else {
                    (SessionState::Idle, Action::Execute(c))
                }
            },
        },
        InputEvent::Interrupted => (SessionState::Idle, Action::InterruptNotice),
        InputEvent::EndOfInput => (SessionState::Exited, Action::Stop),
        InputEvent::StreamError => (SessionState::Exited, Action::Stop),
    }
}

/// A line that is not a command leaves the session running, and a later
/// `exit` ends it.
pub proof fn lemma_bad_line_then_exit(bad: Seq<char>, exit_line: Seq<char>)
    requires
        line_spec(bad) is Err,
        line_spec(exit_line) == Ok::<CommandModel, ParseError>(CommandModel::Exit),
    ensures
        next_state(SessionState::Idle, EventModel::Line(bad)) == SessionState::Idle,
        next_state(
            next_state(SessionState::Idle, EventModel::Line(bad)),
            EventModel::Line(exit_line),
        ) == SessionState::Exited,
{
}

} // verus!
