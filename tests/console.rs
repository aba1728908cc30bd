use rustroika::command::{
    parse_line, parse_tokens, ConfigAction, ConsoleCommand, ExportFormat, MainCommand,
    ParseError, RunParams,
};
use rustroika::expr::ExprError;
use rustroika::session::{step, Action, InputEvent, SessionState};

fn words(ws: &[&str]) -> Vec<String> {
    ws.iter().map(|w| w.to_string()).collect()
}

#[test]
fn run_with_expressions() {
    let c = parse_line("run -t \"(6+2)*3\" -m 3070 --ticket-price 63").unwrap();
    assert_eq!(
        c.command,
        Some(MainCommand::Run {
            params: RunParams { trips_per_week: Some(24), monthly_cost: Some(3070), ticket_price: Some(63) },
            export: None,
        })
    );
}

#[test]
fn run_with_export() {
    let c = parse_tokens(&words(&["run", "--export", "json", "-p", "63"])).unwrap();
    assert_eq!(
        c.command,
        Some(MainCommand::Run {
            params: RunParams { trips_per_week: None, monthly_cost: None, ticket_price: Some(63) },
            export: Some(ExportFormat::Json),
        })
    );
}

#[test]
fn run_errors() {
    assert_eq!(parse_tokens(&words(&["run", "-t"])), Err(ParseError::MissingArgument));
    assert_eq!(parse_tokens(&words(&["run", "-x", "1"])), Err(ParseError::UnexpectedArgument));
    assert_eq!(parse_tokens(&words(&["run", "-t", "1", "-t", "2"])), Err(ParseError::DuplicateOption));
    assert_eq!(
        parse_tokens(&words(&["run", "-m", "1-9"])),
        Err(ParseError::InvalidValue(ExprError::NegativeValue))
    );
    assert_eq!(parse_tokens(&words(&["run", "--export", "pdf"])), Err(ParseError::UnknownFormat));
}

#[test]
fn config_commands() {
    assert_eq!(
        parse_line("config set defaults.monthly-cost 3070").unwrap().command,
        Some(MainCommand::Config {
            action: ConfigAction::SetValue {
                key: "defaults.monthly-cost".to_string(),
                value: "3070".to_string(),
            },
        })
    );
    assert_eq!(
        parse_line("config remove defaults.monthly-cost").unwrap().command,
        Some(MainCommand::Config {
            action: ConfigAction::Remove { key: "defaults.monthly-cost".to_string() },
        })
    );
    assert_eq!(
        parse_line("config purge").unwrap().command,
        Some(MainCommand::Config { action: ConfigAction::Purge })
    );
    assert_eq!(parse_line("config set k"), Err(ParseError::MissingArgument));
    assert_eq!(parse_line("config drop k"), Err(ParseError::UnknownCommand));
}

#[test]
fn simple_commands() {
    assert_eq!(parse_line("exit").unwrap().command, Some(MainCommand::Exit));
    assert_eq!(parse_line("clear").unwrap().command, Some(MainCommand::Clear));
    assert_eq!(parse_line("help"), Ok(ConsoleCommand { command: None, help: true }));
    assert_eq!(parse_line("--help"), Ok(ConsoleCommand { command: None, help: true }));
    assert_eq!(parse_line("   "), Ok(ConsoleCommand { command: None, help: false }));
    assert_eq!(parse_line("exit now"), Err(ParseError::UnexpectedArgument));
    assert_eq!(parse_line("launch"), Err(ParseError::UnknownCommand));
    assert_eq!(parse_line("run -t \"8"), Err(ParseError::BadQuoting));
}

#[test]
fn bad_line_then_exit() {
    let (s1, a1) = step(SessionState::Idle, &InputEvent::Line("frobnicate --now".to_string()));
    assert_eq!(s1, SessionState::Idle);
    assert_eq!(a1, Action::Report(ParseError::UnknownCommand));
    let (s2, a2) = step(s1, &InputEvent::Line("run -t '(1+".to_string()));
    assert_eq!(s2, SessionState::Idle);
    assert_eq!(a2, Action::Report(ParseError::BadQuoting));
    let (s3, a3) = step(s2, &InputEvent::Line("exit".to_string()));
    assert_eq!(s3, SessionState::Exited);
    assert_eq!(a3, Action::Execute(MainCommand::Exit));
    let (s4, a4) = step(s3, &InputEvent::Line("clear".to_string()));
    assert_eq!(s4, SessionState::Exited);
    assert_eq!(a4, Action::Nothing);
}

#[test]
fn interrupt_keeps_session_end_of_input_ends_it() {
    assert_eq!(step(SessionState::Idle, &InputEvent::Interrupted), (SessionState::Idle, Action::InterruptNotice));
    assert_eq!(step(SessionState::Idle, &InputEvent::EndOfInput), (SessionState::Exited, Action::Stop));
    assert_eq!(step(SessionState::Idle, &InputEvent::StreamError), (SessionState::Exited, Action::Stop));
    assert_eq!(step(SessionState::Idle, &InputEvent::Line(String::new())), (SessionState::Idle, Action::Nothing));
    assert_eq!(step(SessionState::Idle, &InputEvent::Line("help".to_string())), (SessionState::Idle, Action::ShowHelp));
}

#[test]
fn run_with_attached_values() {
    let c = parse_line("run --trips-per-week=8 -m3070 -p=63 --export=csv").unwrap();
    assert_eq!(
        c.command,
        Some(MainCommand::Run {
            params: RunParams { trips_per_week: Some(8), monthly_cost: Some(3070), ticket_price: Some(63) },
            export: Some(ExportFormat::Csv),
        })
    );
    let c = parse_line("run -t(6+2)*3 --monthly-cost=1+1").unwrap();
    assert_eq!(
        c.command,
        Some(MainCommand::Run {
            params: RunParams { trips_per_week: Some(24), monthly_cost: Some(2), ticket_price: None },
            export: None,
        })
    );
}

#[test]
fn attached_value_errors() {
    assert_eq!(parse_line("run -t8 -t9"), Err(ParseError::DuplicateOption));
    assert_eq!(parse_line("run -x8"), Err(ParseError::UnexpectedArgument));
    assert_eq!(parse_line("run --bogus=1"), Err(ParseError::UnexpectedArgument));
    assert_eq!(parse_line("run --trips-per-week"), Err(ParseError::MissingArgument));
    assert_eq!(parse_line("run -t="), Err(ParseError::InvalidValue(ExprError::InvalidExpression)));
    assert_eq!(parse_line("run --export=pdf"), Err(ParseError::UnknownFormat));
    assert_eq!(parse_line("run 8"), Err(ParseError::UnexpectedArgument));
}
