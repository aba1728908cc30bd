//! The console's command grammar: a line is split into shell-style words, and
//! the words are read as one command.
use vstd::prelude::*;
use crate::expr::{expression_value, parse_expression, ExprError};
use crate::tree::string_views;
use vstd::string::StrSliceExecFns;

verus! {

/// Where a report is written.
#[derive(PartialEq, Eq, Structural, Debug, Clone, Copy)]
pub enum ExportFormat {
    Csv,
    Xlsx,
    Json,
}

/// The values given on one `run` command; each may be missing.
#[derive(PartialEq, Eq, Structural, Debug, Clone, Copy)]
pub struct RunParams {
    pub trips_per_week: Option<u32>,
    pub monthly_cost: Option<u32>,
    pub ticket_price: Option<u32>,
}

/// A change to the stored configuration.
#[derive(PartialEq, Eq, Debug, Clone)]
pub enum ConfigAction {
    /// Store the value of an expression at a dotted key.
    SetValue { key: String, value: String },
    /// Delete the value at a dotted key.
    Remove { key: String },
    /// Delete the whole configuration file.
    Purge,
}

/// One console command.
#[derive(PartialEq, Eq, Debug, Clone)]
pub enum MainCommand {
    /// Compare the costs, with an optional report.
    Run { params: RunParams, export: Option<ExportFormat> },
    /// Change the configuration.
    Config { action: ConfigAction },
    /// Leave the console.
    Exit,
    /// Clear the screen.
    Clear,
}

/// What a console line asks for: a command, the help text, or nothing at all.
#[derive(PartialEq, Eq, Debug, Clone)]
pub struct ConsoleCommand {
    pub command: Option<MainCommand>,
    pub help: bool,
}

/// Why a line is not a command.
#[derive(PartialEq, Eq, Structural, Debug, Clone, Copy)]
pub enum ParseError {
    /// The quoting of the line does not close.
    BadQuoting,
    /// The first word names no command.
    UnknownCommand,
    /// A word the command needs is missing.
    MissingArgument,
    /// A word the command does not take.
    UnexpectedArgument,
    /// An option given twice.
    DuplicateOption,
    /// An option value that is not a usable count or price.
    InvalidValue(ExprError),
    /// An export format other than `csv`, `xlsx` and `json`.
    UnknownFormat,
}

/// A console command with its texts as character sequences.
pub enum CommandModel {
    Nothing,
    Help,
    Run(RunParams, Option<ExportFormat>),
    SetValue(Seq<char>, Seq<char>),
    Remove(Seq<char>),
    Purge,
    Exit,
    Clear,
}

pub open spec fn command_model(c: ConsoleCommand) -> CommandModel {
    match c.command {
        None => if c.help {
            CommandModel::Help
        } else {
            CommandModel::Nothing
        },
        Some(MainCommand::Run { params, export }) => CommandModel::Run(params, export),
        Some(MainCommand::Config { action }) => match action {
            ConfigAction::SetValue { key, value } => CommandModel::SetValue(key@, value@),
            ConfigAction::Remove { key } => CommandModel::Remove(key@),
            ConfigAction::Purge => CommandModel::Purge,
        },
        Some(MainCommand::Exit) => CommandModel::Exit,
        Some(MainCommand::Clear) => CommandModel::Clear,
    }
}

pub open spec fn format_of(w: Seq<char>) -> Option<ExportFormat> {
    if w == "csv"@ {
        Some(ExportFormat::Csv)
    } else if w == "xlsx"@ {
        Some(ExportFormat::Xlsx)
    } else if w == "json"@ {
        Some(ExportFormat::Json)
    } else {
        None
    }
}

pub open spec fn is_trips_flag(w: Seq<char>) -> bool {
    w == "-t"@ || w == "--trips-per-week"@
}

pub open spec fn is_monthly_flag(w: Seq<char>) -> bool {
    w == "-m"@ || w == "--monthly-cost"@
}

pub open spec fn is_price_flag(w: Seq<char>) -> bool {
    w == "-p"@ || w == "--ticket-price"@
}

pub open spec fn is_export_flag(w: Seq<char>) -> bool {
    w == "--export"@
}

pub open spec fn is_run_flag(w: Seq<char>) -> bool {
    is_trips_flag(w) || is_monthly_flag(w) || is_price_flag(w) || is_export_flag(w)
}

/// An option value: the count or price its expression stands for.
pub open spec fn option_value(old_value: Option<u32>, w: Seq<char>) -> Result<Option<u32>, ParseError> {
    if old_value is Some {
        Err(ParseError::DuplicateOption)
    } else {
        match expression_value(w) {
            Ok(n) => Ok(Some(n)),
            Err(e) => Err(ParseError::InvalidValue(e)),
        }
    }
}

/// The position of the first `=` in `w` at or after `i`.
pub open spec fn first_equals(w: Seq<char>, i: int) -> Option<int>
    decreases w.len() - i,
{
    if i < 0 || i >= w.len() {
        None
    } else if w[i] == '=' {
        Some(i)
    } else {
        first_equals(w, i + 1)
    }
}

/// A word that carries its option's value: `--name=value` splits at the first
/// `=`; `-xvalue` (or `-x=value`) splits after the letter.
pub open spec fn attached_option(w: Seq<char>) -> Option<(Seq<char>, Seq<char>)> {
    if w.len() >= 3 && w[0] == '-' && w[1] == '-' {
        match first_equals(w, 2) {
            Some(k) => Some((w.subrange(0, k), w.subrange(k + 1, w.len() as int))),
            None => None,
        }
    } else if w.len() >= 3 && w[0] == '-' && w[1] != '-' {
        if w[2] == '=' {
            Some((w.subrange(0, 2), w.subrange(3, w.len() as int)))
        } else {
            Some((w.subrange(0, 2), w.subrange(2, w.len() as int)))
        }
    } else {
        None
    }
}

/// One option of `run` applied to what was read so far.
pub open spec fn apply_option(
    flag: Seq<char>,
    value: Seq<char>,
    params: RunParams,
    export: Option<ExportFormat>,
) -> Result<(RunParams, Option<ExportFormat>), ParseError> {
    if is_export_flag(flag) {
        if export is Some {
            Err(ParseError::DuplicateOption)
        } else {
            match format_of(value) {
                Some(f) => Ok((params, Some(f))),
                None => Err(ParseError::UnknownFormat),
            }
        }
    } else if is_trips_flag(flag) {
        match option_value(params.trips_per_week, value) {
            Ok(v) => Ok((RunParams { trips_per_week: v, ..params }, export)),
            Err(e) => Err(e),
        }
    } else if is_monthly_flag(flag) {
        match option_value(params.monthly_cost, value) {
            Ok(v) => Ok((RunParams { monthly_cost: v, ..params }, export)),
            Err(e) => Err(e),
        }
    } else {
        match option_value(params.ticket_price, value) {
            Ok(v) => Ok((RunParams { ticket_price: v, ..params }, export)),
            Err(e) => Err(e),
        }
    }
}

/// The options of `run`, read from word `i` on: a flag followed by its value
/// as the next word, or a flag word that carries its value.
pub open spec fn parse_run_options(
    t: Seq<Seq<char>>,
    i: int,
    params: RunParams,
    export: Option<ExportFormat>,
) -> Result<(RunParams, Option<ExportFormat>), ParseError>
    decreases t.len() - i,
{
    if i >= t.len() {
        Ok((params, export))
    } else if is_run_flag(t[i]) {
        if i + 1 >= t.len() {
            Err(ParseError::MissingArgument)
        } else {
            match apply_option(t[i], t[i + 1], params, export) {
                Ok((p2, e2)) => parse_run_options(t, i + 2, p2, e2),
                Err(e) => Err(e),
            }
        }
    } else {
        match attached_option(t[i]) {
            Some((f, v)) => if is_run_flag(f) {
                match apply_option(f, v, params, export) {
                    Ok((p2, e2)) => parse_run_options(t, i + 1, p2, e2),
                    Err(e) => Err(e),
                }
            } else {
                Err(ParseError::UnexpectedArgument)
            },
            None => Err(ParseError::UnexpectedArgument),
        }
    }
}

/// The words of a `config` command after the word `config`.
pub open spec fn parse_config_spec(t: Seq<Seq<char>>) -> Result<CommandModel, ParseError> {
    if t.len() < 2 {
        Err(ParseError::MissingArgument)
    } else if t[1] == "set"@ {
        if t.len() < 4 {
            Err(ParseError::MissingArgument)
        } else if t.len() > 4 {
            Err(ParseError::UnexpectedArgument)
        } else {
            Ok(CommandModel::SetValue(t[2], t[3]))
        }
    } else if t[1] == "remove"@ {
        if t.len() < 3 {
            Err(ParseError::MissingArgument)
        } else if t.len() > 3 {
            Err(ParseError::UnexpectedArgument)
        } else {
            Ok(CommandModel::Remove(t[2]))
        }
    } else if t[1] == "purge"@ {
        if t.len() > 2 {
            Err(ParseError::UnexpectedArgument)
        } else {
            Ok(CommandModel::Purge)
        }
    } else {
        Err(ParseError::UnknownCommand)
    }
}

/// The command that a list of words makes.
pub open spec fn parse_spec(t: Seq<Seq<char>>) -> Result<CommandModel, ParseError> {
    if t.len() == 0 {
        Ok(CommandModel::Nothing)
    } else if t[0] == "run"@ {
        match parse_run_options(
            t,
            1,
            RunParams { trips_per_week: None, monthly_cost: None, ticket_price: None },
            None,
        ) {
            Ok((params, export)) => Ok(CommandModel::Run(params, export)),
            Err(e) => Err(e),
        }
    } else if t[0] == "config"@ {
        parse_config_spec(t)
    } else if t[0] == "exit"@ || t[0] == "clear"@ || t[0] == "help"@ || t[0] == "--help"@ {
        if t.len() > 1 {
            Err(ParseError::UnexpectedArgument)
        } else if t[0] == "exit"@ {
            Ok(CommandModel::Exit)
        } else if t[0] == "clear"@ {
            Ok(CommandModel::Clear)
        } else {
            Ok(CommandModel::Help)
        }
    } else {
        Err(ParseError::UnknownCommand)
    }
}

pub open spec fn parse_result_model(r: Result<ConsoleCommand, ParseError>) -> Result<
    CommandModel,
    ParseError,
> {
    match r {
        Ok(c) => Ok(command_model(c)),
        Err(e) => Err(e),
    }
}

/// Whether a word is the given text.
fn is_word(w: &String, text: &str) -> (r: bool)
    ensures
        r == (w@ == text@),
{
    *w == text.to_owned()
}

/// Whether a piece of a word is the given text.
fn is_text(w: &str, text: &str) -> (r: bool)
    ensures
        r == (w@ == text@),
{
    w.to_owned() == text.to_owned()
}

fn parse_format(w: &str) -> (r: Option<ExportFormat>)
    ensures
        r == format_of(w@),
{
    if is_text(w, "csv") {
        Some(ExportFormat::Csv)
    } else if is_text(w, "xlsx") {
        Some(ExportFormat::Xlsx)
    } else if is_text(w, "json") {
        Some(ExportFormat::Json)
    } else {
        None
    }
}

fn parse_option_value(old_value: Option<u32>, w: &str) -> (r: Result<Option<u32>, ParseError>)
    ensures
        r == option_value(old_value, w@),
{
    if old_value.is_some() {
        return Err(ParseError::DuplicateOption);
    }
    match parse_expression(w) {
        Ok(n) => Ok(Some(n)),
        Err(e) => Err(ParseError::InvalidValue(e)),
    }
}

fn is_run_flag_text(w: &str) -> (r: (bool, bool, bool, bool))
    ensures
        r.0 == is_trips_flag(w@),
        r.1 == is_monthly_flag(w@),
        r.2 == is_price_flag(w@),
        r.3 == is_export_flag(w@),
{
    (
        is_text(w, "-t") || is_text(w, "--trips-per-week"),
        is_text(w, "-m") || is_text(w, "--monthly-cost"),
        is_text(w, "-p") || is_text(w, "--ticket-price"),
        is_text(w, "--export"),
    )
}

fn run_option(flag: &str, value: &str, params: RunParams, export: Option<ExportFormat>) -> (r:
    Result<(RunParams, Option<ExportFormat>), ParseError>)
    requires
        is_run_flag(flag@),
    ensures
        r == apply_option(flag@, value@, params, export),
{
    let (is_t, is_m, _is_p, is_e) = is_run_flag_text(flag);
    if is_e {
        if export.is_some() {
            return Err(ParseError::DuplicateOption);
        }
        match parse_format(value) {
            Some(f) => Ok((params, Some(f))),
            None => Err(ParseError::UnknownFormat),
        }
    } else if is_t {
        match parse_option_value(params.trips_per_week, value) {
            Ok(v) => Ok((RunParams { trips_per_week: v, ..params }, export)),
            Err(e) => Err(e),
        }
    } else if is_m {
        match parse_option_value(params.monthly_cost, value) {
            Ok(v) => Ok((RunParams { monthly_cost: v, ..params }, export)),
            Err(e) => Err(e),
        }
    } else {
        match parse_option_value(params.ticket_price, value) {
            Ok(v) => Ok((RunParams { ticket_price: v, ..params }, export)),
            Err(e) => Err(e),
        }
    }
}

/// Splits a word that carries its option's value into flag and value.
fn split_attached(w: &str) -> (r: Option<(&str, &str)>)
    ensures
        match (attached_option(w@), r) {
            (Some((f, v)), Some((flag, value))) => flag@ == f && value@ == v,
            (None, None) => true,
            _ => false,
        },
{
    let n = w.unicode_len();
    if n < 3 || w.get_char(0) != '-' {
        return None;
    }
    if w.get_char(1) == '-' {
        let mut k: usize = 2;
        while k < n
            invariant
                n == w@.len(),
                w@[0] == '-' && w@[1] == '-',
                2 <= k <= n,
                first_equals(w@, 2) == first_equals(w@, k as int),
            decreases n - k,
        {
            if w.get_char(k) == '=' {
                assert(first_equals(w@, k as int) == Some(k as int));
                let flag = w.substring_char(0, k);
                let value = w.substring_char(k + 1, n);
                return Some((flag, value));
            }
            k += 1;
        }
        assert(first_equals(w@, n as int) is None);
        None
    } else if w.get_char(2) == '=' {
        Some((w.substring_char(0, 2), w.substring_char(3, n)))
    } else {
        Some((w.substring_char(0, 2), w.substring_char(2, n)))
    }
}

fn parse_run(t: &Vec<String>) -> (r: Result<(RunParams, Option<ExportFormat>), ParseError>)
    requires
        t.len() >= 1,
    ensures
        r == parse_run_options(
            string_views(t@),
            1,
            RunParams { trips_per_week: None, monthly_cost: None, ticket_price: None },
            None,
        ),
{
    let ghost tv = string_views(t@);
    let mut params = RunParams { trips_per_week: None, monthly_cost: None, ticket_price: None };
    let mut export: Option<ExportFormat> = None;
    let mut i: usize = 1;
    while i < t.len()
        invariant
            1 <= i <= t.len(),
            tv == string_views(t@),
            tv.len() == t.len(),
            parse_run_options(
                tv,
                1,
                RunParams { trips_per_week: None, monthly_cost: None, ticket_price: None },
                None,
            ) == parse_run_options(tv, i as int, params, export),
        decreases t.len() - i,
    {
        let word = t[i].as_str();
        assert(tv[i as int] == word@);
        let (is_t, is_m, is_p, is_e) = is_run_flag_text(word);
        if is_t || is_m || is_p || is_e {
            if i + 1 >= t.len() {
                return Err(ParseError::MissingArgument);
            }
            let value = t[i + 1].as_str();
            assert(tv[i + 1] == value@);
            match run_option(word, value, params, export) {
                Ok((p2, e2)) => {
                    params = p2;
                    export = e2;
                },
                Err(e) => {
                    return Err(e);
                },
            }
            i = i + 2;
        } else {
            match split_attached(word) {
                Some((flag, value)) => {
                    let (ft, fm, fp, fe) = is_run_flag_text(flag);
                    if !(ft || fm || fp || fe) {
                        return Err(ParseError::UnexpectedArgument);
                    }
                    match run_option(flag, value, params, export) {
                        Ok((p2, e2)) => {
                            params = p2;
                            export = e2;
                        },
                        Err(e) => {
                            return Err(e);
                        },
                    }
                },
                None => {
                    return Err(ParseError::UnexpectedArgument);
                },
            }
            i = i + 1;
        }
    }
    Ok((params, export))
}

fn parse_config(t: &Vec<String>) -> (r: Result<ConsoleCommand, ParseError>)
    requires
        t.len() >= 1,
    ensures
        parse_result_model(r) == parse_config_spec(string_views(t@)),
{
    let ghost tv = string_views(t@);
    if t.len() < 2 {
        return Err(ParseError::MissingArgument);
    }
    assert(tv[1] == t@[1]@);
    let action = if is_word(&t[1], "set") {
        if t.len() < 4 {
            return Err(ParseError::MissingArgument);
        } else if t.len() > 4 {
            return Err(ParseError::UnexpectedArgument);
        }
        assert(tv[2] == t@[2]@ && tv[3] == t@[3]@);
        ConfigAction::SetValue { key: t[2].clone(), value: t[3].clone() }
    } else if is_word(&t[1], "remove") {
        if t.len() < 3 {
            return Err(ParseError::MissingArgument);
        } else if t.len() > 3 {
            return Err(ParseError::UnexpectedArgument);
        }
        assert(tv[2] == t@[2]@);
        ConfigAction::Remove { key: t[2].clone() }
    } else if is_word(&t[1], "purge") {
        if t.len() > 2 {
            return Err(ParseError::UnexpectedArgument);
        }
        ConfigAction::Purge
    } else {
        return Err(ParseError::UnknownCommand);
    };
    Ok(ConsoleCommand { command: Some(MainCommand::Config { action }), help: false })
}

/// Reads a list of words as one console command.
pub fn parse_tokens(t: &Vec<String>) -> (r: Result<ConsoleCommand, ParseError>)
    ensures
        parse_result_model(r) == parse_spec(string_views(t@)),
{
    let ghost tv = string_views(t@);
    if t.len() == 0 {
        return Ok(ConsoleCommand { command: None, help: false });
    }
    assert(tv[0] == t@[0]@);
    let first = &t[0];
    if is_word(first, "run") {
        match parse_run(t) {
            Ok((params, export)) => Ok(
                ConsoleCommand { command: Some(MainCommand::Run { params, export }), help: false },
            ),
            Err(e) => Err(e),
        }
    } else if is_word(first, "config") {
        parse_config(t)
    } else {
        let is_exit = is_word(first, "exit");
        let is_clear = is_word(first, "clear");
        let is_help = is_word(first, "help") || is_word(first, "--help");
        if !(is_exit || is_clear || is_help) {
            return Err(ParseError::UnknownCommand);
        }
        if t.len() > 1 {
            return Err(ParseError::UnexpectedArgument);
        }
        if is_exit {
            Ok(ConsoleCommand { command: Some(MainCommand::Exit), help: false })
        } else if is_clear {
            Ok(ConsoleCommand { command: Some(MainCommand::Clear), help: false })
        } else {
            Ok(ConsoleCommand { command: None, help: true })
        }
    }
}

/// The words that shlex's POSIX-style splitting makes of a line, or nothing
/// where the line's quoting or escaping does not close.
pub uninterp spec fn shell_words(s: Seq<char>) -> Option<Seq<Seq<char>>>;

/// Relies on shlex::split: the words of a line, or `None` on an unclosed quote
/// or a trailing backslash.
#[verifier::external_body]
fn split_words(line: &str) -> (r: Option<Vec<String>>)
    ensures
        match r {
            Some(words) => shell_words(line@) == Some(string_views(words@)),
            None => shell_words(line@) is None,
        },
{
    shlex::split(line)
}

/// What a console line asks for, or why it is not a command.
pub open spec fn line_spec(line: Seq<char>) -> Result<CommandModel, ParseError> {
    match shell_words(line) {
        None => Err(ParseError::BadQuoting),
        Some(t) => parse_spec(t),
    }
}

/// Reads a console line: splits it into shell-style words and reads those.
pub fn parse_line(line: &str) -> (r: Result<ConsoleCommand, ParseError>)
    ensures
        parse_result_model(r) == line_spec(line@),
{
    match split_words(line) {
        None => Err(ParseError::BadQuoting),
        Some(words) => parse_tokens(&words),
    }
}

} // verus!
