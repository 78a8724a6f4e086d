//! The command line's decisions: its errors, argument reading and the level
//! of its logging.

pub mod plan;

use vstd::prelude::*;
use vstd::string::StringExecFns;
use crate::text::clone_string;
use crate::text::concat;

verus! {

/// Errors of the command line.
#[derive(Debug)]
pub enum CommandErrors {
    /// A name has the wrong format.
    InvalidNameFormat(String),
    /// Prompting for input failed, with the reason.
    PromptInteractionFailed(String),
    /// A required input is missing.
    RequiredUserInputMissing(String),
    /// An argument failed the named validation.
    InputValidationFailure(String, String),
    /// An HTTP method is not known.
    InvalidHttpMethod(String),
    /// A subcommand is not known.
    InvalidSubcommand(String),
    /// No subcommand was given.
    NoSubcommandProvided,
}

/// The value of a [`CommandErrors`].
pub enum CommandErrorsView {
    InvalidNameFormat(Seq<char>),
    PromptInteractionFailed(Seq<char>),
    RequiredUserInputMissing(Seq<char>),
    InputValidationFailure(Seq<char>, Seq<char>),
    InvalidHttpMethod(Seq<char>),
    InvalidSubcommand(Seq<char>),
    NoSubcommandProvided,
}

impl View for CommandErrors {
    type V = CommandErrorsView;

    open spec fn view(&self) -> CommandErrorsView {
        match self {
            CommandErrors::InvalidNameFormat(s) => CommandErrorsView::InvalidNameFormat(s@),
            CommandErrors::PromptInteractionFailed(s) => CommandErrorsView::PromptInteractionFailed(s@),
            CommandErrors::RequiredUserInputMissing(s) => CommandErrorsView::RequiredUserInputMissing(s@),
            CommandErrors::InputValidationFailure(a, b) => CommandErrorsView::InputValidationFailure(a@, b@),
            CommandErrors::InvalidHttpMethod(s) => CommandErrorsView::InvalidHttpMethod(s@),
            CommandErrors::InvalidSubcommand(s) => CommandErrorsView::InvalidSubcommand(s@),
            CommandErrors::NoSubcommandProvided => CommandErrorsView::NoSubcommandProvided,
        }
    }
}

/// The text of a command line error.
pub open spec fn command_error_text(e: CommandErrorsView) -> Seq<char> {
    match e {
        CommandErrorsView::InvalidNameFormat(s) => "Name must be at least 5 characters and contain only lowercase letters, numbers, and dashes (got: "@
            + s + ")."@,
        CommandErrorsView::PromptInteractionFailed(_) => "Prompt interaction failed."@,
        CommandErrorsView::RequiredUserInputMissing(s) => "Required user input `"@ + s + "` is missing."@,
        CommandErrorsView::InputValidationFailure(a, b) => "Argument `"@ + a + "` failed validation `"@ + b + "`"@,
        CommandErrorsView::InvalidHttpMethod(s) => "Invalid HTTP method `"@ + s + "`"@,
        CommandErrorsView::InvalidSubcommand(s) => "Invalid subcommand `"@ + s + "`."@,
        CommandErrorsView::NoSubcommandProvided => "No subcommand provided."@,
    }
}

fn wrap(head: &str, body: &str, tail: &str) -> (r: String)
    ensures
        r@ == head@ + body@ + tail@,
{
    let mut r = concat(head, body);
    r.append(tail);
    r
}

impl CommandErrors {
    /// The text of the error.
    pub fn message(&self) -> (r: String)
        ensures
            r@ == command_error_text(self@),
    {
        match self {
            CommandErrors::InvalidNameFormat(s) => wrap(
                "Name must be at least 5 characters and contain only lowercase letters, numbers, and dashes (got: ",
                s.as_str(),
                ").",
            ),
            CommandErrors::PromptInteractionFailed(_) => String::from_str("Prompt interaction failed."),
            CommandErrors::RequiredUserInputMissing(s) => wrap("Required user input `", s.as_str(), "` is missing."),
            CommandErrors::InputValidationFailure(a, b) => {
                let mut r = wrap("Argument `", a.as_str(), "` failed validation `");
                r.append(b.as_str());
                r.append("`");
                r
            },
            CommandErrors::InvalidHttpMethod(s) => wrap("Invalid HTTP method `", s.as_str(), "`"),
            CommandErrors::InvalidSubcommand(s) => wrap("Invalid subcommand `", s.as_str(), "`."),
            CommandErrors::NoSubcommandProvided => String::from_str("No subcommand provided."),
        }
    }
}

/// Reads a required argument and validates it: the argument when it is given
/// and passes the validator, the validator's error when it fails, and
/// `RequiredUserInputMissing` naming the argument when it is not given.
pub fn read_argument_with_validator<V>(arg: Option<&String>, id: &str, validator: V) -> (r: Result<String, CommandErrors>)
    where
        V: Fn(&String) -> Result<(), CommandErrors>,
    requires
        arg matches Some(a) ==> validator.requires((a,)),
    ensures
        match arg {
            None => r matches Err(e) && e@ == CommandErrorsView::RequiredUserInputMissing(id@),
            Some(a) => exists|v: Result<(), CommandErrors>| #[trigger] validator.ensures((a,), v) && match v {
                Ok(()) => r matches Ok(s) && s@ == a@,
                Err(e) => r matches Err(e2) && e2 == e,
            },
        },
{
    match arg {
        Some(a) => {
            let v = validator(a);
            match v {
                Ok(()) => Ok(clone_string(a)),
                Err(e) => Err(e),
            }
        },
        None => Err(CommandErrors::RequiredUserInputMissing(String::from_str(id))),
    }
}

/// A compiled regular expression.
#[verifier::external_type_specification]
#[verifier::external_body]
pub struct ExRegex(regex::Regex);

/// Why `regex::Regex::new` refused a pattern.
#[verifier::external_type_specification]
#[verifier::external_body]
pub struct ExRegexError(regex::Error);

/// Whether `regex::Regex::new` accepts the pattern: it is a valid regular
/// expression within the default size limit.
pub uninterp spec fn regex_valid(pattern: Seq<char>) -> bool;

/// Whether the text has a match anywhere for the regular expression that
/// `regex::Regex::new` compiles from the pattern, as `Regex::is_match`
/// decides.
pub uninterp spec fn regex_matches(pattern: Seq<char>, text: Seq<char>) -> bool;

/// Compiles a regular expression.
///
/// Trusted: `regex::Regex::new`. It succeeds exactly where `regex_valid`
/// holds, a function of the pattern alone.
#[verifier::external_body]
fn regex_new(pattern: &str) -> (r: Result<regex::Regex, regex::Error>)
    ensures
        r is Ok <==> regex_valid(pattern@),
{
    regex::Regex::new(pattern)
}

/// A regular expression that input is validated against: its source, and
/// the expression `regex::Regex::new` compiled from it.
#[derive(Debug)]
pub struct Pattern {
    source: String,
    re: regex::Regex,
}

impl View for Pattern {
    type V = Seq<char>;

    /// The source of the regular expression.
    closed spec fn view(&self) -> Seq<char> {
        self.source@
    }
}

/// Why a pattern could not be made.
#[derive(Debug, Clone, Copy, PartialEq, Eq, Structural)]
pub enum PatternError {
    /// The source is not a regular expression `regex` accepts.
    Invalid,
}

/// Whether the text matches the pattern.
///
/// Trusted: `regex::Regex::is_match` on the pattern's compiled expression.
/// A `Pattern` is only made by `Pattern::new`, which compiles its source
/// with `regex::Regex::new`, so the answer is `regex_matches` of the source
/// and the text.
#[verifier::external_body]
fn pattern_is_match(pattern: &Pattern, text: &str) -> (r: bool)
    ensures
        r == regex_matches(pattern@, text@),
{
    pattern.re.is_match(text)
}

impl Pattern {
    /// The pattern of the regular expression `source`, where `regex` accepts
    /// it.
    pub fn new(source: &str) -> (r: Result<Pattern, PatternError>)
        ensures
            r is Ok <==> regex_valid(source@),
            r matches Ok(p) ==> p@ == source@,
            r matches Err(e) ==> e == PatternError::Invalid,
    {
        match regex_new(source) {
            Ok(re) => Ok(Pattern { source: String::from_str(source), re }),
            Err(_) => Err(PatternError::Invalid),
        }
    }

    /// The source of the regular expression.
    pub fn as_str(&self) -> (r: &str)
        ensures
            r@ == self@,
    {
        self.source.as_str()
    }

    /// Whether the text has a match for the pattern.
    pub fn is_match(&self, text: &str) -> (r: bool)
        ensures
            r == regex_matches(self@, text@),
    {
        pattern_is_match(self, text)
    }
}

/// Validates input against a pattern: it passes where it matches, and
/// otherwise fails with `InputValidationFailure` naming the input and the
/// pattern.
pub fn validate_with_pattern(input: &String, name: &str, pattern: &Pattern) -> (r: Result<(), CommandErrors>)
    ensures
        r is Ok <==> regex_matches(pattern@, input@),
        r matches Err(e) ==> e@ == CommandErrorsView::InputValidationFailure(name@, pattern@),
{
    if pattern.is_match(input.as_str()) {
        Ok(())
    } else {
        Err(CommandErrors::InputValidationFailure(String::from_str(name), String::from_str(pattern.as_str())))
    }
}

/// Reads a required argument and validates it against a pattern: the
/// argument where it is given and matches, `InputValidationFailure` naming the
/// argument and the pattern where it does not match, and
/// `RequiredUserInputMissing` naming the argument where it is not given.
pub fn read_argument_with_regex(arg: Option<&String>, id: &str, pattern: &Pattern) -> (r: Result<String, CommandErrors>)
    ensures
        match arg {
            None => r matches Err(e) && e@ == CommandErrorsView::RequiredUserInputMissing(id@),
            Some(a) => if regex_matches(pattern@, a@) {
                r matches Ok(s) && s@ == a@
            } else {
                r matches Err(e) && e@ == CommandErrorsView::InputValidationFailure(id@, pattern@)
            },
        },
{
    match arg {
        Some(a) => match validate_with_pattern(a, id, pattern) {
            Ok(()) => Ok(clone_string(a)),
            Err(e) => Err(e),
        },
        None => Err(CommandErrors::RequiredUserInputMissing(String::from_str(id))),
    }
}

/// How much the command line logs.
#[derive(Debug, Clone, Copy, PartialEq, Eq, Structural)]
pub enum LogLevel {
    Error,
    Warn,
    Info,
    Debug,
    Trace,
}

/// The level of logging for the `--quiet` flag and the number of
/// `--verbose` flags: errors only unless verbose; one `-v` adds warnings,
/// two information, three debugging, more tracing. Verbosity overrides quiet.
pub open spec fn log_level_of(quiet: bool, verbose: u8) -> LogLevel {
    if quiet && verbose == 0 {
        LogLevel::Error
    } else if verbose > 0 {
        if verbose == 1 {
            LogLevel::Warn
        } else if verbose == 2 {
            LogLevel::Info
        } else if verbose == 3 {
            LogLevel::Debug
        } else {
            LogLevel::Trace
        }
    } else {
        LogLevel::Error
    }
}

/// The level of logging for the flags given.
pub fn log_level(quiet: bool, verbose: u8) -> (r: LogLevel)
    ensures
        r == log_level_of(quiet, verbose),
{
    if quiet && verbose == 0 {
        LogLevel::Error
    } else if verbose > 0 {
        match verbose {
            1 => LogLevel::Warn,
            2 => LogLevel::Info,
            3 => LogLevel::Debug,
            _ => LogLevel::Trace,
        }
    } else {
        LogLevel::Error
    }
}

} // verus!
