use vstd::prelude::*;
use vstd::string::*;

use crate::render::chars_of;
use crate::render::push_char;
use crate::render::same_text;
use crate::render::trim;
use crate::render::trimmed;

verus! {

broadcast use vstd::string::group_string_axioms;

/// The version of the log's field layout.
pub const SCHEMA: &'static str = "1";

/// The environment variable that picks the log format.
pub const FORMAT_VARIABLE: &'static str = "BARNACLE_LOG_FORMAT";

/// The environment variable that picks what is logged.
pub const LEVEL_VARIABLE: &'static str = "BARNACLE_LOG_LEVEL";

pub const DEFAULT_LEVEL: &'static str = "info";

#[derive(Debug, Clone, Copy, PartialEq, Eq, Structural)]
pub enum LogFormat {
    Text,
    Json,
}

#[derive(Debug, Clone, PartialEq, Eq)]
pub struct LogSettings {
    pub format: LogFormat,
    pub level: String,
}

#[derive(Debug, Clone, PartialEq, Eq)]
pub enum LogSettingsError {
    Format { value: String },
    Level { value: String },
}

/// Whether `tracing_subscriber` accepts a text as level filter directives.
pub uninterp spec fn accepts_directives(directives: Seq<char>) -> bool;

/// Calls `tracing_subscriber::EnvFilter::try_new`; the contract claims that it succeeds
/// exactly on the directives the name accepts, and on the empty text, which its source turns
/// into a filter with no directive.
#[verifier::external_body]
fn parses_as_filter(directives: &str) -> (accepted: bool)
    ensures
        accepted == accepts_directives(directives@),
        directives@.len() == 0 ==> accepted,
{
    tracing_subscriber::EnvFilter::try_new(directives).is_ok()
}

/// A character with an ASCII capital letter made small.
pub open spec fn ascii_lower(c: char) -> char {
    if 'A' <= c && c <= 'Z' {
        ((c as u32) + 32) as char
    } else {
        c
    }
}

pub open spec fn lowered(text: Seq<char>) -> Seq<char> {
    text.map_values(|c: char| ascii_lower(c))
}

fn lower_char(c: char) -> (lower: char)
    ensures
        lower == ascii_lower(c),
{
    if 'A' <= c && c <= 'Z' {
        let code: u8 = (c as u32 + 32) as u8;
        code as char
    } else {
        c
    }
}

fn to_ascii_lower(text: &str) -> (lower: String)
    ensures
        lower@ == lowered(text@),
{
    let chars = chars_of(text);
    let mut lower = String::new();
    let mut index: usize = 0;
    while index < chars.len()
        invariant
            chars@ == text@,
            index <= chars.len(),
            lower@ == lowered(chars@.take(index as int)),
        decreases chars.len() - index,
    {
        push_char(&mut lower, lower_char(chars[index]));
        assert(lowered(chars@.take(index + 1)) =~= lowered(chars@.take(index as int)).push(
            ascii_lower(chars@[index as int]),
        ));
        index = index + 1;
    }
    assert(chars@.take(chars.len() as int) == chars@);
    lower
}

/// Whether a result is the format error naming `value`.
pub open spec fn refused_format<T>(result: Result<T, LogSettingsError>, value: Seq<char>) -> bool {
    match result {
        Err(LogSettingsError::Format { value: given }) => given@ == value,
        _ => false,
    }
}

/// Whether a result is the level error naming `value`.
pub open spec fn refused_level<T>(result: Result<T, LogSettingsError>, value: Seq<char>) -> bool {
    match result {
        Err(LogSettingsError::Level { value: given }) => given@ == value,
        _ => false,
    }
}

/// Whether a result is the text `expected`.
pub open spec fn gives_text(result: Result<String, LogSettingsError>, expected: Seq<char>) -> bool {
    match result {
        Ok(text) => text@ == expected,
        Err(_) => false,
    }
}

/// The log format a value of the format variable names: `text` or `json`, in any case and
/// with white space around it, and text when it is blank.
pub open spec fn format_outcome(value: Seq<char>) -> Option<LogFormat> {
    let name = lowered(trimmed(value));
    if name == Seq::<char>::empty() || name == "text"@ {
        Some(LogFormat::Text)
    } else if name == "json"@ {
        Some(LogFormat::Json)
    } else {
        None
    }
}

pub fn format(value: &str) -> (format: Result<LogFormat, LogSettingsError>)
    ensures
        match format_outcome(value@) {
            Some(expected) => format == Ok::<LogFormat, LogSettingsError>(expected),
            None => refused_format(format, value@),
        },
{
    let trimmed_value = trim(value);
    let name = to_ascii_lower(trimmed_value.as_str());
    if name.as_str().unicode_len() == 0 {
        assert(name@ =~= Seq::<char>::empty());
        Ok(LogFormat::Text)
    } else if same_text(name.as_str(), "text") {
        Ok(LogFormat::Text)
    } else if same_text(name.as_str(), "json") {
        Ok(LogFormat::Json)
    } else {
        Err(LogSettingsError::Format { value: String::from_str(value) })
    }
}

/// The directives a value of the level variable gives: the value without the white space
/// around it, or the default level when that leaves nothing.
pub open spec fn directives_of(value: Seq<char>) -> Seq<char> {
    if trimmed(value).len() == 0 {
        DEFAULT_LEVEL@
    } else {
        trimmed(value)
    }
}

/// The level setting once the filter library has judged the directives: the directives when
/// it accepted them, the error naming the value otherwise.
pub fn settle_level(value: &str, accepted: bool) -> (level: Result<String, LogSettingsError>)
    ensures
        accepted ==> gives_text(level, directives_of(value@)),
        !accepted ==> refused_level(level, value@),
{
    if !accepted {
        return Err(LogSettingsError::Level { value: String::from_str(value) });
    }
    let trimmed_value = trim(value);
    if trimmed_value.as_str().unicode_len() == 0 {
        Ok(String::from_str(DEFAULT_LEVEL))
    } else {
        Ok(trimmed_value)
    }
}

/// The level setting from a value of the level variable, once the directives it gives are
/// checked.
pub fn level(value: &str) -> (level: Result<String, LogSettingsError>)
    ensures
        accepts_directives(directives_of(value@)) ==> gives_text(level, directives_of(value@)),
        !accepts_directives(directives_of(value@)) ==> refused_level(level, value@),
{
    let trimmed_value = trim(value);
    let directives = if trimmed_value.as_str().unicode_len() == 0 {
        String::from_str(DEFAULT_LEVEL)
    } else {
        trimmed_value
    };
    let accepted = parses_as_filter(directives.as_str());
    settle_level(value, accepted)
}

impl LogSettings {
    /// The settings from the values of the format and level variables, `None` where one is
    /// not set: text at the default level unless they say otherwise.
    pub fn from_lookup(format_value: Option<String>, level_value: Option<String>) -> (settings:
        Result<LogSettings, LogSettingsError>)
        ensures
            match format_value {
                Some(value) => format_outcome(value@) is None ==> refused_format(settings, value@),
                None => true,
            },
            settings matches Ok(settings) ==> {
                &&& settings.format == match format_value {
                    Some(value) => format_outcome(value@)->0,
                    None => LogFormat::Text,
                }
                &&& settings.level@ == match level_value {
                    Some(value) => directives_of(value@),
                    None => DEFAULT_LEVEL@,
                }
            },
            (match format_value {
                Some(value) => format_outcome(value@) is Some,
                None => true,
            }) ==> match level_value {
                Some(value) => (settings is Ok <==> accepts_directives(directives_of(value@)))
                    && (!accepts_directives(directives_of(value@)) ==> refused_level(
                    settings,
                    value@,
                )),
                None => settings is Ok,
            },
    {
        let format = match format_value {
            Some(value) => match format(value.as_str()) {
                Ok(format) => format,
                Err(error) => return Err(error),
            },
            None => LogFormat::Text,
        };
        let level = match level_value {
            Some(value) => match level(value.as_str()) {
                Ok(level) => level,
                Err(error) => return Err(error),
            },
            None => String::from_str(DEFAULT_LEVEL),
        };
        Ok(LogSettings { format, level })
    }
}

pub open spec fn settings_error_text(error: LogSettingsError) -> Seq<char> {
    match error {
        LogSettingsError::Format { value } => "BARNACLE_LOG_FORMAT is "@ + debug_text(value@)
            + "; it must be text or json"@,
        LogSettingsError::Level { value } => "BARNACLE_LOG_LEVEL is "@ + debug_text(value@)
            + ", which is not a level filter such as info or info,barnacle_bot=debug"@,
    }
}

/// How `Debug` writes a text: in double quotes, with the characters it escapes escaped.
pub uninterp spec fn debug_text(value: Seq<char>) -> Seq<char>;

/// Formats a text with `{:?}`; the contract claims the named result.
#[verifier::external_body]
fn debug_quoted(value: &str) -> (quoted: String)
    ensures
        quoted@ == debug_text(value@),
{
    format!("{:?}", value)
}

impl LogSettingsError {
    pub fn message(&self) -> (text: String)
        ensures
            text@ == settings_error_text(*self),
    {
        match self {
            LogSettingsError::Format { value } => {
                let mut text = String::from_str("BARNACLE_LOG_FORMAT is ");
                let quoted = debug_quoted(value.as_str());
                text.append(quoted.as_str());
                text.append("; it must be text or json");
                text
            },
            LogSettingsError::Level { value } => {
                let mut text = String::from_str("BARNACLE_LOG_LEVEL is ");
                let quoted = debug_quoted(value.as_str());
                text.append(quoted.as_str());
                text.append(
                    ", which is not a level filter such as info or info,barnacle_bot=debug",
                );
                text
            },
        }
    }
}

} // verus!
