use vstd::prelude::*;
use vstd::string::*;

use crate::failure::join_names;
use crate::failure::names_text;
use crate::failure::them_text;
use crate::failure::failed_text;
use crate::failure::Failure;
use crate::render::first_chars;
use crate::render::str_texts;
use crate::render::trimmed;
use crate::text::prefix;
use crate::text::Refusal;
use crate::voice::clean_name;
use crate::voice::NameProblem;
use crate::attendance_store::SeasonChange;
use crate::ids::GuildId;
use crate::ids::RoleId;
use crate::schedule::day_parts;
use crate::schedule::parse_day;
use crate::schedule::parsed_date;
use crate::schedule::DAY_TEXT_LENGTH;
use crate::wiring::ping_choice;
use crate::wiring::ping_choice_of;

verus! {

broadcast use vstd::string::group_string_axioms;

pub const COMMANDS_OUT_OF_DATE: &'static str = "Discord's copy of Barnacle's commands is out of date; it refreshes the next time Barnacle starts.";

/// A season's codename keeps at most this many characters.
pub const CODENAME_LIMIT: usize = 100;

/// Why the command framework turned a command down before it ran.
#[derive(Debug, Clone, PartialEq, Eq)]
pub enum FrameworkProblem {
    /// The member lacks permissions the command needs; `names` lists them when known.
    MissingUserPermissions { names: Vec<&'static str> },
    /// Barnacle lacks permissions the command needs.
    MissingBotPermissions { names: Vec<&'static str> },
    /// A server-only command was used outside a server.
    GuildOnly,
    /// An option could not be read; `error` says why.
    ArgumentParse { error: String },
}

/// The reason code a refusal is logged under.
pub open spec fn problem_code_text(problem: FrameworkProblem) -> Seq<char> {
    match problem {
        FrameworkProblem::MissingUserPermissions { .. } => "missing_user_permissions"@,
        FrameworkProblem::MissingBotPermissions { .. } => "missing_bot_permissions"@,
        FrameworkProblem::GuildOnly => "guild_only"@,
        FrameworkProblem::ArgumentParse { .. } => "invalid_option"@,
    }
}

pub fn problem_code(problem: &FrameworkProblem) -> (code: &'static str)
    ensures
        code@ == problem_code_text(*problem),
{
    match problem {
        FrameworkProblem::MissingUserPermissions { .. } => "missing_user_permissions",
        FrameworkProblem::MissingBotPermissions { .. } => "missing_bot_permissions",
        FrameworkProblem::GuildOnly => "guild_only",
        FrameworkProblem::ArgumentParse { .. } => "invalid_option",
    }
}

/// What the member reads when the framework turned `/command` down.
pub open spec fn problem_reply_text(command: Seq<char>, problem: FrameworkProblem) -> Seq<char> {
    match problem {
        FrameworkProblem::MissingUserPermissions { names } => if names@.len() == 0 {
            "You need a permission you do not have to use `/"@ + command + "`."@
        } else {
            "You need "@ + names_text(str_texts(names@)) + " to use `/"@ + command + "`."@
        },
        FrameworkProblem::MissingBotPermissions { names } => "Barnacle needs "@ + names_text(
            str_texts(names@),
        ) + " here to run `/"@ + command + "`. A server admin can grant "@ + them_text(
            names@.len() as int,
        ) + " to Barnacle's role, then try again."@,
        FrameworkProblem::GuildOnly => "`/"@ + command + "` works only inside a server."@,
        FrameworkProblem::ArgumentParse { error } => "Barnacle could not read one of the options you gave `/"@
            + command + "`: "@ + error@ + ". Check it and try again."@,
    }
}

pub fn problem_reply(command: &str, problem: &FrameworkProblem) -> (text: String)
    ensures
        text@ == problem_reply_text(command@, *problem),
{
    match problem {
        FrameworkProblem::MissingUserPermissions { names } => {
            if names.len() == 0 {
                let mut text = String::from_str("You need a permission you do not have to use `/");
                text.append(command);
                text.append("`.");
                text
            } else {
                let mut text = String::from_str("You need ");
                let listed = join_names(names.as_slice());
                text.append(listed.as_str());
                text.append(" to use `/");
                text.append(command);
                text.append("`.");
                text
            }
        },
        FrameworkProblem::MissingBotPermissions { names } => {
            let mut text = String::from_str("Barnacle needs ");
            let listed = join_names(names.as_slice());
            text.append(listed.as_str());
            text.append(" here to run `/");
            text.append(command);
            text.append("`. A server admin can grant ");
            if names.len() == 1 {
                text.append("it");
            } else {
                text.append("them");
            }
            text.append(" to Barnacle's role, then try again.");
            text
        },
        FrameworkProblem::GuildOnly => {
            let mut text = String::from_str("`/");
            text.append(command);
            text.append("` works only inside a server.");
            text
        },
        FrameworkProblem::ArgumentParse { error } => {
            let mut text = String::from_str(
                "Barnacle could not read one of the options you gave `/",
            );
            text.append(command);
            text.append("`: ");
            text.append(error.as_str());
            text.append(". Check it and try again.");
            text
        },
    }
}

/// That `/command` did not finish because Discord's copy of it is stale, with the failure's
/// advice and, last, its reference.
pub open spec fn out_of_date_text(command: Seq<char>, failure: Failure) -> Seq<char> {
    "`/"@ + command + "` did not finish. "@ + failure.advice_text() + " "@ + COMMANDS_OUT_OF_DATE@
        + " (Reference: "@ + failure.reference.0@ + ")"@
}

pub fn out_of_date(command: &str, failure: &Failure) -> (text: String)
    ensures
        text@ == out_of_date_text(command@, *failure),
{
    let mut text = String::from_str("`/");
    text.append(command);
    text.append("` did not finish. ");
    let advice = failure.advice();
    text.append(advice.as_str());
    text.append(" ");
    text.append(COMMANDS_OUT_OF_DATE);
    text.append(" (Reference: ");
    text.append(failure.reference.as_str());
    text.append(")");
    text
}

/// The refusal for permissions Barnacle lacks in the channel at hand, if it lacks any.
pub fn missing_here(names: Vec<&'static str>) -> (refusal: Option<Refusal>)
    ensures
        match refusal {
            None => names@.len() == 0,
            Some(Refusal::MissingBotPermissions { names: listed, channel }) => names@.len() > 0
                && listed@ == names@ && channel is None,
            Some(_) => false,
        },
{
    if names.len() == 0 {
        None
    } else {
        Some(Refusal::MissingBotPermissions { names, channel: None })
    }
}

/// The reply, after a warning and a blank line when there is one.
pub open spec fn warned_text(warning: Option<Seq<char>>, reply: Seq<char>) -> Seq<char> {
    match warning {
        Some(warning) => warning + "\n\n"@ + reply,
        None => reply,
    }
}

pub fn warned(warning: Option<String>, reply: String) -> (text: String)
    ensures
        text@ == warned_text(
            match warning {
                Some(w) => Some(w@),
                None => None,
            },
            reply@,
        ),
{
    match warning {
        Some(warning) => {
            let mut text = warning;
            text.append("\n\n");
            text.append(reply.as_str());
            text
        },
        None => reply,
    }
}

/// A codename cut to its limit.
pub fn clipped_codename(codename: Option<String>) -> (clipped: Option<String>)
    ensures
        match (codename, clipped) {
            (Some(given), Some(kept)) => kept@ == prefix(given@, CODENAME_LIMIT as int),
            (None, None) => true,
            _ => false,
        },
{
    match codename {
        Some(text) => Some(first_chars(text.as_str(), CODENAME_LIMIT)),
        None => None,
    }
}

pub open spec fn name_refusal(problem: NameProblem) -> Refusal {
    match problem {
        NameProblem::Empty => Refusal::NameEmpty,
        NameProblem::TooLong { limit } => Refusal::NameTooLong { limit },
    }
}

/// The refusal for a channel name that cannot be used.
pub fn name_problem(problem: NameProblem) -> (refusal: Refusal)
    ensures
        refusal == name_refusal(problem),
{
    match problem {
        NameProblem::Empty => Refusal::NameEmpty,
        NameProblem::TooLong { limit } => Refusal::NameTooLong { limit },
    }
}

/// A channel name option, cleaned when it was given.
pub fn cleaned(raw: Option<&str>, limit: usize) -> (name: Result<Option<String>, Refusal>)
    ensures
        match raw {
            None => name matches Ok(None),
            Some(raw) => {
                let t = trimmed(raw@);
                if t.len() == 0 {
                    name == Err::<Option<String>, Refusal>(Refusal::NameEmpty)
                } else if t.len() > limit {
                    name == Err::<Option<String>, Refusal>(Refusal::NameTooLong { limit })
                } else {
                    name matches Ok(Some(kept)) && kept@ == t
                }
            },
        },
{
    match raw {
        None => Ok(None),
        Some(raw) => match clean_name(raw, limit) {
            Ok(name) => Ok(Some(name)),
            Err(problem) => Err(name_problem(problem)),
        },
    }
}

// ---------------------------------------------------------------------------
// What /cb season edit changes.

/// The days a new season asks for, or why they are refused: a date not written as a date, a
/// last day before the first, or dates more than six months from today.
pub fn season_dates(first_day: &str, last_day: &str, today: crate::schedule::Day) -> (range: Result<
    crate::schedule::Range,
    Refusal,
>)
    ensures
        match (day_option(Some(first_day)), day_option(Some(last_day))) {
            (Some(Some(first)), Some(Some(last))) => {
                let (first, last) = (
                    crate::schedule::Day::of_parts(first),
                    crate::schedule::Day::of_parts(last),
                );
                if first.key() > last.key() {
                    range == Err::<crate::schedule::Range, Refusal>(Refusal::LastDayBeforeFirst)
                } else {
                    match range {
                        Ok(range) => range.first() == first && range.last() == last
                            && crate::attendance_store::range_near(range, today),
                        Err(refusal) => refusal == Refusal::DatesTooFar && forall|
                            any: crate::schedule::Range,
                        |
                            any.first() == first && any.last() == last
                                ==> !crate::attendance_store::range_near(any, today),
                    }
                }
            },
            _ => range == Err::<crate::schedule::Range, Refusal>(Refusal::DateFormat),
        },
{
    let (first, last) = match (parse_day(first_day), parse_day(last_day)) {
        (Some(first), Some(last)) => (first, last),
        _ => return Err(Refusal::DateFormat),
    };
    proof {
        first.lemma_of_own_parts();
        last.lemma_of_own_parts();
    }
    let range = match crate::schedule::Range::new(first, last) {
        Some(range) => range,
        None => return Err(Refusal::LastDayBeforeFirst),
    };
    if range.near(today) {
        Ok(range)
    } else {
        Err(Refusal::DatesTooFar)
    }
}

/// Whether any of the ping role options was given.
pub open spec fn names_a_role(given: Seq<Option<RoleId>>) -> bool {
    exists|i: int| 0 <= i < given.len() && given[i] is Some
}

/// The date a day option spells: `None` when it was not given; `Some(None)` when it was given
/// but is not a date.
pub open spec fn day_option(text: Option<&str>) -> Option<Option<(int, int, int)>> {
    match text {
        None => None,
        Some(text) => Some(
            if text.spec_bytes().len() as usize == DAY_TEXT_LENGTH {
                parsed_date(text@)
            } else {
                None
            },
        ),
    }
}

/// Why an edit is refused before the season is looked up, checked in this order: nothing is
/// named; a codename is both given and cleared; ping roles are both named and cleared;
/// @everyone is named with other roles; a date is not written as a date.
pub open spec fn edit_refusal(
    guild: GuildId,
    new_number: Option<u32>,
    first_day: Option<&str>,
    last_day: Option<&str>,
    codename_given: bool,
    given: Seq<Option<RoleId>>,
    clear_codename: bool,
    clear_ping_role: bool,
) -> Option<Refusal> {
    let naming = names_a_role(given);
    if !(new_number is Some || first_day is Some || last_day is Some || codename_given || naming
        || clear_codename || clear_ping_role) {
        Some(Refusal::NothingToChange)
    } else if codename_given && clear_codename {
        Some(Refusal::CodenameBothWays)
    } else if naming && clear_ping_role {
        Some(Refusal::PingBothWays)
    } else if ping_choice_of(guild, given) is Err {
        Some(Refusal::PingMixesEveryone)
    } else if day_option(first_day) == Some(None::<(int, int, int)>) || day_option(last_day) == Some(
        None::<(int, int, int)>,
    ) {
        Some(Refusal::DateFormat)
    } else {
        None
    }
}

fn day_given(text: Option<&str>) -> (day: Option<Option<crate::schedule::Day>>)
    ensures
        match (day, day_option(text)) {
            (None, None) => true,
            (Some(found), Some(parts)) => day_parts(found) == parts,
            _ => false,
        },
{
    match text {
        None => None,
        Some(text) => Some(parse_day(text)),
    }
}

/// What `/cb season edit` asks to change, or why it is refused before the season is looked
/// up. A cleared codename or ping role list becomes an empty one; a codename is cut to its
/// limit; named ping roles are the distinct roles picked, in order.
pub fn season_change(
    guild: GuildId,
    new_number: Option<u32>,
    first_day: Option<&str>,
    last_day: Option<&str>,
    codename: Option<String>,
    given: [Option<RoleId>; 5],
    clear_codename: bool,
    clear_ping_role: bool,
) -> (change: Result<SeasonChange, Refusal>)
    ensures
        match edit_refusal(
            guild,
            new_number,
            first_day,
            last_day,
            codename is Some,
            given@,
            clear_codename,
            clear_ping_role,
        ) {
            Some(refusal) => change == Err::<SeasonChange, Refusal>(refusal),
            None => change matches Ok(change) && {
                &&& change.number == new_number
                &&& day_option(first_day) == match change.first_day {
                    Some(day) => Some(Some(day.parts())),
                    None => None::<Option<(int, int, int)>>,
                }
                &&& day_option(last_day) == match change.last_day {
                    Some(day) => Some(Some(day.parts())),
                    None => None::<Option<(int, int, int)>>,
                }
                &&& if clear_codename {
                    change.codename == Some(None::<String>)
                } else {
                    match (codename, change.codename) {
                        (Some(given), Some(Some(kept))) => kept@ == prefix(
                            given@,
                            CODENAME_LIMIT as int,
                        ),
                        (None, None) => true,
                        _ => false,
                    }
                }
                &&& if clear_ping_role {
                    change.ping_roles matches Some(roles) && roles@.len() == 0
                } else if names_a_role(given@) {
                    change.ping_roles matches Some(roles) && ping_choice_of(guild, given@) == Ok::<
                        Seq<RoleId>,
                        crate::wiring::PingChoiceProblem,
                    >(roles@)
                } else {
                    change.ping_roles is None
                }
            },
        },
{
    let naming = given[0].is_some() || given[1].is_some() || given[2].is_some()
        || given[3].is_some() || given[4].is_some();
    proof {
        if !naming {
            assert forall|i: int| 0 <= i < given@.len() implies given@[i] is None by {
                assert(given@[0] is None && given@[1] is None && given@[2] is None && given@[3] is None
                    && given@[4] is None);
            }
        } else {
            if given[0].is_some() {
                assert(given@[0] is Some);
            } else if given[1].is_some() {
                assert(given@[1] is Some);
            } else if given[2].is_some() {
                assert(given@[2] is Some);
            } else if given[3].is_some() {
                assert(given@[3] is Some);
            } else {
                assert(given@[4] is Some);
            }
        }
    }
    let codename_given = codename.is_some();
    let named = new_number.is_some() || first_day.is_some() || last_day.is_some() || codename_given
        || naming || clear_codename || clear_ping_role;
    if !named {
        return Err(Refusal::NothingToChange);
    }
    if codename_given && clear_codename {
        return Err(Refusal::CodenameBothWays);
    }
    if naming && clear_ping_role {
        return Err(Refusal::PingBothWays);
    }
    let chosen = match ping_choice(guild, given) {
        Ok(roles) => roles,
        Err(_) => return Err(Refusal::PingMixesEveryone),
    };
    let first = day_given(first_day);
    let last = day_given(last_day);
    let first = match first {
        Some(None) => return Err(Refusal::DateFormat),
        Some(Some(day)) => Some(day),
        None => None,
    };
    let last = match last {
        Some(None) => return Err(Refusal::DateFormat),
        Some(Some(day)) => Some(day),
        None => None,
    };
    let codename = if clear_codename {
        Some(None)
    } else {
        match clipped_codename(codename) {
            Some(kept) => Some(Some(kept)),
            None => None,
        }
    };
    let ping_roles = if clear_ping_role {
        Some(Vec::new())
    } else if naming {
        Some(chosen)
    } else {
        None
    };
    Ok(SeasonChange { number: new_number, first_day: first, last_day: last, codename, ping_roles })
}

// ---------------------------------------------------------------------------
// Laws.

/// The end of every failure message: the reference that finds its log event.
pub open spec fn reference_tail(failure: Failure) -> Seq<char> {
    " (Reference: "@ + failure.reference.0@ + ")"@
}

/// Every failure a person reads in Discord ends with its reference: a failed action, a
/// command that did not finish, and one that did not finish because Discord's copy of it is
/// stale.
pub proof fn law_failures_end_with_reference(what: Seq<char>, command: Seq<char>, failure: Failure)
    ensures
        reference_tail(failure).is_suffix_of(failed_text(what, failure)),
        reference_tail(failure).is_suffix_of(
            failed_text("`/"@ + command + "` did not finish"@, failure),
        ),
        reference_tail(failure).is_suffix_of(out_of_date_text(command, failure)),
{
    let tail = reference_tail(failure);
    let first = failed_text(what, failure);
    assert(first == what + ". "@ + failure.advice_text() + tail);
    assert(first.subrange(first.len() - tail.len(), first.len() as int) =~= tail);
    let second = failed_text("`/"@ + command + "` did not finish"@, failure);
    assert(second.subrange(second.len() - tail.len(), second.len() as int) =~= tail);
    let third = out_of_date_text(command, failure);
    assert(third.subrange(third.len() - tail.len(), third.len() as int) =~= tail);
}

} // verus!
