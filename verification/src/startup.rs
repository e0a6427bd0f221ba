use vstd::prelude::*;
use vstd::string::*;

use crate::render::join;
use crate::render::joined;
use crate::render::texts;
use crate::render::trim;
use crate::render::trimmed;

verus! {

broadcast use vstd::string::group_string_axioms;

/// The environment variable that holds the bot's Discord token.
pub const TOKEN_VARIABLE: &'static str = "DISCORD_TOKEN";

/// The token a value of the token variable gives: the value without the white space around
/// it, when that leaves something.
pub open spec fn token_of(value: Option<Seq<char>>) -> Option<Seq<char>> {
    match value {
        Some(value) => if trimmed(value).len() > 0 {
            Some(trimmed(value))
        } else {
            None
        },
        None => None,
    }
}

pub open spec fn string_view(value: Option<String>) -> Option<Seq<char>> {
    match value {
        Some(value) => Some(value@),
        None => None,
    }
}

/// The Discord token, or `None` when the variable is unset or blank.
pub fn read_token(value: Option<String>) -> (token: Option<String>)
    ensures
        string_view(token) == token_of(string_view(value)),
{
    match value {
        Some(value) => {
            let token = trim(value.as_str());
            if token.as_str().unicode_len() > 0 {
                Some(token)
            } else {
                None
            }
        },
        None => None,
    }
}

/// Each text with `lead` before it.
pub open spec fn led(lead: Seq<char>, lines: Seq<Seq<char>>) -> Seq<Seq<char>> {
    lines.map_values(|line: Seq<char>| lead + line)
}

/// A startup failure as the operator reads it: the failure, one line per problem it lists,
/// then one line per cause beneath it.
pub open spec fn described(
    message: Seq<char>,
    problems: Seq<Seq<char>>,
    causes: Seq<Seq<char>>,
) -> Seq<char> {
    joined(
        seq![message] + led("  - "@, problems) + led("  caused by: "@, causes),
        "\n"@,
    )
}

fn push_led(lines: &mut Vec<String>, lead: &str, items: &[String])
    ensures
        texts(final(lines)@) == texts(old(lines)@) + led(lead@, texts(items@)),
{
    let ghost start = texts(lines@);
    let mut index: usize = 0;
    while index < items.len()
        invariant
            index <= items@.len(),
            texts(lines@) == start + led(lead@, texts(items@.take(index as int))),
        decreases items.len() - index,
    {
        let mut line = String::from_str(lead);
        line.append(items[index].as_str());
        let ghost before = texts(lines@);
        lines.push(line);
        assert(texts(lines@) =~= before.push(lead@ + items@[index as int]@));
        assert(led(lead@, texts(items@.take(index + 1))) =~= led(
            lead@,
            texts(items@.take(index as int)),
        ).push(lead@ + items@[index as int]@));
        index = index + 1;
    }
    assert(items@.take(items@.len() as int) == items@);
}

/// What the operator reads when Barnacle cannot start.
pub fn describe(message: &str, problems: &[String], causes: &[String]) -> (text: String)
    ensures
        text@ == described(message@, texts(problems@), texts(causes@)),
{
    let mut lines: Vec<String> = Vec::new();
    lines.push(String::from_str(message));
    assert(texts(lines@) =~= seq![message@]);
    push_led(&mut lines, "  - ", problems);
    push_led(&mut lines, "  caused by: ", causes);
    join(lines.as_slice(), "\n")
}

} // verus!
