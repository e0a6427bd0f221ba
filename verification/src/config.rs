use vstd::prelude::*;
use vstd::string::*;
use vstd::utf8::decode_utf8;
use vstd::utf8::encode_utf8;
use vstd::utf8::is_char_boundary;

use crate::render::chars_of;
use crate::render::digits;
use crate::render::ends_with_char;
use crate::render::push_nat;

verus! {

broadcast use {
    vstd::string::group_string_axioms,
    vstd::utf8::encode_utf8_decode_utf8,
    vstd::utf8::encode_utf8_valid_utf8,
};

pub const DEFAULT_DATA_DIR: &'static str = "data";
pub const DEFAULT_CURATION: &'static str = "curation/ships.toml";
pub const DEFAULT_DATABASE: &'static str = "data/barnacle.sqlite3";
pub const CATALOG_DIR: &'static str = "catalog";

/// Where Barnacle registers its slash commands.
#[derive(Debug, Clone, PartialEq, Eq)]
pub enum CommandScope {
    Guilds { guilds: Vec<u64> },
    Global,
}

/// Barnacle's settings, as barnacle.toml gives them.
#[derive(Debug, Clone, PartialEq, Eq)]
pub struct Config {
    pub data_dir: String,
    pub curation: String,
    pub database: String,
    pub commands: CommandScope,
    pub rehearsal: Vec<u64>,
}

/// Why barnacle.toml was refused.
#[derive(Debug, Clone, Copy, PartialEq, Eq, Structural)]
pub enum ConfigError {
    Toml { line: usize, column: usize },
    NoGuilds,
    ZeroGuild,
    GuildsWithGlobal,
    ZeroRehearsalGuild,
    RehearsalWithGlobal,
    RehearsalNotRegistered { guild: u64 },
}

/// The `commands.scope` setting.
#[derive(Debug, Clone, Copy, PartialEq, Eq, Structural)]
pub enum ScopeName {
    Guilds,
    Global,
}

/// barnacle.toml as read, before it is checked: a path left out is `None`, and `rehearsal`
/// is the `rehearsal.guilds` list when the file has a `[rehearsal]` section.
#[derive(Debug, Clone, PartialEq, Eq)]
pub struct ConfigFile {
    pub data_dir: Option<String>,
    pub curation: Option<String>,
    pub database: Option<String>,
    pub scope: ScopeName,
    pub guilds: Option<Vec<u64>>,
    pub rehearsal: Option<Vec<u64>>,
}

/// A command scope as the servers it lists, or `None` for global commands.
pub open spec fn scope_view(scope: CommandScope) -> Option<Seq<u64>> {
    match scope {
        CommandScope::Guilds { guilds } => Some(guilds@),
        CommandScope::Global => None,
    }
}

pub open spec fn list_view(list: Option<Vec<u64>>) -> Option<Seq<u64>> {
    match list {
        Some(list) => Some(list@),
        None => None,
    }
}

/// Where commands go: `Ok(None)` for global, `Ok(Some(guilds))` for those servers.
pub open spec fn scope_outcome(scope: ScopeName, guilds: Option<Seq<u64>>) -> Result<
    Option<Seq<u64>>,
    ConfigError,
> {
    match (scope, guilds) {
        (ScopeName::Global, None) => Ok(None),
        (ScopeName::Global, Some(_)) => Err(ConfigError::GuildsWithGlobal),
        (ScopeName::Guilds, None) => Err(ConfigError::NoGuilds),
        (ScopeName::Guilds, Some(guilds)) => if guilds.len() == 0 {
            Err(ConfigError::NoGuilds)
        } else if guilds.contains(0) {
            Err(ConfigError::ZeroGuild)
        } else {
            Ok(Some(guilds))
        },
    }
}

/// The first of `guilds`, from `from` on, that `registered` does not list.
pub open spec fn first_unregistered(guilds: Seq<u64>, registered: Seq<u64>, from: int) -> Option<
    u64,
>
    decreases guilds.len() - from,
{
    if from < 0 || from >= guilds.len() {
        None
    } else if !registered.contains(guilds[from]) {
        Some(guilds[from])
    } else {
        first_unregistered(guilds, registered, from + 1)
    }
}

/// The servers that may rehearse, given where commands go and the `[rehearsal]` list.
pub open spec fn rehearsal_outcome(commands: Option<Seq<u64>>, section: Option<Seq<u64>>) -> Result<
    Seq<u64>,
    ConfigError,
> {
    match (commands, section) {
        (_, None) => Ok(Seq::empty()),
        (None, Some(_)) => Err(ConfigError::RehearsalWithGlobal),
        (Some(registered), Some(guilds)) => if guilds.contains(0) {
            Err(ConfigError::ZeroRehearsalGuild)
        } else {
            match first_unregistered(guilds, registered, 0) {
                Some(guild) => Err(ConfigError::RehearsalNotRegistered { guild }),
                None => Ok(guilds),
            }
        },
    }
}

pub open spec fn path_or(path: Option<String>, default: Seq<char>) -> Seq<char> {
    match path {
        Some(path) => path@,
        None => default,
    }
}

/// `base` with `child` appended as one more component, as a relative path is pushed onto a
/// Unix path.
pub open spec fn path_join(base: Seq<char>, child: Seq<char>) -> Seq<char> {
    if base.len() == 0 {
        child
    } else if base.last() == '/' {
        base + child
    } else {
        base + "/"@ + child
    }
}

fn contains_value(values: &Vec<u64>, value: u64) -> (found: bool)
    ensures
        found == values@.contains(value),
{
    let mut index: usize = 0;
    while index < values.len()
        invariant
            index <= values@.len(),
            forall|i: int| 0 <= i < index ==> values@[i] != value,
        decreases values.len() - index,
    {
        if values[index] == value {
            assert(values@[index as int] == value);
            return true;
        }
        index = index + 1;
    }
    false
}

fn copy_values(values: &Vec<u64>) -> (copy: Vec<u64>)
    ensures
        copy@ == values@,
{
    let mut copy: Vec<u64> = Vec::new();
    let mut index: usize = 0;
    while index < values.len()
        invariant
            index <= values@.len(),
            copy@ == values@.take(index as int),
        decreases values.len() - index,
    {
        copy.push(values[index]);
        assert(values@.take(index + 1) == values@.take(index as int).push(values@[index as int]));
        index = index + 1;
    }
    assert(values@.take(values@.len() as int) == values@);
    copy
}

/// Checks where commands go.
pub fn command_scope(scope: ScopeName, guilds: Option<Vec<u64>>) -> (outcome: Result<
    CommandScope,
    ConfigError,
>)
    ensures
        match (outcome, scope_outcome(scope, list_view(guilds))) {
            (Ok(commands), Ok(expected)) => scope_view(commands) == expected,
            (Err(error), Err(expected)) => error == expected,
            _ => false,
        },
{
    match (scope, guilds) {
        (ScopeName::Global, None) => Ok(CommandScope::Global),
        (ScopeName::Global, Some(_)) => Err(ConfigError::GuildsWithGlobal),
        (ScopeName::Guilds, None) => Err(ConfigError::NoGuilds),
        (ScopeName::Guilds, Some(guilds)) => {
            if guilds.len() == 0 {
                Err(ConfigError::NoGuilds)
            } else if contains_value(&guilds, 0) {
                Err(ConfigError::ZeroGuild)
            } else {
                Ok(CommandScope::Guilds { guilds })
            }
        },
    }
}

/// Checks the servers that may rehearse against where commands go.
pub fn rehearsal(commands: &CommandScope, section: Option<Vec<u64>>) -> (outcome: Result<
    Vec<u64>,
    ConfigError,
>)
    ensures
        match (outcome, rehearsal_outcome(scope_view(*commands), list_view(section))) {
            (Ok(guilds), Ok(expected)) => guilds@ == expected,
            (Err(error), Err(expected)) => error == expected,
            _ => false,
        },
{
    let ghost listed = list_view(section);
    let ghost registered_view = scope_view(*commands);
    match section {
        None => Ok(Vec::new()),
        Some(guilds) => match commands {
            CommandScope::Global => Err(ConfigError::RehearsalWithGlobal),
            CommandScope::Guilds { guilds: registered } => {
                if contains_value(&guilds, 0) {
                    return Err(ConfigError::ZeroRehearsalGuild);
                }
                let mut index: usize = 0;
                while index < guilds.len()
                    invariant
                        listed == list_view(section),
                        registered_view == scope_view(*commands),
                        listed == Some(guilds@),
                        registered_view == Some(registered@),
                        !guilds@.contains(0),
                        index <= guilds@.len(),
                        first_unregistered(guilds@, registered@, 0) == first_unregistered(
                            guilds@,
                            registered@,
                            index as int,
                        ),
                    decreases guilds.len() - index,
                {
                    if !contains_value(registered, guilds[index]) {
                        assert(first_unregistered(guilds@, registered@, index as int) == Some(
                            guilds@[index as int],
                        ));
                        assert(listed == Some(guilds@));
                        return Err(ConfigError::RehearsalNotRegistered { guild: guilds[index] });
                    }
                    index = index + 1;
                }
                assert(first_unregistered(guilds@, registered@, index as int) is None);
                Ok(guilds)
            },
        },
    }
}

fn path_or_default(path: Option<String>, default: &str) -> (chosen: String)
    ensures
        chosen@ == path_or(path, default@),
{
    match path {
        Some(path) => path,
        None => String::from_str(default),
    }
}

impl Config {
    /// Checks barnacle.toml as read and fills in the paths it leaves out.
    pub fn from_file(file: ConfigFile) -> (config: Result<Config, ConfigError>)
        ensures
            match scope_outcome(file.scope, list_view(file.guilds)) {
                Err(expected) => config == Err::<Config, ConfigError>(expected),
                Ok(commands) => match rehearsal_outcome(commands, list_view(file.rehearsal)) {
                    Err(expected) => config == Err::<Config, ConfigError>(expected),
                    Ok(rehearsal) => config matches Ok(config) && {
                        &&& config.data_dir@ == path_or(file.data_dir, DEFAULT_DATA_DIR@)
                        &&& config.curation@ == path_or(file.curation, DEFAULT_CURATION@)
                        &&& config.database@ == path_or(file.database, DEFAULT_DATABASE@)
                        &&& scope_view(config.commands) == commands
                        &&& config.rehearsal@ == rehearsal
                    },
                },
            },
    {
        let ConfigFile { data_dir, curation, database, scope, guilds, rehearsal: section } = file;
        let commands = match command_scope(scope, guilds) {
            Ok(commands) => commands,
            Err(error) => return Err(error),
        };
        let rehearsal = match rehearsal(&commands, section) {
            Ok(rehearsal) => rehearsal,
            Err(error) => return Err(error),
        };
        Ok(
            Config {
                data_dir: path_or_default(data_dir, DEFAULT_DATA_DIR),
                curation: path_or_default(curation, DEFAULT_CURATION),
                database: path_or_default(database, DEFAULT_DATABASE),
                commands,
                rehearsal,
            },
        )
    }

    /// The directory that holds the ship catalogs.
    pub fn catalogs(&self) -> (path: String)
        ensures
            path@ == path_join(self.data_dir@, CATALOG_DIR@),
    {
        let base = self.data_dir.as_str();
        if base.unicode_len() == 0 {
            return String::from_str(CATALOG_DIR);
        }
        let mut path = String::from_str(base);
        if !ends_with_char(base, '/') {
            path.append("/");
        }
        path.append(CATALOG_DIR);
        path
    }
}

/// How many line breaks a text holds.
pub open spec fn line_breaks(text: Seq<char>) -> nat
    decreases text.len(),
{
    if text.len() == 0 {
        0
    } else {
        line_breaks(text.drop_last()) + if text.last() == '\n' {
            1nat
        } else {
            0nat
        }
    }
}

/// How many characters follow the text's last line break.
pub open spec fn last_line_length(text: Seq<char>) -> nat
    decreases text.len(),
{
    if text.len() == 0 {
        0
    } else if text.last() == '\n' {
        0
    } else {
        last_line_length(text.drop_last()) + 1
    }
}

/// The text before byte `offset`, or the whole text when `offset` does not fall between two
/// characters of it.
pub open spec fn text_before(text: &str, offset: int) -> Seq<char> {
    if is_char_boundary(text.spec_bytes(), offset) {
        decode_utf8(text.spec_bytes().take(offset))
    } else {
        text@
    }
}

/// The line and column, both counted from one, at which byte `offset` of a text falls.
pub open spec fn position_of(text: &str, offset: int) -> (int, int) {
    let before = text_before(text, offset);
    ((line_breaks(before) + 1) as int, (last_line_length(before) + 1) as int)
}

/// Where in barnacle.toml byte `offset` falls, to point at a parse error.
pub fn position(text: &str, offset: usize) -> (at: (usize, usize))
    requires
        text.spec_bytes().len() < usize::MAX,
    ensures
        at.0 == position_of(text, offset as int).0,
        at.1 == position_of(text, offset as int).1,
{
    let before: &str = if text.is_char_boundary(offset) {
        let (head, _) = text.split_at(offset);
        assert(head.spec_bytes() =~= text.spec_bytes().take(offset as int));
        assert(head.spec_bytes().len() <= text.spec_bytes().len());
        head
    } else {
        text
    };
    assert(before@ == text_before(text, offset as int));
    let chars = chars_of(before);
    proof {
        lemma_bytes_cover_chars(before@);
    }
    let mut breaks: usize = 0;
    let mut column: usize = 0;
    let mut index: usize = 0;
    while index < chars.len()
        invariant
            chars@ == before@,
            chars@.len() < usize::MAX,
            index <= chars.len(),
            breaks == line_breaks(chars@.take(index as int)),
            column == last_line_length(chars@.take(index as int)),
            breaks <= index,
            column <= index,
        decreases chars.len() - index,
    {
        assert(chars@.take(index + 1).drop_last() == chars@.take(index as int));
        if chars[index] == '\n' {
            breaks = breaks + 1;
            column = 0;
        } else {
            column = column + 1;
        }
        index = index + 1;
    }
    assert(chars@.take(chars.len() as int) == chars@);
    (breaks + 1, column + 1)
}

/// A text takes at least one byte per character.
proof fn lemma_bytes_cover_chars(chars: Seq<char>)
    ensures
        chars.len() <= encode_utf8(chars).len(),
    decreases chars.len(),
{
    if chars.len() > 0 {
        lemma_bytes_cover_chars(chars.drop_first());
    }
}

/// What an operator reads when barnacle.toml is refused.
pub open spec fn config_error_text(error: ConfigError) -> Seq<char> {
    match error {
        ConfigError::Toml { line, column } => "the config is not valid at line "@ + digits(
            line as nat,
        ) + ", column "@ + digits(column as nat) + "; compare it with barnacle.example.toml"@,
        ConfigError::NoGuilds => "commands.scope is \"guilds\" but commands.guilds lists no server"@,
        ConfigError::ZeroGuild => "commands.guilds contains 0, which is not a Discord server ID"@,
        ConfigError::GuildsWithGlobal => "commands.scope is \"global\", so commands.guilds must be left out"@,
        ConfigError::ZeroRehearsalGuild => "rehearsal.guilds contains 0, which is not a Discord server ID"@,
        ConfigError::RehearsalWithGlobal => "commands.scope is \"global\", so rehearsal.guilds must be left out"@,
        ConfigError::RehearsalNotRegistered { guild } => "rehearsal.guilds lists "@ + digits(
            guild as nat,
        ) + ", which is not in commands.guilds"@,
    }
}

impl ConfigError {
    pub fn message(&self) -> (text: String)
        ensures
            text@ == config_error_text(*self),
    {
        match self {
            ConfigError::Toml { line, column } => {
                let mut text = String::from_str("the config is not valid at line ");
                push_nat(&mut text, *line as u64);
                text.append(", column ");
                push_nat(&mut text, *column as u64);
                text.append("; compare it with barnacle.example.toml");
                text
            },
            ConfigError::NoGuilds => String::from_str(
                "commands.scope is \"guilds\" but commands.guilds lists no server",
            ),
            ConfigError::ZeroGuild => String::from_str(
                "commands.guilds contains 0, which is not a Discord server ID",
            ),
            ConfigError::GuildsWithGlobal => String::from_str(
                "commands.scope is \"global\", so commands.guilds must be left out",
            ),
            ConfigError::ZeroRehearsalGuild => String::from_str(
                "rehearsal.guilds contains 0, which is not a Discord server ID",
            ),
            ConfigError::RehearsalWithGlobal => String::from_str(
                "commands.scope is \"global\", so rehearsal.guilds must be left out",
            ),
            ConfigError::RehearsalNotRegistered { guild } => {
                let mut text = String::from_str("rehearsal.guilds lists ");
                push_nat(&mut text, *guild);
                text.append(", which is not in commands.guilds");
                text
            },
        }
    }
}

// ---------------------------------------------------------------------------
// Laws.

/// A server can rehearse only where commands are registered per server, and only when it is
/// one of those servers.
pub proof fn law_rehearsal_servers_registered(
    scope: ScopeName,
    guilds: Option<Seq<u64>>,
    section: Option<Seq<u64>>,
    server: u64,
)
    requires
        scope_outcome(scope, guilds) is Ok,
        rehearsal_outcome(scope_outcome(scope, guilds)->Ok_0, section) is Ok,
        rehearsal_outcome(scope_outcome(scope, guilds)->Ok_0, section)->Ok_0.contains(server),
    ensures
        scope_outcome(scope, guilds)->Ok_0 is Some,
        scope_outcome(scope, guilds)->Ok_0->0.contains(server),
{
    let commands = scope_outcome(scope, guilds)->Ok_0;
    let wanted = section->0;
    if let Some(registered) = commands {
        lemma_none_unregistered(wanted, registered, 0);
        let k = choose|k: int| 0 <= k < wanted.len() && wanted[k] == server;
        assert(registered.contains(wanted[k]));
    }
}

proof fn lemma_none_unregistered(guilds: Seq<u64>, registered: Seq<u64>, from: int)
    requires
        0 <= from <= guilds.len(),
    ensures
        first_unregistered(guilds, registered, from) is None ==> forall|i: int|
            from <= i < guilds.len() ==> registered.contains(#[trigger] guilds[i]),
    decreases guilds.len() - from,
{
    if from < guilds.len() {
        lemma_none_unregistered(guilds, registered, from + 1);
    }
}

} // verus!
