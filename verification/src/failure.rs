use rand::seq::IndexedRandom;
use vstd::prelude::*;
use vstd::string::*;

use crate::ids::ChannelId;
use crate::ids::GuildId;
use crate::ids::Ping;
use crate::ids::Snowflake;
use crate::ids::UserId;
use crate::render::digits;
use crate::render::join;
use crate::render::join_strs;
use crate::render::joined;
use crate::render::push_char;
use crate::render::push_nat;
use crate::render::str_texts;
use crate::render::texts;
use crate::wiring::PingVerdict;

verus! {

broadcast use vstd::string::group_string_axioms;

/// The letters a reference is made of: digits and capitals, without I, L, O and U.
pub open spec fn reference_alphabet() -> Seq<u8> {
    seq![48u8, 49u8, 50u8, 51u8, 52u8, 53u8, 54u8, 55u8, 56u8, 57u8, 65u8, 66u8, 67u8, 68u8, 69u8, 70u8, 71u8, 72u8, 74u8, 75u8, 77u8, 78u8, 80u8, 81u8, 82u8, 83u8, 84u8, 86u8, 87u8, 88u8, 89u8, 90u8]
}

/// The reference alphabet, as bytes.
pub fn reference_letters() -> (letters: Vec<u8>)
    ensures
        letters@ == reference_alphabet(),
{
    let letters: Vec<u8> = vec![48u8, 49u8, 50u8, 51u8, 52u8, 53u8, 54u8, 55u8, 56u8, 57u8, 65u8, 66u8, 67u8, 68u8, 69u8, 70u8, 71u8, 72u8, 74u8, 75u8, 77u8, 78u8, 80u8, 81u8, 82u8, 83u8, 84u8, 86u8, 87u8, 88u8, 89u8, 90u8];
    assert(letters@ =~= reference_alphabet());
    letters
}

pub const REFERENCE_LENGTH: usize = 8;
pub const RATE_LIMITED: u16 = 429;
pub const SERVER_ERROR: u16 = 500;

/// What kind of thing went wrong.
#[derive(Debug, Clone, Copy, PartialEq, Eq, Structural)]
pub enum Kind {
    MissingPermissions,
    MissingAccess,
    UnknownChannel,
    UnknownMessage,
    UnknownMember,
    UnknownRole,
    UnknownGuild,
    UnknownInteraction,
    NotInVoice,
    ChannelLimit,
    InvalidRequest,
    RateLimited,
    DiscordUnavailable,
    DiscordRefused,
    Network,
    Database,
    Storage,
    Timeout,
    Internal,
}

impl Kind {
    pub open spec fn text(self) -> Seq<char> {
        match self {
            Kind::MissingPermissions => "discord.missing_permissions"@,
            Kind::MissingAccess => "discord.missing_access"@,
            Kind::UnknownChannel => "discord.unknown_channel"@,
            Kind::UnknownMessage => "discord.unknown_message"@,
            Kind::UnknownMember => "discord.unknown_member"@,
            Kind::UnknownRole => "discord.unknown_role"@,
            Kind::UnknownGuild => "discord.unknown_guild"@,
            Kind::UnknownInteraction => "discord.unknown_interaction"@,
            Kind::NotInVoice => "discord.not_in_voice"@,
            Kind::ChannelLimit => "discord.channel_limit"@,
            Kind::InvalidRequest => "discord.invalid_request"@,
            Kind::RateLimited => "discord.rate_limited"@,
            Kind::DiscordUnavailable => "discord.unavailable"@,
            Kind::DiscordRefused => "discord.refused"@,
            Kind::Network => "network"@,
            Kind::Database => "database"@,
            Kind::Storage => "storage"@,
            Kind::Timeout => "timeout"@,
            Kind::Internal => "internal"@,
        }
    }

    /// The kind's name in the log.
    pub fn as_str(self) -> (text: &'static str)
        ensures
            text@ == self.text(),
    {
        match self {
            Kind::MissingPermissions => "discord.missing_permissions",
            Kind::MissingAccess => "discord.missing_access",
            Kind::UnknownChannel => "discord.unknown_channel",
            Kind::UnknownMessage => "discord.unknown_message",
            Kind::UnknownMember => "discord.unknown_member",
            Kind::UnknownRole => "discord.unknown_role",
            Kind::UnknownGuild => "discord.unknown_guild",
            Kind::UnknownInteraction => "discord.unknown_interaction",
            Kind::NotInVoice => "discord.not_in_voice",
            Kind::ChannelLimit => "discord.channel_limit",
            Kind::InvalidRequest => "discord.invalid_request",
            Kind::RateLimited => "discord.rate_limited",
            Kind::DiscordUnavailable => "discord.unavailable",
            Kind::DiscordRefused => "discord.refused",
            Kind::Network => "network",
            Kind::Database => "database",
            Kind::Storage => "storage",
            Kind::Timeout => "timeout",
            Kind::Internal => "internal",
        }
    }

    /// Whether the problem lies with Barnacle rather than with Discord or the server.
    pub fn on_barnacles_side(self) -> (ours: bool)
        ensures
            ours == (self == Kind::Database || self == Kind::Storage || self == Kind::Internal),
    {
        match self {
            Kind::Database | Kind::Storage | Kind::Internal => true,
            _ => false,
        }
    }
}

/// A log name's length, last character and third character from the end.
pub open spec fn name_key(text: Seq<char>) -> (int, char, char) {
    (text.len() as int, text[text.len() - 1], text[text.len() - 3])
}

/// The key of each kind's log name, which no two kinds share.
pub open spec fn kind_key(kind: Kind) -> (int, char, char) {
    match kind {
        Kind::MissingPermissions => (27, 's', 'o'),
        Kind::MissingAccess => (22, 's', 'e'),
        Kind::UnknownChannel => (23, 'l', 'n'),
        Kind::UnknownMessage => (23, 'e', 'a'),
        Kind::UnknownMember => (22, 'r', 'b'),
        Kind::UnknownRole => (20, 'e', 'o'),
        Kind::UnknownGuild => (21, 'd', 'i'),
        Kind::UnknownInteraction => (27, 'n', 'i'),
        Kind::NotInVoice => (20, 'e', 'i'),
        Kind::ChannelLimit => (21, 't', 'm'),
        Kind::InvalidRequest => (23, 't', 'e'),
        Kind::RateLimited => (20, 'd', 't'),
        Kind::DiscordUnavailable => (19, 'e', 'b'),
        Kind::DiscordRefused => (15, 'd', 's'),
        Kind::Network => (7, 'k', 'o'),
        Kind::Database => (8, 'e', 'a'),
        Kind::Storage => (7, 'e', 'a'),
        Kind::Timeout => (7, 't', 'o'),
        Kind::Internal => (8, 'l', 'n'),
    }
}

proof fn lemma_kind_key(kind: Kind)
    ensures
        name_key(kind.text()) == kind_key(kind),
{
    match kind {
        Kind::MissingPermissions => {
            reveal_strlit("discord.missing_permissions");
        },
        Kind::MissingAccess => {
            reveal_strlit("discord.missing_access");
        },
        Kind::UnknownChannel => {
            reveal_strlit("discord.unknown_channel");
        },
        Kind::UnknownMessage => {
            reveal_strlit("discord.unknown_message");
        },
        Kind::UnknownMember => {
            reveal_strlit("discord.unknown_member");
        },
        Kind::UnknownRole => {
            reveal_strlit("discord.unknown_role");
        },
        Kind::UnknownGuild => {
            reveal_strlit("discord.unknown_guild");
        },
        Kind::UnknownInteraction => {
            reveal_strlit("discord.unknown_interaction");
        },
        Kind::NotInVoice => {
            reveal_strlit("discord.not_in_voice");
        },
        Kind::ChannelLimit => {
            reveal_strlit("discord.channel_limit");
        },
        Kind::InvalidRequest => {
            reveal_strlit("discord.invalid_request");
        },
        Kind::RateLimited => {
            reveal_strlit("discord.rate_limited");
        },
        Kind::DiscordUnavailable => {
            reveal_strlit("discord.unavailable");
        },
        Kind::DiscordRefused => {
            reveal_strlit("discord.refused");
        },
        Kind::Network => {
            reveal_strlit("network");
        },
        Kind::Database => {
            reveal_strlit("database");
        },
        Kind::Storage => {
            reveal_strlit("storage");
        },
        Kind::Timeout => {
            reveal_strlit("timeout");
        },
        Kind::Internal => {
            reveal_strlit("internal");
        },
    }
}

/// No two kinds share a log name.
pub proof fn law_kind_names_distinct(a: Kind, b: Kind)
    ensures
        a != b ==> a.text() != b.text(),
{
    lemma_kind_key(a);
    lemma_kind_key(b);
}

/// The kind that a Discord JSON error code stands for, for the codes Barnacle knows.
pub open spec fn code_kind(code: int) -> Option<Kind> {
    if code == 50013 {
        Some(Kind::MissingPermissions)
    } else if code == 50001 {
        Some(Kind::MissingAccess)
    } else if code == 10003 {
        Some(Kind::UnknownChannel)
    } else if code == 10008 {
        Some(Kind::UnknownMessage)
    } else if code == 10007 {
        Some(Kind::UnknownMember)
    } else if code == 10011 {
        Some(Kind::UnknownRole)
    } else if code == 10004 {
        Some(Kind::UnknownGuild)
    } else if code == 10062 {
        Some(Kind::UnknownInteraction)
    } else if code == 40032 {
        Some(Kind::NotInVoice)
    } else if code == 30013 {
        Some(Kind::ChannelLimit)
    } else if code == 50035 {
        Some(Kind::InvalidRequest)
    } else {
        None
    }
}

/// A request that Discord answered with an error.
#[derive(Debug, Clone, PartialEq, Eq)]
pub struct DiscordRefusal {
    pub status: u16,
    pub code: isize,
    pub message: String,
    pub fields: Vec<String>,
}

impl DiscordRefusal {
    pub open spec fn spec_kind(&self) -> Kind {
        match code_kind(self.code as int) {
            Some(kind) => kind,
            None => if self.status == RATE_LIMITED {
                Kind::RateLimited
            } else if self.status >= SERVER_ERROR {
                Kind::DiscordUnavailable
            } else {
                Kind::DiscordRefused
            },
        }
    }

    /// The kind of the refusal: by its error code where Barnacle knows the code, else by its
    /// HTTP status.
    pub fn kind(&self) -> (kind: Kind)
        ensures
            kind == self.spec_kind(),
    {
        let code = self.code;
        if code == 50013 {
            Kind::MissingPermissions
        } else if code == 50001 {
            Kind::MissingAccess
        } else if code == 10003 {
            Kind::UnknownChannel
        } else if code == 10008 {
            Kind::UnknownMessage
        } else if code == 10007 {
            Kind::UnknownMember
        } else if code == 10011 {
            Kind::UnknownRole
        } else if code == 10004 {
            Kind::UnknownGuild
        } else if code == 10062 {
            Kind::UnknownInteraction
        } else if code == 40032 {
            Kind::NotInVoice
        } else if code == 30013 {
            Kind::ChannelLimit
        } else if code == 50035 {
            Kind::InvalidRequest
        } else if self.status == RATE_LIMITED {
            Kind::RateLimited
        } else if self.status >= SERVER_ERROR {
            Kind::DiscordUnavailable
        } else {
            Kind::DiscordRefused
        }
    }

    pub open spec fn text(&self) -> Seq<char> {
        self.message@ + " (Discord error "@ + crate::render::signed(self.code as int)
            + ", HTTP "@ + digits(self.status as nat) + ")"@
    }

    /// How the refusal reads in the log.
    pub fn describe(&self) -> (text: String)
        ensures
            text@ == self.text(),
    {
        let mut text = self.message.clone();
        text.append(" (Discord error ");
        crate::render::push_int(&mut text, self.code as i64);
        text.append(", HTTP ");
        push_nat(&mut text, self.status as u64);
        text.append(")");
        text
    }
}

// ---------------------------------------------------------------------------
// References.

/// Calls `rand::seq::IndexedRandom::choose` on a thread-local generator; the contract claims
/// only that a non-empty slice gives one of its own bytes, and an empty one none.
#[verifier::external_body]
fn choose_byte(alphabet: &[u8]) -> (picked: Option<u8>)
    ensures
        picked is Some <==> alphabet@.len() > 0,
        picked matches Some(byte) ==> alphabet@.contains(byte),
{
    let mut rng = rand::rng();
    alphabet.choose(&mut rng).copied()
}

pub open spec fn reference_letter(c: char) -> bool {
    exists|i: int| 0 <= i < reference_alphabet().len() && c == reference_alphabet()[i] as char
}

/// A short code that ties what a user was told to the log line about it.
#[derive(Debug, Clone, PartialEq, Eq)]
pub struct Reference(pub String);

impl Reference {
    /// Eight letters drawn at random from the reference alphabet.
    pub fn new() -> (reference: Self)
        ensures
            reference.0@.len() == REFERENCE_LENGTH,
            forall|i: int| 0 <= i < reference.0@.len() ==> reference_letter(#[trigger] reference.0@[i]),
    {
        let letters = reference_letters();
        let mut text = String::new();
        let mut count: usize = 0;
        while count < REFERENCE_LENGTH
            invariant
                letters@ == reference_alphabet(),
                count <= REFERENCE_LENGTH,
                text@.len() == count,
                forall|i: int| 0 <= i < text@.len() ==> reference_letter(#[trigger] text@[i]),
            decreases REFERENCE_LENGTH - count,
        {
            match choose_byte(letters.as_slice()) {
                Some(byte) => {
                    let ghost index = choose|i: int|
                        0 <= i < reference_alphabet().len() && reference_alphabet()[i] == byte;
                    push_char(&mut text, byte as char);
                    assert(reference_letter(text@[count as int]));
                },
                None => {
                    assert(false);
                },
            }
            count = count + 1;
        }
        Reference(text)
    }

    pub fn as_str(&self) -> (text: &str)
        ensures
            text@ == self.0@,
    {
        self.0.as_str()
    }
}

impl Default for Reference {
    fn default() -> (reference: Self)
        ensures
            reference.0@.len() == REFERENCE_LENGTH,
            forall|i: int| 0 <= i < reference.0@.len() ==> reference_letter(#[trigger] reference.0@[i]),
    {
        Self::new()
    }
}

// ---------------------------------------------------------------------------
// Failures.

/// Something that went wrong, with the reference the user is given for it.
#[derive(Debug, Clone, PartialEq, Eq)]
pub struct Failure {
    pub kind: Kind,
    pub reference: Reference,
    pub message: String,
    pub discord: Option<DiscordRefusal>,
    pub missing: Vec<&'static str>,
}

/// The causes of an error from outermost in, without a cause that repeats the one above it.
pub open spec fn distinct_causes(causes: Seq<Seq<char>>) -> Seq<Seq<char>>
    decreases causes.len(),
{
    if causes.len() == 0 {
        Seq::empty()
    } else {
        let earlier = distinct_causes(causes.drop_last());
        if causes.len() >= 2 && causes[causes.len() - 2] == causes.last() {
            earlier
        } else {
            earlier.push(causes.last())
        }
    }
}

/// Names in a list: `a`, `a and b`, `a, b and c`.
pub open spec fn names_text(names: Seq<Seq<char>>) -> Seq<char> {
    if names.len() == 0 {
        Seq::empty()
    } else if names.len() == 1 {
        names[0]
    } else {
        joined(names.drop_last(), ", "@) + " and "@ + names.last()
    }
}

/// Names in a list, as `a, b and c`.
pub fn join_names(names: &[&str]) -> (text: String)
    ensures
        text@ == names_text(str_texts(names@)),
{
    let count = names.len();
    if count == 0 {
        String::new()
    } else if count == 1 {
        String::from_str(names[0])
    } else {
        let mut head: Vec<&str> = Vec::new();
        let mut index: usize = 0;
        while index < count - 1
            invariant
                count == names.len(),
                count >= 2,
                index <= count - 1,
                head@ == names@.take(index as int),
            decreases count - 1 - index,
        {
            head.push(names[index]);
            assert(names@.take(index + 1) == names@.take(index as int).push(names@[index as int]));
            index = index + 1;
        }
        let mut text = join_strs(head.as_slice(), ", ");
        text.append(" and ");
        text.append(names[count - 1]);
        proof {
            assert(str_texts(head@) =~= str_texts(names@).drop_last());
        }
        text
    }
}

pub open spec fn them_text(count: int) -> Seq<char> {
    if count == 1 {
        "it"@
    } else {
        "them"@
    }
}

impl Failure {
    /// The failure of an error whose causes, from outermost in, read `causes`, classified as
    /// the first cause Barnacle recognises (`recognised`), or as internal when none is.
    pub fn from_error(causes: Vec<String>, recognised: Option<(Kind, Option<DiscordRefusal>)>) -> (failure: Failure)
        ensures
            failure.message@ == joined(distinct_causes(texts(causes@)), ": "@),
            match recognised {
                Some((kind, discord)) => failure.kind == kind && failure.discord == discord,
                None => failure.kind == Kind::Internal && failure.discord is None,
            },
            failure.missing@.len() == 0,
            failure.reference.0@.len() == REFERENCE_LENGTH,
    {
        let ghost all = texts(causes@);
        let mut kept: Vec<String> = Vec::new();
        let mut index: usize = 0;
        while index < causes.len()
            invariant
                all == texts(causes@),
                index <= causes.len(),
                texts(kept@) == distinct_causes(all.take(index as int)),
            decreases causes.len() - index,
        {
            let ghost prefix = all.take(index + 1);
            assert(prefix.drop_last() == all.take(index as int));
            let repeated = index > 0 && causes[index] == causes[index - 1];
            if !repeated {
                kept.push(causes[index].clone());
                assert(texts(kept@) =~= texts(kept@.drop_last()).push(causes@[index as int]@));
            }
            index = index + 1;
        }
        assert(all.take(causes.len() as int) == all);
        let message = join(kept.as_slice(), ": ");
        let (kind, discord) = match recognised {
            Some((kind, discord)) => (kind, discord),
            None => (Kind::Internal, None),
        };
        Failure { kind, reference: Reference::new(), message, discord, missing: Vec::new() }
    }

    pub fn internal(message: String) -> (failure: Failure)
        ensures
            failure.kind == Kind::Internal,
            failure.message == message,
            failure.discord is None,
            failure.missing@.len() == 0,
            failure.reference.0@.len() == REFERENCE_LENGTH,
    {
        Failure {
            kind: Kind::Internal,
            reference: Reference::new(),
            message,
            discord: None,
            missing: Vec::new(),
        }
    }

    pub fn missing_permissions(names: Vec<&'static str>) -> (failure: Failure)
        ensures
            failure.kind == Kind::MissingPermissions,
            failure.message@ == "Barnacle lacks "@ + names_text(str_texts(names@)),
            failure.discord is None,
            failure.missing@ == names@,
            failure.reference.0@.len() == REFERENCE_LENGTH,
    {
        let mut message = String::from_str("Barnacle lacks ");
        let listed = join_names(names.as_slice());
        message.append(listed.as_str());
        Failure {
            kind: Kind::MissingPermissions,
            reference: Reference::new(),
            message,
            discord: None,
            missing: names,
        }
    }

    pub open spec fn detail_text(&self) -> Seq<char> {
        let fields = match self.discord {
            Some(refusal) => joined(texts(refusal.fields@), "; "@),
            None => Seq::empty(),
        };
        if fields.len() == 0 {
            Seq::empty()
        } else {
            " ("@ + fields + ")"@
        }
    }

    /// The fields Discord named, in brackets, when it named any.
    pub fn detail(&self) -> (text: String)
        ensures
            text@ == self.detail_text(),
    {
        let fields = match &self.discord {
            Some(refusal) => join(refusal.fields.as_slice(), "; "),
            None => String::new(),
        };
        if fields.as_str().is_empty() {
            String::new()
        } else {
            let mut text = String::from_str(" (");
            text.append(fields.as_str());
            text.append(")");
            text
        }
    }

    pub open spec fn advice_text(&self) -> Seq<char> {
        match self.kind {
            Kind::MissingPermissions => if self.missing@.len() == 0 {
                "Barnacle is missing a permission it needs here. A server admin can check Barnacle's role and this channel's permissions, then try again."@
            } else {
                "Barnacle is missing "@ + names_text(str_texts(self.missing@))
                    + " here. A server admin can grant "@ + them_text(self.missing@.len() as int)
                    + " to Barnacle's role, then try again."@
            },
            Kind::MissingAccess => "Barnacle cannot see a channel it needs here. A server admin can give Barnacle's role View Channel on it, then try again."@,
            Kind::UnknownChannel => "The channel involved no longer exists."@,
            Kind::UnknownMessage => "The message involved was deleted."@,
            Kind::UnknownMember => "The member involved has left the server."@,
            Kind::UnknownRole => "The role involved no longer exists."@,
            Kind::UnknownGuild => "Barnacle is no longer in this server."@,
            Kind::UnknownInteraction => "Discord stopped waiting for Barnacle's answer. Try again."@,
            Kind::NotInVoice => "The member left voice before Barnacle could move them."@,
            Kind::ChannelLimit => "This server has reached Discord's limit of 500 channels. A server admin can delete unused channels, then try again."@,
            Kind::InvalidRequest => "Discord rejected what Barnacle sent"@ + self.detail_text()
                + ". Check the options you gave and try again."@,
            Kind::RateLimited => "Discord is limiting how fast Barnacle can act. Try again in a minute."@,
            Kind::DiscordUnavailable => "Discord is having problems right now. Try again in a few minutes."@,
            Kind::DiscordRefused => "Discord refused the request: "@ + match self.discord {
                Some(refusal) => refusal.message@,
                None => self.message@,
            } + "."@,
            Kind::Network => "Barnacle could not reach Discord. Try again in a few minutes."@,
            Kind::Database => "Barnacle could not read or save its data. This is a problem on Barnacle's side; tell whoever runs Barnacle and quote the reference."@,
            Kind::Storage => "Barnacle could not read one of its files. This is a problem on Barnacle's side; tell whoever runs Barnacle and quote the reference."@,
            Kind::Timeout => "Discord took too long to answer. Try again in a minute."@,
            Kind::Internal => "Something went wrong inside Barnacle. Tell whoever runs Barnacle and quote the reference."@,
        }
    }

    /// What the user can do about the failure.
    pub fn advice(&self) -> (text: String)
        ensures
            text@ == self.advice_text(),
    {
        match self.kind {
            Kind::MissingPermissions => if self.missing.len() == 0 {
                String::from_str(
                    "Barnacle is missing a permission it needs here. A server admin can check Barnacle's role and this channel's permissions, then try again.",
                )
            } else {
                let mut text = String::from_str("Barnacle is missing ");
                let names = join_names(self.missing.as_slice());
                text.append(names.as_str());
                text.append(" here. A server admin can grant ");
                text.append(
                    if self.missing.len() == 1 {
                        "it"
                    } else {
                        "them"
                    },
                );
                text.append(" to Barnacle's role, then try again.");
                text
            },
            Kind::MissingAccess => String::from_str(
                "Barnacle cannot see a channel it needs here. A server admin can give Barnacle's role View Channel on it, then try again.",
            ),
            Kind::UnknownChannel => String::from_str("The channel involved no longer exists."),
            Kind::UnknownMessage => String::from_str("The message involved was deleted."),
            Kind::UnknownMember => String::from_str("The member involved has left the server."),
            Kind::UnknownRole => String::from_str("The role involved no longer exists."),
            Kind::UnknownGuild => String::from_str("Barnacle is no longer in this server."),
            Kind::UnknownInteraction => String::from_str(
                "Discord stopped waiting for Barnacle's answer. Try again.",
            ),
            Kind::NotInVoice => String::from_str(
                "The member left voice before Barnacle could move them.",
            ),
            Kind::ChannelLimit => String::from_str(
                "This server has reached Discord's limit of 500 channels. A server admin can delete unused channels, then try again.",
            ),
            Kind::InvalidRequest => {
                let mut text = String::from_str("Discord rejected what Barnacle sent");
                let detail = self.detail();
                text.append(detail.as_str());
                text.append(". Check the options you gave and try again.");
                text
            },
            Kind::RateLimited => String::from_str(
                "Discord is limiting how fast Barnacle can act. Try again in a minute.",
            ),
            Kind::DiscordUnavailable => String::from_str(
                "Discord is having problems right now. Try again in a few minutes.",
            ),
            Kind::DiscordRefused => {
                let mut text = String::from_str("Discord refused the request: ");
                match &self.discord {
                    Some(refusal) => text.append(refusal.message.as_str()),
                    None => text.append(self.message.as_str()),
                }
                text.append(".");
                text
            },
            Kind::Network => String::from_str(
                "Barnacle could not reach Discord. Try again in a few minutes.",
            ),
            Kind::Database => String::from_str(
                "Barnacle could not read or save its data. This is a problem on Barnacle's side; tell whoever runs Barnacle and quote the reference.",
            ),
            Kind::Storage => String::from_str(
                "Barnacle could not read one of its files. This is a problem on Barnacle's side; tell whoever runs Barnacle and quote the reference.",
            ),
            Kind::Timeout => String::from_str(
                "Discord took too long to answer. Try again in a minute.",
            ),
            Kind::Internal => String::from_str(
                "Something went wrong inside Barnacle. Tell whoever runs Barnacle and quote the reference.",
            ),
        }
    }

    pub open spec fn explanation_text(&self) -> Seq<char> {
        self.advice_text() + " (Reference: "@ + self.reference.0@ + ")"@
    }

    /// The advice, followed by the reference to quote.
    pub fn explanation(&self) -> (text: String)
        ensures
            text@ == self.explanation_text(),
    {
        let mut text = self.advice();
        text.append(" (Reference: ");
        text.append(self.reference.as_str());
        text.append(")");
        text
    }
}

pub open spec fn failed_text(what: Seq<char>, failure: Failure) -> Seq<char> {
    what + ". "@ + failure.explanation_text()
}

/// What did not happen, then why.
pub fn failed(what: &str, failure: &Failure) -> (text: String)
    ensures
        text@ == failed_text(what@, *failure),
{
    let mut text = String::from_str(what);
    text.append(". ");
    let explanation = failure.explanation();
    text.append(explanation.as_str());
    text
}

/// That a command did not finish, then why.
pub fn command_failed(command: &str, failure: &Failure) -> (text: String)
    ensures
        text@ == failed_text("`/"@ + command@ + "` did not finish"@, *failure),
{
    let mut what = String::from_str("`/");
    what.append(command);
    what.append("` did not finish");
    failed(what.as_str(), failure)
}

/// A command option that could not be read, or a failure while reading it.
#[derive(Debug, Clone, PartialEq, Eq)]
pub enum OptionProblem {
    Unreadable(String),
    Failed(Failure),
}

impl OptionProblem {
    /// An internal failure means the option itself could not be read.
    pub fn of(failure: Failure) -> (problem: OptionProblem)
        ensures
            match problem {
                OptionProblem::Unreadable(message) => failure.kind == Kind::Internal && message
                    == failure.message,
                OptionProblem::Failed(kept) => failure.kind != Kind::Internal && kept == failure,
            },
    {
        if failure.kind == Kind::Internal {
            OptionProblem::Unreadable(failure.message)
        } else {
            OptionProblem::Failed(failure)
        }
    }
}

// ---------------------------------------------------------------------------
// Permissions Barnacle needs to copy a channel's overwrites.

pub const ADMINISTRATOR: u64 = 8;
pub const MANAGE_ROLES: u64 = 268435456;

pub open spec fn overwrite_union(overwrites: Seq<(u64, u64)>) -> u64
    decreases overwrites.len(),
{
    if overwrites.len() == 0 {
        0
    } else {
        overwrite_union(overwrites.drop_last()) | overwrites.last().0 | overwrites.last().1
    }
}

/// The permissions Barnacle lacks to create a channel with copies of these overwrites, as bits:
/// every permission an overwrite allows or denies, except Manage Roles, which needs
/// Administrator instead, and those in `extra`. An administrator lacks none.
pub open spec fn copy_blocker_bits(granted: u64, overwrites: Seq<(u64, u64)>, extra: u64) -> u64 {
    if granted & ADMINISTRATOR != 0 {
        0
    } else {
        let copied = overwrite_union(overwrites);
        let administrator = if copied & MANAGE_ROLES != 0 {
            ADMINISTRATOR
        } else {
            0
        };
        (extra | (copied & !MANAGE_ROLES) | administrator) & !granted
    }
}

/// The permission bits that block Barnacle from copying `overwrites` (allow and deny bits).
pub fn copy_blockers(granted: u64, overwrites: &[(u64, u64)], extra: u64) -> (missing: u64)
    ensures
        missing == copy_blocker_bits(granted, overwrites@, extra),
{
    if granted & ADMINISTRATOR != 0 {
        return 0;
    }
    let mut copied: u64 = 0;
    let mut index: usize = 0;
    while index < overwrites.len()
        invariant
            index <= overwrites.len(),
            copied == overwrite_union(overwrites@.take(index as int)),
        decreases overwrites.len() - index,
    {
        assert(overwrites@.take(index + 1).drop_last() == overwrites@.take(index as int));
        copied = copied | overwrites[index].0 | overwrites[index].1;
        index = index + 1;
    }
    assert(overwrites@.take(overwrites.len() as int) == overwrites@);
    let administrator = if copied & MANAGE_ROLES != 0 {
        ADMINISTRATOR
    } else {
        0
    };
    (extra | (copied & !MANAGE_ROLES) | administrator) & !granted
}

// ---------------------------------------------------------------------------
// What a log line is about.

#[derive(Debug, Clone, PartialEq, Eq)]
pub struct Scope {
    pub guild: Option<GuildId>,
    pub channel: Option<ChannelId>,
    pub user: Option<UserId>,
    pub interaction: Option<u64>,
    pub message: Option<Snowflake>,
    pub command: Option<String>,
    pub season: Option<i64>,
    pub night: Option<String>,
    pub hub: Option<ChannelId>,
    pub room: Option<ChannelId>,
    pub room_number: Option<u32>,
    pub round: Option<u32>,
}

/// A scope that names nothing.
pub open spec fn empty_scope() -> Scope {
    Scope {
        guild: None,
        channel: None,
        user: None,
        interaction: None,
        message: None,
        command: None,
        season: None,
        night: None,
        hub: None,
        room: None,
        room_number: None,
        round: None,
    }
}

impl Default for Scope {
    fn default() -> (scope: Self)
        ensures
            scope == empty_scope(),
    {
        Scope {
            guild: None,
            channel: None,
            user: None,
            interaction: None,
            message: None,
            command: None,
            season: None,
            night: None,
            hub: None,
            room: None,
            room_number: None,
            round: None,
        }
    }
}

impl Scope {
    pub fn guild(self, guild: GuildId) -> (scope: Scope)
        ensures
            scope == (Scope { guild: Some(guild), ..self }),
    {
        Scope { guild: Some(guild), ..self }
    }

    pub fn channel(self, channel: ChannelId) -> (scope: Scope)
        ensures
            scope == (Scope { channel: Some(channel), ..self }),
    {
        Scope { channel: Some(channel), ..self }
    }

    pub fn user(self, user: UserId) -> (scope: Scope)
        ensures
            scope == (Scope { user: Some(user), ..self }),
    {
        Scope { user: Some(user), ..self }
    }

    pub fn interaction(self, interaction: u64) -> (scope: Scope)
        ensures
            scope == (Scope { interaction: Some(interaction), ..self }),
    {
        Scope { interaction: Some(interaction), ..self }
    }

    pub fn message(self, message: Snowflake) -> (scope: Scope)
        ensures
            scope == (Scope { message: Some(message), ..self }),
    {
        Scope { message: Some(message), ..self }
    }

    pub fn command(self, command: String) -> (scope: Scope)
        ensures
            scope == (Scope { command: Some(command), ..self }),
    {
        Scope { command: Some(command), ..self }
    }

    pub fn season(self, season: i64) -> (scope: Scope)
        ensures
            scope == (Scope { season: Some(season), ..self }),
    {
        Scope { season: Some(season), ..self }
    }

    pub fn night(self, night: String) -> (scope: Scope)
        ensures
            scope == (Scope { night: Some(night), ..self }),
    {
        Scope { night: Some(night), ..self }
    }

    pub fn hub(self, hub: ChannelId) -> (scope: Scope)
        ensures
            scope == (Scope { hub: Some(hub), ..self }),
    {
        Scope { hub: Some(hub), ..self }
    }

    pub fn room(self, room: ChannelId) -> (scope: Scope)
        ensures
            scope == (Scope { room: Some(room), ..self }),
    {
        Scope { room: Some(room), ..self }
    }

    pub fn room_number(self, room_number: u32) -> (scope: Scope)
        ensures
            scope == (Scope { room_number: Some(room_number), ..self }),
    {
        Scope { room_number: Some(room_number), ..self }
    }

    pub fn round(self, round: u32) -> (scope: Scope)
        ensures
            scope == (Scope { round: Some(round), ..self }),
    {
        Scope { round: Some(round), ..self }
    }
}

pub open spec fn ping_name_text(ping: Ping) -> Seq<char> {
    match ping {
        Ping::Everyone => "everyone"@,
        Ping::Role(role) => digits(role@ as nat),
    }
}

/// How a ping is named in the log: `everyone` or the role's ID.
pub fn ping_name(ping: Ping) -> (name: String)
    ensures
        name@ == ping_name_text(ping),
{
    match ping {
        Ping::Everyone => String::from_str("everyone"),
        Ping::Role(role) => crate::render::nat_text(role.get()),
    }
}

pub open spec fn verdict_text(verdict: PingVerdict) -> Seq<char> {
    match verdict {
        PingVerdict::Sounds => "sounds"@,
        PingVerdict::BlockedByChannel => "blocked_by_channel"@,
        PingVerdict::Silent => "silent"@,
        PingVerdict::Unchecked => "unchecked"@,
    }
}

/// How a ping's verdict is named in the log.
pub fn verdict_name(verdict: PingVerdict) -> (name: &'static str)
    ensures
        name@ == verdict_text(verdict),
{
    match verdict {
        PingVerdict::Sounds => "sounds",
        PingVerdict::BlockedByChannel => "blocked_by_channel",
        PingVerdict::Silent => "silent",
        PingVerdict::Unchecked => "unchecked",
    }
}

/// What blocks copying a hub's overwrites: nothing for an administrator; otherwise never a
/// permission Barnacle holds, always each permission in `extra` that it lacks, and
/// Administrator whenever an overwrite names Manage Roles.
pub proof fn law_copy_blockers(granted: u64, overwrites: Seq<(u64, u64)>, extra: u64)
    ensures
        granted & ADMINISTRATOR != 0 ==> copy_blocker_bits(granted, overwrites, extra) == 0,
        copy_blocker_bits(granted, overwrites, extra) & granted == 0,
        granted & ADMINISTRATOR == 0 ==> copy_blocker_bits(granted, overwrites, extra) & (extra
            & !granted) == extra & !granted,
        granted & ADMINISTRATOR == 0 && overwrite_union(overwrites) & MANAGE_ROLES != 0
            ==> copy_blocker_bits(granted, overwrites, extra) & ADMINISTRATOR == ADMINISTRATOR,
{
    let copied = overwrite_union(overwrites);
    let blockers = copy_blocker_bits(granted, overwrites, extra);
    assert(0u64 & granted == 0) by (bit_vector);
    if granted & ADMINISTRATOR == 0 {
        let administrator: u64 = if copied & MANAGE_ROLES != 0 {
            ADMINISTRATOR
        } else {
            0
        };
        assert(blockers == (extra | (copied & !MANAGE_ROLES) | administrator) & !granted);
        assert(((extra | (copied & !MANAGE_ROLES) | administrator) & !granted) & granted == 0)
            by (bit_vector);
        assert(((extra | (copied & !MANAGE_ROLES) | administrator) & !granted) & (extra & !granted)
            == extra & !granted) by (bit_vector);
        if copied & MANAGE_ROLES != 0 {
            assert(granted & ADMINISTRATOR == 0 ==> ((extra | (copied & !MANAGE_ROLES)
                | ADMINISTRATOR) & !granted) & ADMINISTRATOR == ADMINISTRATOR) by (bit_vector);
        }
    }
}

} // verus!
