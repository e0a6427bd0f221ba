use vstd::prelude::*;
use vstd::string::*;

use crate::attendance::Cell;
use crate::attendance::HourTally;
use crate::attendance::PostsReport;
use crate::attendance::RosterRow;
use crate::attendance::SignupView;
use crate::attendance::PurgeReport;
use crate::attendance::TickReport;
use crate::attendance_store::Season;
use crate::failure::join_names;
use crate::failure::names_text;
use crate::failure::them_text;
use crate::ids::ChannelId;
use crate::ids::Ping;
use crate::ids::UserId;
use crate::render::str_texts;
use crate::schedule::date_text;
use crate::schedule::day_label;
use crate::voice_text::channel_mention;
use crate::voice_text::name_too_long;
use crate::voice_text::name_too_long_text;
use crate::voice_text::push_channel;
use crate::wiring::PingVerdict;
use crate::render::chars_of;
use crate::render::discord_length;
use crate::render::first_chars;
use crate::render::join;
use crate::render::joined;
use crate::render::push_int;
use crate::render::signed;
use crate::render::texts;
use crate::render::lemma_utf16_length_concat;
use crate::render::utf16_length;
use crate::schedule::Day;
use crate::schedule::Hour;
use crate::schedule::Night;
use crate::schedule::SECONDS_PER_HOUR;
use crate::ships::Provenance;
use crate::solves::Ranking;
use crate::solves::Standing;
use crate::render::digit;
use crate::render::digit_char;
use crate::render::digits;
use crate::render::ends_with_char;
use crate::render::push_char;
use crate::render::push_nat;
use crate::render::same_text;
use crate::ships::Hint;
use crate::ships::Reveal;
use crate::ships::RoundOptions;
use crate::ships::ShipClass;
use crate::ships::Tier;
use crate::ships::Timing;

verus! {

broadcast use vstd::string::group_string_axioms;

pub const EMBED_COLOUR: u32 = 0x2E6F6B;
pub const ROUND_TITLE: &'static str = "Name that ship";
pub const ROUND_DESCRIPTION: &'static str = "First correct answer in chat wins.";
pub const TIERS_FIELD: &'static str = "Tiers";
pub const PAPER_EXCLUDED: &'static str = "Paper ships excluded";
pub const CANCEL_LABEL: &'static str = "Cancel";
pub const CANCEL_REFUSED: &'static str = "Only the player who started this round, or someone who can manage messages, can end it.";
pub const ROUND_OVER: &'static str = "That round has already ended.";
pub const SOMETHING_WENT_WRONG: &'static str = "Something went wrong. Nothing was changed.";
pub const ROUNDS_WON: &'static str = "Rounds won here";
pub const BEST_TIME: &'static str = "Best time here";
pub const NO_WINS_HERE: &'static str = "No rounds won here yet.";
pub const ABOUT_TITLE: &'static str = "About Barnacle";
pub const ABOUT_SUMMARY: &'static str = "Barnacle is a Discord bot for World of Warships players. Its first game asks you to name a ship from its silhouette.";
pub const SOURCE_URL: &'static str = "https://github.com/SatanshuMishra/barnacle";
pub const WARGAMING_NOTICE: &'static str = "Barnacle is an unofficial fan project. It is not affiliated with, endorsed by, or supported by Wargaming. World of Warships, its ship names and its ship silhouettes are trademarks or copyrighted works of Wargaming.";
pub const FIELD_LIMIT: usize = 1024;
pub const EMBED_DESCRIPTION_LIMIT: usize = 4096;
pub const MESSAGE_EMBEDS_LIMIT: usize = 6000;
pub const MESSAGE_CONTENT_LIMIT: usize = 2000;
pub const FORMER_MEMBER: &'static str = "Former member";
pub const ATTEND_ALL_LABEL: &'static str = "Attend all";
pub const NOPE_ALL_LABEL: &'static str = "Nope all";
pub const NO_ANSWERS_YET: &'static str = "No one has answered yet.";
pub const SIGNUPS_CLOSE_AT_START: &'static str = "Sign-ups close when the night starts.";
pub const SIGNUPS_CLOSED: &'static str = "Sign-ups closed";
pub const SEASON_GONE: &'static str = "This season no longer exists.";
pub const NO_SEASON_HERE: &'static str = "No CB season is set up here.";
pub const ROSTER_HEADER: &'static str = "1    2    3    4    ";
pub const CLEAR_FAILED_MOVE: &'static str = "Some sign-up posts could not be removed from the old channel, so nothing moved. Check that the bot can manage messages there, then run this again.";
pub const CLEAR_FAILED_END: &'static str = "Some sign-up posts could not be removed, so the season is still running. Check that the bot can manage messages in its channel, then run this again.";
pub const FAILURES_LOGGED: &'static str = "Barnacle's log records the reason for each.";
pub const CLEAR_FAILED_EDIT: &'static str = "Some sign-up posts outside the new dates could not be cleared; run this again to retry.";
pub const REFRESH_FAILED: &'static str = "Its sign-up post could not be updated; run this again once Barnacle can edit it.";
pub const RESET_BLOCKED_HEAD: &'static str = "Some sign-up posts could not be removed, so no season or answer was deleted.";
pub const RESET_BLOCKED_TAIL: &'static str = "Check that the bot can manage messages here, then run this again.";
pub const MENTION_PERMISSION: &'static str = "Mention @everyone, @here, and All Roles";
pub const MENTIONABLE_SETTING: &'static str = "Allow anyone to @mention this role";
pub const NOTHING_AHEAD: &'static str = "Nothing further will post.";
pub const NOTHING_HAPPENED: &'static str = "Nothing happened.";
pub const NOTHING_TO_CLEAR: &'static str = "Nothing was there to clear.";

/// A leaderboard shows at most this many characters of a player's name.
pub const NAME_LIMIT: usize = 32;

/// Room kept at the end of a season list for the line that counts the hidden seasons.
pub const SEASON_LIST_TAIL: usize = 32;

// ---------------------------------------------------------------------------
// Ships.

/// The Roman numeral of a tier.
pub open spec fn numeral(tier: int) -> Seq<char> {
    if tier == 1 {
        "I"@
    } else if tier == 2 {
        "II"@
    } else if tier == 3 {
        "III"@
    } else if tier == 4 {
        "IV"@
    } else if tier == 5 {
        "V"@
    } else if tier == 6 {
        "VI"@
    } else if tier == 7 {
        "VII"@
    } else if tier == 8 {
        "VIII"@
    } else if tier == 9 {
        "IX"@
    } else if tier == 10 {
        "X"@
    } else {
        "XI"@
    }
}

pub fn tier_numeral(tier: Tier) -> (text: &'static str)
    ensures
        text@ == numeral(tier.value()),
{
    let value = tier.get();
    if value == 1 {
        "I"
    } else if value == 2 {
        "II"
    } else if value == 3 {
        "III"
    } else if value == 4 {
        "IV"
    } else if value == 5 {
        "V"
    } else if value == 6 {
        "VI"
    } else if value == 7 {
        "VII"
    } else if value == 8 {
        "VIII"
    } else if value == 9 {
        "IX"
    } else if value == 10 {
        "X"
    } else {
        "XI"
    }
}

pub open spec fn tier_range_text(options: RoundOptions) -> Seq<char> {
    if options.low().value() != options.high().value() {
        numeral(options.low().value()) + "-"@ + numeral(options.high().value())
    } else {
        numeral(options.low().value())
    }
}

/// The tiers a round draws from: `VIII`, or `V-X`.
pub fn tier_range(options: &RoundOptions) -> (text: String)
    ensures
        text@ == tier_range_text(*options),
{
    let mut text = String::from_str(tier_numeral(options.min_tier()));
    if options.spans_several_tiers() {
        text.append("-");
        text.append(tier_numeral(options.max_tier()));
    }
    text
}

pub open spec fn class_text(class: ShipClass) -> Seq<char> {
    match class {
        ShipClass::Destroyer => "destroyer"@,
        ShipClass::Cruiser => "cruiser"@,
        ShipClass::Battleship => "battleship"@,
        ShipClass::AircraftCarrier => "aircraft carrier"@,
        ShipClass::Submarine => "submarine"@,
        ShipClass::Other(name) => name@,
        ShipClass::Unspecified => "unknown class"@,
    }
}

pub fn class_label(class: &ShipClass) -> (text: String)
    ensures
        text@ == class_text(*class),
{
    match class {
        ShipClass::Destroyer => String::from_str("destroyer"),
        ShipClass::Cruiser => String::from_str("cruiser"),
        ShipClass::Battleship => String::from_str("battleship"),
        ShipClass::AircraftCarrier => String::from_str("aircraft carrier"),
        ShipClass::Submarine => String::from_str("submarine"),
        ShipClass::Other(name) => name.clone(),
        ShipClass::Unspecified => String::from_str("unknown class"),
    }
}

/// A nation's catalog name with each underscore read as a space.
pub open spec fn spaced(text: Seq<char>) -> Seq<char> {
    Seq::new(text.len(), |i: int| if text[i] == '_' { ' ' } else { text[i] })
}

pub open spec fn nation_text(nation: Seq<char>) -> Seq<char> {
    if nation == "USA"@ {
        "U.S.A."@
    } else if nation == "United_Kingdom"@ {
        "U.K."@
    } else if nation == "Russia"@ {
        "U.S.S.R."@
    } else if nation == "Pan_Asia"@ {
        "Pan-Asia"@
    } else if nation == "Pan_America"@ {
        "Pan-America"@
    } else if nation == "Events"@ {
        "Event"@
    } else {
        spaced(nation)
    }
}

fn spaced_copy(text: &str) -> (copy: String)
    ensures
        copy@ == spaced(text@),
{
    let chars = chars_of(text);
    let mut copy = String::new();
    let mut index: usize = 0;
    while index < chars.len()
        invariant
            chars@ == text@,
            index <= chars.len(),
            copy@.len() == index,
            forall|j: int|
                0 <= j < index ==> copy@[j] == (if chars@[j] == '_' {
                    ' '
                } else {
                    chars@[j]
                }),
        decreases chars.len() - index,
    {
        let c = chars[index];
        if c == '_' {
            push_char(&mut copy, ' ');
        } else {
            push_char(&mut copy, c);
        }
        index = index + 1;
    }
    assert(copy@ =~= spaced(text@));
    copy
}

/// How a nation's catalog name reads to players.
pub fn nation_label(nation: &str) -> (text: String)
    ensures
        text@ == nation_text(nation@),
{
    if same_text(nation, "USA") {
        String::from_str("U.S.A.")
    } else if same_text(nation, "United_Kingdom") {
        String::from_str("U.K.")
    } else if same_text(nation, "Russia") {
        String::from_str("U.S.S.R.")
    } else if same_text(nation, "Pan_Asia") {
        String::from_str("Pan-Asia")
    } else if same_text(nation, "Pan_America") {
        String::from_str("Pan-America")
    } else if same_text(nation, "Events") {
        String::from_str("Event")
    } else {
        spaced_copy(nation)
    }
}

/// A duration in milliseconds as seconds with three decimals: `12.034 s`.
pub open spec fn seconds_text(ms: nat) -> Seq<char> {
    let fraction = ms % 1000;
    digits(ms / 1000) + seq!['.', digit((fraction / 100) as int), digit((fraction / 10 % 10) as int), digit((fraction % 10) as int)]
        + " s"@
}

pub fn seconds(elapsed_ms: u64) -> (text: String)
    ensures
        text@ == seconds_text(elapsed_ms as nat),
{
    let mut text = String::new();
    push_nat(&mut text, elapsed_ms / 1000);
    let fraction = elapsed_ms % 1000;
    push_char(&mut text, '.');
    push_char(&mut text, digit_char(fraction / 100));
    push_char(&mut text, digit_char(fraction / 10 % 10));
    push_char(&mut text, digit_char(fraction % 10));
    text.append(" s");
    text
}

/// The characters Discord reads as markdown.
pub open spec fn markdown(c: char) -> bool {
    c == '\\' || c == '*' || c == '_' || c == '~' || c == '`' || c == '|' || c == '['
}

pub open spec fn escaped_char(c: char) -> Seq<char> {
    if markdown(c) {
        seq!['\\', c]
    } else {
        seq![c]
    }
}

/// The text with a backslash before each markdown character.
pub open spec fn escaped(text: Seq<char>) -> Seq<char>
    decreases text.len(),
{
    if text.len() == 0 {
        Seq::empty()
    } else {
        escaped(text.drop_last()) + escaped_char(text.last())
    }
}

pub fn escape(text: &str) -> (escaped_text: String)
    ensures
        escaped_text@ == escaped(text@),
{
    let chars = chars_of(text);
    let mut escaped_text = String::new();
    let mut index: usize = 0;
    while index < chars.len()
        invariant
            chars@ == text@,
            index <= chars.len(),
            escaped_text@ == escaped(chars@.take(index as int)),
        decreases chars.len() - index,
    {
        assert(chars@.take(index + 1).drop_last() == chars@.take(index as int));
        let c = chars[index];
        if c == '\\' || c == '*' || c == '_' || c == '~' || c == '`' || c == '|' || c == '[' {
            push_char(&mut escaped_text, '\\');
        }
        push_char(&mut escaped_text, c);
        index = index + 1;
    }
    assert(chars@.take(chars.len() as int) == chars@);
    escaped_text
}

pub open spec fn round_footer_text(timing: Timing) -> Seq<char> {
    "Hint in "@ + digits(timing.before_hint_ms as nat / 1000) + " seconds"@
}

pub fn round_footer(timing: Timing) -> (text: String)
    ensures
        text@ == round_footer_text(timing),
{
    let mut text = String::from_str("Hint in ");
    push_nat(&mut text, timing.before_hint_ms / 1000);
    text.append(" seconds");
    text
}

pub open spec fn ship_line_text(reveal: Reveal) -> Seq<char> {
    "**"@ + escaped(reveal.name@) + "**, tier "@ + numeral(reveal.tier.value()) + " "@ + class_text(
        reveal.class,
    ) + ", "@ + nation_text(reveal.nation@)
}

/// `**Name**, tier X battleship, Germany`.
pub fn ship_line(reveal: &Reveal) -> (text: String)
    ensures
        text@ == ship_line_text(*reveal),
{
    let mut text = String::from_str("**");
    let name = escape(reveal.name.as_str());
    text.append(name.as_str());
    text.append("**, tier ");
    text.append(tier_numeral(reveal.tier));
    text.append(" ");
    let class = class_label(&reveal.class);
    text.append(class.as_str());
    text.append(", ");
    let nation = nation_label(reveal.nation.as_str());
    text.append(nation.as_str());
    text
}

/// The text with a full stop at its end, unless it already has one.
pub open spec fn sentence_text(text: Seq<char>) -> Seq<char> {
    if text.len() > 0 && text.last() == '.' {
        text
    } else {
        text + "."@
    }
}

fn sentence(text: &str) -> (finished: String)
    ensures
        finished@ == sentence_text(text@),
{
    let mut finished = String::from_str(text);
    if !ends_with_char(text, '.') {
        finished.append(".");
    }
    finished
}

pub open spec fn hint_text(hint: Hint) -> Seq<char> {
    match hint {
        Hint::Tier(tier) => sentence_text("Hint: it's tier "@ + numeral(tier.value())),
        Hint::Nation(nation) => sentence_text("Hint: it's from "@ + nation_text(nation@)),
    }
}

pub fn hint(given: &Hint) -> (text: String)
    ensures
        text@ == hint_text(*given),
{
    match given {
        Hint::Tier(tier) => {
            let mut line = String::from_str("Hint: it's tier ");
            line.append(tier_numeral(*tier));
            sentence(line.as_str())
        },
        Hint::Nation(nation) => {
            let mut line = String::from_str("Hint: it's from ");
            let label = nation_label(nation.as_str());
            line.append(label.as_str());
            sentence(line.as_str())
        },
    }
}

pub open spec fn win_text(reveal: Reveal, elapsed_ms: nat, personal_best: Option<bool>) -> Seq<
    char,
> {
    let result = sentence_text("Correct: "@ + ship_line_text(reveal)) + " Solved in "@ + seconds_text(
        elapsed_ms,
    ) + "."@;
    if personal_best == Some(true) {
        result + " New personal best."@
    } else {
        result
    }
}

/// What the channel reads when a player names the ship.
pub fn win(reveal: &Reveal, elapsed_ms: u64, personal_best: Option<bool>) -> (text: String)
    ensures
        text@ == win_text(*reveal, elapsed_ms as nat, personal_best),
{
    let mut correct = String::from_str("Correct: ");
    let line = ship_line(reveal);
    correct.append(line.as_str());
    let mut text = sentence(correct.as_str());
    text.append(" Solved in ");
    let time = seconds(elapsed_ms);
    text.append(time.as_str());
    text.append(".");
    if personal_best == Some(true) {
        text.append(" New personal best.");
    }
    text
}

pub open spec fn timed_out_text(reveal: Reveal) -> Seq<char> {
    "Nobody named it. "@ + sentence_text("It was "@ + ship_line_text(reveal))
}

fn it_was(reveal: &Reveal) -> (text: String)
    ensures
        text@ == sentence_text("It was "@ + ship_line_text(*reveal)),
{
    let mut it_was = String::from_str("It was ");
    let line = ship_line(reveal);
    it_was.append(line.as_str());
    sentence(it_was.as_str())
}

/// What the channel reads when nobody names the ship in time.
pub fn timed_out(reveal: &Reveal) -> (text: String)
    ensures
        text@ == timed_out_text(*reveal),
{
    let mut text = String::from_str("Nobody named it. ");
    let rest = it_was(reveal);
    text.append(rest.as_str());
    text
}

pub open spec fn cancelled_text(by: UserId, reveal: Reveal) -> Seq<char> {
    "<@"@ + digits(by@ as nat) + "> ended the round. "@ + sentence_text(
        "It was "@ + ship_line_text(reveal),
    )
}

/// What the channel reads when a player ends the round.
pub fn cancelled(by: UserId, reveal: &Reveal) -> (text: String)
    ensures
        text@ == cancelled_text(by, *reveal),
{
    let mut text = String::from_str("<@");
    push_nat(&mut text, by.get());
    text.append("> ended the round. ");
    let rest = it_was(reveal);
    text.append(rest.as_str());
    text
}

// ---------------------------------------------------------------------------
// Refusals.

/// Why a command was refused before it did anything.
#[derive(Debug, Clone, PartialEq, Eq)]
pub enum Refusal {
    WrongChannelType,
    MissingBotPermissions { names: Vec<&'static str>, channel: Option<ChannelId> },
    DateFormat,
    LastDayBeforeFirst,
    DatesTooFar,
    NoNightsLeft,
    SeasonNumberTaken(u32),
    SeasonOverlaps(Season),
    SeasonNotFound(u32),
    SeasonAlreadyHere(u32),
    NothingToChange,
    CodenameBothWays,
    PingBothWays,
    RehearsalOnly,
    NothingPending,
    RoundAlreadyRunning,
    EmptyPool(RoundOptions),
    NoShipMatches,
    NameEmpty,
    NameTooLong { limit: usize },
    NotAHub,
    CategoryAndTopLevel,
    HubNothingToChange,
    PingBlockedByChannel { ping: Ping, channel: ChannelId },
    PingMixesEveryone,
    RepostNothingToPing(u32),
    RepostPingNotAllowed,
    NothingToRepost { number: u32, next_post_at: Option<i64>, nights_left: usize },
    RepostPingsChanged,
    RepostSuperseded,
}

pub open spec fn code_text(refusal: Refusal) -> Seq<char> {
    match refusal {
        Refusal::WrongChannelType => "wrong_channel_type"@,
        Refusal::MissingBotPermissions { .. } => "missing_bot_permissions"@,
        Refusal::DateFormat => "date_format"@,
        Refusal::LastDayBeforeFirst => "last_day_before_first"@,
        Refusal::DatesTooFar => "dates_too_far"@,
        Refusal::NoNightsLeft => "no_nights_left"@,
        Refusal::SeasonNumberTaken(_) => "season_number_taken"@,
        Refusal::SeasonOverlaps(_) => "season_overlaps"@,
        Refusal::SeasonNotFound(_) => "season_not_found"@,
        Refusal::SeasonAlreadyHere(_) => "season_already_here"@,
        Refusal::NothingToChange => "nothing_to_change"@,
        Refusal::CodenameBothWays => "codename_both_ways"@,
        Refusal::PingBothWays => "ping_both_ways"@,
        Refusal::RehearsalOnly => "rehearsal_only"@,
        Refusal::NothingPending => "nothing_pending"@,
        Refusal::RoundAlreadyRunning => "round_already_running"@,
        Refusal::EmptyPool(_) => "empty_pool"@,
        Refusal::NoShipMatches => "no_ship_matches"@,
        Refusal::NameEmpty => "name_empty"@,
        Refusal::NameTooLong { .. } => "name_too_long"@,
        Refusal::NotAHub => "not_a_hub"@,
        Refusal::CategoryAndTopLevel => "category_and_top_level"@,
        Refusal::HubNothingToChange => "hub_nothing_to_change"@,
        Refusal::PingBlockedByChannel { .. } => "ping_blocked_by_channel"@,
        Refusal::PingMixesEveryone => "ping_mixes_everyone"@,
        Refusal::RepostNothingToPing(_) => "repost_nothing_to_ping"@,
        Refusal::RepostPingNotAllowed => "repost_ping_not_allowed"@,
        Refusal::NothingToRepost { .. } => "nothing_to_repost"@,
        Refusal::RepostPingsChanged => "repost_pings_changed"@,
        Refusal::RepostSuperseded => "repost_superseded"@,
    }
}

pub open spec fn missing_bot_permissions_text(
    names: Seq<Seq<char>>,
    channel: Option<ChannelId>,
) -> Seq<char> {
    let place = match channel {
        Some(channel) => channel_mention(channel),
        None => "this channel"@,
    };
    let whose = match channel {
        Some(_) => "that"@,
        None => "this"@,
    };
    "Barnacle needs "@ + names_text(names) + " in "@ + place + ". A server admin can grant "@
        + them_text(names.len() as int) + " to Barnacle's role or in "@ + whose
        + " channel's permissions, then run the command again."@
}

fn missing_bot_permissions(names: &Vec<&'static str>, channel: Option<ChannelId>) -> (text: String)
    ensures
        text@ == missing_bot_permissions_text(str_texts(names@), channel),
{
    let mut text = String::from_str("Barnacle needs ");
    let listed = join_names(names.as_slice());
    text.append(listed.as_str());
    text.append(" in ");
    match channel {
        Some(channel) => push_channel(&mut text, channel),
        None => text.append("this channel"),
    }
    text.append(". A server admin can grant ");
    if names.len() == 1 {
        text.append("it");
    } else {
        text.append("them");
    }
    text.append(" to Barnacle's role or in ");
    match channel {
        Some(_) => text.append("that"),
        None => text.append("this"),
    }
    text.append(" channel's permissions, then run the command again.");
    text
}

pub open spec fn ping_mention_text(ping: Ping) -> Seq<char> {
    match ping {
        Ping::Everyone => "@everyone"@,
        Ping::Role(role) => "<@&"@ + digits(role@ as nat) + ">"@,
    }
}

fn ping_mention(ping: Ping) -> (text: String)
    ensures
        text@ == ping_mention_text(ping),
{
    match ping {
        Ping::Everyone => String::from_str("@everyone"),
        Ping::Role(role) => {
            let mut text = String::from_str("<@&");
            push_nat(&mut text, role.get());
            text.append(">");
            text
        },
    }
}

/// The mentions of a sign-up post's pings, in order, separated by spaces.
pub open spec fn ping_content_text(pings: Seq<Ping>) -> Seq<char> {
    joined(pings.map_values(|ping: Ping| ping_mention_text(ping)), " "@)
}

/// The text of a sign-up post: its pings' mentions, which sound only where the post's allowed
/// mentions let them.
pub fn ping_content(pings: &[Ping]) -> (text: String)
    ensures
        text@ == ping_content_text(pings@),
{
    let mut mentions: Vec<String> = Vec::new();
    let mut index: usize = 0;
    while index < pings.len()
        invariant
            index <= pings.len(),
            texts(mentions@) == pings@.take(index as int).map_values(
                |ping: Ping| ping_mention_text(ping),
            ),
        decreases pings.len() - index,
    {
        let mention = ping_mention(pings[index]);
        let ghost before = mentions@;
        assert(texts(before).len() == before.len());
        assert(pings@.take(index as int).map_values(|ping: Ping| ping_mention_text(ping)).len()
            == index);
        mentions.push(mention);
        assert forall|i: int| 0 <= i < index + 1 implies #[trigger] texts(mentions@)[i]
            == pings@.take(index + 1).map_values(|ping: Ping| ping_mention_text(ping))[i] by {
            if i < index {
                assert(mentions@[i] == before[i]);
                assert(texts(before)[i] == before[i]@);
            }
        }
        assert(texts(mentions@) =~= pings@.take(index + 1).map_values(
            |ping: Ping| ping_mention_text(ping),
        ));
        index = index + 1;
    }
    assert(pings@.take(pings.len() as int) == pings@);
    join(mentions.as_slice(), " ")
}

pub open spec fn mentionable_alternative_text(ping: Ping) -> Seq<char> {
    match ping {
        Ping::Everyone => Seq::empty(),
        Ping::Role(_) => ", or turn on the role's "@ + MENTIONABLE_SETTING@ + " setting"@,
    }
}

fn push_mentionable_alternative(text: &mut String, ping: Ping)
    ensures
        final(text)@ == old(text)@ + mentionable_alternative_text(ping),
{
    match ping {
        Ping::Everyone => {
            assert(old(text)@ + Seq::<char>::empty() == old(text)@);
        },
        Ping::Role(_) => {
            text.append(", or turn on the role's ");
            text.append(MENTIONABLE_SETTING);
            text.append(" setting");
        },
    }
}

pub open spec fn ping_blocked_by_channel_text(ping: Ping, channel: ChannelId) -> Seq<char> {
    ping_mention_text(ping) + " would not be pinged in "@ + channel_mention(channel)
        + ": Barnacle holds "@ + MENTION_PERMISSION@
        + " in the server, but a permission override in that channel removes it. A server admin can allow "@
        + MENTION_PERMISSION@ + " for Barnacle in that channel's permissions"@
        + mentionable_alternative_text(ping) + ", then run the command again."@
}

fn ping_blocked_by_channel(ping: Ping, channel: ChannelId) -> (text: String)
    ensures
        text@ == ping_blocked_by_channel_text(ping, channel),
{
    let mut text = ping_mention(ping);
    text.append(" would not be pinged in ");
    push_channel(&mut text, channel);
    text.append(": Barnacle holds ");
    text.append(MENTION_PERMISSION);
    text.append(
        " in the server, but a permission override in that channel removes it. A server admin can allow ",
    );
    text.append(MENTION_PERMISSION);
    text.append(" for Barnacle in that channel's permissions");
    push_mentionable_alternative(&mut text, ping);
    text.append(", then run the command again.");
    text
}

pub open spec fn empty_pool_text(options: RoundOptions) -> Seq<char> {
    let tiers = if options.low().value() != options.high().value() {
        "tiers "@ + tier_range_text(options)
    } else {
        "tier "@ + tier_range_text(options)
    };
    if options.paper_excluded() {
        "No ships fit "@ + tiers
            + " with paper ships excluded. Try a wider range with min_tier and max_tier, or leave historical off."@
    } else {
        "No ships fit "@ + tiers + ". Try a wider range with min_tier and max_tier."@
    }
}

fn empty_pool(options: &RoundOptions) -> (text: String)
    ensures
        text@ == empty_pool_text(*options),
{
    let mut text = String::from_str("No ships fit ");
    if options.spans_several_tiers() {
        text.append("tiers ");
    } else {
        text.append("tier ");
    }
    let range = tier_range(options);
    text.append(range.as_str());
    if options.historical() {
        text.append(
            " with paper ships excluded. Try a wider range with min_tier and max_tier, or leave historical off.",
        );
    } else {
        text.append(". Try a wider range with min_tier and max_tier.");
    }
    text
}

pub open spec fn message_text(refusal: Refusal) -> Seq<char> {
    match refusal {
        Refusal::WrongChannelType => "Sign-up posts go in a text channel. Run this in a text channel."@,
        Refusal::MissingBotPermissions { names, channel } => missing_bot_permissions_text(
            str_texts(names@),
            channel,
        ),
        Refusal::DateFormat => "Dates look like 2026-09-16. Run the command again with the dates written that way."@,
        Refusal::LastDayBeforeFirst => "The last day is before the first day. Give a last day on or after the first day."@,
        Refusal::DatesTooFar => "A season has to sit within six months either side of today. Pick dates closer to today."@,
        Refusal::NoNightsLeft => "That range has no CB nights left. Pick dates with a CB night still ahead."@,
        Refusal::SeasonNumberTaken(number) => "Season "@ + digits(number as nat)
            + " already exists. Use another number, or end that season first with /cb season end."@,
        Refusal::SeasonOverlaps(other) => "That range overlaps Season "@ + digits(other.number as nat)
            + " ("@ + date_text(other.range.first().parts()) + " to "@ + date_text(
            other.range.last().parts(),
        )
            + "). Pick dates outside it, or change that season's dates with /cb season edit."@,
        Refusal::SeasonNotFound(number) => "No Season "@ + digits(number as nat)
            + " is set up here. /cb season show lists the seasons that are."@,
        Refusal::SeasonAlreadyHere(number) => "Season "@ + digits(number as nat)
            + " already posts in this channel. To move it, run this in the channel it should post in."@,
        Refusal::NothingToChange => "Nothing to change. Give a new_number, first_day, last_day, codename or ping_role, or use clear_codename or clear_ping_role."@,
        Refusal::CodenameBothWays => "Pass a codename or clear it, not both."@,
        Refusal::PingBothWays => "Pass a ping role or clear it, not both."@,
        Refusal::RehearsalOnly => "This server is not set up for rehearsals. Whoever runs Barnacle can list it under [rehearsal] in barnacle.toml, then restart Barnacle."@,
        Refusal::NothingPending => "Nothing is waiting to happen in this rehearsal. /rehearse start sets up another rehearsal season."@,
        Refusal::RoundAlreadyRunning => "This channel already has a round running. Name the ship or wait for the round to end, then start another."@,
        Refusal::EmptyPool(options) => empty_pool_text(options),
        Refusal::NoShipMatches => "No ship matches that. Pick one of the names suggested as you type."@,
        Refusal::NameEmpty => "A name needs at least one character that is not a space. Run the command again with a name."@,
        Refusal::NameTooLong { limit } => name_too_long_text(limit as nat) + " Give a shorter one."@,
        Refusal::NotAHub => "That channel is not a Join to Create channel in this server. `/voice hub list` shows the ones that are."@,
        Refusal::CategoryAndTopLevel => "Pick a category or top_level, not both."@,
        Refusal::HubNothingToChange => "Nothing to change. Give a new name, room_name, category or top_level."@,
        Refusal::PingBlockedByChannel { ping, channel } => ping_blocked_by_channel_text(
            ping,
            channel,
        ),
        Refusal::PingMixesEveryone => "@everyone already reaches every member. Pick it on its own, without other ping roles."@,
        Refusal::RepostNothingToPing(number) => "Season "@ + digits(number as nat)
            + " has no ping role, so ping_again has nobody to ping. Repost without ping_again, or give it a ping role with /cb season edit."@,
        Refusal::RepostPingNotAllowed => "You could not ping this season's roles yourself, so Barnacle will not ping them for you. You need "@
            + MENTION_PERMISSION@ + " in the season's channel, or every role needs "@
            + MENTIONABLE_SETTING@ + " turned on."@,
        Refusal::NothingToRepost { number, next_post_at, nights_left } => "Season "@ + digits(
            number as nat,
        ) + " has no sign-up post open for answers. "@ + next_post_text(
            nights_left as nat,
            next_post_at,
        ),
        Refusal::RepostPingsChanged => "The season's ping roles changed while this ran. Run the repost again."@,
        Refusal::RepostSuperseded => "Another repost of that sign-up post finished first, so this one was dropped."@,
    }
}

fn season_numbered(before: &str, number: u32, after: &str) -> (text: String)
    ensures
        text@ == before@ + digits(number as nat) + after@,
{
    let mut text = String::from_str(before);
    push_nat(&mut text, number as u64);
    text.append(after);
    text
}

fn season_overlaps(other: &Season) -> (text: String)
    ensures
        text@ == message_text(Refusal::SeasonOverlaps(*other)),
{
    let mut text = String::from_str("That range overlaps Season ");
    push_nat(&mut text, other.number as u64);
    text.append(" (");
    let first = day_label(other.range.first_day());
    text.append(first.as_str());
    text.append(" to ");
    let last = day_label(other.range.last_day());
    text.append(last.as_str());
    text.append("). Pick dates outside it, or change that season's dates with /cb season edit.");
    text
}

impl Refusal {
    /// The refusal's name in the log.
    pub fn code(&self) -> (code: &'static str)
        ensures
            code@ == code_text(*self),
    {
        match self {
            Refusal::WrongChannelType => "wrong_channel_type",
            Refusal::MissingBotPermissions { .. } => "missing_bot_permissions",
            Refusal::DateFormat => "date_format",
            Refusal::LastDayBeforeFirst => "last_day_before_first",
            Refusal::DatesTooFar => "dates_too_far",
            Refusal::NoNightsLeft => "no_nights_left",
            Refusal::SeasonNumberTaken(_) => "season_number_taken",
            Refusal::SeasonOverlaps(_) => "season_overlaps",
            Refusal::SeasonNotFound(_) => "season_not_found",
            Refusal::SeasonAlreadyHere(_) => "season_already_here",
            Refusal::NothingToChange => "nothing_to_change",
            Refusal::CodenameBothWays => "codename_both_ways",
            Refusal::PingBothWays => "ping_both_ways",
            Refusal::RehearsalOnly => "rehearsal_only",
            Refusal::NothingPending => "nothing_pending",
            Refusal::RoundAlreadyRunning => "round_already_running",
            Refusal::EmptyPool(_) => "empty_pool",
            Refusal::NoShipMatches => "no_ship_matches",
            Refusal::NameEmpty => "name_empty",
            Refusal::NameTooLong { .. } => "name_too_long",
            Refusal::NotAHub => "not_a_hub",
            Refusal::CategoryAndTopLevel => "category_and_top_level",
            Refusal::HubNothingToChange => "hub_nothing_to_change",
            Refusal::PingBlockedByChannel { .. } => "ping_blocked_by_channel",
            Refusal::PingMixesEveryone => "ping_mixes_everyone",
            Refusal::RepostNothingToPing(_) => "repost_nothing_to_ping",
            Refusal::RepostPingNotAllowed => "repost_ping_not_allowed",
            Refusal::NothingToRepost { .. } => "nothing_to_repost",
            Refusal::RepostPingsChanged => "repost_pings_changed",
            Refusal::RepostSuperseded => "repost_superseded",
        }
    }

    /// What the player reads: what went wrong and what to do instead.
    pub fn message(&self) -> (text: String)
        ensures
            text@ == message_text(*self),
    {
        match self {
            Refusal::WrongChannelType => String::from_str(
                "Sign-up posts go in a text channel. Run this in a text channel.",
            ),
            Refusal::MissingBotPermissions { names, channel } => missing_bot_permissions(
                names,
                *channel,
            ),
            Refusal::DateFormat => String::from_str(
                "Dates look like 2026-09-16. Run the command again with the dates written that way.",
            ),
            Refusal::LastDayBeforeFirst => String::from_str(
                "The last day is before the first day. Give a last day on or after the first day.",
            ),
            Refusal::DatesTooFar => String::from_str(
                "A season has to sit within six months either side of today. Pick dates closer to today.",
            ),
            Refusal::NoNightsLeft => String::from_str(
                "That range has no CB nights left. Pick dates with a CB night still ahead.",
            ),
            Refusal::SeasonNumberTaken(number) => season_numbered(
                "Season ",
                *number,
                " already exists. Use another number, or end that season first with /cb season end.",
            ),
            Refusal::SeasonOverlaps(other) => season_overlaps(other),
            Refusal::SeasonNotFound(number) => season_numbered(
                "No Season ",
                *number,
                " is set up here. /cb season show lists the seasons that are.",
            ),
            Refusal::SeasonAlreadyHere(number) => season_numbered(
                "Season ",
                *number,
                " already posts in this channel. To move it, run this in the channel it should post in.",
            ),
            Refusal::NothingToChange => String::from_str(
                "Nothing to change. Give a new_number, first_day, last_day, codename or ping_role, or use clear_codename or clear_ping_role.",
            ),
            Refusal::CodenameBothWays => String::from_str("Pass a codename or clear it, not both."),
            Refusal::PingBothWays => String::from_str("Pass a ping role or clear it, not both."),
            Refusal::RehearsalOnly => String::from_str(
                "This server is not set up for rehearsals. Whoever runs Barnacle can list it under [rehearsal] in barnacle.toml, then restart Barnacle.",
            ),
            Refusal::NothingPending => String::from_str(
                "Nothing is waiting to happen in this rehearsal. /rehearse start sets up another rehearsal season.",
            ),
            Refusal::RoundAlreadyRunning => String::from_str(
                "This channel already has a round running. Name the ship or wait for the round to end, then start another.",
            ),
            Refusal::EmptyPool(options) => empty_pool(options),
            Refusal::NoShipMatches => String::from_str(
                "No ship matches that. Pick one of the names suggested as you type.",
            ),
            Refusal::NameEmpty => String::from_str(
                "A name needs at least one character that is not a space. Run the command again with a name.",
            ),
            Refusal::NameTooLong { limit } => {
                let mut text = name_too_long(*limit);
                text.append(" Give a shorter one.");
                text
            },
            Refusal::NotAHub => String::from_str(
                "That channel is not a Join to Create channel in this server. `/voice hub list` shows the ones that are.",
            ),
            Refusal::CategoryAndTopLevel => String::from_str(
                "Pick a category or top_level, not both.",
            ),
            Refusal::HubNothingToChange => String::from_str(
                "Nothing to change. Give a new name, room_name, category or top_level.",
            ),
            Refusal::PingBlockedByChannel { ping, channel } => ping_blocked_by_channel(
                *ping,
                *channel,
            ),
            Refusal::PingMixesEveryone => String::from_str(
                "@everyone already reaches every member. Pick it on its own, without other ping roles.",
            ),
            Refusal::RepostNothingToPing(number) => season_numbered(
                "Season ",
                *number,
                " has no ping role, so ping_again has nobody to ping. Repost without ping_again, or give it a ping role with /cb season edit.",
            ),
            Refusal::RepostPingNotAllowed => {
                let mut text = String::from_str(
                    "You could not ping this season's roles yourself, so Barnacle will not ping them for you. You need ",
                );
                text.append(MENTION_PERMISSION);
                text.append(" in the season's channel, or every role needs ");
                text.append(MENTIONABLE_SETTING);
                text.append(" turned on.");
                text
            },
            Refusal::NothingToRepost { number, next_post_at, nights_left } => {
                let mut text = season_numbered(
                    "Season ",
                    *number,
                    " has no sign-up post open for answers. ",
                );
                let next = next_post(*nights_left, *next_post_at);
                text.append(next.as_str());
                text
            },
            Refusal::RepostPingsChanged => String::from_str(
                "The season's ping roles changed while this ran. Run the repost again.",
            ),
            Refusal::RepostSuperseded => String::from_str(
                "Another repost of that sign-up post finished first, so this one was dropped.",
            ),
        }
    }
}

// ---------------------------------------------------------------------------
// Replies and the leaderboard.

pub open spec fn failures_noted_text(reply: Seq<char>, failures: nat) -> Seq<char> {
    if failures == 0 {
        reply
    } else {
        reply + " "@ + FAILURES_LOGGED@
    }
}

/// The reply, with a pointer to the log when some of the work failed.
pub fn failures_noted(reply: &str, failures: usize) -> (text: String)
    ensures
        text@ == failures_noted_text(reply@, failures as nat),
{
    let mut text = String::from_str(reply);
    if failures != 0 {
        text.append(" ");
        text.append(FAILURES_LOGGED);
    }
    text
}

pub open spec fn best_time_text(best_ms: Option<u64>) -> Seq<char> {
    match best_ms {
        Some(ms) => seconds_text(ms as nat),
        None => NO_WINS_HERE@,
    }
}

pub fn best_time(best_ms: Option<u64>) -> (text: String)
    ensures
        text@ == best_time_text(best_ms),
{
    match best_ms {
        Some(ms) => seconds(ms),
        None => String::from_str(NO_WINS_HERE),
    }
}

pub open spec fn leaderboard_title_text(ranking: Ranking) -> Seq<char> {
    match ranking {
        Ranking::MostWins => "Most wins in this server"@,
        Ranking::FastestTime => "Fastest times in this server"@,
    }
}

pub fn leaderboard_title(ranking: Ranking) -> (title: &'static str)
    ensures
        title@ == leaderboard_title_text(ranking),
{
    match ranking {
        Ranking::MostWins => "Most wins in this server",
        Ranking::FastestTime => "Fastest times in this server",
    }
}

/// The first `count` characters of a text, or all of it when it is shorter.
pub open spec fn prefix(text: Seq<char>, count: int) -> Seq<char> {
    text.take(if count < text.len() {
        count
    } else {
        text.len() as int
    })
}

pub open spec fn wins_text(wins: nat) -> Seq<char> {
    if wins == 1 {
        "1 win"@
    } else {
        digits(wins) + " wins"@
    }
}

pub open spec fn standing_line_text(rank: nat, name: Seq<char>, standing: Standing) -> Seq<char> {
    "**"@ + digits(rank) + ".** "@ + escaped(prefix(name, NAME_LIMIT as int)) + " · "@ + wins_text(
        standing.wins as nat,
    ) + " · best "@ + seconds_text(standing.best_ms as nat)
}

/// One leaderboard line: rank, name cut to its limit, wins and best time.
pub fn standing_line(rank: usize, name: &str, standing: &Standing) -> (text: String)
    ensures
        text@ == standing_line_text(rank as nat, name@, *standing),
{
    let short = first_chars(name, NAME_LIMIT);
    let mut text = String::from_str("**");
    push_nat(&mut text, rank as u64);
    text.append(".** ");
    let shown = escape(short.as_str());
    text.append(shown.as_str());
    text.append(" · ");
    if standing.wins == 1 {
        text.append("1 win");
    } else {
        push_nat(&mut text, standing.wins);
        text.append(" wins");
    }
    text.append(" · best ");
    let best = seconds(standing.best_ms);
    text.append(best.as_str());
    text
}

/// The lines gathered into pages: each line joins the last page, on a line of its own, when
/// the page stays within an embed's description limit, and starts a new page otherwise.
pub open spec fn pages_of(lines: Seq<Seq<char>>) -> Seq<Seq<char>>
    decreases lines.len(),
{
    if lines.len() == 0 {
        Seq::empty()
    } else {
        let pages = pages_of(lines.drop_last());
        let line = lines.last();
        if pages.len() > 0 && utf16_length(pages.last()) + 1 + utf16_length(line)
            <= EMBED_DESCRIPTION_LIMIT {
            pages.drop_last().push(pages.last() + "\n"@ + line)
        } else {
            pages.push(line)
        }
    }
}

pub fn leaderboard_pages(lines: &[String]) -> (pages: Vec<String>)
    ensures
        texts(pages@) == pages_of(texts(lines@)),
{
    let ghost all = texts(lines@);
    let mut pages: Vec<String> = Vec::new();
    let mut index: usize = 0;
    while index < lines.len()
        invariant
            all == texts(lines@),
            index <= lines.len(),
            texts(pages@) == pages_of(all.take(index as int)),
        decreases lines.len() - index,
    {
        let ghost before = texts(pages@);
        assert(all.take(index + 1).drop_last() == all.take(index as int));
        assert(all.take(index + 1).last() == lines@[index as int]@);
        let line = &lines[index];
        let mut merged = false;
        if pages.len() > 0 {
            let last = pages.len() - 1;
            let last_length = discord_length(pages[last].as_str(), EMBED_DESCRIPTION_LIMIT + 1);
            let line_length = discord_length(line.as_str(), EMBED_DESCRIPTION_LIMIT + 1);
            if last_length + 1 + line_length <= EMBED_DESCRIPTION_LIMIT {
                let mut page = pages.pop().unwrap();
                page.append("\n");
                page.append(line.as_str());
                pages.push(page);
                merged = true;
                assert(texts(pages@) =~= before.drop_last().push(
                    before.last() + "\n"@ + line@,
                ));
            }
        }
        if !merged {
            pages.push(line.clone());
            assert(texts(pages@) =~= before.push(line@));
        }
        index = index + 1;
    }
    assert(all.take(lines.len() as int) == all);
    pages
}

pub open spec fn about_text(
    provenance: Provenance,
    catalog_name: Seq<char>,
    bot_version: Seq<char>,
) -> Seq<char> {
    ABOUT_SUMMARY@ + "\n\n"@ + "Ship data: World of Warships "@ + provenance.game_version@
        + " (build "@ + provenance.build@ + "), catalog "@ + catalog_name + ", data commit "@
        + prefix(provenance.data_repo_commit@, 7) + "."@ + "\n\n"@ + "Built with wowsunpack "@
        + provenance.wowsunpack@ + " and wows-data-mgr "@ + provenance.wows_data_mgr@
        + ". Barnacle "@ + bot_version + ", source at "@ + SOURCE_URL@ + "."@ + "\n\n"@
        + WARGAMING_NOTICE@
}

/// Where the ship data and the bot came from, and whose trademarks they use.
pub fn about(provenance: &Provenance, catalog_name: &str, bot_version: &str) -> (text: String)
    ensures
        text@ == about_text(*provenance, catalog_name@, bot_version@),
{
    let commit = first_chars(provenance.data_repo_commit.as_str(), 7);
    let mut text = String::from_str(ABOUT_SUMMARY);
    text.append("\n\n");
    text.append("Ship data: World of Warships ");
    text.append(provenance.game_version.as_str());
    text.append(" (build ");
    text.append(provenance.build.as_str());
    text.append("), catalog ");
    text.append(catalog_name);
    text.append(", data commit ");
    text.append(commit.as_str());
    text.append(".");
    text.append("\n\n");
    text.append("Built with wowsunpack ");
    text.append(provenance.wowsunpack.as_str());
    text.append(" and wows-data-mgr ");
    text.append(provenance.wows_data_mgr.as_str());
    text.append(". Barnacle ");
    text.append(bot_version);
    text.append(", source at ");
    text.append(SOURCE_URL);
    text.append(".");
    text.append("\n\n");
    text.append(WARGAMING_NOTICE);
    text
}

/// The list showing its first `shown` items and counting the rest.
pub open spec fn listing_candidate(items: Seq<Seq<char>>, shown: int) -> Seq<char> {
    let hidden = items.len() - shown;
    let head = joined(items.take(shown), ", "@);
    if hidden == 0 {
        head
    } else if shown == 0 {
        digits(hidden as nat) + " more"@
    } else {
        head + " and "@ + digits(hidden as nat) + " more"@
    }
}

/// The candidate with the most items shown, from `shown` down, that fits in `limit`
/// characters; empty when none does.
pub open spec fn listing_from(items: Seq<Seq<char>>, limit: int, shown: int) -> Seq<char>
    decreases shown + 1,
{
    if shown < 0 {
        Seq::empty()
    } else if listing_candidate(items, shown).len() <= limit {
        listing_candidate(items, shown)
    } else {
        listing_from(items, limit, shown - 1)
    }
}

pub open spec fn listing_text(items: Seq<Seq<char>>, limit: int) -> Seq<char> {
    if items.len() == 0 {
        "None"@
    } else {
        listing_from(items, limit, items.len() as int)
    }
}

fn candidate(items: &[String], shown: usize) -> (text: String)
    requires
        shown <= items.len(),
    ensures
        text@ == listing_candidate(texts(items@), shown as int),
{
    let mut head_items: Vec<String> = Vec::new();
    let mut index: usize = 0;
    while index < shown
        invariant
            shown <= items.len(),
            index <= shown,
            head_items@ == items@.take(index as int),
        decreases shown - index,
    {
        head_items.push(items[index].clone());
        assert(items@.take(index + 1) == items@.take(index as int).push(items@[index as int]));
        index = index + 1;
    }
    assert(texts(head_items@) =~= texts(items@).take(shown as int));
    let hidden = items.len() - shown;
    if hidden == 0 {
        join(head_items.as_slice(), ", ")
    } else if shown == 0 {
        let mut text = String::new();
        push_nat(&mut text, hidden as u64);
        text.append(" more");
        text
    } else {
        let mut text = join(head_items.as_slice(), ", ");
        text.append(" and ");
        push_nat(&mut text, hidden as u64);
        text.append(" more");
        text
    }
}

/// The items joined with commas, showing as many as fit in `limit` characters and counting
/// the rest: `a, b and 3 more`.
pub fn listing(items: &[String], limit: usize) -> (text: String)
    ensures
        text@ == listing_text(texts(items@), limit as int),
{
    if items.len() == 0 {
        return String::from_str("None");
    }
    let ghost all = texts(items@);
    let mut shown: usize = items.len();
    loop
        invariant
            all == texts(items@),
            items.len() > 0,
            shown <= items.len(),
            listing_from(all, limit as int, items.len() as int) == listing_from(
                all,
                limit as int,
                shown as int,
            ),
        decreases shown,
    {
        let text = candidate(items, shown);
        if text.as_str().unicode_len() <= limit {
            return text;
        }
        if shown == 0 {
            assert(listing_from(all, limit as int, -1) == Seq::<char>::empty());
            return String::new();
        }
        shown = shown - 1;
    }
}

// ---------------------------------------------------------------------------
// Discord timestamps.

pub open spec fn clock_time_text(unix: int) -> Seq<char> {
    "<t:"@ + signed(unix) + ":t>"@
}

pub open spec fn full_time_text(unix: int) -> Seq<char> {
    "<t:"@ + signed(unix) + ":F>"@
}

pub open spec fn relative_time_text(unix: int) -> Seq<char> {
    "<t:"@ + signed(unix) + ":R>"@
}

fn push_time(text: &mut String, unix: i64, style: &str)
    ensures
        final(text)@ == old(text)@ + "<t:"@ + signed(unix as int) + style@,
{
    text.append("<t:");
    push_int(text, unix);
    text.append(style);
}

fn push_clock_time(text: &mut String, unix: i64)
    ensures
        final(text)@ == old(text)@ + clock_time_text(unix as int),
{
    push_time(text, unix, ":t>");
}

fn push_full_time(text: &mut String, unix: i64)
    ensures
        final(text)@ == old(text)@ + full_time_text(unix as int),
{
    push_time(text, unix, ":F>");
}

fn push_relative_time(text: &mut String, unix: i64)
    ensures
        final(text)@ == old(text)@ + relative_time_text(unix as int),
{
    push_time(text, unix, ":R>");
}

pub open spec fn post_time_text(at_unix: Option<i64>) -> Seq<char> {
    match at_unix {
        Some(at) => full_time_text(at as int) + " ("@ + relative_time_text(at as int) + ")"@,
        None => "within a minute"@,
    }
}

fn push_post_time(text: &mut String, at_unix: Option<i64>)
    ensures
        final(text)@ == old(text)@ + post_time_text(at_unix),
{
    match at_unix {
        Some(at) => {
            push_full_time(text, at);
            text.append(" (");
            push_relative_time(text, at);
            text.append(")");
        },
        None => text.append("within a minute"),
    }
}

// ---------------------------------------------------------------------------
// Sign-up posts.

/// A season's name: its number, and its codename when it has one.
pub open spec fn season_label_text(number: nat, codename: Option<Seq<char>>) -> Seq<char> {
    match codename {
        Some(codename) => digits(number) + ": "@ + escaped(codename),
        None => digits(number),
    }
}

pub open spec fn season_name_text(number: nat, codename: Option<Seq<char>>) -> Seq<char> {
    "Season "@ + season_label_text(number, codename)
}

pub open spec fn str_option(text: Option<&str>) -> Option<Seq<char>> {
    match text {
        Some(text) => Some(text@),
        None => None,
    }
}

pub open spec fn string_option(text: Option<String>) -> Option<Seq<char>> {
    match text {
        Some(text) => Some(text@),
        None => None,
    }
}

fn push_season_label(text: &mut String, number: u32, codename: Option<&str>)
    ensures
        final(text)@ == old(text)@ + season_label_text(number as nat, str_option(codename)),
{
    push_nat(text, number as u64);
    match codename {
        Some(codename) => {
            text.append(": ");
            let shown = escape(codename);
            text.append(shown.as_str());
        },
        None => {},
    }
}

fn push_season_name(text: &mut String, number: u32, codename: Option<&str>)
    ensures
        final(text)@ == old(text)@ + season_name_text(number as nat, str_option(codename)),
{
    text.append("Season ");
    push_season_label(text, number, codename);
}

fn codename_of(season: &Season) -> (codename: Option<&str>)
    ensures
        str_option(codename) == string_option(season.codename),
{
    match &season.codename {
        Some(codename) => Some(codename.as_str()),
        None => None,
    }
}

pub open spec fn signup_title_text(number: nat, codename: Option<Seq<char>>) -> Seq<char> {
    "Clan Battles · "@ + season_name_text(number, codename)
}

pub fn signup_title(number: u32, codename: Option<&str>) -> (title: String)
    ensures
        title@ == signup_title_text(number as nat, str_option(codename)),
{
    let mut title = String::from_str("Clan Battles · ");
    push_season_name(&mut title, number, codename);
    title
}

pub open spec fn choice_text(attending: bool) -> Seq<char> {
    if attending {
        "Attending"@
    } else {
        "Nope"@
    }
}

pub open spec fn hour_button_text(hour: Hour, attending: bool) -> Seq<char> {
    "Hour "@ + digits(hour.number() as nat) + ": "@ + choice_text(attending)
}

pub fn hour_button_label(hour: Hour, attending: bool) -> (label: String)
    ensures
        label@ == hour_button_text(hour, attending),
{
    let mut label = String::from_str("Hour ");
    push_nat(&mut label, hour.get() as u64);
    label.append(": ");
    if attending {
        label.append("Attending");
    } else {
        label.append("Nope");
    }
    label
}

pub open spec fn signups_closed_at_text(start_unix: int) -> Seq<char> {
    "Sign-ups for this night closed at "@ + clock_time_text(start_unix) + "."@
}

pub fn signups_closed_at(start_unix: i64) -> (text: String)
    ensures
        text@ == signups_closed_at_text(start_unix as int),
{
    let mut text = String::from_str("Sign-ups for this night closed at ");
    push_clock_time(&mut text, start_unix);
    text.append(".");
    text
}

// ---------------------------------------------------------------------------
// Counts and sentences.

/// `1 post` or `3 posts`.
pub open spec fn counted_text(count: nat, one: Seq<char>, many: Seq<char>) -> Seq<char> {
    if count == 1 {
        "1 "@ + one
    } else {
        digits(count) + " "@ + many
    }
}

fn push_counted(text: &mut String, count: usize, one: &str, many: &str)
    ensures
        final(text)@ == old(text)@ + counted_text(count as nat, one@, many@),
{
    if count == 1 {
        text.append("1 ");
        text.append(one);
    } else {
        push_nat(text, count as u64);
        text.append(" ");
        text.append(many);
    }
}

pub open spec fn signup_posts_text(count: nat) -> Seq<char> {
    counted_text(count, "sign-up post"@, "sign-up posts"@)
}

fn push_signup_posts(text: &mut String, count: usize)
    ensures
        final(text)@ == old(text)@ + signup_posts_text(count as nat),
{
    push_counted(text, count, "sign-up post", "sign-up posts");
}

pub open spec fn was_text(count: nat) -> Seq<char> {
    if count == 1 {
        "was"@
    } else {
        "were"@
    }
}

fn push_was(text: &mut String, count: usize)
    ensures
        final(text)@ == old(text)@ + was_text(count as nat),
{
    if count == 1 {
        text.append("was");
    } else {
        text.append("were");
    }
}

pub open spec fn cleared_verb_text(count: nat) -> Seq<char> {
    if count == 1 {
        "was cleared"@
    } else {
        "were cleared"@
    }
}

fn push_cleared_verb(text: &mut String, count: usize)
    ensures
        final(text)@ == old(text)@ + cleared_verb_text(count as nat),
{
    if count == 1 {
        text.append("was cleared");
    } else {
        text.append("were cleared");
    }
}

/// The parts that are not empty, in order.
pub open spec fn nonempty(parts: Seq<Seq<char>>) -> Seq<Seq<char>>
    decreases parts.len(),
{
    if parts.len() == 0 {
        Seq::empty()
    } else {
        let earlier = nonempty(parts.drop_last());
        if parts.last().len() > 0 {
            earlier.push(parts.last())
        } else {
            earlier
        }
    }
}

/// The parts that are not empty, joined with spaces.
pub open spec fn sentences_text(parts: Seq<Seq<char>>) -> Seq<char> {
    joined(nonempty(parts), " "@)
}

fn sentences(parts: Vec<String>) -> (text: String)
    ensures
        text@ == sentences_text(texts(parts@)),
{
    let ghost all = texts(parts@);
    let mut kept: Vec<String> = Vec::new();
    let mut index: usize = 0;
    while index < parts.len()
        invariant
            all == texts(parts@),
            index <= parts.len(),
            texts(kept@) == nonempty(all.take(index as int)),
        decreases parts.len() - index,
    {
        assert(all.take(index + 1).drop_last() == all.take(index as int));
        if parts[index].as_str().unicode_len() > 0 {
            kept.push(parts[index].clone());
            assert(texts(kept@) =~= texts(kept@.drop_last()).push(parts@[index as int]@));
        }
        index = index + 1;
    }
    assert(all.take(parts.len() as int) == all);
    join(kept.as_slice(), " ")
}

fn empty_text() -> (text: String)
    ensures
        text@ == Seq::<char>::empty(),
{
    String::new()
}

fn text_unless_zero(count: usize, text: &str) -> (shown: String)
    ensures
        shown@ == if count == 0 {
            Seq::<char>::empty()
        } else {
            text@
        },
{
    if count == 0 {
        String::new()
    } else {
        String::from_str(text)
    }
}

// ---------------------------------------------------------------------------
// Seasons.

pub open spec fn nights_text(count: nat) -> Seq<char> {
    counted_text(count, "CB night"@, "CB nights"@)
}

pub open spec fn nights_ahead_text(count: nat) -> Seq<char> {
    counted_text(count, "night"@, "nights"@)
}

pub open spec fn still_ahead_text(season: Season, nights_left: nat) -> Seq<char> {
    nights_text(season.range.night_list().len()) + ", "@ + digits(nights_left) + " still ahead."@
}

fn still_ahead(season: &Season, nights_left: usize) -> (text: String)
    ensures
        text@ == still_ahead_text(*season, nights_left as nat),
{
    let mut text = String::new();
    push_counted(&mut text, season.range.night_count(), "CB night", "CB nights");
    text.append(", ");
    push_nat(&mut text, nights_left as u64);
    text.append(" still ahead.");
    text
}

pub open spec fn manage_with_text(season: Season) -> Seq<char> {
    "Manage it with number "@ + digits(season.number as nat) + "."@
}

fn manage_with(season: &Season) -> (text: String)
    ensures
        text@ == manage_with_text(*season),
{
    let mut text = String::from_str("Manage it with number ");
    push_nat(&mut text, season.number as u64);
    text.append(".");
    text
}

pub open spec fn next_post_text(nights_left: nat, post_at_unix: Option<i64>) -> Seq<char> {
    if nights_left == 0 {
        NOTHING_AHEAD@
    } else {
        "Next sign-up post: "@ + post_time_text(post_at_unix) + "."@
    }
}

fn next_post(nights_left: usize, post_at_unix: Option<i64>) -> (text: String)
    ensures
        text@ == next_post_text(nights_left as nat, post_at_unix),
{
    if nights_left == 0 {
        String::from_str(NOTHING_AHEAD)
    } else {
        let mut text = String::from_str("Next sign-up post: ");
        push_post_time(&mut text, post_at_unix);
        text.append(".");
        text
    }
}

pub open spec fn season_started_text(season: Season, nights_left: nat, post_at_unix: Option<i64>) -> Seq<
    char,
> {
    season_name_text(season.number as nat, string_option(season.codename)) + " will post here. "@
        + nights_text(season.range.night_list().len()) + ", "@ + digits(nights_left)
        + " still ahead. First sign-up post: "@ + post_time_text(post_at_unix) + "."@
}

pub fn season_started(season: &Season, nights_left: usize, post_at_unix: Option<i64>) -> (text:
    String)
    ensures
        text@ == season_started_text(*season, nights_left as nat, post_at_unix),
{
    let mut text = String::new();
    push_season_name(&mut text, season.number, codename_of(season));
    text.append(" will post here. ");
    push_counted(&mut text, season.range.night_count(), "CB night", "CB nights");
    text.append(", ");
    push_nat(&mut text, nights_left as u64);
    text.append(" still ahead. First sign-up post: ");
    push_post_time(&mut text, post_at_unix);
    text.append(".");
    text
}

pub open spec fn reposted_text(season: Season, night: Night, adopted: bool, pinged: Seq<Ping>) -> Seq<
    char,
> {
    sentences_text(
        seq![
            season_name_text(season.number as nat, string_option(season.codename))
                + "'s sign-up post for "@ + date_text(night.day().parts())
                + " is at the bottom of its channel again."@,
            if adopted {
                "A copy left by an earlier repost was already there, so it was kept."@
            } else {
                Seq::empty()
            },
            if pinged.len() > 0 {
                "It pinged "@ + ping_content_text(pinged) + "."@
            } else {
                Seq::empty()
            },
        ],
    )
}

/// The reply to a repost: which night's post went up again, and whom it pinged.
pub fn reposted(season: &Season, night: Night, adopted: bool, pinged: &[Ping]) -> (text: String)
    ensures
        text@ == reposted_text(*season, night, adopted, pinged@),
{
    let mut first = String::new();
    push_season_name(&mut first, season.number, codename_of(season));
    first.append("'s sign-up post for ");
    let label = night.label();
    first.append(label.as_str());
    first.append(" is at the bottom of its channel again.");
    let second = if adopted {
        String::from_str("A copy left by an earlier repost was already there, so it was kept.")
    } else {
        empty_text()
    };
    let third = if pinged.len() > 0 {
        let mut text = String::from_str("It pinged ");
        let mentions = ping_content(pinged);
        text.append(mentions.as_str());
        text.append(".");
        text
    } else {
        empty_text()
    };
    let parts = vec![first, second, third];
    assert(texts(parts@) =~= seq![parts@[0]@, parts@[1]@, parts@[2]@]);
    sentences(parts)
}

pub open spec fn pings_line_text(ping: Option<Ping>) -> Seq<char> {
    match ping {
        Some(Ping::Everyone) => " Pings @everyone."@,
        Some(Ping::Role(role)) => " Pings <@&"@ + digits(role@ as nat) + ">."@,
        None => Seq::empty(),
    }
}

pub fn pings_line(ping: Option<Ping>) -> (text: String)
    ensures
        text@ == pings_line_text(ping),
{
    match ping {
        Some(Ping::Everyone) => String::from_str(" Pings @everyone."),
        Some(Ping::Role(role)) => {
            let mut text = String::from_str(" Pings <@&");
            push_nat(&mut text, role.get());
            text.append(">.");
            text
        },
        None => String::new(),
    }
}

/// Whom a season's first ping role pings, if it has one.
pub open spec fn first_ping(season: Season) -> Option<Ping> {
    if season.ping_roles@.len() > 0 {
        Some(Ping::spec_of(season.guild, season.ping_roles@[0]))
    } else {
        None
    }
}

pub open spec fn season_line_text(season: Season, nights_left: nat, post_at_unix: Option<i64>) -> Seq<
    char,
> {
    channel_mention(season.channel) + " "@ + season_name_text(
        season.number as nat,
        string_option(season.codename),
    ) + ", "@ + date_text(season.range.first().parts()) + " to "@ + date_text(
        season.range.last().parts(),
    ) + ". "@ + nights_ahead_text(nights_left) + " ahead. Next sign-up post: "@ + post_time_text(
        post_at_unix,
    ) + "."@ + pings_line_text(first_ping(season))
}

/// One season in the list of a server's seasons.
pub fn season_line(season: &Season, nights_left: usize, post_at_unix: Option<i64>) -> (text: String)
    ensures
        text@ == season_line_text(*season, nights_left as nat, post_at_unix),
{
    let mut text = String::new();
    push_channel(&mut text, season.channel);
    text.append(" ");
    push_season_name(&mut text, season.number, codename_of(season));
    text.append(", ");
    let first = day_label(season.range.first_day());
    text.append(first.as_str());
    text.append(" to ");
    let last = day_label(season.range.last_day());
    text.append(last.as_str());
    text.append(". ");
    push_counted(&mut text, nights_left, "night", "nights");
    text.append(" ahead. Next sign-up post: ");
    push_post_time(&mut text, post_at_unix);
    text.append(".");
    let ping = if season.ping_roles.len() > 0 {
        Some(Ping::of(season.guild, season.ping_roles[0]))
    } else {
        None
    };
    let pings = pings_line(ping);
    text.append(pings.as_str());
    text
}

/// How many of the lines, from `from` on, fit when `length` UTF-16 units are already taken.
pub open spec fn kept_lines(lines: Seq<Seq<char>>, from: int, length: int) -> int
    decreases lines.len() - from,
{
    if from < 0 || from >= lines.len() {
        from
    } else {
        let next = length + utf16_length(lines[from]) + if from > 0 {
            1int
        } else {
            0int
        };
        if next > MESSAGE_CONTENT_LIMIT - SEASON_LIST_TAIL {
            from
        } else {
            kept_lines(lines, from + 1, next)
        }
    }
}

/// As many lines as fit in a message, one per line, and a count of the rest.
pub open spec fn season_list_text(lines: Seq<Seq<char>>) -> Seq<char> {
    let kept = kept_lines(lines, 0, 0);
    let shown = joined(lines.take(kept), "\n"@);
    if kept == lines.len() {
        shown
    } else {
        shown + "\nand "@ + digits((lines.len() - kept) as nat) + " more."@
    }
}

pub fn season_list(lines: &[String]) -> (text: String)
    ensures
        text@ == season_list_text(texts(lines@)),
{
    let ghost all = texts(lines@);
    let room: usize = MESSAGE_CONTENT_LIMIT - SEASON_LIST_TAIL;
    let mut kept: Vec<String> = Vec::new();
    let mut length: usize = 0;
    let mut index: usize = 0;
    while index < lines.len()
        invariant_except_break
            kept_lines(all, 0, 0) == kept_lines(all, index as int, length as int),
        invariant
            all == texts(lines@),
            room == MESSAGE_CONTENT_LIMIT - SEASON_LIST_TAIL,
            index <= lines.len(),
            length <= room,
            kept@ == lines@.take(index as int),
        ensures
            kept_lines(all, 0, 0) == index,
            kept@ == lines@.take(index as int),
        decreases lines.len() - index,
    {
        let line_length = discord_length(lines[index].as_str(), room + 1);
        let separator: usize = if index > 0 {
            1
        } else {
            0
        };
        let next = length + line_length + separator;
        if next > room {
            break;
        }
        length = next;
        kept.push(lines[index].clone());
        assert(lines@.take(index + 1) == lines@.take(index as int).push(lines@[index as int]));
        index = index + 1;
    }
    assert(texts(kept@) =~= all.take(index as int));
    let mut text = join(kept.as_slice(), "\n");
    if index < lines.len() {
        text.append("\nand ");
        push_nat(&mut text, (lines.len() - index) as u64);
        text.append(" more.");
    }
    text
}

pub open spec fn season_removed_text(number: nat) -> Seq<char> {
    "Season "@ + digits(number) + " was removed. Nothing had been posted."@
}

pub fn season_removed(number: u32) -> (text: String)
    ensures
        text@ == season_removed_text(number as nat),
{
    let mut text = String::from_str("Season ");
    push_nat(&mut text, number as u64);
    text.append(" was removed. Nothing had been posted.");
    text
}

pub open spec fn season_shortened_text(number: nat, last_day: Day) -> Seq<char> {
    "Season "@ + digits(number) + " ends after "@ + date_text(last_day.parts())
        + ". No more sign-up posts."@
}

pub fn season_shortened(number: u32, last_day: Day) -> (text: String)
    ensures
        text@ == season_shortened_text(number as nat, last_day),
{
    let mut text = String::from_str("Season ");
    push_nat(&mut text, number as u64);
    text.append(" ends after ");
    let day = day_label(last_day);
    text.append(day.as_str());
    text.append(". No more sign-up posts.");
    text
}

pub open spec fn rehearsal_started_text(
    season: Season,
    nights_left: nat,
    post_at_unix: Option<i64>,
) -> Seq<char> {
    sentences_text(
        seq![
            "Rehearsing season "@ + season_label_text(
                season.number as nat,
                string_option(season.codename),
            ) + "."@,
            still_ahead_text(season, nights_left),
            next_post_text(nights_left, post_at_unix),
            manage_with_text(season),
        ],
    )
}

pub fn rehearsal_started(season: &Season, nights_left: usize, post_at_unix: Option<i64>) -> (text:
    String)
    ensures
        text@ == rehearsal_started_text(*season, nights_left as nat, post_at_unix),
{
    let mut first = String::from_str("Rehearsing season ");
    push_season_label(&mut first, season.number, codename_of(season));
    first.append(".");
    let parts = vec![
        first,
        still_ahead(season, nights_left),
        next_post(nights_left, post_at_unix),
        manage_with(season),
    ];
    proof {
        assert(texts(parts@) =~= seq![
            parts@[0]@,
            parts@[1]@,
            parts@[2]@,
            parts@[3]@,
        ]);
    }
    sentences(parts)
}

pub open spec fn cleared_outside_text(cleared: nat) -> Seq<char> {
    if cleared == 0 {
        Seq::empty()
    } else {
        signup_posts_text(cleared) + " outside the new dates "@ + cleared_verb_text(cleared) + "."@
    }
}

fn cleared_outside_the_range(cleared: usize) -> (text: String)
    ensures
        text@ == cleared_outside_text(cleared as nat),
{
    if cleared == 0 {
        return String::new();
    }
    let mut text = String::new();
    push_signup_posts(&mut text, cleared);
    text.append(" outside the new dates ");
    push_cleared_verb(&mut text, cleared);
    text.append(".");
    text
}

pub open spec fn season_edited_text(
    season: Season,
    nights_left: nat,
    post_at_unix: Option<i64>,
    cleared: nat,
) -> Seq<char> {
    sentences_text(
        seq![
            season_name_text(season.number as nat, string_option(season.codename)) + " updated."@,
            still_ahead_text(season, nights_left),
            next_post_text(nights_left, post_at_unix),
            cleared_outside_text(cleared),
            manage_with_text(season),
        ],
    )
}

pub fn season_edited(
    season: &Season,
    nights_left: usize,
    post_at_unix: Option<i64>,
    cleared: usize,
) -> (text: String)
    ensures
        text@ == season_edited_text(*season, nights_left as nat, post_at_unix, cleared as nat),
{
    let mut first = String::new();
    push_season_name(&mut first, season.number, codename_of(season));
    first.append(" updated.");
    let parts = vec![
        first,
        still_ahead(season, nights_left),
        next_post(nights_left, post_at_unix),
        cleared_outside_the_range(cleared),
        manage_with(season),
    ];
    proof {
        assert(texts(parts@) =~= seq![
            parts@[0]@,
            parts@[1]@,
            parts@[2]@,
            parts@[3]@,
            parts@[4]@,
        ]);
    }
    sentences(parts)
}

pub open spec fn season_edit_reached_text(
    edited: Seq<char>,
    cleared_failures: nat,
    refreshed_failures: nat,
) -> Seq<char> {
    failures_noted_text(
        sentences_text(
            seq![
                edited,
                if cleared_failures == 0 {
                    Seq::empty()
                } else {
                    CLEAR_FAILED_EDIT@
                },
                if refreshed_failures == 0 {
                    Seq::empty()
                } else {
                    REFRESH_FAILED@
                },
            ],
        ),
        cleared_failures + refreshed_failures,
    )
}

/// The reply to an edit, with what clearing and refreshing the season's posts could not do.
pub fn season_edit_reached(edited: &str, cleared: &PostsReport, refreshed: &PostsReport) -> (text:
    String)
    requires
        cleared.failures + refreshed.failures <= usize::MAX,
    ensures
        text@ == season_edit_reached_text(
            edited@,
            cleared.failures as nat,
            refreshed.failures as nat,
        ),
{
    let parts = vec![
        String::from_str(edited),
        text_unless_zero(cleared.failures, CLEAR_FAILED_EDIT),
        text_unless_zero(refreshed.failures, REFRESH_FAILED),
    ];
    proof {
        assert(texts(parts@) =~= seq![parts@[0]@, parts@[1]@, parts@[2]@]);
    }
    let reply = sentences(parts);
    failures_noted(reply.as_str(), cleared.failures + refreshed.failures)
}

pub open spec fn cleared_from_old_text(cleared: nat) -> Seq<char> {
    if cleared == 0 {
        Seq::empty()
    } else {
        signup_posts_text(cleared) + " "@ + cleared_verb_text(cleared) + " from the old channel."@
    }
}

fn cleared_from_the_old_channel(cleared: usize) -> (text: String)
    ensures
        text@ == cleared_from_old_text(cleared as nat),
{
    if cleared == 0 {
        return String::new();
    }
    let mut text = String::new();
    push_signup_posts(&mut text, cleared);
    text.append(" ");
    push_cleared_verb(&mut text, cleared);
    text.append(" from the old channel.");
    text
}

pub open spec fn season_moved_text(
    season: Season,
    nights_left: nat,
    cleared: nat,
    post_at_unix: Option<i64>,
) -> Seq<char> {
    sentences_text(
        seq![
            season_name_text(season.number as nat, string_option(season.codename))
                + " now posts in this channel."@,
            cleared_from_old_text(cleared),
            next_post_text(nights_left, post_at_unix),
        ],
    )
}

pub fn season_moved(
    season: &Season,
    nights_left: usize,
    cleared: usize,
    post_at_unix: Option<i64>,
) -> (text: String)
    ensures
        text@ == season_moved_text(*season, nights_left as nat, cleared as nat, post_at_unix),
{
    let mut first = String::new();
    push_season_name(&mut first, season.number, codename_of(season));
    first.append(" now posts in this channel.");
    let parts = vec![
        first,
        cleared_from_the_old_channel(cleared),
        next_post(nights_left, post_at_unix),
    ];
    proof {
        assert(texts(parts@) =~= seq![parts@[0]@, parts@[1]@, parts@[2]@]);
    }
    sentences(parts)
}

pub open spec fn season_ended_text(number: nat, cleared: nat) -> Seq<char> {
    "Season "@ + digits(number) + " has ended. "@ + if cleared == 0 {
        "The answers are kept."@
    } else {
        signup_posts_text(cleared) + " "@ + cleared_verb_text(cleared)
            + ", and the answers are kept."@
    }
}

pub fn season_ended(number: u32, cleared: usize) -> (text: String)
    ensures
        text@ == season_ended_text(number as nat, cleared as nat),
{
    let mut text = String::from_str("Season ");
    push_nat(&mut text, number as u64);
    text.append(" has ended. ");
    if cleared == 0 {
        text.append("The answers are kept.");
    } else {
        push_signup_posts(&mut text, cleared);
        text.append(" ");
        push_cleared_verb(&mut text, cleared);
        text.append(", and the answers are kept.");
    }
    text
}

/// `N sign-up posts` followed by `verb`, or nothing when `count` is zero.
pub open spec fn posts_did_text(count: nat, verb: Seq<char>) -> Seq<char> {
    if count == 0 {
        Seq::empty()
    } else {
        signup_posts_text(count) + verb
    }
}

fn posts_did(count: usize, verb: &str) -> (text: String)
    ensures
        text@ == posts_did_text(count as nat, verb@),
{
    if count == 0 {
        return String::new();
    }
    let mut text = String::new();
    push_signup_posts(&mut text, count);
    text.append(verb);
    text
}

/// `N sign-up posts were` followed by `verb`, or nothing when `count` is zero.
pub open spec fn posts_were_text(count: nat, verb: Seq<char>) -> Seq<char> {
    if count == 0 {
        Seq::empty()
    } else {
        signup_posts_text(count) + " "@ + was_text(count) + verb
    }
}

fn posts_were(count: usize, verb: &str) -> (text: String)
    ensures
        text@ == posts_were_text(count as nat, verb@),
{
    if count == 0 {
        return String::new();
    }
    let mut text = String::new();
    push_signup_posts(&mut text, count);
    text.append(" ");
    push_was(&mut text, count);
    text.append(verb);
    text
}

pub open spec fn failed_steps_text(count: nat) -> Seq<char> {
    if count == 0 {
        Seq::empty()
    } else {
        counted_text(count, "step"@, "steps"@) + " failed."@
    }
}

fn failed_steps(count: usize) -> (text: String)
    ensures
        text@ == failed_steps_text(count as nat),
{
    if count == 0 {
        return String::new();
    }
    let mut text = String::new();
    push_counted(&mut text, count, "step", "steps");
    text.append(" failed.");
    text
}

pub open spec fn steps_text(report: TickReport) -> Seq<char> {
    sentences_text(
        seq![
            posts_were_text(report.removed@.len(), " removed."@),
            posts_did_text(report.closed@.len(), " closed."@),
            posts_did_text(report.posted@.len(), " went up."@),
            posts_were_text(report.adopted@.len(), " adopted."@),
            failed_steps_text(report.failures as nat),
        ],
    )
}

pub open spec fn stepped_text(moment_unix: int, report: TickReport) -> Seq<char> {
    let steps = steps_text(report);
    sentences_text(
        seq![
            "Moved the rehearsal clock to "@ + full_time_text(moment_unix) + "."@,
            if steps.len() == 0 {
                NOTHING_HAPPENED@
            } else {
                steps
            },
        ],
    )
}

/// What a rehearsal step did, after moving its clock.
pub fn stepped(moment_unix: i64, report: &TickReport) -> (text: String)
    ensures
        text@ == stepped_text(moment_unix as int, *report),
{
    let parts = vec![
        posts_were(report.removed.len(), " removed."),
        posts_did(report.closed.len(), " closed."),
        posts_did(report.posted.len(), " went up."),
        posts_were(report.adopted.len(), " adopted."),
        failed_steps(report.failures),
    ];
    proof {
        assert(texts(parts@) =~= seq![
            parts@[0]@,
            parts@[1]@,
            parts@[2]@,
            parts@[3]@,
            parts@[4]@,
        ]);
    }
    let steps = sentences(parts);
    let mut first = String::from_str("Moved the rehearsal clock to ");
    push_full_time(&mut first, moment_unix);
    first.append(".");
    let second = if steps.as_str().unicode_len() == 0 {
        String::from_str(NOTHING_HAPPENED)
    } else {
        steps
    };
    let both = vec![first, second];
    proof {
        assert(texts(both@) =~= seq![both@[0]@, both@[1]@]);
    }
    sentences(both)
}

pub open spec fn reset_blocked_text(purge: PurgeReport) -> Seq<char> {
    sentences_text(
        seq![
            RESET_BLOCKED_HEAD@,
            posts_were_text(purge.messages as nat, " already cleared."@),
            RESET_BLOCKED_TAIL@,
        ],
    )
}

pub fn reset_blocked(purge: &PurgeReport) -> (text: String)
    ensures
        text@ == reset_blocked_text(*purge),
{
    let parts = vec![
        String::from_str(RESET_BLOCKED_HEAD),
        posts_were(purge.messages, " already cleared."),
        String::from_str(RESET_BLOCKED_TAIL),
    ];
    proof {
        assert(texts(parts@) =~= seq![parts@[0]@, parts@[1]@, parts@[2]@]);
    }
    sentences(parts)
}

/// The counts of what a reset cleared, leaving out those that are zero.
pub open spec fn cleared_counts(purge: PurgeReport) -> Seq<Seq<char>> {
    (if purge.seasons > 0 {
        seq![counted_text(purge.seasons as nat, "season"@, "seasons"@)]
    } else {
        Seq::empty()
    }) + (if purge.messages > 0 {
        seq![signup_posts_text(purge.messages as nat)]
    } else {
        Seq::empty()
    }) + (if purge.answers > 0 {
        seq![counted_text(purge.answers as nat, "answer"@, "answers"@)]
    } else {
        Seq::empty()
    })
}

pub open spec fn reset_done_text(purge: PurgeReport) -> Seq<char> {
    let counts = cleared_counts(purge);
    sentences_text(
        seq![
            if counts.len() == 0 {
                NOTHING_TO_CLEAR@
            } else {
                "Cleared "@ + names_text(counts) + "."@
            },
        ],
    )
}

fn count_of(count: usize, one: &str, many: &str) -> (text: String)
    ensures
        text@ == counted_text(count as nat, one@, many@),
{
    let mut text = String::new();
    push_counted(&mut text, count, one, many);
    text
}

/// What a rehearsal reset cleared.
pub fn reset_done(purge: &PurgeReport) -> (text: String)
    ensures
        text@ == reset_done_text(*purge),
{
    let seasons = count_of(purge.seasons, "season", "seasons");
    let posts = count_of(purge.messages, "sign-up post", "sign-up posts");
    let answers = count_of(purge.answers, "answer", "answers");
    let mut counts: Vec<&str> = Vec::new();
    if purge.seasons > 0 {
        counts.push(seasons.as_str());
    }
    if purge.messages > 0 {
        counts.push(posts.as_str());
    }
    if purge.answers > 0 {
        counts.push(answers.as_str());
    }
    assert(str_texts(counts@) =~= cleared_counts(*purge));
    let only = if counts.len() == 0 {
        String::from_str(NOTHING_TO_CLEAR)
    } else {
        let mut line = String::from_str("Cleared ");
        let listed = join_names(counts.as_slice());
        line.append(listed.as_str());
        line.append(".");
        line
    };
    let parts = vec![only];
    proof {
        assert(texts(parts@) =~= seq![parts@[0]@]);
    }
    sentences(parts)
}

pub open spec fn silent_ping_warning_text(
    ping: Ping,
    verdict: PingVerdict,
    channel: ChannelId,
) -> Option<Seq<char>> {
    let mention = ping_mention_text(ping);
    let place = channel_mention(channel);
    match verdict {
        PingVerdict::Sounds => None,
        PingVerdict::Silent => Some(
            match ping {
                Ping::Everyone => mention + " will not be pinged in "@ + place
                    + ": Barnacle lacks "@ + MENTION_PERMISSION@
                    + " there. A server admin can grant "@ + MENTION_PERMISSION@
                    + " to Barnacle in that channel."@,
                Ping::Role(_) => mention + " will not be pinged in "@ + place
                    + ": the role is not mentionable and Barnacle lacks "@ + MENTION_PERMISSION@
                    + " there. A server admin can turn on the role's "@ + MENTIONABLE_SETTING@
                    + " setting, or grant "@ + MENTION_PERMISSION@
                    + " to Barnacle in that channel."@,
            },
        ),
        PingVerdict::BlockedByChannel => Some(
            mention + " will not be pinged in "@ + place + ": Barnacle holds "@
                + MENTION_PERMISSION@
                + " in the server, but a permission override in that channel removes it. A server admin can allow "@
                + MENTION_PERMISSION@ + " for Barnacle in that channel's permissions"@
                + mentionable_alternative_text(ping) + "."@,
        ),
        PingVerdict::Unchecked => Some(
            match ping {
                Ping::Everyone => "Barnacle could not check whether "@ + mention
                    + " will be pinged in "@ + place + ". Check that Barnacle holds "@
                    + MENTION_PERMISSION@ + " in that channel."@,
                Ping::Role(_) => "Barnacle could not check whether "@ + mention
                    + " will be pinged in "@ + place + ". Check that the role's "@
                    + MENTIONABLE_SETTING@ + " setting is on, or that Barnacle holds "@
                    + MENTION_PERMISSION@ + " in that channel."@,
            },
        ),
    }
}

/// The warnings for each checked ping that has one, in order.
pub open spec fn ping_warnings_of(checked: Seq<(Ping, PingVerdict)>, channel: ChannelId) -> Seq<
    Seq<char>,
>
    decreases checked.len(),
{
    if checked.len() == 0 {
        Seq::empty()
    } else {
        let earlier = ping_warnings_of(checked.drop_last(), channel);
        match silent_ping_warning_text(checked.last().0, checked.last().1, channel) {
            Some(warning) => earlier.push(warning),
            None => earlier,
        }
    }
}

/// What to warn the admin of about a season's pings: each warning on its own line, or `None`
/// when every ping will be heard.
pub fn silent_pings_warning(checked: &[(Ping, PingVerdict)], channel: ChannelId) -> (warning:
    Option<String>)
    ensures
        match warning {
            Some(warning) => ping_warnings_of(checked@, channel).len() > 0 && warning@ == joined(
                ping_warnings_of(checked@, channel),
                "\n"@,
            ),
            None => ping_warnings_of(checked@, channel).len() == 0,
        },
{
    let mut warnings: Vec<String> = Vec::new();
    let mut index: usize = 0;
    while index < checked.len()
        invariant
            index <= checked.len(),
            texts(warnings@) == ping_warnings_of(checked@.take(index as int), channel),
        decreases checked.len() - index,
    {
        assert(checked@.take(index + 1).drop_last() == checked@.take(index as int));
        let (ping, verdict) = checked[index];
        match silent_ping_warning(ping, verdict, channel) {
            Some(warning) => {
                warnings.push(warning);
                assert(texts(warnings@) =~= texts(warnings@.drop_last()).push(
                    warnings@.last()@,
                ));
            },
            None => {},
        }
        index = index + 1;
    }
    assert(checked@.take(checked.len() as int) == checked@);
    if warnings.len() == 0 {
        None
    } else {
        Some(join(warnings.as_slice(), "\n"))
    }
}

/// What to warn the admin of when a season's ping will not be heard, if anything.
pub fn silent_ping_warning(ping: Ping, verdict: PingVerdict, channel: ChannelId) -> (warning:
    Option<String>)
    ensures
        string_option(warning) == silent_ping_warning_text(ping, verdict, channel),
{
    match verdict {
        PingVerdict::Sounds => None,
        PingVerdict::Silent => {
            let mut text = ping_mention(ping);
            text.append(" will not be pinged in ");
            push_channel(&mut text, channel);
            match ping {
                Ping::Everyone => {
                    text.append(": Barnacle lacks ");
                    text.append(MENTION_PERMISSION);
                    text.append(" there. A server admin can grant ");
                    text.append(MENTION_PERMISSION);
                    text.append(" to Barnacle in that channel.");
                },
                Ping::Role(_) => {
                    text.append(": the role is not mentionable and Barnacle lacks ");
                    text.append(MENTION_PERMISSION);
                    text.append(" there. A server admin can turn on the role's ");
                    text.append(MENTIONABLE_SETTING);
                    text.append(" setting, or grant ");
                    text.append(MENTION_PERMISSION);
                    text.append(" to Barnacle in that channel.");
                },
            }
            Some(text)
        },
        PingVerdict::BlockedByChannel => {
            let mut text = ping_mention(ping);
            text.append(" will not be pinged in ");
            push_channel(&mut text, channel);
            text.append(": Barnacle holds ");
            text.append(MENTION_PERMISSION);
            text.append(
                " in the server, but a permission override in that channel removes it. A server admin can allow ",
            );
            text.append(MENTION_PERMISSION);
            text.append(" for Barnacle in that channel's permissions");
            push_mentionable_alternative(&mut text, ping);
            text.append(".");
            Some(text)
        },
        PingVerdict::Unchecked => {
            let mut text = String::from_str("Barnacle could not check whether ");
            let mention = ping_mention(ping);
            text.append(mention.as_str());
            text.append(" will be pinged in ");
            push_channel(&mut text, channel);
            match ping {
                Ping::Everyone => {
                    text.append(". Check that Barnacle holds ");
                    text.append(MENTION_PERMISSION);
                    text.append(" in that channel.");
                },
                Ping::Role(_) => {
                    text.append(". Check that the role's ");
                    text.append(MENTIONABLE_SETTING);
                    text.append(" setting is on, or that Barnacle holds ");
                    text.append(MENTION_PERMISSION);
                    text.append(" in that channel.");
                },
            }
            Some(text)
        },
    }
}

// ---------------------------------------------------------------------------
// The sign-up post's description.

pub open spec fn heading_lines(view: SignupView) -> Seq<Seq<char>> {
    let start = view.night.start();
    if view.open {
        seq![
            full_time_text(start) + " · starts "@ + relative_time_text(start),
            SIGNUPS_CLOSE_AT_START@,
        ]
    } else {
        seq![full_time_text(start) + " · "@ + SIGNUPS_CLOSED@]
    }
}

pub open spec fn hour_line_text(night: Night, tally: HourTally) -> Seq<char> {
    "**Hour "@ + digits(tally.hour.number() as nat) + "** · "@ + clock_time_text(
        night.hour_start(tally.hour),
    ) + " – "@ + clock_time_text(night.hour_start(tally.hour) + SECONDS_PER_HOUR) + " · "@
        + digits(tally.attending as nat) + " in · "@ + digits(tally.nope as nat) + " out"@
}

fn hour_line(night: Night, tally: &HourTally) -> (text: String)
    ensures
        text@ == hour_line_text(night, *tally),
{
    let mut text = String::from_str("**Hour ");
    push_nat(&mut text, tally.hour.get() as u64);
    text.append("** · ");
    push_clock_time(&mut text, night.hour_start_unix(tally.hour));
    text.append(" – ");
    push_clock_time(&mut text, night.hour_end_unix(tally.hour));
    text.append(" · ");
    push_nat(&mut text, tally.attending as u64);
    text.append(" in · ");
    push_nat(&mut text, tally.nope as u64);
    text.append(" out");
    text
}

/// A roster cell, padded with spaces to its column's width of five.
pub open spec fn cell_text(cell: Cell) -> Seq<char> {
    match cell {
        Cell::In => seq!['i', 'n', ' ', ' ', ' '],
        Cell::Out => seq!['o', 'u', 't', ' ', ' '],
    }
}

pub open spec fn cells_text(cells: Seq<Cell>) -> Seq<char>
    decreases cells.len(),
{
    if cells.len() == 0 {
        Seq::empty()
    } else {
        cells_text(cells.drop_last()) + cell_text(cells.last())
    }
}

pub open spec fn roster_line_text(row: RosterRow) -> Seq<char> {
    "`"@ + cells_text(row.cells@) + "` <@"@ + digits(row.user@ as nat) + ">"@
}

fn roster_line(row: &RosterRow) -> (text: String)
    ensures
        text@ == roster_line_text(*row),
{
    let mut text = String::from_str("`");
    let ghost start = text@;
    let mut index: usize = 0;
    while index < 4
        invariant
            index <= 4,
            row.cells@.len() == 4,
            text@ == start + cells_text(row.cells@.take(index as int)),
        decreases 4 - index,
    {
        assert(row.cells@.take(index + 1).drop_last() == row.cells@.take(index as int));
        match row.cells[index] {
            Cell::In => {
                push_char(&mut text, 'i');
                push_char(&mut text, 'n');
                push_char(&mut text, ' ');
            },
            Cell::Out => {
                push_char(&mut text, 'o');
                push_char(&mut text, 'u');
                push_char(&mut text, 't');
            },
        }
        push_char(&mut text, ' ');
        push_char(&mut text, ' ');
        index = index + 1;
    }
    assert(row.cells@.take(4) == row.cells@);
    text.append("` <@");
    push_nat(&mut text, row.user.get());
    text.append(">");
    text
}

pub open spec fn roster_lines_text(view: SignupView) -> Seq<Seq<char>> {
    if view.rows@.len() == 0 {
        seq![NO_ANSWERS_YET@]
    } else {
        seq!["`"@ + ROSTER_HEADER@ + "`"@] + view.rows@.map_values(
            |row: RosterRow| roster_line_text(row),
        ) + if view.hidden > 0 {
            seq!["and "@ + digits(view.hidden as nat) + " more."@]
        } else {
            Seq::empty()
        }
    }
}

/// The post's lines: when the night starts and whether sign-ups are open, each hour's
/// tally, then the roster.
pub open spec fn description_lines(view: SignupView) -> Seq<Seq<char>> {
    heading_lines(view) + seq![Seq::empty()] + view.hours@.map_values(
        |tally: HourTally| hour_line_text(view.night, tally),
    ) + seq![Seq::empty()] + roster_lines_text(view)
}

pub open spec fn signup_description_text(view: SignupView) -> Seq<char> {
    joined(description_lines(view), "\n"@)
}

fn push_line(lines: &mut Vec<String>, line: String)
    ensures
        texts(final(lines)@) == texts(old(lines)@).push(line@),
{
    lines.push(line);
    assert(texts(lines@) =~= texts(old(lines)@).push(line@));
}

fn roster_lines(view: &SignupView, lines: &mut Vec<String>)
    ensures
        texts(final(lines)@) == texts(old(lines)@) + roster_lines_text(*view),
{
    let ghost before = texts(lines@);
    if view.rows.len() == 0 {
        push_line(lines, String::from_str(NO_ANSWERS_YET));
        assert(texts(lines@) =~= before + roster_lines_text(*view));
        return;
    }
    let mut header = String::from_str("`");
    header.append(ROSTER_HEADER);
    header.append("`");
    push_line(lines, header);
    let ghost with_header = texts(lines@);
    let mut index: usize = 0;
    while index < view.rows.len()
        invariant
            index <= view.rows@.len(),
            texts(lines@) == with_header + view.rows@.take(index as int).map_values(
                |row: RosterRow| roster_line_text(row),
            ),
        decreases view.rows.len() - index,
    {
        let line = roster_line(&view.rows[index]);
        push_line(lines, line);
        assert(view.rows@.take(index + 1).map_values(|row: RosterRow| roster_line_text(row))
            =~= view.rows@.take(index as int).map_values(|row: RosterRow| roster_line_text(row)).push(
            roster_line_text(view.rows@[index as int]),
        ));
        index = index + 1;
    }
    assert(view.rows@.take(view.rows@.len() as int) == view.rows@);
    let ghost with_rows = texts(lines@);
    if view.hidden > 0 {
        let mut more = String::from_str("and ");
        push_nat(&mut more, view.hidden as u64);
        more.append(" more.");
        push_line(lines, more);
    }
    assert(texts(lines@) =~= before + roster_lines_text(*view));
}

/// What a sign-up post says: its night, its hours' tallies and its roster.
pub fn signup_description(view: &SignupView) -> (text: String)
    ensures
        text@ == signup_description_text(*view),
{
    let start = view.night.start_unix();
    let mut lines: Vec<String> = Vec::new();
    if view.open {
        let mut first = String::new();
        push_full_time(&mut first, start);
        first.append(" · starts ");
        push_relative_time(&mut first, start);
        push_line(&mut lines, first);
        push_line(&mut lines, String::from_str(SIGNUPS_CLOSE_AT_START));
    } else {
        let mut first = String::new();
        push_full_time(&mut first, start);
        first.append(" · ");
        first.append(SIGNUPS_CLOSED);
        push_line(&mut lines, first);
    }
    assert(texts(lines@) =~= heading_lines(*view));
    push_line(&mut lines, String::new());
    let ghost before_hours = texts(lines@);
    let mut index: usize = 0;
    while index < 4
        invariant
            index <= 4,
            view.hours@.len() == 4,
            texts(lines@) == before_hours + view.hours@.take(index as int).map_values(
                |tally: HourTally| hour_line_text(view.night, tally),
            ),
        decreases 4 - index,
    {
        let line = hour_line(view.night, &view.hours[index]);
        push_line(&mut lines, line);
        assert(view.hours@.take(index + 1).map_values(
            |tally: HourTally| hour_line_text(view.night, tally),
        ) =~= view.hours@.take(index as int).map_values(
            |tally: HourTally| hour_line_text(view.night, tally),
        ).push(hour_line_text(view.night, view.hours@[index as int])));
        index = index + 1;
    }
    assert(view.hours@.take(4) == view.hours@);
    push_line(&mut lines, String::new());
    roster_lines(view, &mut lines);
    assert(texts(lines@) =~= description_lines(*view));
    join(lines.as_slice(), "\n")
}

// ---------------------------------------------------------------------------
// Laws.

proof fn lemma_listing_from_fits(items: Seq<Seq<char>>, limit: int, shown: int)
    requires
        limit >= 0,
    ensures
        listing_from(items, limit, shown).len() <= limit,
    decreases shown + 1,
{
    if shown >= 0 && listing_candidate(items, shown).len() > limit {
        lemma_listing_from_fits(items, limit, shown - 1);
    }
}

/// A list of one or more items always fits in the characters it is given.
pub proof fn law_listing_fits(items: Seq<Seq<char>>, limit: int)
    requires
        items.len() > 0,
        limit >= 0,
    ensures
        listing_text(items, limit).len() <= limit,
{
    lemma_listing_from_fits(items, limit, items.len() as int);
}

proof fn lemma_pages_empty(lines: Seq<Seq<char>>)
    ensures
        (pages_of(lines).len() == 0) == (lines.len() == 0),
        pages_of(lines).len() <= lines.len(),
    decreases lines.len(),
{
    if lines.len() > 0 {
        lemma_pages_empty(lines.drop_last());
    }
}

/// Paging the leaderboard loses no line and changes none: the pages, one after another, read
/// as the lines do. And a page holds more than one line only within the description limit,
/// so when every line fits in an embed, so does every page.
pub proof fn law_pages_keep_every_line(lines: Seq<Seq<char>>)
    ensures
        joined(pages_of(lines), "\n"@) == joined(lines, "\n"@),
        pages_of(lines).len() <= lines.len(),
        (forall|i: int| 0 <= i < lines.len() ==> utf16_length(#[trigger] lines[i])
            <= EMBED_DESCRIPTION_LIMIT) ==> forall|p: int|
            0 <= p < pages_of(lines).len() ==> utf16_length(#[trigger] pages_of(lines)[p])
                <= EMBED_DESCRIPTION_LIMIT,
    decreases lines.len(),
{
    lemma_pages_empty(lines);
    if lines.len() > 0 {
        let earlier = lines.drop_last();
        law_pages_keep_every_line(earlier);
        lemma_pages_empty(earlier);
        let before = pages_of(earlier);
        let line = lines.last();
        let pages = pages_of(lines);
        let newline = "\n"@;
        assert(newline =~= seq!['\n']) by {
            reveal_strlit("\n");
        }
        if before.len() > 0 && utf16_length(before.last()) + 1 + utf16_length(line)
            <= EMBED_DESCRIPTION_LIMIT {
            let merged = before.last() + newline + line;
            assert(pages == before.drop_last().push(merged));
            if before.len() == 1 {
                assert(joined(pages, newline) == merged);
                assert(joined(before, newline) == before[0]);
            } else {
                assert(pages.drop_last() == before.drop_last());
                assert(joined(pages, newline) == joined(before.drop_last(), newline) + newline
                    + merged);
                assert(joined(before, newline) == joined(before.drop_last(), newline) + newline
                    + before.last());
            }
            assert(joined(lines, newline) == joined(earlier, newline) + newline + line);
            assert(joined(pages, newline) =~= joined(lines, newline));
            lemma_utf16_length_concat(before.last(), newline);
            lemma_utf16_length_concat(before.last() + newline, line);
            assert(utf16_length(newline) == 1) by {
                assert(newline.drop_last() =~= Seq::<char>::empty());
                assert(utf16_length(Seq::<char>::empty()) == 0);
                assert(newline.last() == '\n');
                assert(('\n' as u32) < 0x10000);
            }
            if forall|i: int| 0 <= i < lines.len() ==> utf16_length(#[trigger] lines[i])
                <= EMBED_DESCRIPTION_LIMIT {
                assert forall|i: int| 0 <= i < earlier.len() implies utf16_length(
                    #[trigger] earlier[i],
                ) <= EMBED_DESCRIPTION_LIMIT by {
                    assert(earlier[i] == lines[i]);
                }
                assert forall|p: int| 0 <= p < pages.len() implies utf16_length(
                    #[trigger] pages[p],
                ) <= EMBED_DESCRIPTION_LIMIT by {
                    if p < pages.len() - 1 {
                        assert(pages[p] == before[p]);
                    }
                }
            }
        } else {
            assert(pages == before.push(line));
            if before.len() == 0 {
                assert(earlier.len() == 0);
                assert(joined(pages, newline) == line);
                assert(lines.len() == 1);
                assert(joined(lines, newline) == lines[0]);
            } else {
                assert(pages.drop_last() == before);
                assert(joined(pages, newline) == joined(before, newline) + newline + line);
                assert(joined(lines, newline) == joined(earlier, newline) + newline + line);
            }
            if forall|i: int| 0 <= i < lines.len() ==> utf16_length(#[trigger] lines[i])
                <= EMBED_DESCRIPTION_LIMIT {
                assert forall|i: int| 0 <= i < earlier.len() implies utf16_length(
                    #[trigger] earlier[i],
                ) <= EMBED_DESCRIPTION_LIMIT by {
                    assert(earlier[i] == lines[i]);
                }
                assert forall|p: int| 0 <= p < pages.len() implies utf16_length(
                    #[trigger] pages[p],
                ) <= EMBED_DESCRIPTION_LIMIT by {
                    if p < pages.len() - 1 {
                        assert(pages[p] == before[p]);
                    } else {
                        assert(pages[p] == lines[lines.len() - 1]);
                    }
                }
            }
        }
    }
}


/// One more line makes the joined text longer by the line, and by the newline before it when
/// it is not the first.
proof fn lemma_joined_lines_step(lines: Seq<Seq<char>>, count: int)
    requires
        0 <= count < lines.len(),
    ensures
        utf16_length(joined(lines.take(count + 1), "\n"@)) == utf16_length(
            joined(lines.take(count), "\n"@),
        ) + utf16_length(lines[count]) + if count > 0 {
            1int
        } else {
            0int
        },
{
    let newline = "\n"@;
    assert(newline =~= seq!['\n']) by {
        reveal_strlit("\n");
    }
    assert(utf16_length(newline) == 1) by {
        assert(newline.drop_last() =~= Seq::<char>::empty());
        assert(utf16_length(Seq::<char>::empty()) == 0);
        assert(newline.last() == '\n');
        assert(('\n' as u32) < 0x10000);
    }
    let longer = lines.take(count + 1);
    if count == 0 {
        assert(joined(longer, newline) == longer[0]);
        assert(joined(lines.take(0), newline) == Seq::<char>::empty());
    } else {
        assert(longer.drop_last() =~= lines.take(count));
        assert(joined(longer, newline) == joined(lines.take(count), newline) + newline
            + lines[count]);
        lemma_utf16_length_concat(joined(lines.take(count), newline), newline);
        lemma_utf16_length_concat(joined(lines.take(count), newline) + newline, lines[count]);
    }
}

/// The lines kept from `from` on are the longest run that fits: what is kept fits, and one
/// line more would not.
proof fn lemma_kept_lines(lines: Seq<Seq<char>>, from: int, length: int)
    requires
        0 <= from <= lines.len(),
        length == utf16_length(joined(lines.take(from), "\n"@)),
        length <= MESSAGE_CONTENT_LIMIT - SEASON_LIST_TAIL,
    ensures
        from <= kept_lines(lines, from, length) <= lines.len(),
        utf16_length(joined(lines.take(kept_lines(lines, from, length)), "\n"@))
            <= MESSAGE_CONTENT_LIMIT - SEASON_LIST_TAIL,
        kept_lines(lines, from, length) < lines.len() ==> utf16_length(
            joined(lines.take(kept_lines(lines, from, length) + 1), "\n"@),
        ) > MESSAGE_CONTENT_LIMIT - SEASON_LIST_TAIL,
    decreases lines.len() - from,
{
    if from < lines.len() {
        lemma_joined_lines_step(lines, from);
        let next = length + utf16_length(lines[from]) + if from > 0 {
            1int
        } else {
            0int
        };
        if next <= MESSAGE_CONTENT_LIMIT - SEASON_LIST_TAIL {
            lemma_kept_lines(lines, from + 1, next);
        }
    } else {
        assert(lines.take(from) == lines.take(kept_lines(lines, from, length)));
    }
}

/// Text whose characters each take one UTF-16 unit is as long in Discord's measure as it has
/// characters.
proof fn lemma_narrow_length(text: Seq<char>)
    requires
        forall|i: int| 0 <= i < text.len() ==> (#[trigger] text[i] as u32) < 0x10000,
    ensures
        utf16_length(text) == text.len(),
    decreases text.len(),
{
    if text.len() > 0 {
        lemma_narrow_length(text.drop_last());
        assert(text.last() == text[text.len() - 1]);
    }
}

pub open spec fn decimal_bound(places: nat) -> nat
    decreases places,
{
    if places == 0 {
        1
    } else {
        10 * decimal_bound((places - 1) as nat)
    }
}

/// A number below `10^places` has at most `places` digits, each of them narrow.
proof fn lemma_digits_short(n: nat, places: nat)
    requires
        places >= 1,
        n < decimal_bound(places),
    ensures
        digits(n).len() <= places,
        forall|i: int| 0 <= i < digits(n).len() ==> (#[trigger] digits(n)[i] as u32) < 0x10000,
    decreases places,
{
    if n >= 10 {
        let rest = (places - 1) as nat;
        assert(rest >= 1) by {
            if rest == 0 {
                assert(decimal_bound(0) == 1);
                assert(decimal_bound(places) == 10);
            }
        }
        assert(n / 10 < decimal_bound(rest)) by (nonlinear_arith)
            requires
                n < 10 * decimal_bound(rest),
        ;
        lemma_digits_short(n / 10, rest);
        let last = digit((n % 10) as int);
        assert(last as u32 <= 57);
        assert forall|i: int| 0 <= i < digits(n).len() implies (#[trigger] digits(n)[i] as u32)
            < 0x10000 by {
            if i < digits(n).len() - 1 {
                assert(digits(n)[i] == digits(n / 10)[i]);
            }
        }
    } else {
        assert(digits(n)[0] as u32 <= 57);
    }
}

/// The season list shows the longest run of whole lines, from the first, that fits in the
/// room a message leaves for them once the count of the rest is said; one line more would not
/// fit. What it shows, with that count, fits in a message.
pub proof fn law_season_list_fits(lines: Seq<Seq<char>>)
    requires
        lines.len() <= u64::MAX,
    ensures
        0 <= kept_lines(lines, 0, 0) <= lines.len(),
        utf16_length(joined(lines.take(kept_lines(lines, 0, 0)), "\n"@))
            <= MESSAGE_CONTENT_LIMIT - SEASON_LIST_TAIL,
        kept_lines(lines, 0, 0) < lines.len() ==> utf16_length(
            joined(lines.take(kept_lines(lines, 0, 0) + 1), "\n"@),
        ) > MESSAGE_CONTENT_LIMIT - SEASON_LIST_TAIL,
        season_list_text(lines).take(joined(lines.take(kept_lines(lines, 0, 0)), "\n"@).len() as int)
            == joined(lines.take(kept_lines(lines, 0, 0)), "\n"@),
        utf16_length(season_list_text(lines)) <= MESSAGE_CONTENT_LIMIT,
{
    assert(joined(lines.take(0), "\n"@) == Seq::<char>::empty());
    lemma_kept_lines(lines, 0, 0);
    let kept = kept_lines(lines, 0, 0);
    let shown = joined(lines.take(kept), "\n"@);
    if kept < lines.len() {
        let hidden = (lines.len() - kept) as nat;
        assert(decimal_bound(20) == 100000000000000000000) by {
            reveal_with_fuel(decimal_bound, 21);
        }
        lemma_digits_short(hidden, 20);
        let head = "\nand "@;
        let tail = " more."@;
        assert(head =~= seq!['\n', 'a', 'n', 'd', ' ']) by {
            reveal_strlit("\nand ");
        }
        assert(tail =~= seq![' ', 'm', 'o', 'r', 'e', '.']) by {
            reveal_strlit(" more.");
        }
        let rest = head + digits(hidden) + tail;
        assert forall|i: int| 0 <= i < rest.len() implies (#[trigger] rest[i] as u32) < 0x10000 by {
            if i < 5 {
                assert(rest[i] == head[i]);
            } else if i < 5 + digits(hidden).len() {
                assert(rest[i] == digits(hidden)[i - 5]);
            } else {
                assert(rest[i] == tail[i - 5 - digits(hidden).len()]);
            }
        }
        lemma_narrow_length(rest);
        assert(season_list_text(lines) =~= shown + rest);
        lemma_utf16_length_concat(shown, rest);
        assert((shown + rest).take(shown.len() as int) =~= shown);
    } else {
        assert(season_list_text(lines).take(shown.len() as int) =~= shown);
    }
}


/// Where each page of `pages_of(lines)` starts: the position of its first line.
pub open spec fn page_starts(lines: Seq<Seq<char>>) -> Seq<int>
    decreases lines.len(),
{
    if lines.len() == 0 {
        Seq::empty()
    } else {
        let starts = page_starts(lines.drop_last());
        let pages = pages_of(lines.drop_last());
        if pages.len() > 0 && utf16_length(pages.last()) + 1 + utf16_length(lines.last())
            <= EMBED_DESCRIPTION_LIMIT {
            starts
        } else {
            starts.push(lines.len() - 1)
        }
    }
}

/// Where page `page` ends: where the next one starts, or after the last line.
pub open spec fn page_end(starts: Seq<int>, page: int, count: int) -> int {
    if page + 1 < starts.len() {
        starts[page + 1]
    } else {
        count
    }
}

/// Joining one more part after a non-empty list adds the separator and the part.
proof fn lemma_joined_push(parts: Seq<Seq<char>>, part: Seq<char>, separator: Seq<char>)
    requires
        parts.len() > 0,
    ensures
        joined(parts.push(part), separator) == joined(parts, separator) + separator + part,
{
    assert(parts.push(part).drop_last() =~= parts);
}

/// Paging is greedy: each page is the lines from its start to the next page's start, joined
/// one per line, the first page starts at the first line, and a line starts a new page only
/// when it would not fit on the page before it.
pub proof fn law_pages_are_greedy(lines: Seq<Seq<char>>)
    ensures
        page_starts(lines).len() == pages_of(lines).len(),
        lines.len() > 0 ==> page_starts(lines)[0] == 0,
        forall|p: int|
            0 <= p < page_starts(lines).len() ==> 0 <= #[trigger] page_starts(lines)[p] < page_end(
                page_starts(lines),
                p,
                lines.len() as int,
            ) <= lines.len(),
        forall|p: int|
            0 <= p < pages_of(lines).len() ==> #[trigger] pages_of(lines)[p] == joined(
                lines.subrange(
                    page_starts(lines)[p],
                    page_end(page_starts(lines), p, lines.len() as int),
                ),
                "\n"@,
            ),
        forall|p: int|
            0 <= p < pages_of(lines).len() - 1 ==> utf16_length(#[trigger] pages_of(lines)[p]) + 1
                + utf16_length(lines[page_starts(lines)[p + 1]]) > EMBED_DESCRIPTION_LIMIT,
    decreases lines.len(),
{
    lemma_pages_empty(lines);
    if lines.len() > 0 {
        let n = lines.len() as int;
        let earlier = lines.drop_last();
        law_pages_are_greedy(earlier);
        lemma_pages_empty(earlier);
        let before = pages_of(earlier);
        let old_starts = page_starts(earlier);
        let line = lines.last();
        let pages = pages_of(lines);
        let starts = page_starts(lines);
        let newline = "\n"@;
        assert forall|a: int, b: int| 0 <= a <= b <= n - 1 implies #[trigger] lines.subrange(a, b)
            == earlier.subrange(a, b) by {
            assert(lines.subrange(a, b) =~= earlier.subrange(a, b));
        }
        if before.len() > 0 && utf16_length(before.last()) + 1 + utf16_length(line)
            <= EMBED_DESCRIPTION_LIMIT {
            let last = before.len() - 1;
            assert(starts == old_starts);
            assert(pages == before.drop_last().push(before.last() + newline + line));
            assert forall|p: int| 0 <= p < starts.len() implies 0 <= #[trigger] starts[p]
                < page_end(starts, p, n) <= n by {
                assert(starts[p] == old_starts[p]);
                assert(0 <= old_starts[p] < page_end(old_starts, p, n - 1) <= n - 1);
            }
            assert forall|p: int| 0 <= p < pages.len() implies #[trigger] pages[p] == joined(
                lines.subrange(starts[p], page_end(starts, p, n)),
                newline,
            ) by {
                assert(before[p] == joined(
                    earlier.subrange(old_starts[p], page_end(old_starts, p, n - 1)),
                    newline,
                ));
                assert(0 <= old_starts[p] < page_end(old_starts, p, n - 1) <= n - 1);
                if p < last {
                    assert(pages[p] == before[p]);
                    assert(lines.subrange(starts[p], page_end(starts, p, n)) == earlier.subrange(
                        old_starts[p],
                        page_end(old_starts, p, n - 1),
                    ));
                } else {
                    let head = earlier.subrange(old_starts[p], n - 1);
                    assert(lines.subrange(old_starts[p], n) =~= head.push(line));
                    lemma_joined_push(head, line, newline);
                    assert(pages[p] == before.last() + newline + line);
                }
            }
            assert forall|p: int| 0 <= p < pages.len() - 1 implies utf16_length(
                #[trigger] pages[p],
            ) + 1 + utf16_length(lines[starts[p + 1]]) > EMBED_DESCRIPTION_LIMIT by {
                assert(pages[p] == before[p]);
                assert(utf16_length(before[p]) + 1 + utf16_length(earlier[old_starts[p + 1]])
                    > EMBED_DESCRIPTION_LIMIT);
                assert(0 <= old_starts[p + 1] < page_end(old_starts, p + 1, n - 1) <= n - 1);
                assert(lines[starts[p + 1]] == earlier[old_starts[p + 1]]);
            }
        } else {
            assert(starts == old_starts.push(n - 1));
            assert(pages == before.push(line));
            assert forall|p: int| 0 <= p < starts.len() implies 0 <= #[trigger] starts[p]
                < page_end(starts, p, n) <= n by {
                if p < old_starts.len() {
                    assert(starts[p] == old_starts[p]);
                    assert(0 <= old_starts[p] < page_end(old_starts, p, n - 1) <= n - 1);
                }
            }
            assert forall|p: int| 0 <= p < pages.len() implies #[trigger] pages[p] == joined(
                lines.subrange(starts[p], page_end(starts, p, n)),
                newline,
            ) by {
                if p < before.len() {
                    assert(before[p] == joined(
                        earlier.subrange(old_starts[p], page_end(old_starts, p, n - 1)),
                        newline,
                    ));
                    assert(0 <= old_starts[p] < page_end(old_starts, p, n - 1) <= n - 1);
                    assert(page_end(starts, p, n) == page_end(old_starts, p, n - 1));
                    assert(pages[p] == before[p]);
                } else {
                    assert(lines.subrange(n - 1, n) =~= seq![line]);
                    assert(pages[p] == line);
                }
            }
            assert forall|p: int| 0 <= p < pages.len() - 1 implies utf16_length(
                #[trigger] pages[p],
            ) + 1 + utf16_length(lines[starts[p + 1]]) > EMBED_DESCRIPTION_LIMIT by {
                assert(pages[p] == before[p]);
                if p + 1 < before.len() {
                    assert(utf16_length(before[p]) + 1 + utf16_length(earlier[old_starts[p + 1]])
                        > EMBED_DESCRIPTION_LIMIT);
                    assert(0 <= old_starts[p + 1] < page_end(old_starts, p + 1, n - 1) <= n - 1);
                    assert(lines[starts[p + 1]] == earlier[old_starts[p + 1]]);
                } else {
                    assert(starts[p + 1] == n - 1);
                    assert(before.last() == before[p]);
                }
            }
            if before.len() == 0 {
                assert(starts[0] == n - 1);
                assert(earlier.len() == 0);
            }
        }
    }
}

} // verus!
