use vstd::prelude::*;
use vstd::string::*;
use vstd::utf8::encode_utf8;

use crate::ids::ChannelId;
use crate::ids::GuildId;
use crate::ids::RoleId;
use crate::ids::Snowflake;
use crate::ids::UserId;
use crate::schedule::day_parts;
use crate::schedule::parse_day;
use crate::schedule::parsed_date;
use crate::schedule::Day;
use crate::schedule::Days;
use crate::schedule::Hour;
use crate::schedule::Night;
use crate::schedule::Range;
use crate::schedule::DAY_TEXT_LENGTH;
use crate::schedule::RANGE_MONTHS;
use crate::schedule::civil_months_after;
use crate::schedule::civil_months_before;
use crate::render::same_text;
use crate::solves::column;
use crate::solves::columns_parts;
use crate::solves::same_columns;
use crate::solves::Column;

verus! {

#[derive(Debug)]
pub enum AttendanceError {
    Database(sqlx::Error),
    MissingTable { table: &'static str },
    UnexpectedColumns { table: &'static str, found: Vec<Column> },
    MissingIndex { index: &'static str },
    MissingPingRoles,
    OutOfRange { value: u128 },
    Negative { value: i64 },
    InvalidPlayer { value: i64 },
    InvalidRole { value: i64 },
    BadNight { value: String },
    BadState { value: String },
    BadHour { value: i64 },
    BadSeasonNumber { value: i64 },
}

/// A Clan Battle season whose sign-up posts go in one channel.
#[derive(Debug, Clone, PartialEq, Eq)]
pub struct Season {
    pub id: i64,
    pub guild: GuildId,
    pub channel: ChannelId,
    pub number: u32,
    pub codename: Option<String>,
    pub range: Range,
    pub created_by: UserId,
    pub created_at_ms: u64,
    pub ping_roles: Vec<RoleId>,
    pub ended_at_ms: Option<u64>,
}

/// A season about to be created.
#[derive(Debug, Clone, PartialEq, Eq)]
pub struct NewSeason {
    pub guild: GuildId,
    pub channel: ChannelId,
    pub number: u32,
    pub codename: Option<String>,
    pub range: Range,
    pub created_by: UserId,
    pub created_at_ms: u64,
    pub ping_roles: Vec<RoleId>,
}

/// What an edit changes; `None` leaves a field as it is.
#[derive(Debug, Clone, PartialEq, Eq)]
pub struct SeasonChange {
    pub number: Option<u32>,
    pub first_day: Option<Day>,
    pub last_day: Option<Day>,
    pub codename: Option<Option<String>>,
    pub ping_roles: Option<Vec<RoleId>>,
}

impl Default for SeasonChange {
    fn default() -> (change: Self)
        ensures
            change.number is None,
            change.first_day is None,
            change.last_day is None,
            change.codename is None,
            change.ping_roles is None,
    {
        SeasonChange {
            number: None,
            first_day: None,
            last_day: None,
            codename: None,
            ping_roles: None,
        }
    }
}

/// Where a night's sign-up post stands.
#[derive(Debug, Clone, Copy, PartialEq, Eq, Structural)]
pub enum PostState {
    Open,
    Closed,
    Removed,
}

impl PostState {
    pub open spec fn text(self) -> Seq<char> {
        match self {
            PostState::Open => "open"@,
            PostState::Closed => "closed"@,
            PostState::Removed => "removed"@,
        }
    }

    pub fn as_text(self) -> (text: &'static str)
        ensures
            text@ == self.text(),
    {
        match self {
            PostState::Open => "open",
            PostState::Closed => "closed",
            PostState::Removed => "removed",
        }
    }

    pub fn from_text(text: &str) -> (state: Option<Self>)
        ensures
            match state {
                Some(state) => text@ == state.text(),
                None => text@ != "open"@ && text@ != "closed"@ && text@ != "removed"@,
            },
    {
        let owned = String::from_str(text);
        if owned == String::from_str("open") {
            Some(PostState::Open)
        } else if owned == String::from_str("closed") {
            Some(PostState::Closed)
        } else if owned == String::from_str("removed") {
            Some(PostState::Removed)
        } else {
            None
        }
    }
}

/// A night's sign-up post as stored.
#[derive(Debug, Clone, Copy, PartialEq, Eq, Structural)]
pub struct Post {
    pub night: Night,
    pub message: Snowflake,
    pub state: PostState,
    pub posted_at_ms: u64,
}

/// A player's answer for one hour of one night.
#[derive(Debug, Clone, Copy, PartialEq, Eq, Structural)]
pub struct Mark {
    pub user: UserId,
    pub hour: Hour,
    pub attending: bool,
    pub answered_at_ms: u64,
}

#[derive(Debug, Clone, PartialEq, Eq)]
pub enum CreateOutcome {
    Created(Season),
    NumberTaken,
    Overlaps(Season),
}

#[derive(Debug, Clone, PartialEq, Eq)]
pub enum EditOutcome {
    Edited { before: Season, after: Season },
    NumberTaken,
    Overlaps(Season),
    BadRange,
    TooFar,
    NotFound,
}

#[derive(Debug, Clone, PartialEq, Eq)]
pub enum EndOutcome {
    Removed,
    Ended { season: Season },
    NotFound,
}

// ---------------------------------------------------------------------------
// Reading stored values.

/// A player ID read back, which must be at least 1.
pub fn to_player(value: i64) -> (player: Result<UserId, AttendanceError>)
    ensures
        match player {
            Ok(player) => value >= 1 && player@ == value,
            Err(AttendanceError::InvalidPlayer { value: found }) => value < 1 && found == value,
            Err(_) => false,
        },
{
    if value >= 1 {
        Ok(UserId::new(value as u64))
    } else {
        Err(AttendanceError::InvalidPlayer { value })
    }
}

/// A role ID read back, which must be at least 1.
pub fn to_role(value: i64) -> (role: Result<RoleId, AttendanceError>)
    ensures
        match role {
            Ok(role) => value >= 1 && role@ == value,
            Err(AttendanceError::InvalidRole { value: found }) => value < 1 && found == value,
            Err(_) => false,
        },
{
    if value >= 1 {
        Ok(RoleId::new(value as u64))
    } else {
        Err(AttendanceError::InvalidRole { value })
    }
}

/// A season number read back, which must fit in a `u32`.
pub fn to_number(value: i64) -> (number: Result<u32, AttendanceError>)
    ensures
        match number {
            Ok(number) => 0 <= value <= u32::MAX && number == value,
            Err(AttendanceError::BadSeasonNumber { value: found }) => (value < 0 || value
                > u32::MAX) && found == value,
            Err(_) => false,
        },
{
    if 0 <= value && value <= u32::MAX as i64 {
        Ok(value as u32)
    } else {
        Err(AttendanceError::BadSeasonNumber { value })
    }
}

/// A value read back, which must not be negative.
pub fn to_unsigned(value: i64) -> (unsigned: Result<u64, AttendanceError>)
    ensures
        match unsigned {
            Ok(unsigned) => value >= 0 && unsigned == value,
            Err(AttendanceError::Negative { value: found }) => value < 0 && found == value,
            Err(_) => false,
        },
{
    if value >= 0 {
        Ok(value as u64)
    } else {
        Err(AttendanceError::Negative { value })
    }
}

/// A value to store, which must fit in a SQLite integer.
pub fn to_integer(value: u128) -> (integer: Result<i64, AttendanceError>)
    ensures
        match integer {
            Ok(integer) => value <= i64::MAX && integer == value,
            Err(AttendanceError::OutOfRange { value: found }) => value > i64::MAX && found == value,
            Err(_) => false,
        },
{
    if value <= i64::MAX as u128 {
        Ok(value as i64)
    } else {
        Err(AttendanceError::OutOfRange { value })
    }
}

/// The day a stored `YYYY-MM-DD` text spells.
pub open spec fn stored_day(text: Seq<char>) -> Option<(int, int, int)> {
    if encode_utf8(text).len() as usize == DAY_TEXT_LENGTH {
        parsed_date(text)
    } else {
        None
    }
}

/// A stored day.
pub fn to_day(value: &str) -> (day: Result<Day, AttendanceError>)
    ensures
        match day {
            Ok(day) => stored_day(value@) == Some(day.parts()),
            Err(AttendanceError::BadNight { value: found }) => stored_day(value@) is None && found@ == value@,
            Err(_) => false,
        },
{
    match parse_day(value) {
        Some(day) => Ok(day),
        None => Err(AttendanceError::BadNight { value: value.to_owned() }),
    }
}

/// A stored night.
pub fn to_night(value: &str) -> (night: Result<Night, AttendanceError>)
    ensures
        match night {
            Ok(night) => match stored_day(value@) {
                Some(parts) => Night::at(Day::of_parts(parts)) == Some(night),
                None => false,
            },
            Err(AttendanceError::BadNight { value: found }) => found@ == value@ && match stored_day(value@) {
                Some(parts) => Night::at(Day::of_parts(parts)) is None,
                None => true,
            },
            Err(_) => false,
        },
{
    match Night::parse(value) {
        Some(night) => Ok(night),
        None => Err(AttendanceError::BadNight { value: value.to_owned() }),
    }
}

/// A stored post: its night, message ID, state and when it went up.
pub fn to_post(row: (String, i64, String, i64)) -> (post: Result<Post, AttendanceError>)
    ensures
        post matches Ok(post) ==> {
            &&& stored_day(row.0@) matches Some(parts)
            &&& Night::at(Day::of_parts(parts)) == Some(post.night)
            &&& row.1 >= 0 && post.message@ == row.1
            &&& post.state.text() == row.2@
            &&& row.3 >= 0 && post.posted_at_ms == row.3
        },
        post is Err ==> {
            ||| !(stored_day(row.0@) matches Some(parts)
                && Night::at(Day::of_parts(parts)) is Some)
            ||| row.1 < 0
            ||| (row.2@ != "open"@ && row.2@ != "closed"@ && row.2@ != "removed"@)
            ||| row.3 < 0
        },
{
    let (night_text, message, state_text, posted_at_ms) = row;
    let night = match to_night(night_text.as_str()) {
        Ok(night) => night,
        Err(error) => return Err(error),
    };
    let message = match to_unsigned(message) {
        Ok(message) => Snowflake::new(message),
        Err(error) => return Err(error),
    };
    let state = match PostState::from_text(state_text.as_str()) {
        Some(state) => state,
        None => return Err(AttendanceError::BadState { value: state_text }),
    };
    let posted_at_ms = match to_unsigned(posted_at_ms) {
        Ok(at) => at,
        Err(error) => return Err(error),
    };
    Ok(Post { night, message, state, posted_at_ms })
}

/// A stored mark: player, hour, answer and when it was first given.
pub fn to_mark(row: (i64, i64, i64, i64)) -> (mark: Result<Mark, AttendanceError>)
    ensures
        mark matches Ok(mark) ==> {
            &&& row.0 >= 1 && mark.user@ == row.0
            &&& mark.hour.number() == row.1
            &&& mark.attending == (row.2 != 0)
            &&& row.3 >= 0 && mark.answered_at_ms == row.3
        },
        mark is Err ==> row.0 < 1 || !(1 <= row.1 <= 4) || row.3 < 0,
{
    let (user, hour, attending, answered_at_ms) = row;
    let user = match to_player(user) {
        Ok(user) => user,
        Err(error) => return Err(error),
    };
    let found = if 0 <= hour && hour <= 255 {
        Hour::new(hour as u8)
    } else {
        None
    };
    let hour = match found {
        Some(found) => found,
        None => return Err(AttendanceError::BadHour { value: hour }),
    };
    let answered_at_ms = match to_unsigned(answered_at_ms) {
        Ok(at) => at,
        Err(error) => return Err(error),
    };
    Ok(Mark { user, hour, attending: attending != 0, answered_at_ms })
}

/// The rule a stored `every_day` flag names: Clan Battle days for 0, every day otherwise.
pub open spec fn stored_days(flag: i64) -> Days {
    if flag == 0 {
        Days::ClanBattle
    } else {
        Days::Every
    }
}

/// The rule for a season's nights, read from its `every_day` flag.
pub fn to_days(flag: i64) -> (days: Days)
    ensures
        days == stored_days(flag),
{
    if flag == 0 {
        Days::ClanBattle
    } else {
        Days::Every
    }
}

/// The `every_day` flag stored for a rule: 0 for Clan Battle days, 1 for every day.
pub fn to_every_day(days: Days) -> (flag: i64)
    ensures
        flag == match days {
            Days::ClanBattle => 0i64,
            Days::Every => 1i64,
        },
        stored_days(flag) == days,
{
    match days {
        Days::ClanBattle => 0,
        Days::Every => 1,
    }
}

/// A stored season row, as `to_season` reads it.
pub type SeasonRow = (i64, i64, i64, i64, Option<String>, String, String, i64, i64, Option<i64>, i64);

/// Whether a stored season row reads back: both days are dates, the first no later than the
/// last, the IDs and times are not negative, the number fits in a `u32` and the creator is a
/// player.
pub open spec fn season_row_reads(row: SeasonRow) -> bool {
    match (stored_day(row.5@), stored_day(row.6@)) {
        (Some(first), Some(last)) => {
            &&& Day::of_parts(first).key() <= Day::of_parts(last).key()
            &&& row.1 >= 0
            &&& row.2 >= 0
            &&& 0 <= row.3 <= u32::MAX
            &&& row.7 >= 1
            &&& row.8 >= 0
            &&& match row.9 {
                Some(ended) => ended >= 0,
                None => true,
            }
        },
        _ => false,
    }
}

/// The error a stored season row that does not read back gives: the first check it fails, in
/// the order first day, last day, day order, server, channel, number, creator, creation time,
/// end time.
pub open spec fn season_row_error(row: SeasonRow, error: AttendanceError) -> bool {
    match (stored_day(row.5@), stored_day(row.6@)) {
        (None, _) => match error {
            AttendanceError::BadNight { value } => value@ == row.5@,
            _ => false,
        },
        (Some(_), None) => match error {
            AttendanceError::BadNight { value } => value@ == row.6@,
            _ => false,
        },
        (Some(first), Some(last)) => if Day::of_parts(first).key() > Day::of_parts(last).key() {
            match error {
                AttendanceError::BadNight { value } => value@ == row.6@,
                _ => false,
            }
        } else if row.1 < 0 {
            error == AttendanceError::Negative { value: row.1 }
        } else if row.2 < 0 {
            error == AttendanceError::Negative { value: row.2 }
        } else if row.3 < 0 || row.3 > u32::MAX {
            error == AttendanceError::BadSeasonNumber { value: row.3 }
        } else if row.7 < 1 {
            error == AttendanceError::InvalidPlayer { value: row.7 }
        } else if row.8 < 0 {
            error == AttendanceError::Negative { value: row.8 }
        } else {
            match row.9 {
                Some(ended) => ended < 0 && error == AttendanceError::Negative { value: ended },
                None => false,
            }
        },
    }
}

/// A stored season row: id, server, channel, number, codename, first and last day, creator,
/// creation time, end time and `every_day` flag, with its ping roles in order. It reads back
/// exactly when `season_row_reads` holds, and otherwise gives the error of the first check it
/// fails.
pub fn to_season(
    row: (i64, i64, i64, i64, Option<String>, String, String, i64, i64, Option<i64>, i64),
    ping_roles: Vec<RoleId>,
) -> (season: Result<Season, AttendanceError>)
    ensures
        season matches Ok(season) ==> {
            &&& season.id == row.0
            &&& row.1 >= 0 && season.guild@ == row.1
            &&& row.2 >= 0 && season.channel@ == row.2
            &&& season.number == row.3
            &&& season.codename == row.4
            &&& stored_day(row.5@) == Some(
                season.range.first().parts(),
            )
            &&& stored_day(row.6@) == Some(
                season.range.last().parts(),
            )
            &&& season.range.kind() == stored_days(row.10)
            &&& season.created_by@ == row.7
            &&& season.created_at_ms == row.8
            &&& season.ping_roles@ == ping_roles@
            &&& match row.9 {
                Some(ended) => season.ended_at_ms == Some(ended as u64) && ended >= 0,
                None => season.ended_at_ms is None,
            }
        },
        season is Ok <==> season_row_reads(row),
        season matches Err(error) ==> season_row_error(row, error),
{
    let (
        id,
        guild,
        channel,
        number,
        codename,
        first_day,
        last_day,
        created_by,
        created_at_ms,
        ended_at_ms,
        every_day,
    ) = row;
    let first = match to_day(first_day.as_str()) {
        Ok(day) => day,
        Err(error) => return Err(error),
    };
    let last = match to_day(last_day.as_str()) {
        Ok(day) => day,
        Err(error) => return Err(error),
    };
    proof {
        first.lemma_of_own_parts();
        last.lemma_of_own_parts();
    }
    let range = match Range::with_days(first, last, to_days(every_day)) {
        Some(range) => range,
        None => return Err(AttendanceError::BadNight { value: last_day }),
    };
    let guild = match to_unsigned(guild) {
        Ok(guild) => GuildId::new(guild),
        Err(error) => return Err(error),
    };
    let channel = match to_unsigned(channel) {
        Ok(channel) => ChannelId::new(channel),
        Err(error) => return Err(error),
    };
    let number = match to_number(number) {
        Ok(number) => number,
        Err(error) => return Err(error),
    };
    let created_by = match to_player(created_by) {
        Ok(player) => player,
        Err(error) => return Err(error),
    };
    let created_at_ms = match to_unsigned(created_at_ms) {
        Ok(at) => at,
        Err(error) => return Err(error),
    };
    let ended_at_ms = match ended_at_ms {
        Some(ended) => match to_unsigned(ended) {
            Ok(at) => Some(at),
            Err(error) => return Err(error),
        },
        None => None,
    };
    Ok(
        Season {
            id,
            guild,
            channel,
            number,
            codename,
            range,
            created_by,
            created_at_ms,
            ping_roles,
            ended_at_ms,
        },
    )
}

// ---------------------------------------------------------------------------
// Editing a season.

/// The range an edit asks for, before it is checked.
pub open spec fn edited_days(before: Range, change: SeasonChange) -> (Day, Day) {
    (
        match change.first_day {
            Some(day) => day,
            None => before.first(),
        },
        match change.last_day {
            Some(day) => day,
            None => before.last(),
        },
    )
}

/// Whether `range` sits within six months either side of `today`.
pub open spec fn range_near(range: Range, today: Day) -> bool {
    match (
        civil_months_before(today.parts(), RANGE_MONTHS as int),
        civil_months_after(today.parts(), RANGE_MONTHS as int),
    ) {
        (Some(earliest), Some(latest)) => Day::of_parts(earliest).key() <= range.first().key()
            && range.last().key() <= Day::of_parts(latest).key(),
        _ => false,
    }
}

/// The season an edit would leave, or why the edit cannot stand: its last day would come before
/// its first, or its dates would stray more than six months from today. Whether its number or
/// dates clash with another season is for the store to check.
pub fn apply_change(before: &Season, change: &SeasonChange, today: Day) -> (after: Result<
    Season,
    EditOutcome,
>)
    ensures
        match after {
            Ok(after) => {
                let (first, last) = edited_days(before.range, *change);
                &&& first.key() <= last.key()
                &&& after.range.first() == first && after.range.last() == last
                &&& after.range.kind() == before.range.kind()
                &&& range_near(after.range, today)
                &&& after.id == before.id && after.guild == before.guild && after.channel
                    == before.channel
                &&& after.number == match change.number {
                    Some(number) => number,
                    None => before.number,
                }
                &&& after.codename == match change.codename {
                    Some(codename) => codename,
                    None => before.codename,
                }
                &&& after.ping_roles@ == match change.ping_roles {
                    Some(roles) => roles@,
                    None => before.ping_roles@,
                }
                &&& after.created_by == before.created_by && after.created_at_ms
                    == before.created_at_ms && after.ended_at_ms == before.ended_at_ms
            },
            Err(EditOutcome::BadRange) => {
                let (first, last) = edited_days(before.range, *change);
                first.key() > last.key()
            },
            Err(EditOutcome::TooFar) => {
                let (first, last) = edited_days(before.range, *change);
                &&& first.key() <= last.key()
                &&& forall|range: Range|
                    range.first() == first && range.last() == last ==> !range_near(range, today)
            },
            Err(_) => false,
        },
{
    let first = match change.first_day {
        Some(day) => day,
        None => before.range.first_day(),
    };
    let last = match change.last_day {
        Some(day) => day,
        None => before.range.last_day(),
    };
    let range = match Range::with_days(first, last, before.range.days()) {
        Some(range) => range,
        None => return Err(EditOutcome::BadRange),
    };
    if !range.near(today) {
        return Err(EditOutcome::TooFar);
    }
    let number = match change.number {
        Some(number) => number,
        None => before.number,
    };
    let codename = match &change.codename {
        Some(codename) => codename.clone(),
        None => before.codename.clone(),
    };
    let ping_roles = match &change.ping_roles {
        Some(roles) => roles.clone(),
        None => before.ping_roles.clone(),
    };
    Ok(
        Season {
            id: before.id,
            guild: before.guild,
            channel: before.channel,
            number,
            codename,
            range,
            created_by: before.created_by,
            created_at_ms: before.created_at_ms,
            ping_roles,
            ended_at_ms: before.ended_at_ms,
        },
    )
}

// ---------------------------------------------------------------------------
// The tables the attendance store expects.

pub const CB_SEASONS: &'static str = "cb_seasons";
pub const CB_SEASON_PING_ROLES: &'static str = "cb_season_ping_roles";
pub const CB_POSTS: &'static str = "cb_posts";
pub const CB_MARKS: &'static str = "cb_marks";
pub const CB_REHEARSAL_CLOCK: &'static str = "cb_rehearsal_clock";
pub const LIVE_NUMBER_INDEX: &'static str = "cb_seasons_live_number";

pub open spec fn seasons_schema() -> Seq<(Seq<char>, Seq<char>, bool, bool)> {
    seq![
        ("id"@, "INTEGER"@, false, true),
        ("guild_id"@, "INTEGER"@, true, false),
        ("channel_id"@, "INTEGER"@, true, false),
        ("number"@, "INTEGER"@, true, false),
        ("codename"@, "TEXT"@, false, false),
        ("first_day"@, "TEXT"@, true, false),
        ("last_day"@, "TEXT"@, true, false),
        ("created_by"@, "INTEGER"@, true, false),
        ("created_at_ms"@, "INTEGER"@, true, false),
        ("ended_at_ms"@, "INTEGER"@, false, false),
        ("every_day"@, "INTEGER"@, true, false),
    ]
}

/// cb_seasons as it stood before a season could ping several roles.
pub open spec fn single_ping_seasons_schema() -> Seq<(Seq<char>, Seq<char>, bool, bool)> {
    seq![
        ("id"@, "INTEGER"@, false, true),
        ("guild_id"@, "INTEGER"@, true, false),
        ("channel_id"@, "INTEGER"@, true, false),
        ("number"@, "INTEGER"@, true, false),
        ("codename"@, "TEXT"@, false, false),
        ("first_day"@, "TEXT"@, true, false),
        ("last_day"@, "TEXT"@, true, false),
        ("created_by"@, "INTEGER"@, true, false),
        ("created_at_ms"@, "INTEGER"@, true, false),
        ("ping_role_id"@, "INTEGER"@, false, false),
        ("ended_at_ms"@, "INTEGER"@, false, false),
        ("every_day"@, "INTEGER"@, true, false),
    ]
}

pub open spec fn ping_roles_schema() -> Seq<(Seq<char>, Seq<char>, bool, bool)> {
    seq![
        ("season_id"@, "INTEGER"@, true, true),
        ("position"@, "INTEGER"@, true, true),
        ("role_id"@, "INTEGER"@, true, false),
    ]
}

pub open spec fn posts_schema() -> Seq<(Seq<char>, Seq<char>, bool, bool)> {
    seq![
        ("season_id"@, "INTEGER"@, true, true),
        ("night"@, "TEXT"@, true, true),
        ("message_id"@, "INTEGER"@, true, false),
        ("state"@, "TEXT"@, true, false),
        ("posted_at_ms"@, "INTEGER"@, true, false),
    ]
}

pub open spec fn marks_schema() -> Seq<(Seq<char>, Seq<char>, bool, bool)> {
    seq![
        ("season_id"@, "INTEGER"@, true, true),
        ("night"@, "TEXT"@, true, true),
        ("user_id"@, "INTEGER"@, true, true),
        ("hour"@, "INTEGER"@, true, true),
        ("attending"@, "INTEGER"@, true, false),
        ("answered_at_ms"@, "INTEGER"@, true, false),
        ("changed_at_ms"@, "INTEGER"@, true, false),
    ]
}

pub open spec fn rehearsal_clock_schema() -> Seq<(Seq<char>, Seq<char>, bool, bool)> {
    seq![("guild_id"@, "INTEGER"@, false, true), ("offset_s"@, "INTEGER"@, true, false)]
}

/// The columns each attendance table should have, in order; none for another name.
pub open spec fn attendance_schema(table: Seq<char>) -> Seq<(Seq<char>, Seq<char>, bool, bool)> {
    if table == CB_SEASONS@ {
        seasons_schema()
    } else if table == CB_SEASON_PING_ROLES@ {
        ping_roles_schema()
    } else if table == CB_POSTS@ {
        posts_schema()
    } else if table == CB_MARKS@ {
        marks_schema()
    } else if table == CB_REHEARSAL_CLOCK@ {
        rehearsal_clock_schema()
    } else {
        Seq::empty()
    }
}

/// The attendance tables, in the order they are checked.
pub fn attendance_tables() -> (tables: Vec<&'static str>)
    ensures
        tables@.map_values(|table: &str| table@) == seq![
            CB_SEASONS@,
            CB_SEASON_PING_ROLES@,
            CB_POSTS@,
            CB_MARKS@,
            CB_REHEARSAL_CLOCK@,
        ],
{
    let tables = vec![CB_SEASONS, CB_SEASON_PING_ROLES, CB_POSTS, CB_MARKS, CB_REHEARSAL_CLOCK];
    assert(tables@.map_values(|table: &str| table@) =~= seq![
        CB_SEASONS@,
        CB_SEASON_PING_ROLES@,
        CB_POSTS@,
        CB_MARKS@,
        CB_REHEARSAL_CLOCK@,
    ]);
    tables
}

fn single_ping_seasons_columns() -> (columns: Vec<Column>)
    ensures
        columns_parts(columns@) == single_ping_seasons_schema(),
{
    let mut columns: Vec<Column> = Vec::new();
    columns.push(column("id", "INTEGER", false, true));
    columns.push(column("guild_id", "INTEGER", true, false));
    columns.push(column("channel_id", "INTEGER", true, false));
    columns.push(column("number", "INTEGER", true, false));
    columns.push(column("codename", "TEXT", false, false));
    columns.push(column("first_day", "TEXT", true, false));
    columns.push(column("last_day", "TEXT", true, false));
    columns.push(column("created_by", "INTEGER", true, false));
    columns.push(column("created_at_ms", "INTEGER", true, false));
    columns.push(column("ping_role_id", "INTEGER", false, false));
    columns.push(column("ended_at_ms", "INTEGER", false, false));
    columns.push(column("every_day", "INTEGER", true, false));
    assert(columns_parts(columns@) =~= single_ping_seasons_schema());
    columns
}

/// The columns an attendance table should have.
pub fn expected_attendance_columns(table: &str) -> (columns: Vec<Column>)
    ensures
        columns_parts(columns@) == attendance_schema(table@),
{
    let mut columns: Vec<Column> = Vec::new();
    if same_text(table, CB_SEASONS) {
        columns.push(column("id", "INTEGER", false, true));
        columns.push(column("guild_id", "INTEGER", true, false));
        columns.push(column("channel_id", "INTEGER", true, false));
        columns.push(column("number", "INTEGER", true, false));
        columns.push(column("codename", "TEXT", false, false));
        columns.push(column("first_day", "TEXT", true, false));
        columns.push(column("last_day", "TEXT", true, false));
        columns.push(column("created_by", "INTEGER", true, false));
        columns.push(column("created_at_ms", "INTEGER", true, false));
        columns.push(column("ended_at_ms", "INTEGER", false, false));
        columns.push(column("every_day", "INTEGER", true, false));
    } else if same_text(table, CB_SEASON_PING_ROLES) {
        columns.push(column("season_id", "INTEGER", true, true));
        columns.push(column("position", "INTEGER", true, true));
        columns.push(column("role_id", "INTEGER", true, false));
    } else if same_text(table, CB_POSTS) {
        columns.push(column("season_id", "INTEGER", true, true));
        columns.push(column("night", "TEXT", true, true));
        columns.push(column("message_id", "INTEGER", true, false));
        columns.push(column("state", "TEXT", true, false));
        columns.push(column("posted_at_ms", "INTEGER", true, false));
    } else if same_text(table, CB_MARKS) {
        columns.push(column("season_id", "INTEGER", true, true));
        columns.push(column("night", "TEXT", true, true));
        columns.push(column("user_id", "INTEGER", true, true));
        columns.push(column("hour", "INTEGER", true, true));
        columns.push(column("attending", "INTEGER", true, false));
        columns.push(column("answered_at_ms", "INTEGER", true, false));
        columns.push(column("changed_at_ms", "INTEGER", true, false));
    } else if same_text(table, CB_REHEARSAL_CLOCK) {
        columns.push(column("guild_id", "INTEGER", false, true));
        columns.push(column("offset_s", "INTEGER", true, false));
    }
    assert(columns_parts(columns@) =~= attendance_schema(table@));
    columns
}

/// Whether the store still keeps one ping role in cb_seasons, before the table of ping roles
/// was added: cb_seasons has its old columns and the ping role table has none.
pub fn ping_roles_unmigrated(seasons: &Vec<Column>, ping_roles: &Vec<Column>) -> (old: bool)
    ensures
        old == (columns_parts(seasons@) == single_ping_seasons_schema() && ping_roles@.len() == 0),
{
    let expected = single_ping_seasons_columns();
    same_columns(seasons, &expected) && ping_roles.len() == 0
}

/// What is wrong with an attendance table whose columns were found to be `found`: it is
/// missing when it has no columns, and unexpected when they are not the ones it should have.
pub fn attendance_table_problem(table: &'static str, found: Vec<Column>) -> (problem: Result<
    (),
    AttendanceError,
>)
    ensures
        match problem {
            Ok(()) => columns_parts(found@) == attendance_schema(table@),
            Err(AttendanceError::MissingTable { table: named }) => found@.len() == 0 && named
                == table,
            Err(AttendanceError::UnexpectedColumns { table: named, found: listed }) => found@.len()
                != 0 && columns_parts(found@) != attendance_schema(table@) && named == table
                && listed@ == found@,
            Err(_) => false,
        },
{
    if found.len() == 0 {
        return Err(AttendanceError::MissingTable { table });
    }
    let expected = expected_attendance_columns(table);
    if same_columns(&found, &expected) {
        Ok(())
    } else {
        Err(AttendanceError::UnexpectedColumns { table, found })
    }
}

} // verus!
