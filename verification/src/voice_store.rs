use vstd::prelude::*;

use crate::ids::ChannelId;
use crate::ids::GuildId;
use crate::ids::UserId;
use crate::render::same_text;
use crate::solves::column;
use crate::solves::columns_parts;
use crate::solves::same_columns;
use crate::solves::Column;

verus! {

#[derive(Debug)]
pub enum VoiceStoreError {
    Database(sqlx::Error),
    MissingTable { table: &'static str },
    UnexpectedColumns { table: &'static str, found: Vec<Column> },
    MissingIndex { index: &'static str },
    OutOfRange { value: u128 },
    Negative { value: i64 },
    InvalidUser { value: i64 },
    BadNumber { value: i64 },
}

/// A Join to Create channel.
#[derive(Debug, Clone, PartialEq, Eq)]
pub struct Hub {
    pub channel: ChannelId,
    pub guild: GuildId,
    pub room_name: String,
    pub created_by: UserId,
    pub created_at_ms: u64,
}

/// A room a Join to Create channel opened.
#[derive(Debug, Clone, PartialEq, Eq)]
pub struct Room {
    pub channel: ChannelId,
    pub guild: GuildId,
    pub hub: ChannelId,
    pub room_name: String,
    pub number: u32,
    pub owner: UserId,
    pub created_at_ms: u64,
    pub empty_since_ms: Option<u64>,
}

/// A user ID read back, which must be at least 1.
pub fn to_user(value: i64) -> (user: Result<UserId, VoiceStoreError>)
    ensures
        match user {
            Ok(user) => value >= 1 && user@ == value,
            Err(VoiceStoreError::InvalidUser { value: found }) => value < 1 && found == value,
            Err(_) => false,
        },
{
    if value >= 1 {
        Ok(UserId::new(value as u64))
    } else {
        Err(VoiceStoreError::InvalidUser { value })
    }
}

/// A room number read back, which must be a positive `u32`.
pub fn to_number(value: i64) -> (number: Result<u32, VoiceStoreError>)
    ensures
        match number {
            Ok(number) => 1 <= value <= u32::MAX && number == value,
            Err(VoiceStoreError::BadNumber { value: found }) => !(1 <= value <= u32::MAX) && found
                == value,
            Err(_) => false,
        },
{
    if 1 <= value && value <= u32::MAX as i64 {
        Ok(value as u32)
    } else {
        Err(VoiceStoreError::BadNumber { value })
    }
}

/// A value read back, which must not be negative.
pub fn to_unsigned(value: i64) -> (unsigned: Result<u64, VoiceStoreError>)
    ensures
        match unsigned {
            Ok(unsigned) => value >= 0 && unsigned == value,
            Err(VoiceStoreError::Negative { value: found }) => value < 0 && found == value,
            Err(_) => false,
        },
{
    if value >= 0 {
        Ok(value as u64)
    } else {
        Err(VoiceStoreError::Negative { value })
    }
}

/// A value to store, which must fit in a SQLite integer.
pub fn to_integer(value: u128) -> (integer: Result<i64, VoiceStoreError>)
    ensures
        match integer {
            Ok(integer) => value <= i64::MAX && integer == value,
            Err(VoiceStoreError::OutOfRange { value: found }) => value > i64::MAX && found == value,
            Err(_) => false,
        },
{
    if value <= i64::MAX as u128 {
        Ok(value as i64)
    } else {
        Err(VoiceStoreError::OutOfRange { value })
    }
}

/// A stored hub row: channel, server, room name, creator and creation time.
pub fn to_hub(row: (i64, i64, String, i64, i64)) -> (hub: Result<Hub, VoiceStoreError>)
    ensures
        hub matches Ok(hub) ==> {
            &&& row.0 >= 0 && hub.channel@ == row.0
            &&& row.1 >= 0 && hub.guild@ == row.1
            &&& hub.room_name == row.2
            &&& row.3 >= 1 && hub.created_by@ == row.3
            &&& row.4 >= 0 && hub.created_at_ms == row.4
        },
        hub is Err ==> row.0 < 0 || row.1 < 0 || row.3 < 1 || row.4 < 0,
{
    let (channel, guild, room_name, created_by, created_at_ms) = row;
    let channel = match to_unsigned(channel) {
        Ok(channel) => ChannelId::new(channel),
        Err(error) => return Err(error),
    };
    let guild = match to_unsigned(guild) {
        Ok(guild) => GuildId::new(guild),
        Err(error) => return Err(error),
    };
    let created_by = match to_user(created_by) {
        Ok(user) => user,
        Err(error) => return Err(error),
    };
    let created_at_ms = match to_unsigned(created_at_ms) {
        Ok(at) => at,
        Err(error) => return Err(error),
    };
    Ok(Hub { channel, guild, room_name, created_by, created_at_ms })
}

/// A stored room row: channel, server, hub, room name, number, owner, creation time and when it
/// emptied.
pub fn to_room(row: (i64, i64, i64, String, i64, i64, i64, Option<i64>)) -> (room: Result<
    Room,
    VoiceStoreError,
>)
    ensures
        room matches Ok(room) ==> {
            &&& row.0 >= 0 && room.channel@ == row.0
            &&& row.1 >= 0 && room.guild@ == row.1
            &&& row.2 >= 0 && room.hub@ == row.2
            &&& room.room_name == row.3
            &&& room.number == row.4
            &&& row.5 >= 1 && room.owner@ == row.5
            &&& row.6 >= 0 && room.created_at_ms == row.6
            &&& match row.7 {
                Some(since) => since >= 0 && room.empty_since_ms == Some(since as u64),
                None => room.empty_since_ms is None,
            }
        },
        room is Err ==> row.0 < 0 || row.1 < 0 || row.2 < 0 || !(1 <= row.4 <= u32::MAX) || row.5
            < 1 || row.6 < 0 || (row.7 matches Some(since) && since < 0),
{
    let (channel, guild, hub, room_name, number, owner, created_at_ms, empty_since_ms) = row;
    let channel = match to_unsigned(channel) {
        Ok(channel) => ChannelId::new(channel),
        Err(error) => return Err(error),
    };
    let guild = match to_unsigned(guild) {
        Ok(guild) => GuildId::new(guild),
        Err(error) => return Err(error),
    };
    let hub = match to_unsigned(hub) {
        Ok(hub) => ChannelId::new(hub),
        Err(error) => return Err(error),
    };
    let number = match to_number(number) {
        Ok(number) => number,
        Err(error) => return Err(error),
    };
    let owner = match to_user(owner) {
        Ok(owner) => owner,
        Err(error) => return Err(error),
    };
    let created_at_ms = match to_unsigned(created_at_ms) {
        Ok(at) => at,
        Err(error) => return Err(error),
    };
    let empty_since_ms = match empty_since_ms {
        Some(since) => match to_unsigned(since) {
            Ok(since) => Some(since),
            Err(error) => return Err(error),
        },
        None => None,
    };
    Ok(Room { channel, guild, hub, room_name, number, owner, created_at_ms, empty_since_ms })
}

/// The highest of the numbers, or 0 when there are none.
pub open spec fn highest(numbers: Seq<u32>) -> int
    decreases numbers.len(),
{
    if numbers.len() == 0 {
        0
    } else {
        let earlier = highest(numbers.drop_last());
        if numbers.last() > earlier {
            numbers.last() as int
        } else {
            earlier
        }
    }
}

/// The number of a hub's next room: one more than the highest number among the rooms still
/// open in the server under the same room name, `open`, or 1 when none is; `None` when that
/// would not fit a room number.
pub fn next_room_number(open: &[u32]) -> (next: Option<u32>)
    ensures
        match next {
            Some(next) => next == highest(open@) + 1,
            None => highest(open@) + 1 > u32::MAX,
        },
{
    let mut top: u32 = 0;
    let mut index: usize = 0;
    while index < open.len()
        invariant
            index <= open.len(),
            top == highest(open@.take(index as int)),
        decreases open.len() - index,
    {
        assert(open@.take(index + 1).drop_last() == open@.take(index as int));
        if open[index] > top {
            top = open[index];
        }
        index = index + 1;
    }
    assert(open@.take(open.len() as int) == open@);
    if top == u32::MAX {
        None
    } else {
        Some(top + 1)
    }
}

proof fn lemma_highest_bounds(numbers: Seq<u32>)
    ensures
        forall|i: int| 0 <= i < numbers.len() ==> numbers[i] <= highest(numbers),
        numbers.len() == 0 ==> highest(numbers) == 0,
        numbers.len() > 0 ==> exists|i: int| 0 <= i < numbers.len() && numbers[i] == highest(numbers),
    decreases numbers.len(),
{
    if numbers.len() > 0 {
        let earlier = numbers.drop_last();
        lemma_highest_bounds(earlier);
        assert forall|i: int| 0 <= i < numbers.len() implies numbers[i] <= highest(numbers) by {
            if i < numbers.len() - 1 {
                assert(numbers[i] == earlier[i]);
            }
        }
        if numbers.last() > highest(earlier) {
            assert(numbers[numbers.len() - 1] == highest(numbers));
        } else if earlier.len() > 0 {
            let k = choose|k: int| 0 <= k < earlier.len() && earlier[k] == highest(earlier);
            assert(numbers[k] == highest(numbers));
        } else {
            assert(numbers[0] == highest(numbers));
        }
    }
}

/// A new room's number clashes with no room open under its name: it is above every one of
/// them, and it is the first such number, so closing the highest room frees its number for
/// the next.
pub proof fn law_room_numbers_do_not_clash(open: Seq<u32>)
    ensures
        forall|i: int| 0 <= i < open.len() ==> open[i] < highest(open) + 1,
        open.len() == 0 ==> highest(open) + 1 == 1,
        open.len() > 0 ==> exists|i: int| 0 <= i < open.len() && open[i] + 1 == highest(open) + 1,
{
    lemma_highest_bounds(open);
}

// ---------------------------------------------------------------------------
// The tables the voice store expects.

pub const VC_HUBS: &'static str = "vc_hubs";
pub const VC_ROOMS: &'static str = "vc_rooms";
pub const NUMBERED_INDEX: &'static str = "vc_rooms_numbered";

pub open spec fn hubs_schema() -> Seq<(Seq<char>, Seq<char>, bool, bool)> {
    seq![
        ("channel_id"@, "INTEGER"@, false, true),
        ("guild_id"@, "INTEGER"@, true, false),
        ("room_name"@, "TEXT"@, true, false),
        ("created_by"@, "INTEGER"@, true, false),
        ("created_at_ms"@, "INTEGER"@, true, false),
    ]
}

pub open spec fn rooms_schema() -> Seq<(Seq<char>, Seq<char>, bool, bool)> {
    seq![
        ("channel_id"@, "INTEGER"@, false, true),
        ("guild_id"@, "INTEGER"@, true, false),
        ("hub_id"@, "INTEGER"@, true, false),
        ("room_name"@, "TEXT"@, true, false),
        ("number"@, "INTEGER"@, true, false),
        ("owner_id"@, "INTEGER"@, true, false),
        ("created_at_ms"@, "INTEGER"@, true, false),
        ("empty_since_ms"@, "INTEGER"@, false, false),
    ]
}

/// The columns each voice table should have, in order; none for another name.
pub open spec fn voice_schema(table: Seq<char>) -> Seq<(Seq<char>, Seq<char>, bool, bool)> {
    if table == VC_HUBS@ {
        hubs_schema()
    } else if table == VC_ROOMS@ {
        rooms_schema()
    } else {
        Seq::empty()
    }
}

/// The voice tables, in the order they are checked.
pub fn voice_tables() -> (tables: Vec<&'static str>)
    ensures
        tables@.map_values(|table: &str| table@) == seq![VC_HUBS@, VC_ROOMS@],
{
    let tables = vec![VC_HUBS, VC_ROOMS];
    assert(tables@.map_values(|table: &str| table@) =~= seq![VC_HUBS@, VC_ROOMS@]);
    tables
}

/// The columns a voice table should have.
pub fn expected_voice_columns(table: &str) -> (columns: Vec<Column>)
    ensures
        columns_parts(columns@) == voice_schema(table@),
{
    let mut columns: Vec<Column> = Vec::new();
    if same_text(table, VC_HUBS) {
        columns.push(column("channel_id", "INTEGER", false, true));
        columns.push(column("guild_id", "INTEGER", true, false));
        columns.push(column("room_name", "TEXT", true, false));
        columns.push(column("created_by", "INTEGER", true, false));
        columns.push(column("created_at_ms", "INTEGER", true, false));
    } else if same_text(table, VC_ROOMS) {
        columns.push(column("channel_id", "INTEGER", false, true));
        columns.push(column("guild_id", "INTEGER", true, false));
        columns.push(column("hub_id", "INTEGER", true, false));
        columns.push(column("room_name", "TEXT", true, false));
        columns.push(column("number", "INTEGER", true, false));
        columns.push(column("owner_id", "INTEGER", true, false));
        columns.push(column("created_at_ms", "INTEGER", true, false));
        columns.push(column("empty_since_ms", "INTEGER", false, false));
    }
    assert(columns_parts(columns@) =~= voice_schema(table@));
    columns
}

/// What is wrong with a voice table whose columns were found to be `found`.
pub fn voice_table_problem(table: &'static str, found: Vec<Column>) -> (problem: Result<
    (),
    VoiceStoreError,
>)
    ensures
        match problem {
            Ok(()) => columns_parts(found@) == voice_schema(table@),
            Err(VoiceStoreError::MissingTable { table: named }) => found@.len() == 0 && named
                == table,
            Err(VoiceStoreError::UnexpectedColumns { table: named, found: listed }) => found@.len()
                != 0 && columns_parts(found@) != voice_schema(table@) && named == table
                && listed@ == found@,
            Err(_) => false,
        },
{
    if found.len() == 0 {
        return Err(VoiceStoreError::MissingTable { table });
    }
    let expected = expected_voice_columns(table);
    if same_columns(&found, &expected) {
        Ok(())
    } else {
        Err(VoiceStoreError::UnexpectedColumns { table, found })
    }
}

} // verus!
