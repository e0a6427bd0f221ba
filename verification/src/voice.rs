use std::collections::HashMap;
use vstd::prelude::*;
use vstd::string::*;

use crate::failure::failed;
use crate::failure::failed_text;
use crate::failure::Failure;
use crate::failure::Scope;
use crate::ids::ChannelId;
use crate::ids::RoleId;
use crate::ids::UserId;
use crate::render::digits;
use crate::render::push_nat;
use crate::render::trim;
use crate::render::trimmed;
use crate::render::same_text;
use crate::replies::cleaned;
use crate::text::Refusal;
use crate::voice_store::Hub;
use crate::voice_store::Room;

verus! {

broadcast use vstd::string::group_string_axioms, vstd::std_specs::hash::group_hash_axioms;

/// An empty room closes after five minutes.
pub const EMPTY_GRACE_MS: u64 = 300000;
/// A channel younger than a minute may not have reached the cache yet.
pub const NEW_CHANNEL_GRACE_MS: u64 = 60000;
/// A hub tells members about a problem at most once a minute.
pub const NOTICE_INTERVAL_MS: u64 = 60000;
pub const ROOM_NAME_LIMIT: usize = 90;
pub const HUB_NAME_LIMIT: usize = 100;

pub const MANAGE_CHANNELS: u64 = 16;
pub const VIEW_CHANNEL: u64 = 1024;
pub const CONNECT: u64 = 1048576;
pub const MOVE_MEMBERS: u64 = 16777216;
/// What Barnacle needs in a room to run it.
pub const ROOM_ACCESS: u64 = VIEW_CHANNEL | CONNECT | MOVE_MEMBERS | MANAGE_CHANNELS;

#[derive(Debug, Clone, Copy, PartialEq, Eq, Structural)]
pub enum NameProblem {
    Empty,
    TooLong { limit: usize },
}

/// A channel name without surrounding white space, which must not be empty or longer than
/// `limit` characters.
pub fn clean_name(raw: &str, limit: usize) -> (name: Result<String, NameProblem>)
    ensures
        match name {
            Ok(name) => name@ == trimmed(raw@) && 0 < name@.len() <= limit,
            Err(NameProblem::Empty) => trimmed(raw@).len() == 0,
            Err(NameProblem::TooLong { limit: told }) => told == limit && trimmed(raw@).len()
                > limit,
        },
{
    let name = trim(raw);
    if name.as_str().is_empty() {
        Err(NameProblem::Empty)
    } else if name.as_str().unicode_len() > limit {
        Err(NameProblem::TooLong { limit })
    } else {
        Ok(name)
    }
}

pub open spec fn room_channel_name_text(room_name: Seq<char>, number: nat) -> Seq<char> {
    room_name + "-"@ + digits(number)
}

/// The name of a hub's numbered room, such as `cb-3`.
pub fn room_channel_name(room_name: &str, number: u32) -> (name: String)
    ensures
        name@ == room_channel_name_text(room_name@, number as nat),
{
    let mut name = String::from_str(room_name);
    name.append("-");
    push_nat(&mut name, number as u64);
    name
}

/// Whom a permission overwrite is for.
#[derive(Debug, Clone, Copy, PartialEq, Eq, Structural)]
pub enum OverwriteTarget {
    Role(RoleId),
    Member(UserId),
}

#[derive(Debug, Clone, Copy, PartialEq, Eq, Structural)]
pub struct Overwrite {
    pub target: OverwriteTarget,
    pub allow: u64,
    pub deny: u64,
}

/// How a hub's rooms are laid out and what Barnacle lacks to copy its permissions.
#[derive(Debug, Clone, PartialEq, Eq)]
pub struct HubLayout {
    pub category: Option<ChannelId>,
    pub position: u16,
    pub bitrate: Option<u32>,
    pub user_limit: Option<u32>,
    pub rtc_region: Option<String>,
    pub video_quality: Option<u8>,
    pub overwrites: Vec<Overwrite>,
    pub blockers: Vec<&'static str>,
}

#[derive(Debug, Clone, PartialEq, Eq)]
pub struct RoomSpec {
    pub name: String,
    pub layout: HubLayout,
}

/// The overwrites with Barnacle's own one granting it what it needs in a room and denying it
/// none of that; one is added at the end when there was none.
pub open spec fn room_access_overwrites(overwrites: Seq<Overwrite>, bot: UserId) -> Seq<Overwrite> {
    let own = OverwriteTarget::Member(bot);
    if exists|i: int| 0 <= i < overwrites.len() && (#[trigger] overwrites[i]).target == own {
        overwrites.map_values(
            |overwrite: Overwrite|
                if overwrite.target == own {
                    Overwrite {
                        target: own,
                        allow: overwrite.allow | ROOM_ACCESS,
                        deny: overwrite.deny & !ROOM_ACCESS,
                    }
                } else {
                    overwrite
                },
        )
    } else {
        overwrites.push(Overwrite { target: own, allow: ROOM_ACCESS, deny: 0 })
    }
}

pub fn with_room_access(overwrites: &[Overwrite], bot: UserId) -> (granted: Vec<Overwrite>)
    ensures
        granted@ == room_access_overwrites(overwrites@, bot),
{
    let own = OverwriteTarget::Member(bot);
    let mut found = false;
    let mut index: usize = 0;
    while index < overwrites.len()
        invariant
            index <= overwrites.len(),
            found == exists|i: int| 0 <= i < index && (#[trigger] overwrites@[i]).target == own,
        decreases overwrites.len() - index,
    {
        if overwrites[index].target == own {
            found = true;
        }
        index = index + 1;
    }
    let mut granted: Vec<Overwrite> = Vec::new();
    let mut index: usize = 0;
    while index < overwrites.len()
        invariant
            index <= overwrites.len(),
            granted@.len() == index,
            forall|i: int|
                0 <= i < index ==> #[trigger] granted@[i] == (if overwrites@[i].target == own {
                    Overwrite {
                        target: own,
                        allow: overwrites@[i].allow | ROOM_ACCESS,
                        deny: overwrites@[i].deny & !ROOM_ACCESS,
                    }
                } else {
                    overwrites@[i]
                }),
        decreases overwrites.len() - index,
    {
        let overwrite = overwrites[index];
        if overwrite.target == own {
            granted.push(
                Overwrite {
                    target: own,
                    allow: overwrite.allow | ROOM_ACCESS,
                    deny: overwrite.deny & !ROOM_ACCESS,
                },
            );
        } else {
            granted.push(overwrite);
        }
        index = index + 1;
    }
    if found {
        assert(granted@ =~= room_access_overwrites(overwrites@, bot));
        granted
    } else {
        assert(granted@ =~= overwrites@);
        granted.push(Overwrite { target: own, allow: ROOM_ACCESS, deny: 0 });
        granted
    }
}

#[derive(Debug, Clone, Copy, PartialEq, Eq, Structural)]
pub enum MoveOutcome {
    Moved,
    NotInVoice,
}

#[derive(Debug, Clone, Copy, PartialEq, Eq, Structural)]
pub enum RoomRemoval {
    Deleted,
    Gone,
}

/// What the cache says about a voice channel.
#[derive(Debug, Clone, Copy, PartialEq, Eq, Structural)]
pub enum Occupancy {
    Unknown,
    Missing,
    Empty,
    Occupied(usize),
}

#[derive(Debug, Clone, PartialEq, Eq)]
pub enum JoinOutcome {
    Opened { room: ChannelId, number: u32 },
    Refused(Failure),
    Abandoned,
    Failed(Failure),
}

#[derive(Debug, Clone, Copy, PartialEq, Eq, Structural)]
pub struct SweepReport {
    pub closed: usize,
    pub forgotten: usize,
    pub failures: usize,
}

impl Default for SweepReport {
    fn default() -> (report: Self)
        ensures
            report == (SweepReport { closed: 0, forgotten: 0, failures: 0 }),
    {
        SweepReport { closed: 0, forgotten: 0, failures: 0 }
    }
}

pub open spec fn is_settled(created_at_ms: u64, now_ms: u64) -> bool {
    now_ms >= created_at_ms && now_ms - created_at_ms >= NEW_CHANNEL_GRACE_MS
}

/// Whether a channel is old enough for the cache to know it.
pub fn settled(created_at_ms: u64, now_ms: u64) -> (old_enough: bool)
    ensures
        old_enough == is_settled(created_at_ms, now_ms),
{
    now_ms.saturating_sub(created_at_ms) >= NEW_CHANNEL_GRACE_MS
}

/// Whether a hub's channel is gone, so the hub should be forgotten.
pub fn hub_vanished(hub: &Hub, occupancy: Occupancy, now_ms: u64) -> (vanished: bool)
    ensures
        vanished == (is_settled(hub.created_at_ms, now_ms) && occupancy == Occupancy::Missing),
{
    settled(hub.created_at_ms, now_ms) && occupancy == Occupancy::Missing
}

/// What a sweep does with one room.
#[derive(Debug, Clone, Copy, PartialEq, Eq, Structural)]
pub enum RoomStep {
    Keep,
    Forget,
    MarkOccupied,
    MarkEmpty,
    Close,
}

pub open spec fn room_step_of(room: Room, occupancy: Occupancy, now_ms: u64) -> RoomStep {
    match occupancy {
        Occupancy::Unknown => RoomStep::Keep,
        Occupancy::Missing => if is_settled(room.created_at_ms, now_ms) {
            RoomStep::Forget
        } else {
            RoomStep::Keep
        },
        Occupancy::Occupied(_) => if room.empty_since_ms is Some {
            RoomStep::MarkOccupied
        } else {
            RoomStep::Keep
        },
        Occupancy::Empty => match room.empty_since_ms {
            None => RoomStep::MarkEmpty,
            Some(since) => if now_ms >= since && now_ms - since >= EMPTY_GRACE_MS {
                RoomStep::Close
            } else {
                RoomStep::Keep
            },
        },
    }
}

/// What a sweep does with a room, given what the cache says about its channel.
pub fn room_step(room: &Room, occupancy: Occupancy, now_ms: u64) -> (step: RoomStep)
    ensures
        step == room_step_of(*room, occupancy, now_ms),
{
    match occupancy {
        Occupancy::Unknown => RoomStep::Keep,
        Occupancy::Missing => if settled(room.created_at_ms, now_ms) {
            RoomStep::Forget
        } else {
            RoomStep::Keep
        },
        Occupancy::Occupied(_) => if room.empty_since_ms.is_some() {
            RoomStep::MarkOccupied
        } else {
            RoomStep::Keep
        },
        Occupancy::Empty => match room.empty_since_ms {
            None => RoomStep::MarkEmpty,
            Some(since) => if now_ms.saturating_sub(since) >= EMPTY_GRACE_MS {
                RoomStep::Close
            } else {
                RoomStep::Keep
            },
        },
    }
}

/// A room is closed only when the cache sees it empty and it has been empty for the whole
/// grace period; a room the cache sees occupied, or does not know, is never closed or forgotten;
/// and a room younger than a minute is never forgotten.
pub proof fn law_sweep_spares_rooms_in_use(room: Room, occupancy: Occupancy, now_ms: u64)
    ensures
        room_step_of(room, occupancy, now_ms) == RoomStep::Close ==> (occupancy == Occupancy::Empty
            && (room.empty_since_ms matches Some(since) && now_ms - since >= EMPTY_GRACE_MS)),
        (occupancy is Occupied || occupancy is Unknown) ==> room_step_of(room, occupancy, now_ms)
            != RoomStep::Close && room_step_of(room, occupancy, now_ms) != RoomStep::Forget,
        !is_settled(room.created_at_ms, now_ms) ==> room_step_of(room, occupancy, now_ms)
            != RoomStep::Forget,
{
}

/// When each hub last told a member about a problem.
pub struct Notices {
    last: HashMap<u64, u64>,
}

impl View for Notices {
    type V = Map<u64, u64>;

    closed spec fn view(&self) -> Map<u64, u64> {
        self.last@
    }
}

/// A hub may tell a member about a problem when it never has, or when the interval has passed
/// since it last did.
pub open spec fn notice_due(last: Map<u64, u64>, hub: u64, now_ms: u64) -> bool {
    !last.contains_key(hub) || (now_ms >= last[hub] && now_ms - last[hub] >= NOTICE_INTERVAL_MS)
}

impl Notices {
    pub fn new() -> (notices: Self)
        ensures
            notices@ == Map::<u64, u64>::empty(),
    {
        Notices { last: HashMap::new() }
    }

    /// Whether the hub may tell a member about a problem now; when it may, now is remembered.
    pub fn may_notify(&mut self, hub: ChannelId, now_ms: u64) -> (due: bool)
        ensures
            due == notice_due(old(self)@, hub@, now_ms),
            final(self)@ == if due {
                old(self)@.insert(hub@, now_ms)
            } else {
                old(self)@
            },
    {
        let key = hub.get();
        let due = match self.last.get(&key) {
            Some(last) => now_ms.saturating_sub(*last) >= NOTICE_INTERVAL_MS,
            None => true,
        };
        if due {
            self.last.insert(key, now_ms);
        }
        due
    }
}

/// Once a hub has told a member about a problem, it stays quiet until the interval has passed.
pub proof fn law_notices_are_spaced(last: Map<u64, u64>, hub: u64, told_at: u64, now_ms: u64)
    requires
        told_at <= now_ms < told_at + NOTICE_INTERVAL_MS,
    ensures
        !notice_due(last.insert(hub, told_at), hub, now_ms),
        notice_due(last.insert(hub, told_at), hub, (told_at + NOTICE_INTERVAL_MS) as u64)
            || told_at + NOTICE_INTERVAL_MS > u64::MAX,
{
}

pub open spec fn room_notice_text(user: UserId, failure: Failure) -> Seq<char> {
    "<@"@ + digits(user@ as nat) + "> "@ + failed_text(
        "Barnacle could not open a room for you"@,
        failure,
    )
}

/// What a member is told when their room did not open.
pub fn room_notice(user: UserId, failure: &Failure) -> (notice: String)
    ensures
        notice@ == room_notice_text(user, *failure),
{
    let mut notice = String::from_str("<@");
    push_nat(&mut notice, user.get());
    notice.append("> ");
    let told = failed("Barnacle could not open a room for you", failure);
    notice.append(told.as_str());
    notice
}

/// The failure a member's join comes to when Barnacle cannot copy the hub's permissions.
pub fn join_refusal(layout: &HubLayout) -> (refusal: Option<Failure>)
    ensures
        match refusal {
            Some(failure) => layout.blockers@.len() > 0 && failure.kind
                == crate::failure::Kind::MissingPermissions && failure.missing@ == layout.blockers@,
            None => layout.blockers@.len() == 0,
        },
{
    if layout.blockers.len() == 0 {
        None
    } else {
        Some(Failure::missing_permissions(layout.blockers.clone()))
    }
}

/// What a log line about a hub is about.
pub fn hub_scope(hub: &Hub) -> (scope: Scope)
    ensures
        scope == (Scope { guild: Some(hub.guild), hub: Some(hub.channel), ..crate::failure::empty_scope() }),
{
    Scope::default().guild(hub.guild).hub(hub.channel)
}

/// What a log line about a room is about.
pub fn room_scope(room: &Room) -> (scope: Scope)
    ensures
        scope == (Scope {
            guild: Some(room.guild),
            hub: Some(room.hub),
            room: Some(room.channel),
            room_number: Some(room.number),
            ..crate::failure::empty_scope()
        }),
{
    Scope::default().guild(room.guild).hub(room.hub).room(room.channel).room_number(room.number)
}

/// Every room gives Barnacle its own overwrite that allows everything it needs to run the
/// room and denies none of it, and leaves every other overwrite as the hub has it.
pub proof fn law_room_access_granted(overwrites: Seq<Overwrite>, bot: UserId)
    ensures
        exists|i: int|
            0 <= i < room_access_overwrites(overwrites, bot).len() && {
                let own = #[trigger] room_access_overwrites(overwrites, bot)[i];
                &&& own.target == OverwriteTarget::Member(bot)
                &&& own.allow & ROOM_ACCESS == ROOM_ACCESS
                &&& own.deny & ROOM_ACCESS == 0
            },
        forall|i: int|
            0 <= i < overwrites.len() && overwrites[i].target != OverwriteTarget::Member(bot)
                ==> #[trigger] room_access_overwrites(overwrites, bot)[i] == overwrites[i],
{
    let own = OverwriteTarget::Member(bot);
    let granted = room_access_overwrites(overwrites, bot);
    if exists|i: int| 0 <= i < overwrites.len() && (#[trigger] overwrites[i]).target == own {
        let k = choose|i: int| 0 <= i < overwrites.len() && (#[trigger] overwrites[i]).target == own;
        let allow = overwrites[k].allow;
        let deny = overwrites[k].deny;
        assert((allow | ROOM_ACCESS) & ROOM_ACCESS == ROOM_ACCESS) by (bit_vector);
        assert((deny & !ROOM_ACCESS) & ROOM_ACCESS == 0) by (bit_vector);
        assert(granted[k].target == own);
    } else {
        assert(ROOM_ACCESS & ROOM_ACCESS == ROOM_ACCESS) by (bit_vector);
        assert(0u64 & ROOM_ACCESS == 0) by (bit_vector);
        assert(granted[overwrites.len() as int].target == own);
    }
}


// ---------------------------------------------------------------------------
// Editing a hub.

/// Where an edit moves a hub.
#[derive(Debug, Clone, Copy, PartialEq, Eq, Structural)]
pub enum Placement {
    /// Into this category.
    Into(ChannelId),
    /// Out of its category.
    TopLevel,
}

/// What an edit of a hub changes; `None` leaves that part as it is.
#[derive(Debug, Clone, PartialEq, Eq)]
pub struct HubEdit {
    pub name: Option<String>,
    pub room_name: Option<String>,
    pub placement: Option<Placement>,
}

/// A name option as cleaning leaves it: not given, refused, or the trimmed name.
pub open spec fn name_outcome(raw: Option<&str>, limit: usize) -> Result<Option<Seq<char>>, Refusal> {
    match raw {
        None => Ok(None),
        Some(raw) => {
            let t = trimmed(raw@);
            if t.len() == 0 {
                Err(Refusal::NameEmpty)
            } else if t.len() > limit {
                Err(Refusal::NameTooLong { limit })
            } else {
                Ok(Some(t))
            }
        },
    }
}

/// A new name, unless it is the one already in use.
pub open spec fn changed_name(given: Option<Seq<char>>, current: Seq<char>) -> Option<Seq<char>> {
    match given {
        Some(name) => if name == current {
            None
        } else {
            Some(name)
        },
        None => None,
    }
}

/// Where an edit moves a hub whose category is `current_parent`: into a category it is not
/// already in, or out of the category it is in; nowhere otherwise.
pub open spec fn placement_of(
    current_parent: Option<ChannelId>,
    category: Option<ChannelId>,
    top_level: Option<bool>,
) -> Option<Placement> {
    match category {
        Some(category) => if current_parent != Some(category) {
            Some(Placement::Into(category))
        } else {
            None
        },
        None => if top_level == Some(true) && current_parent is Some {
            Some(Placement::TopLevel)
        } else {
            None
        },
    }
}

/// What `/voice hub edit` changes, or why it is refused: a category and `top_level` both
/// given; a name or room name that cleaning refuses; nothing left to change once names already
/// in use and moves to where the hub already is are dropped.
pub open spec fn hub_edit_outcome(
    current_name: Seq<char>,
    current_parent: Option<ChannelId>,
    stored_room_name: Seq<char>,
    name: Option<&str>,
    room_name: Option<&str>,
    category: Option<ChannelId>,
    top_level: Option<bool>,
) -> Result<(Option<Seq<char>>, Option<Seq<char>>, Option<Placement>), Refusal> {
    if category is Some && top_level is Some {
        Err(Refusal::CategoryAndTopLevel)
    } else {
        match name_outcome(name, HUB_NAME_LIMIT) {
            Err(refusal) => Err(refusal),
            Ok(new_name) => match name_outcome(room_name, ROOM_NAME_LIMIT) {
                Err(refusal) => Err(refusal),
                Ok(new_room_name) => {
                    let kept_name = changed_name(new_name, current_name);
                    let kept_room_name = changed_name(new_room_name, stored_room_name);
                    let placement = placement_of(current_parent, category, top_level);
                    if kept_name is None && kept_room_name is None && placement is None {
                        Err(Refusal::HubNothingToChange)
                    } else {
                        Ok((kept_name, kept_room_name, placement))
                    }
                },
            },
        }
    }
}

pub open spec fn text_option(text: Option<String>) -> Option<Seq<char>> {
    match text {
        Some(text) => Some(text@),
        None => None,
    }
}

fn cleaned_change(raw: Option<&str>, limit: usize, current: &str) -> (change: Result<
    Option<String>,
    Refusal,
>)
    ensures
        match (change, name_outcome(raw, limit)) {
            (Ok(kept), Ok(given)) => text_option(kept) == changed_name(given, current@),
            (Err(refusal), Err(expected)) => refusal == expected,
            _ => false,
        },
{
    match cleaned(raw, limit) {
        Ok(Some(name)) => if same_text(name.as_str(), current) {
            Ok(None)
        } else {
            Ok(Some(name))
        },
        Ok(None) => Ok(None),
        Err(refusal) => Err(refusal),
    }
}

/// What `/voice hub edit` changes on a hub named `current_name`, in category
/// `current_parent`, whose rooms are named `stored_room_name`, or why it is refused.
pub fn hub_edit_plan(
    current_name: &str,
    current_parent: Option<ChannelId>,
    stored_room_name: &str,
    name: Option<&str>,
    room_name: Option<&str>,
    category: Option<ChannelId>,
    top_level: Option<bool>,
) -> (plan: Result<HubEdit, Refusal>)
    ensures
        match (
            plan,
            hub_edit_outcome(
                current_name@,
                current_parent,
                stored_room_name@,
                name,
                room_name,
                category,
                top_level,
            ),
        ) {
            (Ok(edit), Ok((new_name, new_room_name, placement))) => text_option(edit.name)
                == new_name && text_option(edit.room_name) == new_room_name && edit.placement
                == placement,
            (Err(refusal), Err(expected)) => refusal == expected,
            _ => false,
        },
{
    if category.is_some() && top_level.is_some() {
        return Err(Refusal::CategoryAndTopLevel);
    }
    let new_name = match cleaned_change(name, HUB_NAME_LIMIT, current_name) {
        Ok(kept) => kept,
        Err(refusal) => return Err(refusal),
    };
    let new_room_name = match cleaned_change(room_name, ROOM_NAME_LIMIT, stored_room_name) {
        Ok(kept) => kept,
        Err(refusal) => return Err(refusal),
    };
    let placement = match category {
        Some(category) => match current_parent {
            Some(parent) if parent.get() == category.get() => None,
            _ => Some(Placement::Into(category)),
        },
        None => match (top_level, current_parent) {
            (Some(true), Some(_)) => Some(Placement::TopLevel),
            _ => None,
        },
    };
    proof {
        if let (Some(category), Some(parent)) = (category, current_parent) {
            parent.lemma_view_identifies(category);
        }
    }
    if new_name.is_none() && new_room_name.is_none() && placement.is_none() {
        return Err(Refusal::HubNothingToChange);
    }
    Ok(HubEdit { name: new_name, room_name: new_room_name, placement })
}

} // verus!
