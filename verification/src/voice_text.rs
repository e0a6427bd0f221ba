use vstd::prelude::*;
use vstd::string::*;

use crate::ids::ChannelId;
use crate::render::digits;
use crate::render::join;
use crate::render::joined;
use crate::render::push_nat;
use crate::render::texts;
use crate::render::str_texts;
use crate::failure::join_names;
use crate::failure::names_text;

verus! {

broadcast use vstd::string::group_string_axioms;

pub const HUB_DEFAULT_NAME: &'static str = "Join to Create";
pub const NAME_EMPTY: &'static str = "A name needs at least one character that is not a space.";
pub const NOT_A_HUB: &'static str = "That channel is not a Join to Create channel in this server. `/voice hub list` shows the ones that are.";
pub const NOTHING_TO_CHANGE: &'static str = "Nothing to change. Give a new name, room_name, category or top_level.";
pub const CATEGORY_AND_TOP_LEVEL: &'static str = "Pick a category or top_level, not both.";
pub const MOVED_TO_TOP: &'static str = "moved out of its category";
pub const NO_HUBS: &'static str = "This server has no Join to Create channels. `/voice hub create` makes one.";
pub const NEEDS_MANAGE_CHANNELS: &'static str = "Barnacle needs Manage Channels there to do that.";

pub open spec fn name_too_long_text(limit: nat) -> Seq<char> {
    "That name is too long; the limit is "@ + digits(limit) + " characters."@
}

pub fn name_too_long(limit: usize) -> (text: String)
    ensures
        text@ == name_too_long_text(limit as nat),
{
    let mut text = String::from_str("That name is too long; the limit is ");
    push_nat(&mut text, limit as u64);
    text.append(" characters.");
    text
}

pub open spec fn channel_mention(channel: ChannelId) -> Seq<char> {
    "<#"@ + digits(channel@ as nat) + ">"@
}

/// Appends `<#channel>`.
pub fn push_channel(text: &mut String, channel: ChannelId)
    ensures
        final(text)@ == old(text)@ + channel_mention(channel),
{
    text.append("<#");
    push_nat(text, channel.get());
    text.append(">");
}

pub open spec fn hub_created_text(hub: ChannelId, room_name: Seq<char>) -> Seq<char> {
    "Created "@ + channel_mention(hub) + ". Joining it opens a room named `"@ + room_name
        + "-1`, `"@ + room_name
        + "-2` and so on, and moves the member in. Set who can see and join it in its channel permissions; every room copies them."@
}

pub fn hub_created(hub: ChannelId, room_name: &str) -> (text: String)
    ensures
        text@ == hub_created_text(hub, room_name@),
{
    let mut text = String::from_str("Created ");
    push_channel(&mut text, hub);
    text.append(". Joining it opens a room named `");
    text.append(room_name);
    text.append("-1`, `");
    text.append(room_name);
    text.append(
        "-2` and so on, and moves the member in. Set who can see and join it in its channel permissions; every room copies them.",
    );
    text
}

pub open spec fn hub_edited_text(hub: ChannelId, changes: Seq<Seq<char>>) -> Seq<char> {
    "Updated "@ + channel_mention(hub) + ": "@ + joined(changes, "; "@)
        + ". Rooms already open keep their names."@
}

pub fn hub_edited(hub: ChannelId, changes: &[String]) -> (text: String)
    ensures
        text@ == hub_edited_text(hub, texts(changes@)),
{
    let mut text = String::from_str("Updated ");
    push_channel(&mut text, hub);
    text.append(": ");
    let listed = join(changes, "; ");
    text.append(listed.as_str());
    text.append(". Rooms already open keep their names.");
    text
}

pub fn renamed(name: &str) -> (text: String)
    ensures
        text@ == "renamed to "@ + name@,
{
    let mut text = String::from_str("renamed to ");
    text.append(name);
    text
}

pub fn rooms_renamed(room_name: &str) -> (text: String)
    ensures
        text@ == "new rooms are named `"@ + room_name@ + "-1`, `"@ + room_name@
            + "-2` and so on"@,
{
    let mut text = String::from_str("new rooms are named `");
    text.append(room_name);
    text.append("-1`, `");
    text.append(room_name);
    text.append("-2` and so on");
    text
}

pub fn moved_to(category: ChannelId) -> (text: String)
    ensures
        text@ == "moved to "@ + channel_mention(category),
{
    let mut text = String::from_str("moved to ");
    push_channel(&mut text, category);
    text
}

pub fn hub_removed(name: &str) -> (text: String)
    ensures
        text@ == "Deleted the Join to Create channel "@ + name@
            + ". Rooms it opened stay until they empty, then close as usual."@,
{
    let mut text = String::from_str("Deleted the Join to Create channel ");
    text.append(name);
    text.append(". Rooms it opened stay until they empty, then close as usual.");
    text
}

pub open spec fn hub_line_text(hub: ChannelId, room_name: Seq<char>, open: nat) -> Seq<char> {
    channel_mention(hub) + " opens `"@ + room_name + "-#` rooms, "@ + digits(open) + " open now"@
}

pub fn hub_line(hub: ChannelId, room_name: &str, open: usize) -> (text: String)
    ensures
        text@ == hub_line_text(hub, room_name@, open as nat),
{
    let mut text = String::new();
    push_channel(&mut text, hub);
    text.append(" opens `");
    text.append(room_name);
    text.append("-#` rooms, ");
    push_nat(&mut text, open as u64);
    text.append(" open now");
    assert(text@ =~= hub_line_text(hub, room_name@, open as nat));
    text
}

/// Why rooms cannot open from a Join to Create channel yet: its overwrites name permissions that
/// Barnacle's role lacks, which Discord refuses to copy into a room.
pub open spec fn cannot_open_rooms_text(blockers: Seq<Seq<char>>) -> Seq<char> {
    "Rooms cannot open from it yet: its permissions name "@ + names_text(blockers)
        + ", which Barnacle's role lacks. Grant them to Barnacle's role."@
}

pub fn cannot_open_rooms(blockers: &[&str]) -> (text: String)
    ensures
        text@ == cannot_open_rooms_text(str_texts(blockers@)),
{
    let mut text = String::from_str("Rooms cannot open from it yet: its permissions name ");
    let names = join_names(blockers);
    text.append(names.as_str());
    text.append(", which Barnacle's role lacks. Grant them to Barnacle's role.");
    text
}

/// A reply about a Join to Create channel, followed by why rooms cannot open from it yet when
/// something blocks them.
pub open spec fn with_readiness_text(reply: Seq<char>, blockers: Seq<Seq<char>>) -> Seq<char> {
    if blockers.len() == 0 {
        reply
    } else {
        reply + " "@ + cannot_open_rooms_text(blockers)
    }
}

pub fn with_readiness(reply: String, blockers: &[&str]) -> (text: String)
    ensures
        text@ == with_readiness_text(reply@, str_texts(blockers@)),
{
    if blockers.len() == 0 {
        reply
    } else {
        let mut text = reply;
        text.append(" ");
        let reason = cannot_open_rooms(blockers);
        text.append(reason.as_str());
        text
    }
}

/// A Join to Create channel's line in the list, noting when rooms cannot open from it yet.
pub open spec fn hub_line_ready_text(
    hub: ChannelId,
    room_name: Seq<char>,
    open: nat,
    blockers: Seq<Seq<char>>,
) -> Seq<char> {
    if blockers.len() == 0 {
        hub_line_text(hub, room_name, open)
    } else {
        hub_line_text(hub, room_name, open) + "; cannot open rooms until Barnacle's role has "@
            + names_text(blockers)
    }
}

pub fn hub_line_ready(hub: ChannelId, room_name: &str, open: usize, blockers: &[&str]) -> (text:
    String)
    ensures
        text@ == hub_line_ready_text(hub, room_name@, open as nat, str_texts(blockers@)),
{
    let mut text = hub_line(hub, room_name, open);
    if blockers.len() > 0 {
        text.append("; cannot open rooms until Barnacle's role has ");
        let names = join_names(blockers);
        text.append(names.as_str());
    }
    text
}

/// Each line as an item of a list.
pub open spec fn bulleted(lines: Seq<Seq<char>>) -> Seq<Seq<char>> {
    lines.map_values(|line: Seq<char>| "- "@ + line)
}

pub open spec fn hub_list_text(lines: Seq<Seq<char>>) -> Seq<char> {
    joined(seq!["Join to Create channels in this server:"@] + bulleted(lines), "\n"@)
}

pub fn hub_list(lines: &[String]) -> (text: String)
    ensures
        text@ == hub_list_text(texts(lines@)),
{
    let mut items: Vec<String> = Vec::new();
    items.push(String::from_str("Join to Create channels in this server:"));
    let mut index: usize = 0;
    while index < lines.len()
        invariant
            index <= lines.len(),
            texts(items@) == seq!["Join to Create channels in this server:"@] + bulleted(
                texts(lines@).take(index as int),
            ),
        decreases lines.len() - index,
    {
        let mut item = String::from_str("- ");
        item.append(lines[index].as_str());
        let ghost before = items@;
        let ghost line = lines@[index as int]@;
        items.push(item);
        proof {
            let head = seq!["Join to Create channels in this server:"@];
            let done = texts(lines@).take(index as int);
            assert(texts(lines@).take(index + 1) == done.push(line));
            assert(texts(items@) =~= texts(before).push("- "@ + line));
            assert(bulleted(done.push(line)) =~= bulleted(done).push("- "@ + line));
            assert((head + bulleted(done)).push("- "@ + line) =~= head + bulleted(done).push(
                "- "@ + line,
            ));
            assert(texts(items@) =~= seq!["Join to Create channels in this server:"@] + bulleted(
                texts(lines@).take(index + 1),
            ));
        }
        index = index + 1;
    }
    assert(texts(lines@).take(lines.len() as int) == texts(lines@));
    join(items.as_slice(), "\n")
}

} // verus!
