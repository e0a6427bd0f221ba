use barnacle_bot::text::Refusal;
use barnacle_bot::voice;
use barnacle_bot::voice::HubEdit;
use barnacle_bot::voice::Placement;
use barnacle_bot::voice_text;
use barnacle_bot::ids::ChannelId;
use barnacle_bot::ids::GuildId;
use barnacle_bot::ids::RoleId;
use barnacle_bot::ids::UserId;
use barnacle_bot::info::ship_card;
use barnacle_bot::info::ShipFacts;
use barnacle_bot::ships::ShipClass;
use barnacle_bot::ships::Tier;
use barnacle_bot::voice::clean_name;
use barnacle_bot::voice::hub_vanished;
use barnacle_bot::voice::join_refusal;
use barnacle_bot::voice::room_channel_name;
use barnacle_bot::voice::room_step;
use barnacle_bot::voice::with_room_access;
use barnacle_bot::voice::HubLayout;
use barnacle_bot::voice::NameProblem;
use barnacle_bot::voice::Notices;
use barnacle_bot::voice::Occupancy;
use barnacle_bot::voice::Overwrite;
use barnacle_bot::voice::OverwriteTarget;
use barnacle_bot::voice::RoomStep;
use barnacle_bot::voice::ROOM_ACCESS;
use barnacle_bot::voice_store::next_room_number;
use barnacle_bot::voice_store::Hub;
use barnacle_bot::voice_store::Room;
use barnacle_bot::voice_text::hub_created;
use barnacle_bot::voice_text::hub_edited;
use barnacle_bot::voice_text::hub_line;
use barnacle_bot::voice_text::hub_list;
use barnacle_bot::voice_text::moved_to;
use barnacle_bot::voice_text::name_too_long;

fn room(empty_since_ms: Option<u64>) -> Room {
    Room {
        channel: ChannelId::new(10),
        guild: GuildId::new(1),
        hub: ChannelId::new(2),
        room_name: "cb".to_owned(),
        number: 3,
        owner: UserId::new(4),
        created_at_ms: 0,
        empty_since_ms,
    }
}

#[test]
fn names_are_trimmed_and_bounded() {
    assert_eq!(clean_name("  cb  ", 90), Ok("cb".to_owned()));
    assert_eq!(clean_name(" \t ", 90), Err(NameProblem::Empty));
    assert_eq!(clean_name("abcd", 3), Err(NameProblem::TooLong { limit: 3 }));
    assert_eq!(room_channel_name("cb", 4), "cb-4");
}

#[test]
fn rooms_close_five_minutes_after_emptying() {
    assert_eq!(room_step(&room(None), Occupancy::Empty, 1000), RoomStep::MarkEmpty);
    assert_eq!(room_step(&room(Some(1000)), Occupancy::Empty, 1000 + 299_999), RoomStep::Keep);
    assert_eq!(room_step(&room(Some(1000)), Occupancy::Empty, 1000 + 300_000), RoomStep::Close);
    assert_eq!(room_step(&room(Some(1000)), Occupancy::Occupied(2), 900_000), RoomStep::MarkOccupied);
    assert_eq!(room_step(&room(None), Occupancy::Occupied(1), 900_000), RoomStep::Keep);
    assert_eq!(room_step(&room(None), Occupancy::Unknown, 900_000), RoomStep::Keep);
    assert_eq!(room_step(&room(None), Occupancy::Missing, 30_000), RoomStep::Keep);
    assert_eq!(room_step(&room(None), Occupancy::Missing, 60_000), RoomStep::Forget);
}

#[test]
fn hubs_vanish_only_once_settled() {
    let hub = Hub {
        channel: ChannelId::new(2),
        guild: GuildId::new(1),
        room_name: "cb".to_owned(),
        created_by: UserId::new(4),
        created_at_ms: 1000,
    };
    assert!(!hub_vanished(&hub, Occupancy::Missing, 2000));
    assert!(hub_vanished(&hub, Occupancy::Missing, 61_000));
    assert!(!hub_vanished(&hub, Occupancy::Empty, 61_000));
}

#[test]
fn barnacle_grants_itself_room_access() {
    let bot = UserId::new(99);
    let role = Overwrite { target: OverwriteTarget::Role(RoleId::new(5)), allow: 0, deny: 1024 };
    let added = with_room_access(&[role], bot);
    assert_eq!(added.len(), 2);
    assert_eq!(added[1], Overwrite { target: OverwriteTarget::Member(bot), allow: ROOM_ACCESS, deny: 0 });
    let own = Overwrite { target: OverwriteTarget::Member(bot), allow: 1, deny: ROOM_ACCESS | 2 };
    let fixed = with_room_access(&[own], bot);
    assert_eq!(fixed, vec![Overwrite { target: OverwriteTarget::Member(bot), allow: 1 | ROOM_ACCESS, deny: 2 }]);
}

#[test]
fn joins_are_refused_when_permissions_block_the_copy() {
    let layout = HubLayout {
        category: None,
        position: 0,
        bitrate: None,
        user_limit: None,
        rtc_region: None,
        video_quality: None,
        overwrites: vec![],
        blockers: vec![],
    };
    assert!(join_refusal(&layout).is_none());
    let blocked = HubLayout { blockers: vec!["Speak"], ..layout };
    assert_eq!(join_refusal(&blocked).unwrap().missing, vec!["Speak"]);
}

#[test]
fn notices_are_spaced_a_minute_apart() {
    let mut notices = Notices::new();
    let hub = ChannelId::new(2);
    assert!(notices.may_notify(hub, 1000));
    assert!(!notices.may_notify(hub, 60_999));
    assert!(notices.may_notify(hub, 61_000));
    assert!(notices.may_notify(ChannelId::new(3), 61_001));
}

#[test]
fn hub_replies() {
    assert_eq!(name_too_long(90), "That name is too long; the limit is 90 characters.");
    assert!(hub_created(ChannelId::new(7), "cb").starts_with("Created <#7>. Joining it opens a room named `cb-1`, `cb-2` and so on"));
    assert_eq!(
        hub_edited(ChannelId::new(7), &["renamed to x".to_owned(), moved_to(ChannelId::new(8))]),
        "Updated <#7>: renamed to x; moved to <#8>. Rooms already open keep their names."
    );
    assert_eq!(hub_line(ChannelId::new(7), "cb", 2), "<#7> opens `cb-#` rooms, 2 open now");
    assert_eq!(
        hub_list(&["a".to_owned(), "b".to_owned()]),
        "Join to Create channels in this server:\n- a\n- b"
    );
}

#[test]
fn ship_cards_list_the_ship() {
    let facts = ShipFacts {
        index: "PGSB108".to_owned(),
        name: Some("Bismarck".to_owned()),
        tier: Tier::new(8).unwrap(),
        class: ShipClass::Battleship,
        nation: "Germany".to_owned(),
        group: "start".to_owned(),
        is_paper: false,
        removal: Some(("a look-alike of another ship".to_owned(), Some("Tirpitz".to_owned()))),
        answers: vec!["bismarck".to_owned()],
        lookalikes: vec![],
    };
    let card = ship_card(&facts);
    assert_eq!(card.title, "Bismarck");
    let field = |name: &str| card.fields.iter().find(|(n, _)| n == name).unwrap().1.clone();
    assert_eq!(field("ID"), "PGSB108");
    assert_eq!(field("Tier"), "VIII");
    assert_eq!(field("Class"), "battleship");
    assert_eq!(field("Paper ship"), "No");
    assert_eq!(field("In /guess"), "No: a look-alike of another ship (Tirpitz)");
    assert_eq!(field("Accepted answers"), "bismarck");
    assert_eq!(field("Look-alikes"), "None");
    assert_eq!(card.fields.len(), 9);
    let unnamed = ShipFacts { name: None, removal: None, ..facts };
    let card = ship_card(&unnamed);
    assert_eq!(card.title, "PGSB108");
    assert_eq!(card.fields[6].1, "Yes");
}

#[test]
fn room_numbers_follow_the_highest_open_room() {
    assert_eq!(next_room_number(&[]), Some(1));
    assert_eq!(next_room_number(&[1, 2, 3]), Some(4));
    assert_eq!(next_room_number(&[1, 3]), Some(4));
    assert_eq!(next_room_number(&[1, 2]), Some(3));
    assert_eq!(next_room_number(&[u32::MAX]), None);
}

#[test]
fn a_hub_reply_says_why_rooms_cannot_open() {
    let hub = ChannelId::new(55);
    let reply = voice_text::hub_created(hub, "cb");
    assert_eq!(voice_text::with_readiness(reply.clone(), &[]), reply);
    let warned = voice_text::with_readiness(reply.clone(), &["Speak", "Video"]);
    assert_eq!(
        warned,
        format!(
            "{reply} Rooms cannot open from it yet: its permissions name Speak and Video, which Barnacle's role lacks. Grant them to Barnacle's role."
        )
    );
}

#[test]
fn a_hub_line_notes_what_blocks_its_rooms() {
    let hub = ChannelId::new(55);
    assert_eq!(voice_text::hub_line_ready(hub, "cb", 2, &[]), "<#55> opens `cb-#` rooms, 2 open now");
    assert_eq!(
        voice_text::hub_line_ready(hub, "cb", 0, &["Connect", "Speak", "Video"]),
        "<#55> opens `cb-#` rooms, 0 open now; cannot open rooms until Barnacle's role has Connect, Speak and Video"
    );
}

#[test]
fn a_hub_edit_refuses_a_category_with_top_level() {
    let plan = voice::hub_edit_plan("Join", None, "cb", None, None, Some(ChannelId::new(9)), Some(true));
    assert_eq!(plan, Err(Refusal::CategoryAndTopLevel));
}

#[test]
fn a_hub_edit_drops_what_would_not_change() {
    let parent = Some(ChannelId::new(9));
    let same = voice::hub_edit_plan("Join", parent, "cb", Some(" Join "), Some("cb"), Some(ChannelId::new(9)), None);
    assert_eq!(same, Err(Refusal::HubNothingToChange));
    let top = voice::hub_edit_plan("Join", None, "cb", None, None, None, Some(true));
    assert_eq!(top, Err(Refusal::HubNothingToChange));
    let plan = voice::hub_edit_plan("Join", parent, "cb", Some(" Lobby "), Some("cb"), None, Some(true)).unwrap();
    assert_eq!(
        plan,
        HubEdit { name: Some("Lobby".to_owned()), room_name: None, placement: Some(Placement::TopLevel) }
    );
    let moved = voice::hub_edit_plan("Join", parent, "cb", None, Some("squad"), Some(ChannelId::new(4)), None).unwrap();
    assert_eq!(
        moved,
        HubEdit { name: None, room_name: Some("squad".to_owned()), placement: Some(Placement::Into(ChannelId::new(4))) }
    );
}

#[test]
fn a_hub_edit_refuses_a_bad_name() {
    let blank = voice::hub_edit_plan("Join", None, "cb", Some("   "), None, None, None);
    assert_eq!(blank, Err(Refusal::NameEmpty));
    let long = "r".repeat(91);
    let too_long = voice::hub_edit_plan("Join", None, "cb", None, Some(&long), None, None);
    assert_eq!(too_long, Err(Refusal::NameTooLong { limit: 90 }));
}
