use barnacle_bot::attendance::offset_groups;
use barnacle_bot::attendance::is_live;
use barnacle_bot::attendance::build_view;
use barnacle_bot::attendance::choice_name;
use barnacle_bot::attendance::clear_targets;
use barnacle_bot::attendance::click_hours;
use barnacle_bot::attendance::click_refusal;
use barnacle_bot::attendance::delivery_for;
use barnacle_bot::attendance::due_closures;
use barnacle_bot::attendance::due_removals;
use barnacle_bot::attendance::next_post_at;
use barnacle_bot::attendance::pinged;
use barnacle_bot::attendance::pings_changed;
use barnacle_bot::attendance::purge_blocked;
use barnacle_bot::attendance::repost_candidate;
use barnacle_bot::attendance::repost_delivery;
use barnacle_bot::attendance::roster_rows;
use barnacle_bot::attendance::shifted;
use barnacle_bot::attendance::tally;
use barnacle_bot::attendance::target_name;
use barnacle_bot::attendance::Cell;
use barnacle_bot::attendance::ClearScope;
use barnacle_bot::attendance::Click;
use barnacle_bot::attendance::ClickOutcome;
use barnacle_bot::attendance::Delivery;
use barnacle_bot::attendance::PostsReport;
use barnacle_bot::attendance::RepostPing;
use barnacle_bot::attendance::Target;
use barnacle_bot::attendance_store::to_season;
use barnacle_bot::attendance_store::AttendanceError;
use barnacle_bot::attendance_store::SeasonRow;
use barnacle_bot::schedule::Days;
use barnacle_bot::attendance_store::to_mark;
use barnacle_bot::attendance_store::to_night;
use barnacle_bot::attendance_store::to_player;
use barnacle_bot::attendance_store::to_post;
use barnacle_bot::attendance_store::Mark;
use barnacle_bot::attendance_store::Post;
use barnacle_bot::attendance_store::PostState;
use barnacle_bot::attendance_store::Season;
use barnacle_bot::ids::ChannelId;
use barnacle_bot::ids::GuildId;
use barnacle_bot::ids::Ping;
use barnacle_bot::ids::RoleId;
use barnacle_bot::ids::Snowflake;
use barnacle_bot::ids::UserId;
use barnacle_bot::schedule::parse_day;
use barnacle_bot::schedule::Hour;
use barnacle_bot::schedule::Night;
use barnacle_bot::schedule::Range;

const WEDNESDAY_START: i64 = 1789601400;

fn night(text: &str) -> Night {
    Night::parse(text).unwrap()
}

fn post(text: &str, state: PostState) -> Post {
    Post { night: night(text), message: Snowflake::new(1), state, posted_at_ms: 0 }
}

fn season() -> Season {
    Season {
        id: 1,
        guild: GuildId::new(100),
        channel: ChannelId::new(200),
        number: 1,
        codename: None,
        range: Range::new(parse_day("2026-09-16").unwrap(), parse_day("2026-09-20").unwrap()).unwrap(),
        created_by: UserId::new(3),
        created_at_ms: 0,
        ping_roles: vec![RoleId::new(100), RoleId::new(7)],
        ended_at_ms: None,
    }
}

fn mark(user: u64, hour: u8, attending: bool) -> Mark {
    Mark { user: UserId::new(user), hour: Hour::new(hour).unwrap(), attending, answered_at_ms: 0 }
}

#[test]
fn posts_come_down_half_an_hour_after_their_night() {
    let posts = vec![post("2026-09-16", PostState::Closed), post("2026-09-17", PostState::Open)];
    let remove_at = WEDNESDAY_START + 4 * 3600 + 1800;
    assert!(due_removals(&posts, remove_at - 1).is_empty());
    assert_eq!(due_removals(&posts, remove_at), vec![posts[0]]);
    let removed = vec![post("2026-09-16", PostState::Removed)];
    assert!(due_removals(&removed, remove_at).is_empty());
}

#[test]
fn open_posts_close_when_their_night_starts() {
    let posts = vec![post("2026-09-16", PostState::Open), post("2026-09-17", PostState::Open)];
    assert!(due_closures(&posts, &[], WEDNESDAY_START - 1).is_empty());
    assert_eq!(due_closures(&posts, &[], WEDNESDAY_START), vec![posts[0]]);
    assert!(due_closures(&posts, &[night("2026-09-16")], WEDNESDAY_START).is_empty());
}

#[test]
fn clearing_keeps_posts_inside_the_range() {
    let posts = vec![post("2026-09-16", PostState::Open), post("2026-09-23", PostState::Open), post("2026-09-17", PostState::Removed)];
    let range = Range::new(parse_day("2026-09-16").unwrap(), parse_day("2026-09-20").unwrap()).unwrap();
    assert_eq!(clear_targets(&posts, range, ClearScope::OutsideRange), vec![posts[1]]);
    assert_eq!(clear_targets(&posts, range, ClearScope::All), vec![posts[0], posts[1]]);
}

#[test]
fn a_night_is_pinged_only_by_its_first_post() {
    let pings = vec![Ping::Everyone];
    assert_eq!(delivery_for(None), Some(Delivery::New));
    assert_eq!(delivery_for(Some(post("2026-09-16", PostState::Open))), None);
    assert_eq!(delivery_for(Some(post("2026-09-16", PostState::Removed))), Some(Delivery::Redraw));
    assert_eq!(pinged(Delivery::New, &pings), pings);
    assert!(pinged(Delivery::Redraw, &pings).is_empty());
    assert_eq!(repost_delivery(&RepostPing::Quiet), Delivery::Redraw);
    assert_eq!(repost_delivery(&RepostPing::Again { checked: vec![] }), Delivery::New);
}

#[test]
fn reposts_pick_the_first_open_post_ahead() {
    let posts = vec![post("2026-09-16", PostState::Closed), post("2026-09-17", PostState::Open), post("2026-09-19", PostState::Open)];
    assert_eq!(repost_candidate(&posts, WEDNESDAY_START), Some(posts[1]));
    assert_eq!(repost_candidate(&posts, 1789860600), None);
    let roles = vec![RoleId::new(1)];
    assert!(!pings_changed(&RepostPing::Quiet, &roles));
    assert!(!pings_changed(&RepostPing::Again { checked: vec![RoleId::new(1)] }, &roles));
    assert!(pings_changed(&RepostPing::Again { checked: vec![RoleId::new(2)] }, &roles));
    assert!(pings_changed(&RepostPing::Again { checked: vec![] }, &roles));
}

#[test]
fn clicks_answer_one_hour_or_all() {
    let third = Hour::new(3).unwrap();
    assert_eq!(click_hours(Target::One(third)), vec![third]);
    assert_eq!(click_hours(Target::All).len(), 4);
    assert_eq!(target_name(Target::All), "all");
    assert_eq!(choice_name(true), "attend");
    let click = Click {
        guild: GuildId::new(100),
        channel: ChannelId::new(200),
        message: Snowflake::new(1),
        user: UserId::new(5),
        season: 1,
        night: night("2026-09-17"),
        target: Target::All,
        attending: true,
    };
    assert_eq!(click_refusal(&season(), &click, WEDNESDAY_START), None);
    assert_eq!(
        click_refusal(&season(), &click, 1789687800),
        Some(ClickOutcome::Closed { start_unix: 1789687800 })
    );
    let elsewhere = Click { guild: GuildId::new(101), ..click };
    assert_eq!(click_refusal(&season(), &elsewhere, 0), Some(ClickOutcome::UnknownSeason));
}

#[test]
fn the_next_post_goes_up_a_day_before_its_night() {
    let range = season().range;
    assert_eq!(next_post_at(range, 0), Some(WEDNESDAY_START - 86400));
    assert_eq!(next_post_at(range, WEDNESDAY_START - 86400), None);
    assert_eq!(next_post_at(range, 1789947000), None);
}

#[test]
fn shifted_clocks_stay_in_range() {
    assert_eq!(shifted(100, 100000, 10), Some((110, 110000)));
    assert_eq!(shifted(100, 5000, -10), None);
    assert_eq!(shifted(i64::MAX, 0, 1), None);
}

#[test]
fn rosters_follow_first_answers() {
    let marks = vec![mark(5, 1, true), mark(6, 2, false), mark(5, 3, false)];
    let rows = roster_rows(&marks);
    assert_eq!(rows.len(), 2);
    assert_eq!(rows[0].user, UserId::new(5));
    assert_eq!(rows[0].cells, [Cell::In, Cell::Out, Cell::Out, Cell::Out]);
    assert_eq!(rows[1].cells, [Cell::Out, Cell::Out, Cell::Out, Cell::Out]);
    let first = tally(Hour::new(1).unwrap(), &marks);
    assert_eq!((first.attending, first.nope), (1, 1));
    let view = build_view(&season(), night("2026-09-17"), WEDNESDAY_START, &marks);
    assert!(view.open);
    assert_eq!(view.pings, vec![Ping::Everyone, Ping::Role(RoleId::new(7))]);
    assert_eq!(view.rows.len(), 2);
    assert_eq!(view.hidden, 0);
}

#[test]
fn a_purge_stops_when_posts_stay() {
    assert_eq!(purge_blocked(PostsReport { touched: 3, failures: 0 }), None);
    let blocked = purge_blocked(PostsReport { touched: 3, failures: 1 }).unwrap();
    assert_eq!((blocked.messages, blocked.failures), (3, 1));
}

#[test]
fn stored_rows_read_back() {
    assert!(to_player(0).is_err());
    assert_eq!(to_player(5).unwrap(), UserId::new(5));
    assert_eq!(to_night("2026-09-16").unwrap(), night("2026-09-16"));
    assert_eq!(to_night("2026-09-18").unwrap(), night("2026-09-18"));
    assert!(to_night("2026-09-31").is_err());
    assert!(to_night("16-09-2026").is_err());
    let stored = to_post(("2026-09-16".to_owned(), 9, "closed".to_owned(), 12)).unwrap();
    assert_eq!(stored.state, PostState::Closed);
    assert_eq!(stored.message, Snowflake::new(9));
    assert!(to_post(("2026-09-16".to_owned(), 9, "gone".to_owned(), 12)).is_err());
    assert_eq!(to_mark((5, 2, 1, 0)).unwrap(), mark(5, 2, true));
    assert!(to_mark((5, 5, 1, 0)).is_err());
    assert_eq!(PostState::from_text("removed"), Some(PostState::Removed));
    assert_eq!(PostState::Open.as_text(), "open");
}

fn season_row(guild: i64, first: &str, last: &str, ended: Option<i64>) -> SeasonRow {
    (1, guild, 200, 31, Some("Orca".to_owned()), first.to_owned(), last.to_owned(), 3, 10, ended, 1)
}

#[test]
fn a_stored_season_row_reads_back() {
    let season = to_season(season_row(100, "2026-09-16", "2026-09-20", Some(40)), vec![RoleId::new(7)]).unwrap();
    assert_eq!(season.guild, GuildId::new(100));
    assert_eq!(season.number, 31);
    assert_eq!(season.codename.as_deref(), Some("Orca"));
    assert_eq!(season.range.days(), Days::Every);
    assert_eq!(season.range.last_day(), parse_day("2026-09-20").unwrap());
    assert_eq!(season.ended_at_ms, Some(40));
    assert_eq!(season.ping_roles, vec![RoleId::new(7)]);
}

#[test]
fn a_bad_season_row_names_its_first_fault() {
    let bad_day = to_season(season_row(-1, "2026-09-31", "2026-09-20", None), vec![]);
    assert!(matches!(bad_day, Err(AttendanceError::BadNight { value }) if value == "2026-09-31"));
    let reversed = to_season(season_row(-1, "2026-09-21", "2026-09-20", None), vec![]);
    assert!(matches!(reversed, Err(AttendanceError::BadNight { value }) if value == "2026-09-20"));
    let guild = to_season(season_row(-1, "2026-09-16", "2026-09-20", Some(-5)), vec![]);
    assert!(matches!(guild, Err(AttendanceError::Negative { value: -1 })));
    let ended = to_season(season_row(100, "2026-09-16", "2026-09-20", Some(-5)), vec![]);
    assert!(matches!(ended, Err(AttendanceError::Negative { value: -5 })));
}

#[test]
fn a_season_stays_live_while_a_post_is_due_or_up() {
    let range = season().range;
    let last_removal = range.last_moment_unix().unwrap();
    assert!(is_live(range, last_removal - 1, false));
    assert!(!is_live(range, last_removal, false));
    assert!(is_live(range, last_removal, true));
}

#[test]
fn seasons_group_by_their_server_clock() {
    let groups = offset_groups(&[Some(60), None, Some(0), Some(60), Some(-5), None, Some(0)]);
    assert_eq!(groups.keys, vec![-5, 0, 60]);
    assert_eq!(groups.members, vec![vec![4], vec![2, 6], vec![0, 3]]);
    assert_eq!(groups.skipped, 2);
    let empty = offset_groups(&[]);
    assert!(empty.keys.is_empty() && empty.members.is_empty() && empty.skipped == 0);
}
