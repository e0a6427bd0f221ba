use barnacle_bot::attendance_store::apply_change;
use barnacle_bot::attendance_store::EditOutcome;
use barnacle_bot::attendance_store::Season;
use barnacle_bot::attendance_store::SeasonChange;
use barnacle_bot::ids::ChannelId;
use barnacle_bot::ids::UserId;
use barnacle_bot::schedule::Days;
use barnacle_bot::schedule::Range;
use barnacle_bot::ids::GuildId;
use barnacle_bot::ids::RoleId;
use barnacle_bot::replies::season_change;
use barnacle_bot::replies::season_dates;
use barnacle_bot::replies::CODENAME_LIMIT;
use barnacle_bot::schedule::Day;
use barnacle_bot::text::Refusal;

fn day(year: i16, month: i8, date: i8) -> Day {
    Day::from_numbers(year, month, date).unwrap()
}

fn guild() -> GuildId {
    GuildId::new(500)
}

#[test]
fn edit_with_nothing_named_is_refused() {
    let change = season_change(guild(), None, None, None, None, [None; 5], false, false);
    assert_eq!(change, Err(Refusal::NothingToChange));
}

#[test]
fn edit_that_sets_and_clears_a_codename_is_refused() {
    let change = season_change(
        guild(),
        None,
        None,
        None,
        Some("Kraken".to_string()),
        [None; 5],
        true,
        false,
    );
    assert_eq!(change, Err(Refusal::CodenameBothWays));
}

#[test]
fn edit_that_names_and_clears_ping_roles_is_refused() {
    let roles = [Some(RoleId::new(7)), None, None, None, None];
    let change = season_change(guild(), None, None, None, None, roles, false, true);
    assert_eq!(change, Err(Refusal::PingBothWays));
}

#[test]
fn edit_that_mixes_everyone_with_a_role_is_refused() {
    let roles = [Some(RoleId::new(500)), Some(RoleId::new(7)), None, None, None];
    let change = season_change(guild(), None, None, None, None, roles, false, false);
    assert_eq!(change, Err(Refusal::PingMixesEveryone));
}

#[test]
fn edit_with_a_bad_date_is_refused() {
    let change = season_change(guild(), None, Some("2025-13-01"), None, None, [None; 5], false, false);
    assert_eq!(change, Err(Refusal::DateFormat));
    let change = season_change(guild(), None, None, Some("tomorrow"), None, [None; 5], false, false);
    assert_eq!(change, Err(Refusal::DateFormat));
}

#[test]
fn edit_keeps_what_it_was_given() {
    let roles = [Some(RoleId::new(7)), Some(RoleId::new(8)), Some(RoleId::new(7)), None, None];
    let change = season_change(
        guild(),
        Some(31),
        Some("2025-03-01"),
        Some("2025-03-21"),
        Some("Kraken".to_string()),
        roles,
        false,
        false,
    )
    .unwrap();
    assert_eq!(change.number, Some(31));
    assert_eq!(change.first_day, Some(day(2025, 3, 1)));
    assert_eq!(change.last_day, Some(day(2025, 3, 21)));
    assert_eq!(change.codename, Some(Some("Kraken".to_string())));
    assert_eq!(change.ping_roles, Some(vec![RoleId::new(7), RoleId::new(8)]));
}

#[test]
fn edit_that_clears_leaves_empty_values() {
    let change = season_change(guild(), None, None, None, None, [None; 5], true, true).unwrap();
    assert_eq!(change.number, None);
    assert_eq!(change.first_day, None);
    assert_eq!(change.last_day, None);
    assert_eq!(change.codename, Some(None));
    assert_eq!(change.ping_roles, Some(vec![]));
}

#[test]
fn edit_cuts_a_long_codename() {
    let long = "k".repeat(CODENAME_LIMIT + 20);
    let change = season_change(guild(), None, None, None, Some(long), [None; 5], false, false).unwrap();
    assert_eq!(change.codename, Some(Some("k".repeat(CODENAME_LIMIT))));
    assert_eq!(change.ping_roles, None);
}

#[test]
fn season_dates_accepts_a_near_range() {
    let range = season_dates("2025-03-01", "2025-03-21", day(2025, 2, 10)).unwrap();
    assert_eq!(range.first_day(), day(2025, 3, 1));
    assert_eq!(range.last_day(), day(2025, 3, 21));
}

#[test]
fn season_dates_refuses_bad_text() {
    assert_eq!(season_dates("2025-3-01", "2025-03-21", day(2025, 2, 10)), Err(Refusal::DateFormat));
    assert_eq!(season_dates("2025-03-01", "2025-02-30", day(2025, 2, 10)), Err(Refusal::DateFormat));
}

#[test]
fn season_dates_refuses_a_last_day_before_the_first() {
    assert_eq!(
        season_dates("2025-03-21", "2025-03-01", day(2025, 2, 10)),
        Err(Refusal::LastDayBeforeFirst)
    );
}

#[test]
fn season_dates_refuses_dates_far_from_today() {
    assert_eq!(
        season_dates("2026-03-01", "2026-03-21", day(2025, 2, 10)),
        Err(Refusal::DatesTooFar)
    );
    assert_eq!(
        season_dates("2024-03-01", "2024-03-21", day(2025, 2, 10)),
        Err(Refusal::DatesTooFar)
    );
}

fn season_with(range: Range) -> Season {
    Season {
        id: 4,
        guild: guild(),
        channel: ChannelId::new(600),
        number: 30,
        codename: Some("Orca".to_string()),
        range,
        created_by: UserId::new(9),
        created_at_ms: 12,
        ping_roles: vec![RoleId::new(7)],
        ended_at_ms: None,
    }
}

#[test]
fn an_edit_changes_only_what_it_names() {
    let before = season_with(Range::new(day(2025, 3, 1), day(2025, 3, 21)).unwrap());
    let change = SeasonChange { number: Some(31), last_day: Some(day(2025, 3, 28)), ..SeasonChange::default() };
    let after = apply_change(&before, &change, day(2025, 2, 10)).unwrap();
    assert_eq!(after.number, 31);
    assert_eq!(after.range.first_day(), day(2025, 3, 1));
    assert_eq!(after.range.last_day(), day(2025, 3, 28));
    assert_eq!(after.range.days(), Days::ClanBattle);
    assert_eq!(after.codename, before.codename);
    assert_eq!(after.ping_roles, before.ping_roles);
    assert_eq!((after.id, after.channel, after.created_by), (before.id, before.channel, before.created_by));
}

#[test]
fn an_edit_keeps_a_rehearsal_nightly() {
    let before = season_with(Range::every_day(day(2025, 3, 3), day(2025, 3, 5)).unwrap());
    let change = SeasonChange { last_day: Some(day(2025, 3, 6)), ..SeasonChange::default() };
    let after = apply_change(&before, &change, day(2025, 3, 2)).unwrap();
    assert_eq!(after.range.days(), Days::Every);
    assert_eq!(after.range.night_count(), 4);
}

#[test]
fn an_edit_that_reverses_or_strays_is_refused() {
    let before = season_with(Range::new(day(2025, 3, 1), day(2025, 3, 21)).unwrap());
    let reversed = SeasonChange { first_day: Some(day(2025, 3, 22)), ..SeasonChange::default() };
    assert!(matches!(apply_change(&before, &reversed, day(2025, 2, 10)), Err(EditOutcome::BadRange)));
    let far = SeasonChange { last_day: Some(day(2025, 12, 1)), ..SeasonChange::default() };
    assert!(matches!(apply_change(&before, &far, day(2025, 2, 10)), Err(EditOutcome::TooFar)));
}
