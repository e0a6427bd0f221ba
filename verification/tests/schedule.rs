use barnacle_bot::schedule::day_label;
use barnacle_bot::schedule::parse_day;
use barnacle_bot::schedule::today;
use barnacle_bot::schedule::Hour;
use barnacle_bot::schedule::Days;
use barnacle_bot::schedule::Night;
use barnacle_bot::schedule::Range;
use barnacle_bot::schedule::rehearsal_range;

#[test]
fn days_parse_only_in_their_written_form() {
    let day = parse_day("2026-09-16").unwrap();
    assert_eq!(day_label(day), "2026-09-16");
    assert!(parse_day("2026-9-16").is_none());
    assert!(parse_day("2026-02-30").is_none());
    assert!(parse_day("not a date").is_none());
}

#[test]
fn today_is_the_utc_date() {
    assert_eq!(day_label(today(1789516800).unwrap()), "2026-09-16");
    assert_eq!(day_label(today(1789516799).unwrap()), "2026-09-15");
}

#[test]
fn nights_fall_on_clan_battle_days() {
    assert!(Night::new(parse_day("2026-09-16").unwrap()).is_some());
    assert!(Night::new(parse_day("2026-09-17").unwrap()).is_some());
    assert!(Night::new(parse_day("2026-09-18").unwrap()).is_none());
    assert!(Night::new(parse_day("2026-09-19").unwrap()).is_some());
    assert!(Night::new(parse_day("2026-09-20").unwrap()).is_some());
    assert!(Night::new(parse_day("2026-09-21").unwrap()).is_none());
}

#[test]
fn a_night_posts_a_day_ahead_and_clears_half_an_hour_after() {
    let night = Night::parse("2026-09-16").unwrap();
    assert_eq!(night.label(), "2026-09-16");
    assert_eq!(night.start_unix(), 1789601400);
    assert_eq!(night.post_at_unix(), 1789601400 - 86400);
    assert_eq!(night.end_unix(), 1789601400 + 4 * 3600);
    assert_eq!(night.remove_at_unix(), 1789601400 + 4 * 3600 + 1800);
    let third = Hour::new(3).unwrap();
    assert_eq!(night.hour_start_unix(third), 1789601400 + 2 * 3600);
    assert_eq!(night.hour_end_unix(third), 1789601400 + 3 * 3600);
    assert!(Night::parse("2026-09-18").is_some());
    assert!(Night::parse("2026-09-31").is_none());
}

#[test]
fn hours_run_one_to_four() {
    assert!(Hour::new(0).is_none());
    assert!(Hour::new(5).is_none());
    let numbers: Vec<u8> = Hour::all().iter().map(|hour| hour.get()).collect();
    assert_eq!(numbers, vec![1, 2, 3, 4]);
}

#[test]
fn ranges_list_their_nights_in_order() {
    let first = parse_day("2026-09-16").unwrap();
    let last = parse_day("2026-09-23").unwrap();
    let range = Range::new(first, last).unwrap();
    let labels: Vec<String> = range.nights().iter().map(|night| night.label()).collect();
    assert_eq!(labels, vec!["2026-09-16", "2026-09-17", "2026-09-19", "2026-09-20", "2026-09-23"]);
    assert_eq!(range.night_count(), 5);
    assert!(Range::new(last, first).is_none());
}

#[test]
fn nights_left_and_the_next_night_agree() {
    let range = Range::new(parse_day("2026-09-16").unwrap(), parse_day("2026-09-20").unwrap()).unwrap();
    assert_eq!(range.nights_left(0), 4);
    assert_eq!(range.next_night(0).unwrap().label(), "2026-09-16");
    assert_eq!(range.nights_left(1789601400), 3);
    assert_eq!(range.next_night(1789601400).unwrap().label(), "2026-09-17");
    assert_eq!(range.nights_left(1789947000), 0);
    assert!(range.next_night(1789947000).is_none());
}

#[test]
fn a_night_is_due_between_its_post_and_its_start() {
    let range = Range::new(parse_day("2026-09-16").unwrap(), parse_day("2026-09-16").unwrap()).unwrap();
    assert!(range.due_night(1789601400 - 86401).is_none());
    assert_eq!(range.due_night(1789601400 - 86400).unwrap().label(), "2026-09-16");
    assert!(range.due_night(1789601400).is_none());
}

#[test]
fn overlapping_is_symmetric() {
    let a = Range::new(parse_day("2026-09-16").unwrap(), parse_day("2026-09-20").unwrap()).unwrap();
    let b = Range::new(parse_day("2026-09-20").unwrap(), parse_day("2026-10-01").unwrap()).unwrap();
    let c = Range::new(parse_day("2026-09-21").unwrap(), parse_day("2026-10-01").unwrap()).unwrap();
    assert!(a.overlaps(b) && b.overlaps(a));
    assert!(!a.overlaps(c) && !c.overlaps(a));
}

#[test]
fn a_season_sits_within_six_months_of_today() {
    let today = parse_day("2026-09-16").unwrap();
    let near = Range::new(parse_day("2026-03-16").unwrap(), parse_day("2027-03-16").unwrap()).unwrap();
    let far = Range::new(parse_day("2026-09-16").unwrap(), parse_day("2027-03-17").unwrap()).unwrap();
    assert!(near.near(today));
    assert!(!far.near(today));
}

#[test]
fn a_range_ends_when_its_last_post_comes_down() {
    let range = Range::new(parse_day("2026-09-16").unwrap(), parse_day("2026-09-18").unwrap()).unwrap();
    assert_eq!(range.last_moment_unix(), Some(1789687800 + 4 * 3600 + 1800));
    assert!(range.holds(Night::parse("2026-09-17").unwrap()));
    assert!(!range.holds(Night::parse("2026-09-19").unwrap()));
}

#[test]
fn rehearsals_start_tomorrow_and_span_the_nights_asked_for() {
    let monday = parse_day("2026-03-02").unwrap();
    let range = rehearsal_range(monday, 3, 1772452800).unwrap();
    assert_eq!(day_label(range.first_day()), "2026-03-03");
    assert_eq!(day_label(range.last_day()), "2026-03-05");
    let one = rehearsal_range(monday, 0, 1772452800).unwrap();
    assert_eq!(day_label(one.last_day()), "2026-03-03");
    let most = rehearsal_range(monday, 30, 1772452800).unwrap();
    assert_eq!(day_label(most.last_day()), "2026-03-09");
}

#[test]
fn rehearsals_skip_a_night_whose_post_is_already_due() {
    let tuesday = parse_day("2026-03-03").unwrap();
    let early = rehearsal_range(tuesday, 1, 1772539200).unwrap();
    assert_eq!(day_label(early.first_day()), "2026-03-04");
    let late = rehearsal_range(tuesday, 1, 1772581500).unwrap();
    assert_eq!(day_label(late.first_day()), "2026-03-05");
}

#[test]
fn a_rehearsal_holds_a_night_on_every_day() {
    let monday = parse_day("2026-03-02").unwrap();
    let range = rehearsal_range(monday, 3, 1772452800).unwrap();
    assert_eq!(range.days(), Days::Every);
    let labels: Vec<String> = range.nights().into_iter().map(|night| night.label()).collect();
    assert_eq!(labels, vec!["2026-03-03", "2026-03-04", "2026-03-05"]);
    let season = Range::new(range.first_day(), range.last_day()).unwrap();
    assert_eq!(season.days(), Days::ClanBattle);
    assert_eq!(season.night_count(), 2);
    let every = Range::every_day(range.first_day(), range.last_day()).unwrap();
    assert_eq!(every, range);
    assert!(Range::every_day(range.last_day(), range.first_day()).is_none());
}

#[test]
fn a_night_on_any_day_starts_at_half_past_eleven() {
    let friday = parse_day("2026-09-18").unwrap();
    assert!(Night::new(friday).is_none());
    let night = Night::on(friday).unwrap();
    assert_eq!(night.date(), friday);
    assert_eq!(night.start_unix(), 1789774200);
}
