use barnacle_bot::attendance::Cell;
use barnacle_bot::attendance::HourTally;
use barnacle_bot::attendance::PostsReport;
use barnacle_bot::attendance::PurgeReport;
use barnacle_bot::attendance::RosterRow;
use barnacle_bot::attendance::SignupView;
use barnacle_bot::attendance::TickReport;
use barnacle_bot::attendance_store::Season;
use barnacle_bot::ids::ChannelId;
use barnacle_bot::ids::GuildId;
use barnacle_bot::ids::Ping;
use barnacle_bot::ids::RoleId;
use barnacle_bot::ids::UserId;
use barnacle_bot::schedule::parse_day;
use barnacle_bot::schedule::Hour;
use barnacle_bot::schedule::Night;
use barnacle_bot::schedule::Range;
use barnacle_bot::ships::Hint;
use barnacle_bot::ships::Provenance;
use barnacle_bot::ships::Reveal;
use barnacle_bot::ships::RoundOptions;
use barnacle_bot::ships::ShipClass;
use barnacle_bot::ships::Tier;
use barnacle_bot::ships::Timing;
use barnacle_bot::solves::Ranking;
use barnacle_bot::solves::Standing;
use barnacle_bot::text::about;
use barnacle_bot::text::best_time;
use barnacle_bot::text::cancelled;
use barnacle_bot::text::class_label;
use barnacle_bot::text::escape;
use barnacle_bot::text::failures_noted;
use barnacle_bot::text::hint;
use barnacle_bot::text::hour_button_label;
use barnacle_bot::text::leaderboard_pages;
use barnacle_bot::text::leaderboard_title;
use barnacle_bot::text::listing;
use barnacle_bot::text::nation_label;
use barnacle_bot::text::pings_line;
use barnacle_bot::text::rehearsal_started;
use barnacle_bot::text::reset_blocked;
use barnacle_bot::text::reset_done;
use barnacle_bot::text::round_footer;
use barnacle_bot::text::season_edit_reached;
use barnacle_bot::text::season_edited;
use barnacle_bot::text::season_ended;
use barnacle_bot::text::season_line;
use barnacle_bot::text::season_list;
use barnacle_bot::text::season_moved;
use barnacle_bot::text::season_removed;
use barnacle_bot::text::season_shortened;
use barnacle_bot::text::season_started;
use barnacle_bot::text::seconds;
use barnacle_bot::text::ship_line;
use barnacle_bot::text::signup_description;
use barnacle_bot::text::signup_title;
use barnacle_bot::text::signups_closed_at;
use barnacle_bot::text::reposted;
use barnacle_bot::text::silent_ping_warning;
use barnacle_bot::text::silent_pings_warning;
use barnacle_bot::text::standing_line;
use barnacle_bot::text::stepped;
use barnacle_bot::text::tier_numeral;
use barnacle_bot::text::tier_range;
use barnacle_bot::text::timed_out;
use barnacle_bot::text::win;
use barnacle_bot::text::Refusal;
use barnacle_bot::text::CLEAR_FAILED_EDIT;
use barnacle_bot::text::FAILURES_LOGGED;
use barnacle_bot::text::REFRESH_FAILED;
use barnacle_bot::wiring::PingVerdict;

fn tier(value: u32) -> Tier {
    Tier::new(value).unwrap()
}

fn bismarck() -> Reveal {
    Reveal {
        name: "Bismarck".to_owned(),
        tier: tier(8),
        class: ShipClass::Battleship,
        nation: "Germany".to_owned(),
    }
}

fn season(codename: Option<&str>, roles: Vec<u64>) -> Season {
    let first = parse_day("2026-09-16").unwrap();
    let last = parse_day("2026-09-20").unwrap();
    Season {
        id: 7,
        guild: GuildId::new(100),
        channel: ChannelId::new(555),
        number: 3,
        codename: codename.map(|c| c.to_owned()),
        range: Range::new(first, last).unwrap(),
        created_by: UserId::new(9),
        created_at_ms: 0,
        ping_roles: roles.into_iter().map(RoleId::new).collect(),
        ended_at_ms: None,
    }
}

#[test]
fn numerals_cover_every_tier() {
    let expected = ["I", "II", "III", "IV", "V", "VI", "VII", "VIII", "IX", "X", "XI"];
    for (value, numeral) in (1..=11).zip(expected) {
        assert_eq!(tier_numeral(tier(value)), numeral);
    }
}

#[test]
fn tier_range_shows_one_tier_or_a_span() {
    assert_eq!(tier_range(&RoundOptions::new(tier(8), tier(8), false)), "VIII");
    assert_eq!(tier_range(&RoundOptions::new(tier(5), tier(10), false)), "V-X");
}

#[test]
fn class_labels_read_as_words() {
    assert_eq!(class_label(&ShipClass::AircraftCarrier), "aircraft carrier");
    assert_eq!(class_label(&ShipClass::Other("frigate".to_owned())), "frigate");
    assert_eq!(class_label(&ShipClass::Unspecified), "unknown class");
}

#[test]
fn nation_labels_rename_and_space() {
    assert_eq!(nation_label("USA"), "U.S.A.");
    assert_eq!(nation_label("United_Kingdom"), "U.K.");
    assert_eq!(nation_label("Russia"), "U.S.S.R.");
    assert_eq!(nation_label("Pan_Asia"), "Pan-Asia");
    assert_eq!(nation_label("Events"), "Event");
    assert_eq!(nation_label("Commonwealth_of_Nations"), "Commonwealth of Nations");
    assert_eq!(nation_label("Germany"), "Germany");
}

#[test]
fn seconds_show_three_decimals() {
    assert_eq!(seconds(12034), "12.034 s");
    assert_eq!(seconds(5), "0.005 s");
    assert_eq!(seconds(60000), "60.000 s");
}

#[test]
fn escape_backslashes_markdown() {
    assert_eq!(escape("a_b*c"), "a\\_b\\*c");
    assert_eq!(escape("[x]|`y`~\\"), "\\[x]\\|\\`y\\`\\~\\\\");
    assert_eq!(escape("plain"), "plain");
}

#[test]
fn footer_counts_whole_seconds_to_the_hint() {
    let timing = Timing { before_hint_ms: 30999, after_hint_ms: 30000 };
    assert_eq!(round_footer(timing), "Hint in 30 seconds");
}

#[test]
fn ship_line_names_tier_class_and_nation() {
    assert_eq!(ship_line(&bismarck()), "**Bismarck**, tier VIII battleship, Germany");
}

#[test]
fn hints_end_in_one_full_stop() {
    assert_eq!(hint(&Hint::Tier(tier(6))), "Hint: it's tier VI.");
    assert_eq!(hint(&Hint::Nation("USA".to_owned())), "Hint: it's from U.S.A.");
}

#[test]
fn win_reports_time_and_personal_best() {
    assert_eq!(
        win(&bismarck(), 4250, Some(true)),
        "Correct: **Bismarck**, tier VIII battleship, Germany. Solved in 4.250 s. New personal best."
    );
    assert_eq!(
        win(&bismarck(), 4250, None),
        "Correct: **Bismarck**, tier VIII battleship, Germany. Solved in 4.250 s."
    );
}

#[test]
fn endings_reveal_the_ship() {
    assert_eq!(
        timed_out(&bismarck()),
        "Nobody named it. It was **Bismarck**, tier VIII battleship, Germany."
    );
    assert_eq!(
        cancelled(UserId::new(42), &bismarck()),
        "<@42> ended the round. It was **Bismarck**, tier VIII battleship, Germany."
    );
}

#[test]
fn refusal_codes_and_messages() {
    let missing = Refusal::MissingBotPermissions {
        names: vec!["Send Messages", "Embed Links"],
        channel: Some(ChannelId::new(77)),
    };
    assert_eq!(missing.code(), "missing_bot_permissions");
    assert_eq!(
        missing.message(),
        "Barnacle needs Send Messages and Embed Links in <#77>. A server admin can grant them to Barnacle's role or in that channel's permissions, then run the command again."
    );
    let here = Refusal::MissingBotPermissions { names: vec!["Send Messages"], channel: None };
    assert_eq!(
        here.message(),
        "Barnacle needs Send Messages in this channel. A server admin can grant it to Barnacle's role or in this channel's permissions, then run the command again."
    );
    assert_eq!(
        Refusal::SeasonNumberTaken(4).message(),
        "Season 4 already exists. Use another number, or end that season first with /cb season end."
    );
    assert_eq!(
        Refusal::SeasonOverlaps(season(None, vec![])).message(),
        "That range overlaps Season 3 (2026-09-16 to 2026-09-20). Pick dates outside it, or change that season's dates with /cb season edit."
    );
    assert_eq!(
        Refusal::NameTooLong { limit: 90 }.message(),
        "That name is too long; the limit is 90 characters. Give a shorter one."
    );
    assert_eq!(
        Refusal::EmptyPool(RoundOptions::new(tier(5), tier(10), true)).message(),
        "No ships fit tiers V-X with paper ships excluded. Try a wider range with min_tier and max_tier, or leave historical off."
    );
    assert_eq!(
        Refusal::EmptyPool(RoundOptions::new(tier(8), tier(8), false)).message(),
        "No ships fit tier VIII. Try a wider range with min_tier and max_tier."
    );
    assert_eq!(
        Refusal::PingBlockedByChannel { ping: Ping::Role(RoleId::new(5)), channel: ChannelId::new(6) }.message(),
        "<@&5> would not be pinged in <#6>: Barnacle holds Mention @everyone, @here, and All Roles in the server, but a permission override in that channel removes it. A server admin can allow Mention @everyone, @here, and All Roles for Barnacle in that channel's permissions, or turn on the role's Allow anyone to @mention this role setting, then run the command again."
    );
    assert_eq!(Refusal::DateFormat.code(), "date_format");
}

#[test]
fn failures_are_noted_only_when_some_failed() {
    assert_eq!(failures_noted("Done.", 0), "Done.");
    assert_eq!(failures_noted("Done.", 2), format!("Done. {FAILURES_LOGGED}"));
}

#[test]
fn best_time_without_wins() {
    assert_eq!(best_time(None), "No rounds won here yet.");
    assert_eq!(best_time(Some(1500)), "1.500 s");
    assert_eq!(leaderboard_title(Ranking::FastestTime), "Fastest times in this server");
}

#[test]
fn standing_line_cuts_long_names() {
    let standing = Standing { user: UserId::new(1), wins: 1, best_ms: 2000 };
    assert_eq!(standing_line(1, "a_b", &standing), "**1.** a\\_b · 1 win · best 2.000 s");
    let long = "x".repeat(40);
    let many = Standing { user: UserId::new(1), wins: 12, best_ms: 999 };
    assert_eq!(
        standing_line(2, &long, &many),
        format!("**2.** {} · 12 wins · best 0.999 s", "x".repeat(32))
    );
}

#[test]
fn pages_keep_every_line_within_the_limit() {
    let lines: Vec<String> = (0..3).map(|i| format!("line {i}")).collect();
    assert_eq!(leaderboard_pages(&lines), vec!["line 0\nline 1\nline 2".to_owned()]);
    let big: Vec<String> = (0..3).map(|_| "y".repeat(3000)).collect();
    let pages = leaderboard_pages(&big);
    assert_eq!(pages.len(), 3);
    assert_eq!(pages.join("\n"), big.join("\n"));
    assert!(leaderboard_pages(&[]).is_empty());
}

#[test]
fn about_lists_provenance() {
    let provenance = Provenance {
        game_version: "14.1".to_owned(),
        build: "9000".to_owned(),
        data_repo_commit: "abcdef0123".to_owned(),
        wowsunpack: "1.0".to_owned(),
        wows_data_mgr: "2.0".to_owned(),
    };
    let text = about(&provenance, "14.1_9000_r1", "0.3.0");
    assert!(text.contains("Ship data: World of Warships 14.1 (build 9000), catalog 14.1_9000_r1, data commit abcdef0."));
    assert!(text.contains("Built with wowsunpack 1.0 and wows-data-mgr 2.0. Barnacle 0.3.0, source at https://github.com/SatanshuMishra/barnacle."));
    assert_eq!(text.split("\n\n").count(), 4);
}

#[test]
fn listing_fits_and_counts_the_rest() {
    let items: Vec<String> = ["Yamato", "Musashi", "Shikishima"].iter().map(|s| s.to_string()).collect();
    assert_eq!(listing(&items, 100), "Yamato, Musashi, Shikishima");
    assert_eq!(listing(&items, 26), "Yamato, Musashi and 1 more");
    assert_eq!(listing(&items, 25), "Yamato and 2 more");
    assert_eq!(listing(&items, 7), "3 more");
    assert_eq!(listing(&items, 3), "");
    assert_eq!(listing(&[], 10), "None");
    for limit in 0..40 {
        assert!(listing(&items, limit).chars().count() <= limit);
    }
}

#[test]
fn signup_titles_and_buttons() {
    assert_eq!(signup_title(3, None), "Clan Battles · Season 3");
    assert_eq!(signup_title(3, Some("Iron_Tide")), "Clan Battles · Season 3: Iron\\_Tide");
    assert_eq!(hour_button_label(Hour::new(2).unwrap(), true), "Hour 2: Attending");
    assert_eq!(hour_button_label(Hour::new(4).unwrap(), false), "Hour 4: Nope");
    assert_eq!(signups_closed_at(1789601400), "Sign-ups for this night closed at <t:1789601400:t>.");
}

#[test]
fn season_replies() {
    let s = season(Some("Iron"), vec![]);
    assert_eq!(
        season_started(&s, 2, Some(1789515000)),
        "Season 3: Iron will post here. 4 CB nights, 2 still ahead. First sign-up post: <t:1789515000:F> (<t:1789515000:R>)."
    );
    assert_eq!(
        season_started(&season(None, vec![]), 1, None),
        "Season 3 will post here. 4 CB nights, 1 still ahead. First sign-up post: within a minute."
    );
    assert_eq!(
        season_line(&season(None, vec![100]), 1, None),
        "<#555> Season 3, 2026-09-16 to 2026-09-20. 1 night ahead. Next sign-up post: within a minute. Pings @everyone."
    );
    assert_eq!(
        season_line(&season(None, vec![8, 9]), 2, None),
        "<#555> Season 3, 2026-09-16 to 2026-09-20. 2 nights ahead. Next sign-up post: within a minute. Pings <@&8>."
    );
    assert_eq!(season_removed(3), "Season 3 was removed. Nothing had been posted.");
    assert_eq!(
        season_shortened(3, parse_day("2026-10-01").unwrap()),
        "Season 3 ends after 2026-10-01. No more sign-up posts."
    );
    assert_eq!(
        rehearsal_started(&s, 0, None),
        "Rehearsing season 3: Iron. 4 CB nights, 0 still ahead. Nothing further will post. Manage it with number 3."
    );
    assert_eq!(
        season_edited(&s, 1, None, 1),
        "Season 3: Iron updated. 4 CB nights, 1 still ahead. Next sign-up post: within a minute. 1 sign-up post outside the new dates was cleared. Manage it with number 3."
    );
    assert_eq!(
        season_moved(&s, 1, 2, None),
        "Season 3: Iron now posts in this channel. 2 sign-up posts were cleared from the old channel. Next sign-up post: within a minute."
    );
    assert_eq!(season_ended(3, 0), "Season 3 has ended. The answers are kept.");
    assert_eq!(
        season_ended(3, 1),
        "Season 3 has ended. 1 sign-up post was cleared, and the answers are kept."
    );
}

#[test]
fn edit_replies_note_what_could_not_be_done() {
    let clean = PostsReport { touched: 2, failures: 0 };
    let failed = PostsReport { touched: 2, failures: 1 };
    assert_eq!(season_edit_reached("Edited.", &clean, &clean), "Edited.");
    assert_eq!(
        season_edit_reached("Edited.", &failed, &failed),
        format!("Edited. {CLEAR_FAILED_EDIT} {REFRESH_FAILED} {FAILURES_LOGGED}")
    );
}

#[test]
fn season_list_counts_what_does_not_fit() {
    let lines: Vec<String> = (0..3).map(|i| format!("season {i}")).collect();
    assert_eq!(season_list(&lines), "season 0\nseason 1\nseason 2");
    let long: Vec<String> = (0..3).map(|i| format!("{i}{}", "z".repeat(900))).collect();
    let text = season_list(&long);
    assert!(text.ends_with("\nand 1 more."));
    assert!(text.starts_with(&long[0]));
}

#[test]
fn rehearsal_step_reports() {
    let empty = TickReport::default();
    assert_eq!(stepped(1789601400, &empty), "Moved the rehearsal clock to <t:1789601400:F>. Nothing happened.");
    let purge = PurgeReport { seasons: 2, messages: 1, answers: 0, failures: 0 };
    assert_eq!(reset_done(&purge), "Cleared 2 seasons and 1 sign-up post.");
    assert_eq!(reset_done(&PurgeReport::default()), "Nothing was there to clear.");
    let blocked = PurgeReport { seasons: 0, messages: 3, answers: 0, failures: 1 };
    assert_eq!(
        reset_blocked(&blocked),
        "Some sign-up posts could not be removed, so no season or answer was deleted. 3 sign-up posts were already cleared. Check that the bot can manage messages here, then run this again."
    );
}

#[test]
fn pings_line_names_the_ping() {
    assert_eq!(pings_line(Some(Ping::Everyone)), " Pings @everyone.");
    assert_eq!(pings_line(Some(Ping::Role(RoleId::new(12)))), " Pings <@&12>.");
    assert_eq!(pings_line(None), "");
}

#[test]
fn silent_ping_warnings() {
    let channel = ChannelId::new(3);
    assert_eq!(silent_ping_warning(Ping::Everyone, PingVerdict::Sounds, channel), None);
    assert_eq!(
        silent_ping_warning(Ping::Everyone, PingVerdict::Silent, channel).unwrap(),
        "@everyone will not be pinged in <#3>: Barnacle lacks Mention @everyone, @here, and All Roles there. A server admin can grant Mention @everyone, @here, and All Roles to Barnacle in that channel."
    );
    assert_eq!(
        silent_ping_warning(Ping::Role(RoleId::new(4)), PingVerdict::Unchecked, channel).unwrap(),
        "Barnacle could not check whether <@&4> will be pinged in <#3>. Check that the role's Allow anyone to @mention this role setting is on, or that Barnacle holds Mention @everyone, @here, and All Roles in that channel."
    );
    assert!(silent_ping_warning(Ping::Everyone, PingVerdict::BlockedByChannel, channel)
        .unwrap()
        .ends_with("in that channel's permissions."));
}

#[test]
fn signup_description_lays_out_hours_and_roster() {
    let night = Night::new(parse_day("2026-09-16").unwrap()).unwrap();
    let hours = Hour::all();
    let tally = |k: usize| HourTally { hour: hours[k], attending: k as u32, nope: 1 };
    let view = SignupView {
        season: 7,
        number: 3,
        codename: None,
        night,
        open: false,
        pings: vec![],
        hours: [tally(0), tally(1), tally(2), tally(3)],
        rows: vec![RosterRow { user: UserId::new(5), cells: [Cell::In, Cell::Out, Cell::In, Cell::In] }],
        hidden: 2,
    };
    let text = signup_description(&view);
    let lines: Vec<&str> = text.split('\n').collect();
    assert_eq!(lines[0], "<t:1789601400:F> · Sign-ups closed");
    assert_eq!(lines[1], "");
    assert_eq!(lines[2], "**Hour 1** · <t:1789601400:t> – <t:1789605000:t> · 0 in · 1 out");
    assert_eq!(lines[5], "**Hour 4** · <t:1789612200:t> – <t:1789615800:t> · 3 in · 1 out");
    assert_eq!(lines[6], "");
    assert_eq!(lines[7], "`1    2    3    4    `");
    assert_eq!(lines[8], "`in   out  in   in   ` <@5>");
    assert_eq!(lines[9], "and 2 more.");
    let open = SignupView { open: true, rows: vec![], hidden: 0, ..view };
    let text = signup_description(&open);
    assert!(text.starts_with("<t:1789601400:F> · starts <t:1789601400:R>\nSign-ups close when the night starts.\n\n"));
    assert!(text.ends_with("\n\nNo one has answered yet."));
}

#[test]
fn ping_warnings_come_one_per_line() {
    let channel = ChannelId::new(3);
    assert_eq!(
        silent_pings_warning(
            &[(Ping::Role(RoleId::new(4)), PingVerdict::Sounds), (Ping::Everyone, PingVerdict::Sounds)],
            channel
        ),
        None
    );
    let everyone = silent_ping_warning(Ping::Everyone, PingVerdict::Silent, channel).unwrap();
    let role = silent_ping_warning(Ping::Role(RoleId::new(4)), PingVerdict::Unchecked, channel).unwrap();
    assert_eq!(
        silent_pings_warning(
            &[
                (Ping::Everyone, PingVerdict::Silent),
                (Ping::Role(RoleId::new(5)), PingVerdict::Sounds),
                (Ping::Role(RoleId::new(4)), PingVerdict::Unchecked),
            ],
            channel
        ),
        Some(format!("{everyone}\n{role}"))
    );
}

#[test]
fn reposts_say_which_night_went_up_again() {
    let night = Night::new(parse_day("2026-09-16").unwrap()).unwrap();
    let quiet = season(None, vec![]);
    assert_eq!(
        reposted(&quiet, night, false, &[]),
        "Season 3's sign-up post for 2026-09-16 is at the bottom of its channel again."
    );
    assert_eq!(
        reposted(&quiet, night, true, &[Ping::Role(RoleId::new(7)), Ping::Everyone]),
        "Season 3's sign-up post for 2026-09-16 is at the bottom of its channel again. A copy left by an earlier repost was already there, so it was kept. It pinged <@&7> @everyone."
    );
}

#[test]
fn repost_refusals() {
    assert_eq!(Refusal::RepostNothingToPing(35).code(), "repost_nothing_to_ping");
    assert_eq!(
        Refusal::RepostNothingToPing(35).message(),
        "Season 35 has no ping role, so ping_again has nobody to ping. Repost without ping_again, or give it a ping role with /cb season edit."
    );
    assert_eq!(
        Refusal::NothingToRepost { number: 35, next_post_at: None, nights_left: 0 }.message(),
        "Season 35 has no sign-up post open for answers. Nothing further will post."
    );
    assert_eq!(
        Refusal::NothingToRepost { number: 35, next_post_at: Some(1789516800), nights_left: 2 }.message(),
        "Season 35 has no sign-up post open for answers. Next sign-up post: <t:1789516800:F> (<t:1789516800:R>)."
    );
    assert_eq!(Refusal::PingMixesEveryone.code(), "ping_mixes_everyone");
    assert!(Refusal::RepostPingNotAllowed.message().contains("Mention @everyone, @here, and All Roles"));
    assert_eq!(Refusal::RepostSuperseded.code(), "repost_superseded");
    assert_eq!(Refusal::RepostPingsChanged.code(), "repost_pings_changed");
}

#[test]
fn a_line_starts_a_page_only_when_it_would_not_fit() {
    let lines = vec!["a".repeat(2000), "b".repeat(2095), "c".repeat(10), "d".repeat(4090)];
    let pages = leaderboard_pages(&lines);
    assert_eq!(pages.len(), 3);
    assert_eq!(pages[0], format!("{}\n{}", lines[0], lines[1]));
    assert_eq!(pages[1], lines[2]);
    assert_eq!(pages[2], lines[3]);
}

#[test]
fn season_list_keeps_the_longest_run_that_fits_a_message() {
    let lines: Vec<String> = (0..40).map(|i| format!("{i:02}{}", "s".repeat(98))).collect();
    let text = season_list(&lines);
    assert!(text.encode_utf16().count() <= 2000);
    let shown = lines[..19].join("\n");
    assert_eq!(text, format!("{shown}\nand 21 more."));
    assert!(lines[..20].join("\n").encode_utf16().count() > 1968);
}
