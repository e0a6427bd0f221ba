use barnacle_bot::ids::GuildId;
use barnacle_bot::ids::Ping;
use barnacle_bot::ids::RoleId;
use barnacle_bot::lookup::listing_label;
use barnacle_bot::lookup::Directory;
use barnacle_bot::lookup::Listing;
use barnacle_bot::lookup::MAX_SUGGESTIONS;
use barnacle_bot::ships::Tier;
use barnacle_bot::wiring::cancel_button_id;
use barnacle_bot::wiring::ping_choice;
use barnacle_bot::wiring::ping_verdict;
use barnacle_bot::wiring::round_number;
use barnacle_bot::wiring::setup_ping;
use barnacle_bot::wiring::PingChoiceProblem;
use barnacle_bot::wiring::PingReach;
use barnacle_bot::wiring::PingVerdict;
use barnacle_bot::wiring::SetupPing;
use barnacle_bot::wiring::ENDED_BUTTON_ID;

fn listing(index: &str, label: &str, forms: &[&str]) -> Listing {
    Listing {
        index: index.to_owned(),
        label: label.to_owned(),
        forms: forms.iter().map(|form| form.to_string()).collect(),
    }
}

fn directory() -> Directory {
    Directory::new(vec![
        listing("PGSB108", "Bismarck (VIII, Germany)", &["bismarck"]),
        listing("PASB018", "Iowa (IX, U.S.A.)", &["iowa"]),
        listing("PJSB018", "Yamato (X, Japan)", &["yamato"]),
        listing("PGSB210", "Odin (VIII, Germany)", &["odin", "kms odin"]),
        listing("PASB110", "Missouri (IX, U.S.A.)", &["missouri", "mighty mo"]),
    ])
}

#[test]
fn suggestions_start_with_prefix_matches() {
    let found: Vec<String> = directory().suggest("mi").into_iter().map(|s| s.index).collect();
    assert_eq!(found, vec!["PASB110"]);
    let found: Vec<String> = directory().suggest("o").into_iter().map(|s| s.label).collect();
    assert_eq!(found, vec!["Odin (VIII, Germany)", "Iowa (IX, U.S.A.)", "Yamato (X, Japan)", "Missouri (IX, U.S.A.)"]);
    assert!(directory().suggest("zzz").is_empty());
}

#[test]
fn suggestions_stop_at_the_limit() {
    let many: Vec<Listing> = (0..40).map(|i| listing(&format!("S{i}"), &format!("Ship {i}"), &["ship"])).collect();
    let suggestions = Directory::new(many).suggest("sh");
    assert_eq!(suggestions.len(), MAX_SUGGESTIONS);
    assert_eq!(suggestions[0].index, "S0");
    assert_eq!(suggestions[24].index, "S24");
}

#[test]
fn resolve_by_index_then_by_name() {
    let directory = directory();
    assert_eq!(directory.resolve(Some("PJSB018"), "whatever"), Some("PJSB018".to_owned()));
    assert_eq!(directory.resolve(None, "mighty mo"), Some("PASB110".to_owned()));
    assert_eq!(directory.resolve(Some("PXXX999"), "iowa"), Some("PASB018".to_owned()));
    assert_eq!(directory.resolve(None, "mighty"), None);
    assert_eq!(directory.resolve(None, ""), None);
}

#[test]
fn labels_are_cut_to_what_discord_shows() {
    let tier = Tier::new(8).unwrap();
    assert_eq!(listing_label("Bismarck", tier, "Germany"), "Bismarck (VIII, Germany)");
    assert_eq!(listing_label("Prinz", tier, "United_Kingdom"), "Prinz (VIII, U.K.)");
    let long = "n".repeat(120);
    assert_eq!(listing_label(&long, tier, "Germany").chars().count(), 100);
}

#[test]
fn cancel_ids_carry_their_round() {
    assert_eq!(cancel_button_id(17), "barnacle-cancel:17");
    assert_eq!(round_number(&cancel_button_id(17)), Some(17));
    assert_eq!(round_number(&cancel_button_id(u64::MAX)), Some(u64::MAX));
    assert_eq!(round_number("barnacle-cancel:+5"), Some(5));
    assert_eq!(round_number(ENDED_BUTTON_ID), None);
    assert_eq!(round_number("barnacle-cancel:18446744073709551616"), None);
    assert_eq!(round_number("other:5"), None);
}

#[test]
fn ping_verdicts() {
    let role = Ping::Role(RoleId::new(5));
    let reach = |m, s, c| Some(PingReach { role_mentionable: m, server_grant: s, channel_grant: c });
    assert_eq!(ping_verdict(role, None), PingVerdict::Unchecked);
    assert_eq!(ping_verdict(role, reach(true, false, false)), PingVerdict::Sounds);
    assert_eq!(ping_verdict(Ping::Everyone, reach(true, false, false)), PingVerdict::Silent);
    assert_eq!(ping_verdict(Ping::Everyone, reach(false, true, true)), PingVerdict::Sounds);
    assert_eq!(ping_verdict(role, reach(false, true, false)), PingVerdict::BlockedByChannel);
    assert_eq!(setup_ping(true, PingVerdict::BlockedByChannel), SetupPing::Refuse);
    assert_eq!(setup_ping(false, PingVerdict::BlockedByChannel), SetupPing::Warn);
    assert_eq!(setup_ping(true, PingVerdict::Sounds), SetupPing::Accept);
    assert_eq!(setup_ping(true, PingVerdict::Unchecked), SetupPing::Warn);
}

#[test]
fn ping_roles_are_distinct_and_everyone_stands_alone() {
    let guild = GuildId::new(100);
    let r = |id| Some(RoleId::new(id));
    assert_eq!(ping_choice(guild, [r(5), None, r(6), r(5), None]), Ok(vec![RoleId::new(5), RoleId::new(6)]));
    assert_eq!(ping_choice(guild, [r(100), r(100), None, None, None]), Ok(vec![RoleId::new(100)]));
    assert_eq!(ping_choice(guild, [r(5), r(100), None, None, None]), Err(PingChoiceProblem::MixedEveryone));
    assert_eq!(ping_choice(guild, [None, None, None, None, None]), Ok(vec![]));
}
