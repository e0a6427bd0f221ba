use barnacle_bot::wiring::repost_ping_refusal;
use barnacle_bot::text::Refusal;
use barnacle_bot::attendance::Delivery;
use barnacle_bot::attendance::Target;
use barnacle_bot::ids::Ping;
use barnacle_bot::ids::RoleId;
use barnacle_bot::schedule::Hour;
use barnacle_bot::schedule::Night;
use barnacle_bot::schedule::parse_day;
use barnacle_bot::text::ping_content;
use barnacle_bot::wiring::SIGNUP_ID_LENGTH;
use barnacle_bot::wiring::SignupClick;
use barnacle_bot::wiring::ping_allowance;
use barnacle_bot::wiring::signup_button_id;
use barnacle_bot::wiring::signup_click;
use barnacle_bot::wiring::signup_tag_prefix;
use barnacle_bot::wiring::unheard_pings;

fn wednesday() -> Night {
    Night::new(parse_day("2026-09-16").unwrap()).unwrap()
}

#[test]
fn sign_up_ids_spell_their_fields_at_fixed_widths() {
    let click = SignupClick {
        season: 42,
        night: wednesday(),
        target: Target::One(Hour::new(3).unwrap()),
        attending: true,
    };
    let id = signup_button_id(click);
    assert_eq!(id, "barnacle-signup:000000000000000000421202609163y");
    assert_eq!(id.chars().count(), SIGNUP_ID_LENGTH);
    assert!(id.starts_with(&signup_tag_prefix(42, wednesday())));
}

#[test]
fn sign_up_ids_read_back_as_their_clicks() {
    for target in [Target::All, Target::One(Hour::new(1).unwrap()), Target::One(Hour::new(4).unwrap())] {
        for attending in [true, false] {
            for season in [1, 35, i64::MAX, -7] {
                let click = SignupClick { season, night: wednesday(), target, attending };
                assert_eq!(signup_click(&signup_button_id(click)), Some(click));
            }
        }
    }
}

#[test]
fn a_rehearsal_night_on_any_weekday_reads_back() {
    let friday = Night::parse("2026-09-18").unwrap();
    let click = SignupClick { season: 42, night: friday, target: Target::All, attending: true };
    let id = signup_button_id(click);
    assert!(id.contains("20260918"));
    assert_eq!(signup_click(&id), Some(click));
}

#[test]
fn other_ids_are_not_sign_up_clicks() {
    let id = signup_button_id(SignupClick {
        season: 42,
        night: wednesday(),
        target: Target::All,
        attending: false,
    });
    assert!(signup_click(&id).is_some());
    assert_eq!(signup_click("barnacle-cancel:7"), None);
    assert_eq!(signup_click(&id.replace("na", "nz")), None);
    assert_eq!(signup_click(&id.replace("0916", "0931")), None);
    assert_eq!(signup_click(&id.replace("an", "5n")), None);
    assert_eq!(signup_click(&id.replace("an", "ax")), None);
    assert_eq!(signup_click(&id[..id.len() - 1]), None);
}

#[test]
fn a_post_mentions_its_pings_in_order() {
    let pings = vec![Ping::Role(RoleId::new(7)), Ping::Everyone, Ping::Role(RoleId::new(9))];
    assert_eq!(ping_content(&pings), "<@&7> @everyone <@&9>");
    assert_eq!(ping_content(&[]), "");
}

#[test]
fn only_a_new_post_lets_its_pings_sound() {
    let pings = vec![Ping::Role(RoleId::new(7)), Ping::Role(RoleId::new(9))];
    let new = ping_allowance(Delivery::New, &pings);
    assert!(!new.everyone);
    assert_eq!(new.roles, vec![RoleId::new(7), RoleId::new(9)]);
    let everyone = ping_allowance(Delivery::New, &[Ping::Everyone]);
    assert!(everyone.everyone);
    assert!(everyone.roles.is_empty());
    let redraw = ping_allowance(Delivery::Redraw, &pings);
    assert!(!redraw.everyone);
    assert!(redraw.roles.is_empty());
}

#[test]
fn pings_discord_did_not_register_are_unheard() {
    let pings = vec![Ping::Role(RoleId::new(7)), Ping::Everyone, Ping::Role(RoleId::new(9))];
    assert_eq!(
        unheard_pings(&pings, &[RoleId::new(9)], false),
        vec![Ping::Role(RoleId::new(7)), Ping::Everyone]
    );
    assert!(unheard_pings(&pings, &[RoleId::new(9), RoleId::new(7)], true).is_empty());
}

#[test]
fn a_repost_pings_again_only_where_it_may() {
    let role = Ping::Role(RoleId::new(7));
    assert_eq!(repost_ping_refusal(35, &[], Some(true), &[]), Some(Refusal::RepostNothingToPing(35)));
    assert_eq!(repost_ping_refusal(35, &[role], Some(false), &[false]), Some(Refusal::RepostPingNotAllowed));
    assert_eq!(repost_ping_refusal(35, &[role], Some(false), &[true]), None);
    assert_eq!(repost_ping_refusal(35, &[role], Some(true), &[false]), None);
}
