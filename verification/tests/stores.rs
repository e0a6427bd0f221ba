use barnacle_bot::attendance_store::to_days;
use barnacle_bot::attendance_store::to_every_day;
use barnacle_bot::schedule::Days;
use barnacle_bot::attendance_store::attendance_table_problem;
use barnacle_bot::attendance_store::attendance_tables;
use barnacle_bot::attendance_store::expected_attendance_columns;
use barnacle_bot::attendance_store::ping_roles_unmigrated;
use barnacle_bot::attendance_store::AttendanceError;
use barnacle_bot::solves::expected_columns;
use barnacle_bot::solves::schema_problem;
use barnacle_bot::solves::Column;
use barnacle_bot::solves::SolvesError;
use barnacle_bot::voice_store::expected_voice_columns;
use barnacle_bot::voice_store::voice_table_problem;
use barnacle_bot::voice_store::voice_tables;
use barnacle_bot::voice_store::VoiceStoreError;

fn names(columns: &[Column]) -> Vec<&str> {
    columns.iter().map(|column| column.name.as_str()).collect()
}

#[test]
fn every_attendance_table_has_its_columns() {
    assert_eq!(
        attendance_tables(),
        vec!["cb_seasons", "cb_season_ping_roles", "cb_posts", "cb_marks", "cb_rehearsal_clock"]
    );
    for table in attendance_tables() {
        let expected = expected_attendance_columns(table);
        assert!(!expected.is_empty());
        assert!(attendance_table_problem(table, expected).is_ok());
    }
    assert_eq!(
        names(&expected_attendance_columns("cb_posts")),
        vec!["season_id", "night", "message_id", "state", "posted_at_ms"]
    );
    assert!(expected_attendance_columns("elsewhere").is_empty());
}

#[test]
fn attendance_tables_that_differ_are_refused() {
    assert!(matches!(
        attendance_table_problem("cb_posts", Vec::new()),
        Err(AttendanceError::MissingTable { table: "cb_posts" })
    ));
    let mut marks = expected_attendance_columns("cb_marks");
    marks.pop();
    match attendance_table_problem("cb_marks", marks.clone()) {
        Err(AttendanceError::UnexpectedColumns { table, found }) => {
            assert_eq!(table, "cb_marks");
            assert_eq!(found, marks);
        }
        other => panic!("unexpected {other:?}"),
    }
}

#[test]
fn a_store_with_one_ping_role_per_season_is_recognised() {
    let mut old = expected_attendance_columns("cb_seasons");
    let ping_role = Column {
        name: "ping_role_id".to_owned(),
        kind: "INTEGER".to_owned(),
        not_null: false,
        primary_key: false,
    };
    old.insert(9, ping_role);
    assert!(ping_roles_unmigrated(&old, &Vec::new()));
    assert!(!ping_roles_unmigrated(&old, &expected_attendance_columns("cb_season_ping_roles")));
    assert!(!ping_roles_unmigrated(&expected_attendance_columns("cb_seasons"), &Vec::new()));
}

#[test]
fn voice_tables_have_their_columns() {
    assert_eq!(voice_tables(), vec!["vc_hubs", "vc_rooms"]);
    assert!(voice_table_problem("vc_rooms", expected_voice_columns("vc_rooms")).is_ok());
    assert!(matches!(
        voice_table_problem("vc_hubs", Vec::new()),
        Err(VoiceStoreError::MissingTable { table: "vc_hubs" })
    ));
    assert!(matches!(
        voice_table_problem("vc_hubs", expected_voice_columns("vc_rooms")),
        Err(VoiceStoreError::UnexpectedColumns { table: "vc_hubs", .. })
    ));
}

#[test]
fn the_solves_table_is_checked() {
    assert!(schema_problem(expected_columns()).is_ok());
    assert!(matches!(schema_problem(Vec::new()), Err(SolvesError::MissingTable)));
    let mut found = expected_columns();
    found.swap(1, 2);
    assert!(matches!(schema_problem(found), Err(SolvesError::UnexpectedColumns { .. })));
}

#[test]
fn the_every_day_flag_names_the_rule_for_nights() {
    assert_eq!(to_days(0), Days::ClanBattle);
    assert_eq!(to_days(1), Days::Every);
    assert_eq!(to_days(7), Days::Every);
    assert_eq!(to_every_day(Days::ClanBattle), 0);
    assert_eq!(to_every_day(Days::Every), 1);
}
