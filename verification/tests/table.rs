use barnacle_bot::ids::Snowflake;
use barnacle_bot::table::CancelOutcome;
use barnacle_bot::table::Seat;

#[test]
fn the_earliest_correct_answer_leads() {
    let mut seat = Seat::new();
    assert!(!seat.busy());
    seat.begin(1);
    assert!(seat.busy());
    let first = seat.hear(Snowflake::new(50), false, true).unwrap();
    assert!(first.first && first.leads);
    let later = seat.hear(Snowflake::new(60), false, true).unwrap();
    assert!(!later.first && !later.leads);
    let earlier = seat.hear(Snowflake::new(40), false, true).unwrap();
    assert!(!earlier.first && earlier.leads);
    assert_eq!(seat.settle(1), Some(Some(Snowflake::new(40))));
    assert!(!seat.busy());
}

#[test]
fn bots_and_wrong_answers_are_not_heard() {
    let mut seat = Seat::new();
    assert!(seat.hear(Snowflake::new(5), false, true).is_none());
    seat.begin(2);
    assert!(seat.hear(Snowflake::new(5), true, true).is_none());
    assert!(seat.hear(Snowflake::new(5), false, false).is_none());
    assert!(seat.hint_due(2));
}

#[test]
fn a_round_ends_once() {
    let mut seat = Seat::new();
    seat.begin(3);
    assert_eq!(seat.cancel(3, false), CancelOutcome::Refused);
    assert_eq!(seat.cancel(4, true), CancelOutcome::AlreadyOver);
    assert_eq!(seat.cancel(3, true), CancelOutcome::Cancelled);
    assert_eq!(seat.cancel(3, true), CancelOutcome::AlreadyOver);
    assert!(!seat.time_out(3));
    assert_eq!(seat.settle(3), None);
}

#[test]
fn an_answered_round_neither_times_out_nor_cancels() {
    let mut seat = Seat::new();
    seat.begin(5);
    seat.hear(Snowflake::new(9), false, true);
    assert!(!seat.hint_due(5));
    assert!(!seat.time_out(5));
    assert_eq!(seat.cancel(5, true), CancelOutcome::AlreadyOver);
    assert_eq!(seat.settle(5), Some(Some(Snowflake::new(9))));
}

#[test]
fn an_unanswered_round_times_out() {
    let mut seat = Seat::new();
    seat.begin(6);
    assert!(seat.time_out(6));
    assert!(!seat.busy());
}
