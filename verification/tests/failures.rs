use barnacle_bot::failure::command_failed;
use barnacle_bot::failure::copy_blockers;
use barnacle_bot::failure::join_names;
use barnacle_bot::failure::Failure;
use barnacle_bot::failure::Kind;
use barnacle_bot::failure::OptionProblem;
use barnacle_bot::failure::Reference;
use barnacle_bot::replies::cleaned;
use barnacle_bot::replies::clipped_codename;
use barnacle_bot::replies::missing_here;
use barnacle_bot::replies::out_of_date;
use barnacle_bot::replies::problem_code;
use barnacle_bot::replies::problem_reply;
use barnacle_bot::replies::warned;
use barnacle_bot::replies::FrameworkProblem;
use barnacle_bot::replies::COMMANDS_OUT_OF_DATE;
use barnacle_bot::text::Refusal;

#[test]
fn references_are_eight_letters() {
    for _ in 0..20 {
        let reference = Reference::new();
        assert_eq!(reference.as_str().chars().count(), 8);
        assert!(reference.as_str().chars().all(|c| c.is_ascii_alphanumeric()));
    }
    assert_ne!(Reference::new(), Reference::new());
}

#[test]
fn names_are_joined_with_and() {
    assert_eq!(join_names(&[]), "");
    assert_eq!(join_names(&["A"]), "A");
    assert_eq!(join_names(&["A", "B"]), "A and B");
    assert_eq!(join_names(&["A", "B", "C"]), "A, B and C");
}

#[test]
fn failures_from_errors_drop_repeated_causes() {
    let causes = vec!["outer".to_owned(), "inner".to_owned(), "inner".to_owned(), "root".to_owned()];
    let failure = Failure::from_error(causes, None);
    assert_eq!(failure.message, "outer: inner: root");
    assert_eq!(failure.kind, Kind::Internal);
    let failure = Failure::from_error(vec!["timed out".to_owned()], Some((Kind::Timeout, None)));
    assert_eq!(failure.kind, Kind::Timeout);
}

#[test]
fn every_failure_text_ends_with_its_reference() {
    let failure = Failure::missing_permissions(vec!["Manage Channels"]);
    let reference = format!("(Reference: {})", failure.reference.as_str());
    let text = command_failed("voice hub create", &failure);
    assert!(text.starts_with("`/voice hub create` did not finish. Barnacle is missing Manage Channels here. A server admin can grant it to Barnacle's role, then try again."));
    assert!(text.ends_with(&reference));
    let stale = out_of_date("cb season start", &failure);
    assert!(stale.ends_with(&format!("{COMMANDS_OUT_OF_DATE} {reference}")));
    assert_eq!(failure.explanation(), format!("{} {reference}", failure.advice()));
}

#[test]
fn option_problems_split_internal_failures() {
    let internal = Failure::internal("bad option".to_owned());
    assert_eq!(OptionProblem::of(internal), OptionProblem::Unreadable("bad option".to_owned()));
    let other = Failure::from_error(vec!["x".to_owned()], Some((Kind::Network, None)));
    assert!(matches!(OptionProblem::of(other), OptionProblem::Failed(_)));
}

#[test]
fn copy_blockers_name_what_barnacle_lacks() {
    assert_eq!(copy_blockers(8, &[(1024, 2048)], 16), 0);
    assert_eq!(copy_blockers(1024, &[(1024, 2048)], 16), 2048 | 16);
    assert_eq!(copy_blockers(0, &[(268435456, 0)], 0), 8);
}

#[test]
fn framework_refusals() {
    let missing = FrameworkProblem::MissingUserPermissions { names: vec![] };
    assert_eq!(problem_code(&missing), "missing_user_permissions");
    assert_eq!(problem_reply("guess", &missing), "You need a permission you do not have to use `/guess`.");
    let named = FrameworkProblem::MissingUserPermissions { names: vec!["Manage Channels"] };
    assert_eq!(problem_reply("voice hub create", &named), "You need Manage Channels to use `/voice hub create`.");
    let bot = FrameworkProblem::MissingBotPermissions { names: vec!["Send Messages", "Embed Links"] };
    assert_eq!(
        problem_reply("guess", &bot),
        "Barnacle needs Send Messages and Embed Links here to run `/guess`. A server admin can grant them to Barnacle's role, then try again."
    );
    assert_eq!(problem_reply("cb", &FrameworkProblem::GuildOnly), "`/cb` works only inside a server.");
    let parse = FrameworkProblem::ArgumentParse { error: "not a number".to_owned() };
    assert_eq!(problem_code(&parse), "invalid_option");
    assert_eq!(
        problem_reply("guess", &parse),
        "Barnacle could not read one of the options you gave `/guess`: not a number. Check it and try again."
    );
}

#[test]
fn command_helpers() {
    assert_eq!(missing_here(vec![]), None);
    assert_eq!(
        missing_here(vec!["Send Messages"]),
        Some(Refusal::MissingBotPermissions { names: vec!["Send Messages"], channel: None })
    );
    assert_eq!(warned(Some("Careful.".to_owned()), "Done.".to_owned()), "Careful.\n\nDone.");
    assert_eq!(warned(None, "Done.".to_owned()), "Done.");
    assert_eq!(clipped_codename(Some("c".repeat(150))), Some("c".repeat(100)));
    assert_eq!(clipped_codename(None), None);
    assert_eq!(cleaned(None, 10), Ok(None));
    assert_eq!(cleaned(Some("  cb  "), 10), Ok(Some("cb".to_owned())));
    assert_eq!(cleaned(Some("   "), 10), Err(Refusal::NameEmpty));
    assert_eq!(cleaned(Some("abcdef"), 3), Err(Refusal::NameTooLong { limit: 3 }));
}
