use barnacle_bot::config::position;
use barnacle_bot::config::CommandScope;
use barnacle_bot::config::Config;
use barnacle_bot::config::ConfigError;
use barnacle_bot::config::ConfigFile;
use barnacle_bot::config::ScopeName;
use barnacle_bot::logging::level;
use barnacle_bot::logging::settle_level;
use barnacle_bot::logging::LogFormat;
use barnacle_bot::logging::LogSettings;
use barnacle_bot::logging::LogSettingsError;
use barnacle_bot::startup::describe;
use barnacle_bot::startup::read_token;

fn file(scope: ScopeName, guilds: Option<Vec<u64>>, rehearsal: Option<Vec<u64>>) -> ConfigFile {
    ConfigFile { data_dir: None, curation: None, database: None, scope, guilds, rehearsal }
}

#[test]
fn guild_scope_with_defaults() {
    let config = Config::from_file(file(ScopeName::Guilds, Some(vec![11, 22]), Some(vec![22]))).unwrap();
    assert_eq!(config.data_dir, "data");
    assert_eq!(config.curation, "curation/ships.toml");
    assert_eq!(config.database, "data/barnacle.sqlite3");
    assert_eq!(config.commands, CommandScope::Guilds { guilds: vec![11, 22] });
    assert_eq!(config.rehearsal, vec![22]);
    assert_eq!(config.catalogs(), "data/catalog");
}

#[test]
fn global_scope_needs_no_guilds() {
    let config = Config::from_file(file(ScopeName::Global, None, None)).unwrap();
    assert_eq!(config.commands, CommandScope::Global);
    assert!(config.rehearsal.is_empty());
}

#[test]
fn scope_errors() {
    let refused = |f: ConfigFile| Config::from_file(f).unwrap_err();
    assert_eq!(refused(file(ScopeName::Global, Some(vec![1]), None)), ConfigError::GuildsWithGlobal);
    assert_eq!(refused(file(ScopeName::Guilds, None, None)), ConfigError::NoGuilds);
    assert_eq!(refused(file(ScopeName::Guilds, Some(vec![]), None)), ConfigError::NoGuilds);
    assert_eq!(refused(file(ScopeName::Guilds, Some(vec![1, 0]), None)), ConfigError::ZeroGuild);
    assert_eq!(refused(file(ScopeName::Global, None, Some(vec![1]))), ConfigError::RehearsalWithGlobal);
    assert_eq!(refused(file(ScopeName::Guilds, Some(vec![1]), Some(vec![0]))), ConfigError::ZeroRehearsalGuild);
    assert_eq!(
        refused(file(ScopeName::Guilds, Some(vec![1, 2]), Some(vec![2, 3, 4]))),
        ConfigError::RehearsalNotRegistered { guild: 3 }
    );
}

#[test]
fn paths_given_are_kept() {
    let mut given = file(ScopeName::Global, None, None);
    given.data_dir = Some("/srv/barnacle/".to_owned());
    given.database = Some("db.sqlite3".to_owned());
    let config = Config::from_file(given).unwrap();
    assert_eq!(config.data_dir, "/srv/barnacle/");
    assert_eq!(config.database, "db.sqlite3");
    assert_eq!(config.catalogs(), "/srv/barnacle/catalog");
}

#[test]
fn config_error_messages() {
    assert_eq!(
        ConfigError::Toml { line: 3, column: 7 }.message(),
        "the config is not valid at line 3, column 7; compare it with barnacle.example.toml"
    );
    assert_eq!(
        ConfigError::RehearsalNotRegistered { guild: 42 }.message(),
        "rehearsal.guilds lists 42, which is not in commands.guilds"
    );
    assert_eq!(
        ConfigError::NoGuilds.message(),
        "commands.scope is \"guilds\" but commands.guilds lists no server"
    );
}

#[test]
fn positions_count_lines_and_characters() {
    let text = "a = 1\nbé = 2\nc";
    assert_eq!(position(text, 0), (1, 1));
    assert_eq!(position(text, 6), (2, 1));
    assert_eq!(position(text, 9), (2, 3));
    assert_eq!(position(text, 8), (3, 2));
    assert_eq!(position(text, 1000), (3, 2));
}

#[test]
fn log_formats() {
    assert_eq!(barnacle_bot::logging::format("  JSON "), Ok(LogFormat::Json));
    assert_eq!(barnacle_bot::logging::format("Text"), Ok(LogFormat::Text));
    assert_eq!(barnacle_bot::logging::format("   "), Ok(LogFormat::Text));
    assert_eq!(barnacle_bot::logging::format("yaml"), Err(LogSettingsError::Format { value: "yaml".to_owned() }));
}

#[test]
fn log_levels_checked_by_the_filter() {
    assert_eq!(level(" debug "), Ok("debug".to_owned()));
    assert_eq!(level(""), Ok("info".to_owned()));
    assert_eq!(level("info,barnacle_bot=debug"), Ok("info,barnacle_bot=debug".to_owned()));
    assert_eq!(level("=="), Err(LogSettingsError::Level { value: "==".to_owned() }));
    assert_eq!(settle_level("  ", true), Ok("info".to_owned()));
    assert_eq!(settle_level("x", false), Err(LogSettingsError::Level { value: "x".to_owned() }));
}

#[test]
fn log_settings_from_the_environment() {
    assert_eq!(
        LogSettings::from_lookup(None, None),
        Ok(LogSettings { format: LogFormat::Text, level: "info".to_owned() })
    );
    assert_eq!(
        LogSettings::from_lookup(Some("json".to_owned()), Some("warn".to_owned())),
        Ok(LogSettings { format: LogFormat::Json, level: "warn".to_owned() })
    );
    assert_eq!(
        LogSettings::from_lookup(Some("xml".to_owned()), Some("==".to_owned())),
        Err(LogSettingsError::Format { value: "xml".to_owned() })
    );
}

#[test]
fn log_settings_error_messages() {
    assert_eq!(
        LogSettingsError::Format { value: "x\"y".to_owned() }.message(),
        "BARNACLE_LOG_FORMAT is \"x\\\"y\"; it must be text or json"
    );
    assert_eq!(
        LogSettingsError::Level { value: "==".to_owned() }.message(),
        "BARNACLE_LOG_LEVEL is \"==\", which is not a level filter such as info or info,barnacle_bot=debug"
    );
}

#[test]
fn tokens_are_trimmed_and_required() {
    assert_eq!(read_token(Some("  abc.def \n".to_owned())), Some("abc.def".to_owned()));
    assert_eq!(read_token(Some("   ".to_owned())), None);
    assert_eq!(read_token(None), None);
}

#[test]
fn startup_failures_list_problems_then_causes() {
    let problems = vec!["ship A".to_owned(), "ship B".to_owned()];
    let causes = vec!["file missing".to_owned()];
    assert_eq!(
        describe("curation has 2 problem(s)", &problems, &causes),
        "curation has 2 problem(s)\n  - ship A\n  - ship B\n  caused by: file missing"
    );
    assert_eq!(describe("DISCORD_TOKEN is not set", &[], &[]), "DISCORD_TOKEN is not set");
}
