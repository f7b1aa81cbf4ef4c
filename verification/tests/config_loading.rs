use cli_collect::config::{
    config_or_default, config_step, default_content, first_step, ConfigEvent, ConfigStep,
    DEFAULTS_NOTE,
};
use cli_collect::listing::Failure;
use cli_collect::projection::DisplayConf;
use cli_collect::utils::{error_label, error_note, error_report, warning_note};

fn denied() -> Failure {
    Failure { kind: String::from("permission denied"), message: String::from("no entry") }
}

fn failed(step: ConfigStep) -> Failure {
    match step {
        ConfigStep::Failed(failure) => failure,
        _ => panic!("loading has not failed"),
    }
}

#[test]
fn loading_starts_with_finding_the_directory() {
    assert!(matches!(first_step(), ConfigStep::FindDirectory));
}

#[test]
fn a_new_file_is_written_before_it_is_read() {
    let step = config_step(first_step(), ConfigEvent::DirectoryFound { has_parent: true });
    assert!(matches!(step, ConfigStep::CreateDirectory));
    let step = config_step(step, ConfigEvent::Succeeded);
    assert!(matches!(step, ConfigStep::CheckFile));
    let step = config_step(step, ConfigEvent::FileExists(false));
    assert!(matches!(step, ConfigStep::WriteDefaults));
    let step = config_step(step, ConfigEvent::Succeeded);
    assert!(matches!(step, ConfigStep::ReadFile));
    let step = config_step(step, ConfigEvent::Succeeded);
    assert!(matches!(step, ConfigStep::Parse));
    let step = config_step(step, ConfigEvent::Parsed);
    assert!(matches!(step, ConfigStep::Done));
}

#[test]
fn an_existing_file_is_read_as_it_is() {
    let step = config_step(first_step(), ConfigEvent::DirectoryFound { has_parent: false });
    assert!(matches!(step, ConfigStep::CheckFile));
    let step = config_step(step, ConfigEvent::FileExists(true));
    assert!(matches!(step, ConfigStep::ReadFile));
}

#[test]
fn a_missing_directory_ends_loading() {
    let failure = failed(config_step(first_step(), ConfigEvent::DirectoryMissing));
    assert_eq!(failure.kind, "other error");
    assert_eq!(failure.message, "could not find the config default directory");
}

#[test]
fn an_unreadable_content_ends_loading() {
    let failure = failed(config_step(ConfigStep::Parse, ConfigEvent::Unparsable));
    assert_eq!(failure.kind, "other error");
    assert_eq!(failure.message, "could not parse the contents of the config file");
}

#[test]
fn a_failure_of_the_file_system_ends_loading_with_that_failure() {
    for step in [ConfigStep::CreateDirectory, ConfigStep::WriteDefaults, ConfigStep::ReadFile] {
        let failure = failed(config_step(step, ConfigEvent::IoFailed(denied())));
        assert_eq!(failure.kind, "permission denied");
        assert_eq!(failure.message, "no entry");
    }
}

#[test]
fn the_end_of_loading_is_final() {
    let done = config_step(ConfigStep::Done, ConfigEvent::IoFailed(denied()));
    assert!(matches!(done, ConfigStep::Done));
    let still = config_step(ConfigStep::Failed(denied()), ConfigEvent::Parsed);
    assert_eq!(failed(still).message, "no entry");
}

#[test]
fn an_event_that_answers_no_step_changes_nothing() {
    assert!(matches!(
        config_step(ConfigStep::CheckFile, ConfigEvent::Parsed),
        ConfigStep::CheckFile
    ));
    assert!(matches!(
        config_step(ConfigStep::FindDirectory, ConfigEvent::IoFailed(denied())),
        ConfigStep::FindDirectory
    ));
    assert!(matches!(config_step(ConfigStep::Parse, ConfigEvent::Succeeded), ConfigStep::Parse));
}

#[test]
fn the_defaults_are_written_as_formatted_or_not_at_all() {
    assert_eq!(default_content(Some(String::from("a = 1\n"))), "a = 1\n");
    assert_eq!(default_content(None), "");
}

#[test]
fn a_loaded_configuration_is_used() {
    let loaded = DisplayConf { date_format: String::from("%Y"), ..DisplayConf::default() };
    let used = config_or_default(Ok(loaded), DisplayConf::default());
    assert_eq!(used.config.date_format, "%Y");
    assert!(used.failure.is_none());
}

#[test]
fn a_failed_load_falls_back_to_the_defaults() {
    let defaults = DisplayConf { dir_color: String::from("blue"), ..DisplayConf::default() };
    let used = config_or_default(Err(denied()), defaults);
    assert_eq!(used.config.dir_color, "blue");
    assert_eq!(used.config.date_format, "%d/%m/%Y %H:%M");
    assert_eq!(used.failure.unwrap().message, "no entry");
    assert_eq!(DEFAULTS_NOTE, "using default configuration");
}

#[test]
fn reports_start_with_their_label() {
    assert_eq!(error_label("other error"), "ERROR: other error - \n");
    colored::control::set_override(false);
    assert_eq!(error_report(&denied()), "ERROR: permission denied - \nno entry");
    assert_eq!(error_note(&String::from("can find name")), "ERROR: can find name");
    assert_eq!(warning_note(&String::from("careful")), "WARNING: careful");
    colored::control::set_override(true);
    assert_eq!(
        error_report(&denied()),
        "ERROR: permission denied - \n\u{1b}[31mno entry\u{1b}[0m"
    );
    assert_eq!(error_note(&String::from("x")), "ERROR: \u{1b}[31mx\u{1b}[0m");
    assert_eq!(warning_note(&String::from("x")), "WARNING: \u{1b}[33mx\u{1b}[0m");
    colored::control::unset_override();
}
