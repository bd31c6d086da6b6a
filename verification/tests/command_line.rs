use atomblocks::cli::{
    config_place, AtomBlocksCli, CliActionHit, CliActionRun, CliActions, ConfigPlace, Verbosity,
    CONFIG_FILE, HOME_DIR, SYSTEM_DIR, USER_CONFIG_DIR,
};
use std::path::PathBuf;

#[test]
fn switches_are_kept() {
    let cli = AtomBlocksCli::new(None, true, false, true);
    assert!(cli.verbose());
    assert!(!cli.trace());
    assert!(cli.version());
    assert_eq!(cli.action(), None);
}

#[test]
fn action_is_kept() {
    let cli = AtomBlocksCli::new(Some(CliActions::Hit(CliActionHit::new(3))), false, true, false);
    assert_eq!(cli.action(), Some(&CliActions::Hit(CliActionHit::new(3))));
    assert!(cli.trace());
    assert!(!cli.verbose());
    assert!(!cli.version());
}

#[test]
fn hit_keeps_its_id() {
    assert_eq!(CliActionHit::new(0).id(), 0);
    assert_eq!(CliActionHit::new(u32::MAX).id(), u32::MAX);
}

#[test]
fn run_keeps_its_config_path() {
    let run = CliActionRun::new(Some(PathBuf::from("/etc/atomblocks/config.toml")));
    assert_eq!(run.config(), Some(PathBuf::from("/etc/atomblocks/config.toml")));
    assert_eq!(run.config(), run.config());
}

#[test]
fn run_without_config_path() {
    assert_eq!(CliActionRun::new(None).config(), None);
}

#[test]
fn run_action_is_told_from_hit_action() {
    let run = CliActions::Run(CliActionRun::new(None));
    let hit = CliActions::Hit(CliActionHit::new(1));
    assert!(matches!(run, CliActions::Run(_)));
    assert!(matches!(hit, CliActions::Hit(_)));
    assert_ne!(run, hit);
}

#[test]
fn trace_goes_before_verbose() {
    assert_eq!(AtomBlocksCli::new(None, true, true, false).verbosity(), Verbosity::Trace);
    assert_eq!(AtomBlocksCli::new(None, false, true, false).verbosity(), Verbosity::Trace);
}

#[test]
fn verbose_alone_logs_the_course_of_the_work() {
    assert_eq!(AtomBlocksCli::new(None, true, false, false).verbosity(), Verbosity::Info);
}

#[test]
fn no_switch_logs_errors_only() {
    assert_eq!(AtomBlocksCli::new(None, false, false, true).verbosity(), Verbosity::Error);
}

#[test]
fn user_config_directory_goes_first() {
    assert_eq!(config_place(true, true), ConfigPlace::UserConfig);
    assert_eq!(config_place(true, false), ConfigPlace::UserConfig);
}

#[test]
fn home_goes_before_the_system() {
    assert_eq!(config_place(false, true), ConfigPlace::Home);
}

#[test]
fn system_is_the_last_resort() {
    assert_eq!(config_place(false, false), ConfigPlace::System);
}

#[test]
fn places_of_the_configuration_file() {
    assert_eq!(CONFIG_FILE, "config.toml");
    assert_eq!(USER_CONFIG_DIR, "atomblocks");
    assert_eq!(HOME_DIR, ".config/atomblocks");
    assert_eq!(SYSTEM_DIR, "/etc/atomblocks");
}
