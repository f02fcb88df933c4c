use execute::CommandConfig;
use std::time::Duration;

#[test]
fn command_config_new_sets_defaults() {
    let cfg = CommandConfig::new("echo", vec!["hello".to_string()]);

    assert_eq!(cfg.program(), "echo");
    assert_eq!(cfg.args(), &["hello".to_string()]);
    assert!(cfg.working_dir().is_none());
    assert_eq!(cfg.timeout(), Some(Duration::from_secs(10)));
}

#[test]
fn command_config_with_working_dir_sets_dir() {
    let cfg = CommandConfig::new("echo", vec!["hi".to_string()]).with_working_dir("/tmp");

    assert_eq!(cfg.working_dir(), Some("/tmp"));
}

#[test]
fn command_config_with_timeout_sets_timeout() {
    let cfg = CommandConfig::new("sleep", vec!["1".to_string()])
        .with_timeout(Duration::from_millis(250));

    assert_eq!(cfg.timeout(), Some(Duration::from_millis(250)));
}

#[test]
fn command_config_without_timeout_clears_it() {
    let cfg = CommandConfig::new("sleep", vec!["1".to_string()]).without_timeout();

    assert_eq!(cfg.timeout(), None);
    assert_eq!(cfg.program(), "sleep");
    assert_eq!(cfg.args(), &["1".to_string()]);
}

#[test]
fn command_config_builders_keep_the_other_fields() {
    let cfg = CommandConfig::new("ls", vec!["-l".to_string(), "-a".to_string()])
        .with_timeout(Duration::from_secs(3))
        .with_working_dir("/var");

    assert_eq!(cfg.program(), "ls");
    assert_eq!(cfg.args(), &["-l".to_string(), "-a".to_string()]);
    assert_eq!(cfg.working_dir(), Some("/var"));
    assert_eq!(cfg.timeout(), Some(Duration::from_secs(3)));
}

#[test]
fn command_config_clone_is_equal_in_every_field() {
    let cfg = CommandConfig::new("ls", vec!["-l".to_string()]).with_working_dir("/var");
    let copy = cfg.clone();

    assert_eq!(copy.program(), cfg.program());
    assert_eq!(copy.args(), cfg.args());
    assert_eq!(copy.working_dir(), cfg.working_dir());
    assert_eq!(copy.timeout(), cfg.timeout());
}
