//! The configuration-key checks and the dependency report.

use shlap::config_checker::{banned, required, ConfigError};
use shlap::dependencies::Dependencies;

fn keys(names: &[&str]) -> Vec<String> {
    names.iter().map(|n| String::from(*n)).collect()
}

#[test]
fn required_accepts_a_name_entry() {
    assert!(required(&keys(&["version", "name", "args"])).is_ok());
    assert!(required(&keys(&["name"])).is_ok());
}

#[test]
fn required_rejects_a_nameless_config() {
    match required(&keys(&["version", "about"])) {
        Err(ConfigError::MissingRequiredKey { key }) => assert_eq!(key, "name"),
        _ => panic!("expected MissingRequiredKey"),
    }
    assert!(required(&keys(&[])).is_err());
}

#[test]
fn banned_rejects_a_help_entry() {
    match banned(&keys(&["name", "help"])) {
        Err(ConfigError::BannedKey { key, suggestion }) => {
            assert_eq!(key, "help");
            assert_eq!(suggestion, "about");
        }
        _ => panic!("expected BannedKey"),
    }
}

#[test]
fn banned_accepts_a_config_without_help() {
    assert!(banned(&keys(&["name", "about"])).is_ok());
    assert!(banned(&keys(&[])).is_ok());
}

#[test]
fn config_error_messages() {
    let missing = required(&keys(&[])).unwrap_err();
    assert_eq!(
        missing.message(),
        "YAML config must contain an entry named 'name'"
    );
    let present = banned(&keys(&["help"])).unwrap_err();
    assert_eq!(
        present.message(),
        "YAML config can't contain an entry named 'help', try 'about'"
    );
}

fn results(pairs: &[(&str, bool)]) -> Vec<(String, bool)> {
    pairs.iter().map(|(n, f)| (String::from(*n), *f)).collect()
}

#[test]
fn dependencies_collect_failures_in_order() {
    let d = Dependencies::from_results(&results(&[
        ("git", true),
        ("jq", false),
        ("curl", true),
        ("fzf", false),
    ]));
    assert_eq!(d.failed(), &vec![String::from("jq"), String::from("fzf")]);
    assert_eq!(d.failed_count(), 2);
}

#[test]
fn dependencies_message_when_all_found() {
    let d = Dependencies::from_results(&results(&[("git", true)]));
    assert_eq!(d.failed_count(), 0);
    assert_eq!(d.message(), "");
}

#[test]
fn dependencies_message_for_one_failure() {
    let d = Dependencies::from_results(&results(&[("git", true), ("jq", false)]));
    assert_eq!(
        d.message(),
        "Required dependency 'jq' not found in $PATH\n"
    );
}

#[test]
fn dependencies_message_for_many_failures() {
    let d = Dependencies::from_results(&results(&[("jq", false), ("fzf", false)]));
    assert_eq!(
        d.message(),
        "These required dependencies were not found in $PATH:\n    jq\n    fzf\n"
    );
}
