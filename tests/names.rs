use fp::error::CliError;
use fp::names::{choose_template_name, default_template_name, name_is_valid};

fn valid(s: &str) -> bool {
    let chars: Vec<char> = s.chars().collect();
    name_is_valid(&chars)
}

#[test]
fn name_validation_rejects() {
    assert!(!valid("Has-Capitals"));
    assert!(!valid("-leading-dash"));
    assert!(!valid("trailing-dash-"));
    assert!(!valid(""));
    assert!(!valid(&"a".repeat(64)));
    assert!(!valid("under_score"));
}

#[test]
fn name_validation_accepts() {
    assert!(valid("a"));
    assert!(valid("my-template-1"));
    assert!(valid(&"a".repeat(63)));
}

#[test]
fn slug_of_title() {
    assert_eq!(default_template_name("My Great Notebook!"), Some("my-great-notebook".to_string()));
    assert_eq!(default_template_name("  --Hello,   World 2--"), Some("hello-world-2".to_string()));
    assert_eq!(default_template_name("!!!"), None);
    assert_eq!(default_template_name(&"ab".repeat(40)), None);
}

#[test]
fn chosen_name() {
    assert_eq!(choose_template_name(Some("given"), "Title"), Ok("given".to_string()));
    assert_eq!(choose_template_name(Some("Bad Name"), "Title"), Err(CliError::InvalidName));
    assert_eq!(choose_template_name(None, "Incident Review"), Ok("incident-review".to_string()));
    assert_eq!(choose_template_name(None, "???"), Err(CliError::InvalidName));
}
