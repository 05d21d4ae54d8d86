use fp::error::CliError;
use fp::triggers::{
    secret_trigger_url, sort_newest_first, trigger_title, trigger_url, webhook_url, with_secret, Trigger, TriggerSource,
};

fn trigger(id: &str, updated_at: i128) -> Trigger {
    Trigger { id: id.to_string(), template_url: None, updated_at }
}

#[test]
fn newest_trigger_first() {
    let sorted = sort_newest_first(vec![trigger("a", 1), trigger("b", 3), trigger("c", 2), trigger("d", 3)]);
    let ids: Vec<&str> = sorted.iter().map(|t| t.id.as_str()).collect();
    assert_eq!(ids, vec!["b", "d", "c", "a"]);
    assert!(sort_newest_first(vec![]).is_empty());
}

#[test]
fn trigger_urls() {
    assert_eq!(trigger_url("https://h", "ID"), "https://h/api/triggers/ID");
    assert_eq!(webhook_url("https://h", "ID"), "https://h/api/triggers/ID/webhook");
    assert_eq!(trigger_title("incident"), "incident Trigger");
}

#[test]
fn secret_only_at_creation() {
    assert!(matches!(with_secret(trigger("a", 0), None), Err(CliError::TriggerSecretUnavailable)));
    let created = with_secret(trigger("ID", 0), Some("SECRET".to_string())).unwrap();
    assert_eq!(
        secret_trigger_url("https://studio.fiberplane.com/", &created),
        Ok("https://studio.fiberplane.com/api/triggers/ID/SECRET".to_string())
    );
}

#[test]
fn trigger_source_url_or_path() {
    assert_eq!(
        TriggerSource::from_str("https://example.com/t.jsonnet"),
        TriggerSource::Url("https://example.com/t.jsonnet".to_string())
    );
    assert_eq!(TriggerSource::from_str("dir/t.jsonnet"), TriggerSource::Path("dir/t.jsonnet".to_string()));
    assert_eq!(TriggerSource::from_str("mailto:a@b.c"), TriggerSource::Path("mailto:a@b.c".to_string()));
}

#[test]
fn trigger_source_url_is_normalised() {
    assert_eq!(
        TriggerSource::from_str("HTTPS://Example.COM"),
        TriggerSource::Url("https://example.com/".to_string())
    );
}
