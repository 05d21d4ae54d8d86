use fp::error::CliError;
use fp::ids::{parse_notebook_id, parse_trigger_id};

#[test]
fn trigger_id_from_webhook_url() {
    assert_eq!(
        parse_trigger_id("https://x/api/triggers/AbCdEfGhIjKlMnOpQrStUv/webhook").unwrap(),
        "AbCdEfGhIjKlMnOpQrStUv"
    );
}

#[test]
fn trigger_id_bare_and_plain_url() {
    assert_eq!(parse_trigger_id("AbCdEfGhIjKlMnOpQrStUv").unwrap(), "AbCdEfGhIjKlMnOpQrStUv");
    assert_eq!(
        parse_trigger_id("https://x/api/triggers/Ab-d_fGhIjKlMnOpQrStUv").unwrap(),
        "Ab-d_fGhIjKlMnOpQrStUv"
    );
}

#[test]
fn identifier_keeps_only_last_22_chars() {
    assert_eq!(parse_notebook_id("xxAbCdEfGhIjKlMnOpQrStUv").unwrap(), "AbCdEfGhIjKlMnOpQrStUv");
}

#[test]
fn short_or_invalid_identifier_is_rejected() {
    assert_eq!(parse_trigger_id("tooshort"), Err(CliError::InvalidIdentifier));
    assert_eq!(parse_trigger_id("AbCdEfGhIjKlMnOpQrSt.v"), Err(CliError::InvalidIdentifier));
    assert_eq!(
        parse_notebook_id("https://x/notebook/AbCdEfGhIjKlMnOpQrStUv/webhook"),
        Err(CliError::InvalidIdentifier)
    );
}

#[test]
fn notebook_id_from_url() {
    assert_eq!(
        parse_notebook_id("https://studio.fiberplane.com/notebook/My-Notebook-AbCdEfGhIjKlMnOpQrStUv").unwrap(),
        "AbCdEfGhIjKlMnOpQrStUv"
    );
}
