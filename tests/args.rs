use fp::args::{arguments_from_list, with_runtime_variables, TemplateArg, TemplateArguments};
use fp::error::CliError;
use serde_json::Value;

fn text(s: &str) -> Value {
    Value::String(s.to_string())
}

#[test]
fn json_object_blob_keeps_types() {
    let args = TemplateArguments::from_str(r#"{"count": 3, "label": "x", "on": true, "list": [1, 2]}"#)
        .unwrap();
    assert_eq!(args.len(), 4);
    assert_eq!(args.get("count"), Some(&Value::from(3)));
    assert_eq!(args.get("label"), Some(&text("x")));
    assert_eq!(args.get("on"), Some(&Value::Bool(true)));
    assert_eq!(args.get("list"), Some(&Value::Array(vec![Value::from(1), Value::from(2)])));
}

#[test]
fn delimited_blob_gives_strings() {
    let args = TemplateArguments::from_str("a=1,b:2").unwrap();
    assert_eq!(args.len(), 2);
    assert_eq!(args.get("a"), Some(&text("1")));
    assert_eq!(args.get("b"), Some(&text("2")));
}

#[test]
fn delimited_blob_example() {
    let args = TemplateArguments::from_str("env=prod,region=us-east").unwrap();
    assert_eq!(args.len(), 2);
    assert_eq!(args.get("env"), Some(&text("prod")));
    assert_eq!(args.get("region"), Some(&text("us-east")));
}

#[test]
fn delimited_blob_semicolons_and_spaces() {
    let args = TemplateArguments::from_str(" a = x ; b:y=z").unwrap();
    assert_eq!(args.get("a"), Some(&text(" x")));
    assert_eq!(args.get("b"), Some(&text("y=z")));
}

#[test]
fn delimited_blob_last_value_wins() {
    let args = TemplateArguments::from_str("a=1,a=2").unwrap();
    assert_eq!(args.len(), 1);
    assert_eq!(args.get("a"), Some(&text("2")));
}

#[test]
fn blob_without_separator_is_rejected() {
    assert!(matches!(
        TemplateArguments::from_str("novalue"),
        Err(CliError::InvalidArgumentSyntax)
    ));
    assert!(matches!(
        TemplateArguments::from_str("a=1,"),
        Err(CliError::InvalidArgumentSyntax)
    ));
    assert!(matches!(
        TemplateArguments::from_str(""),
        Err(CliError::InvalidArgumentSyntax)
    ));
}

#[test]
fn single_arg_reads_json_or_text() {
    let a = TemplateArg::from_str("count=3").unwrap();
    assert_eq!(a.name, "count");
    assert_eq!(a.value, Value::from(3));
    let b = TemplateArg::from_str("label=foo").unwrap();
    assert_eq!(b.name, "label");
    assert_eq!(b.value, text("foo"));
    let c = TemplateArg::from_str("q=a=b").unwrap();
    assert_eq!(c.name, "q");
    assert_eq!(c.value, text("a=b"));
    assert!(matches!(TemplateArg::from_str("nothing"), Err(CliError::InvalidArgumentSyntax)));
}

#[test]
fn argument_list_last_wins() {
    let list = vec![
        TemplateArg::from_str("a=1").unwrap(),
        TemplateArg::from_str("b=x").unwrap(),
        TemplateArg::from_str("a=2").unwrap(),
    ];
    let args = arguments_from_list(list);
    assert_eq!(args.len(), 2);
    assert_eq!(args.get("a"), Some(&Value::from(2)));
    assert_eq!(args.get("b"), Some(&text("x")));
}

#[test]
fn runtime_variables_cannot_be_overridden() {
    let user = TemplateArguments::from_str("PROXY_DATA_SOURCES=mine,title=t").unwrap();
    let mut runtime = TemplateArguments::new();
    runtime.insert("PROXY_DATA_SOURCES".to_string(), Value::Array(vec![]));
    let merged = with_runtime_variables(user, runtime);
    assert_eq!(merged.len(), 2);
    assert_eq!(merged.get("PROXY_DATA_SOURCES"), Some(&Value::Array(vec![])));
    assert_eq!(merged.get("title"), Some(&text("t")));
}

#[test]
fn whitespace_matches_std() {
    for c in (0u32..0x11000).filter_map(char::from_u32) {
        assert_eq!(fp::text::char_is_whitespace(c), c.is_whitespace(), "{c:?}");
    }
}

#[test]
fn mixed_separators_and_unicode_spaces() {
    let args = TemplateArguments::from_str("\u{3000}a=1,\u{a0}b:2\u{2003}").unwrap();
    assert_eq!(args.get("a"), Some(&text("1")));
    assert_eq!(args.get("b"), Some(&text("2")));
}
