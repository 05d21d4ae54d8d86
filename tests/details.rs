use fp::details::{format_template_parameters, GenericKeyValue, ParameterType, TemplateDetails, TemplateParameter};
use serde_json::Value;

fn param(name: &str, ty: ParameterType, default_value: Option<Value>) -> TemplateParameter {
    TemplateParameter { name: name.to_string(), ty, default_value }
}

#[test]
fn no_parameters() {
    assert_eq!(format_template_parameters(&vec![]), "(none)");
}

#[test]
fn parameter_lines() {
    let ps = vec![
        param("title", ParameterType::String, Some(Value::String("x".into()))),
        param("count", ParameterType::Number, Some(Value::from(3))),
        param("on", ParameterType::Boolean, None),
        param("tags", ParameterType::Array, Some(Value::Array(vec![Value::from(1)]))),
        param("cfg", ParameterType::Object, None),
        param("other", ParameterType::Unknown, Some(Value::from(1))),
    ];
    assert_eq!(
        format_template_parameters(&ps),
        "title: string (default: \"\"x\"\")\ncount: number (default: 3)\non: boolean (default: null)\ntags: array (default: [1])\ncfg: object (default: null)\nother: (type unknown)"
    );
}

fn details() -> TemplateDetails {
    TemplateDetails {
        name: "t".to_string(),
        description: "d".to_string(),
        parameters: vec![],
    }
}

#[test]
fn detail_rows() {
    let rows = GenericKeyValue::from_template(details());
    let pairs: Vec<(String, String)> = rows.into_iter().map(|r| (r.key, r.value)).collect();
    assert_eq!(
        pairs,
        vec![
            ("Name:".to_string(), "t".to_string()),
            ("Description:".to_string(), "d".to_string()),
            ("Parameters:".to_string(), "(none)".to_string()),
            ("Body:".to_string(), "omitted (use --output=body)".to_string()),
        ]
    );
}

#[test]
fn detail_rows_with_trigger() {
    let rows = GenericKeyValue::from_template_and_trigger_url(details(), Some("https://t".to_string()));
    assert_eq!(rows.len(), 5);
    assert_eq!(rows[4].key, "Trigger URL:");
    assert_eq!(rows[4].value, "https://t");
    let rows = GenericKeyValue::from_template_and_trigger_url(details(), None);
    assert_eq!(rows.len(), 4);
}
