use vstd::prelude::*;

use crate::text::{chars_of, push_all, string_of};

verus! {

/// The type of a template parameter.
pub enum ParameterType {
    String,
    Number,
    Boolean,
    Array,
    Object,
    Unknown,
}

/// A parameter of a template: its name, type and default value.
pub struct TemplateParameter {
    pub name: String,
    pub ty: ParameterType,
    pub default_value: Option<serde_json::Value>,
}

/// What a template listing shows of one template.
pub struct TemplateDetails {
    pub name: String,
    pub description: String,
    pub parameters: Vec<TemplateParameter>,
}

/// One labelled line of a details table.
pub struct GenericKeyValue {
    pub key: String,
    pub value: String,
}

/// The compact JSON text of `v`.
pub uninterp spec fn json_text_of(v: serde_json::Value) -> Seq<char>;

/// Relies on `serde_json::Value`'s `Display`, which writes compact JSON.
#[verifier::external_body]
fn json_text(v: &serde_json::Value) -> (r: String)
    ensures
        r@ == json_text_of(*v),
{
    v.to_string()
}

/// The text of a default value; a missing one reads as `null`.
pub open spec fn default_text(v: Option<serde_json::Value>) -> Seq<char> {
    match v {
        Some(x) => json_text_of(x),
        None => "null"@,
    }
}

/// How one parameter is described.
pub open spec fn parameter_line(p: TemplateParameter) -> Seq<char> {
    match p.ty {
        ParameterType::String => p.name@ + ": string (default: \""@ + default_text(p.default_value) + "\")"@,
        ParameterType::Number => p.name@ + ": number (default: "@ + default_text(p.default_value) + ")"@,
        ParameterType::Boolean => p.name@ + ": boolean (default: "@ + default_text(p.default_value) + ")"@,
        ParameterType::Array => p.name@ + ": array (default: "@ + default_text(p.default_value) + ")"@,
        ParameterType::Object => p.name@ + ": object (default: "@ + default_text(p.default_value) + ")"@,
        ParameterType::Unknown => p.name@ + ": (type unknown)"@,
    }
}

/// The lines of `ps`, joined with line breaks.
pub open spec fn parameter_lines(ps: Seq<TemplateParameter>) -> Seq<char>
    decreases ps.len(),
{
    if ps.len() == 0 {
        Seq::empty()
    } else if ps.len() == 1 {
        parameter_line(ps[0])
    } else {
        parameter_lines(ps.drop_last()) + "\n"@ + parameter_line(ps.last())
    }
}

/// How a list of parameters is described: `(none)` where there is none.
pub open spec fn parameters_text(ps: Seq<TemplateParameter>) -> Seq<char> {
    if ps.len() == 0 {
        "(none)"@
    } else {
        parameter_lines(ps)
    }
}

fn push_str(out: &mut Vec<char>, s: &str)
    ensures
        final(out)@ == old(out)@ + s@,
{
    let c = chars_of(s);
    push_all(out, &c);
}

fn describe_parameter(out: &mut Vec<char>, p: &TemplateParameter)
    ensures
        final(out)@ == old(out)@ + parameter_line(*p),
{
    push_str(out, p.name.as_str());
    let (label, quoted) = match p.ty {
        ParameterType::String => (": string (default: \"", true),
        ParameterType::Number => (": number (default: ", false),
        ParameterType::Boolean => (": boolean (default: ", false),
        ParameterType::Array => (": array (default: ", false),
        ParameterType::Object => (": object (default: ", false),
        ParameterType::Unknown => {
            push_str(out, ": (type unknown)");
            return;
        },
    };
    push_str(out, label);
    match &p.default_value {
        Some(v) => {
            let t = json_text(v);
            push_str(out, t.as_str());
        },
        None => push_str(out, "null"),
    }
    if quoted {
        push_str(out, "\")");
    } else {
        push_str(out, ")");
    }
}

/// Describes a template's parameters, one line each (see [`parameters_text`]).
pub fn format_template_parameters(parameters: &Vec<TemplateParameter>) -> (r: String)
    ensures
        r@ == parameters_text(parameters@),
{
    if parameters.len() == 0 {
        return String::from_str("(none)");
    }
    let mut out: Vec<char> = Vec::new();
    let n = parameters.len();
    let mut i: usize = 0;
    while i < n
        invariant
            n == parameters@.len(),
            0 < n,
            i <= n,
            out@ == parameter_lines(parameters@.subrange(0, i as int)),
        decreases n - i,
    {
        let ghost before = out@;
        assert(parameters@.subrange(0, i + 1).drop_last() =~= parameters@.subrange(0, i as int));
        if i > 0 {
            push_str(&mut out, "\n");
        } else {
            assert(before =~= Seq::<char>::empty());
            assert(parameters@.subrange(0, 1)[0] == parameters@[0]);
        }
        describe_parameter(&mut out, &parameters[i]);
        i = i + 1;
        assert(out@ =~= parameter_lines(parameters@.subrange(0, i as int)));
    }
    assert(parameters@.subrange(0, n as int) =~= parameters@);
    string_of(&out)
}

/// The rows of a template's details table.
pub open spec fn detail_rows(t: TemplateDetails) -> Seq<(Seq<char>, Seq<char>)> {
    seq![
        ("Name:"@, t.name@),
        ("Description:"@, t.description@),
        ("Parameters:"@, parameters_text(t.parameters@)),
        ("Body:"@, "omitted (use --output=body)"@),
    ]
}

pub open spec fn rows_view(rows: Seq<GenericKeyValue>) -> Seq<(Seq<char>, Seq<char>)> {
    rows.map_values(|r: GenericKeyValue| (r.key@, r.value@))
}

impl GenericKeyValue {
    pub fn new(key: &str, value: String) -> (r: GenericKeyValue)
        ensures
            r.key@ == key@,
            r.value@ == value@,
    {
        GenericKeyValue { key: String::from_str(key), value }
    }

    /// The details of a template: name, description, parameters, and a note
    /// that the body is left out.
    pub fn from_template(template: TemplateDetails) -> (r: Vec<GenericKeyValue>)
        ensures
            rows_view(r@) == detail_rows(template),
    {
        let params = format_template_parameters(&template.parameters);
        let rows = vec![
            GenericKeyValue::new("Name:", template.name),
            GenericKeyValue::new("Description:", template.description),
            GenericKeyValue::new("Parameters:", params),
            GenericKeyValue::new("Body:", String::from_str("omitted (use --output=body)")),
        ];
        assert(rows_view(rows@) =~= detail_rows(template));
        rows
    }

    /// The details of a template, with a last row for the URL of its trigger
    /// where one was created.
    pub fn from_template_and_trigger_url(template: TemplateDetails, trigger_url: Option<String>) -> (r: Vec<
        GenericKeyValue,
    >)
        ensures
            trigger_url is None ==> rows_view(r@) == detail_rows(template),
            trigger_url is Some ==> rows_view(r@) == detail_rows(template).push(
                ("Trigger URL:"@, trigger_url->Some_0@),
            ),
    {
        let ghost t = template;
        let mut rows = Self::from_template(template);
        if let Some(url) = trigger_url {
            let ghost before = rows@;
            rows.push(GenericKeyValue::new("Trigger URL:", url));
            assert(rows_view(rows@) =~= rows_view(before).push(("Trigger URL:"@, url@)));
        }
        rows
    }
}

} // verus!
