use fiberplane::models::notebooks::{Cell, CreatedBy, HeadingCell, HeadingType, ImageCell, Notebook, TextCell};
use fiberplane::models::timestamps::TimeRange;
use fp::args::TemplateArguments;
use fp::convert::{rewrite_image_cells, rewrite_image_refs, template_from_notebook, template_write, ImageRefs, TemplateWrite};
use fp::error::{CliError, EvaluationFailure};
use fp::expand::expand_template_body;

fn refs(url: Option<&str>, file_id: Option<&str>) -> ImageRefs {
    ImageRefs { url: url.map(String::from), file_id: file_id.map(String::from) }
}

#[test]
fn attachment_becomes_url() {
    let mut r = refs(None, Some("file1"));
    rewrite_image_refs(&mut r, "https://studio.fiberplane.com/", "nb1");
    assert_eq!(r.url.as_deref(), Some("https://studio.fiberplane.com/api/notebooks/nb1/files/file1"));
    assert_eq!(r.file_id, None);
}

#[test]
fn image_with_url_is_untouched() {
    let mut r = refs(Some("https://img/x.png"), Some("file1"));
    rewrite_image_refs(&mut r, "https://studio.fiberplane.com/", "nb1");
    assert_eq!(r.url.as_deref(), Some("https://img/x.png"));
    assert_eq!(r.file_id.as_deref(), Some("file1"));
}

#[test]
fn rewriting_twice_changes_nothing_more() {
    let mut r = refs(None, Some("f"));
    rewrite_image_refs(&mut r, "https://h/", "nb");
    let once = (r.url.clone(), r.file_id.clone());
    rewrite_image_refs(&mut r, "https://h/", "nb");
    assert_eq!((r.url.clone(), r.file_id.clone()), once);
}

#[test]
fn only_images_without_url_are_rewritten() {
    let mut cells = vec![None, Some(refs(None, Some("a"))), Some(refs(None, None)), Some(refs(Some("u"), None))];
    rewrite_image_cells(&mut cells, "https://h/", "nb");
    assert!(cells[0].is_none());
    assert_eq!(cells[1].as_ref().unwrap().url.as_deref(), Some("https://h/api/notebooks/nb/files/a"));
    assert_eq!(cells[2].as_ref().unwrap().url, None);
    assert_eq!(cells[3].as_ref().unwrap().url.as_deref(), Some("u"));
}

#[test]
fn write_decision() {
    assert_eq!(template_write(true, true), TemplateWrite::Update);
    assert_eq!(template_write(true, false), TemplateWrite::Create);
    assert_eq!(template_write(false, true), TemplateWrite::Create);
}

fn sample_notebook() -> Notebook {
    let t0 = time::OffsetDateTime::UNIX_EPOCH;
    let t1 = t0 + time::Duration::hours(1);
    Notebook::builder()
        .id("nb1")
        .created_at(t0)
        .updated_at(t0)
        .time_range(TimeRange { from: t0.into(), to: t1.into() })
        .title("Round trip")
        .cells(vec![
            Cell::Heading(HeadingCell::builder().id("1").heading_type(HeadingType::H1).content("Section").build()),
            Cell::Text(TextCell::builder().id("2").content("Body text").build()),
            Cell::Image(ImageCell::builder().id("3").url("https://img/x.png").build()),
        ])
        .revision(1)
        .created_by(CreatedBy::Unknown)
        .build()
}

#[test]
fn notebook_round_trips_through_template() {
    let body = template_from_notebook(sample_notebook(), "https://studio.fiberplane.com/notebook/nb1");
    assert!(body.starts_with("// Created from notebook: https://studio.fiberplane.com/notebook/nb1\n"));
    let payload = expand_template_body(&body, TemplateArguments::new(), TemplateArguments::new()).unwrap();
    assert_eq!(payload.cells.len(), 3);
    assert!(matches!(payload.cells[0], Cell::Heading(_)));
    assert!(matches!(payload.cells[1], Cell::Text(_)));
    assert!(matches!(payload.cells[2], Cell::Image(_)));
}

#[test]
fn missing_argument_is_reported() {
    let body = "function(name) { title: name, timeRange: { minutes: 60 }, cells: [] }";
    let r = expand_template_body(body, TemplateArguments::new(), TemplateArguments::new());
    assert!(matches!(
        r,
        Err(CliError::TemplateEvaluationFailed(EvaluationFailure::MissingArgument(ref p))) if p == "name"
    ));
}

#[test]
fn evaluation_error_is_reported() {
    let r = expand_template_body("{ title: ", TemplateArguments::new(), TemplateArguments::new());
    assert!(matches!(r, Err(CliError::TemplateEvaluationFailed(_))));
}

#[test]
fn template_is_comment_then_engine_text() {
    let body = template_from_notebook(sample_notebook(), "https://h/n");
    let engine = fiberplane::templates::notebook_to_template(sample_notebook());
    assert_eq!(body, format!("// Created from notebook: https://h/n\n{engine}"));
}
