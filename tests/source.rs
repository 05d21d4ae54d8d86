use fp::error::CliError;
use fp::source::{notebook_url, resolve_template_source, template_location, template_url_base, TemplateSource};

const BASE: &str = "https://studio.fiberplane.com/workspaces/ws1/templates/";

#[test]
fn wrong_extension_is_unsupported() {
    assert_eq!(template_location("foo.txt"), Err(CliError::UnsupportedTemplateFormat));
    assert_eq!(template_location("foo"), Err(CliError::UnsupportedTemplateFormat));
    assert_eq!(resolve_template_source("foo.txt", BASE), Err(CliError::UnsupportedTemplateFormat));
}

#[test]
fn locations() {
    assert_eq!(
        template_location("dir/t.jsonnet"),
        Ok(TemplateSource::LocalFile("dir/t.jsonnet".to_string()))
    );
    assert_eq!(
        template_location("https://example.com/t.jsonnet"),
        Ok(TemplateSource::RemoteUrl { url: "https://example.com/t.jsonnet".to_string(), insecure: false })
    );
    assert_eq!(
        template_location("http://example.com/t"),
        Ok(TemplateSource::RemoteUrl { url: "http://example.com/t".to_string(), insecure: true })
    );
}

#[test]
fn valid_name_is_uploaded_template() {
    assert_eq!(
        resolve_template_source("my-template", BASE),
        Ok(TemplateSource::UploadedByName("my-template".to_string()))
    );
}

#[test]
fn workspace_template_url_is_uploaded_template() {
    let url = format!("{BASE}incident");
    assert_eq!(
        resolve_template_source(&url, BASE),
        Ok(TemplateSource::UploadedByName("incident".to_string()))
    );
    let bad = format!("{BASE}Not_A_Name");
    assert_eq!(resolve_template_source(&bad, BASE), Err(CliError::InvalidName));
}

#[test]
fn other_urls_are_remote() {
    assert_eq!(
        resolve_template_source("https://example.com/t.jsonnet", BASE),
        Ok(TemplateSource::RemoteUrl { url: "https://example.com/t.jsonnet".to_string(), insecure: false })
    );
}

#[test]
fn url_bases() {
    assert_eq!(template_url_base("https://studio.fiberplane.com/", "ws1").as_deref(), Some(BASE));
    assert_eq!(
        notebook_url("https://studio.fiberplane.com/", "ws1", "nb1").as_deref(),
        Some("https://studio.fiberplane.com/workspaces/ws1/notebooks/nb1")
    );
    assert_eq!(template_url_base("not a url", "ws1"), None);
}
