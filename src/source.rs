use vstd::prelude::*;

use crate::error::CliError;
use crate::names::{is_valid_name, name_is_valid};
use crate::text::{chars_equal, chars_of, has_prefix, push_all, slice_chars, starts_with, string_of};

verus! {

/// Where a template's text comes from, decided once per command.
#[derive(Debug, PartialEq, Eq)]
pub enum TemplateSource {
    /// A template uploaded to the workspace, by name.
    UploadedByName(String),
    /// A template file on disk.
    LocalFile(String),
    /// A template served over HTTP(S); `insecure` for plain `http://`,
    /// which can be expanded but cannot back a trigger.
    RemoteUrl { url: String, insecure: bool },
}

/// The kind of a [`TemplateSource`], without its text.
pub enum SourceKind {
    UploadedByName,
    LocalFile,
    RemoteUrl { insecure: bool },
}

impl View for TemplateSource {
    type V = (SourceKind, Seq<char>);

    open spec fn view(&self) -> (SourceKind, Seq<char>) {
        match self {
            TemplateSource::UploadedByName(n) => (SourceKind::UploadedByName, n@),
            TemplateSource::LocalFile(p) => (SourceKind::LocalFile, p@),
            TemplateSource::RemoteUrl { url, insecure } => (SourceKind::RemoteUrl { insecure: *insecure }, url@),
        }
    }
}

/// `r` is the outcome that `spec` describes.
pub open spec fn outcome_is(r: Result<TemplateSource, CliError>, spec: Result<(SourceKind, Seq<char>), CliError>) -> bool {
    match spec {
        Ok(v) => r is Ok && r->Ok_0@ == v,
        Err(e) => r is Err && r->Err_0 == e,
    }
}

/// The extension of the last component of path `p`, where it has one.
pub uninterp spec fn extension_of(p: Seq<char>) -> Option<Seq<char>>;

/// The URL that `rel` denotes relative to the URL `base`, where `base`
/// parses as a URL and `rel` resolves against it.
pub uninterp spec fn url_join_of(base: Seq<char>, rel: Seq<char>) -> Option<Seq<char>>;

/// Relies on `std::path::Path::extension`.
#[verifier::external_body]
fn path_extension(p: &str) -> (r: Option<String>)
    ensures
        r is Some <==> extension_of(p@) is Some,
        r is Some ==> r->Some_0@ == extension_of(p@)->Some_0,
{
    std::path::Path::new(p).extension().map(|e| e.to_string_lossy().into_owned())
}

/// Relies on `url::Url::parse` of `base`, then `url::Url::join` of `rel`,
/// serialised.
#[verifier::external_body]
pub(crate) fn join_url(base: &str, rel: &str) -> (r: Option<String>)
    ensures
        r is Some <==> url_join_of(base@, rel@) is Some,
        r is Some ==> r->Some_0@ == url_join_of(base@, rel@)->Some_0,
{
    match url::Url::parse(base) {
        Ok(b) => match b.join(rel) {
            Ok(u) => Some(u.to_string()),
            Err(_) => None,
        },
        Err(_) => None,
    }
}

pub open spec fn https_prefix() -> Seq<char> {
    seq!['h', 't', 't', 'p', 's', ':', '/', '/']
}

pub open spec fn http_prefix() -> Seq<char> {
    seq!['h', 't', 't', 'p', ':', '/', '/']
}

pub open spec fn template_extension() -> Seq<char> {
    seq!['j', 's', 'o', 'n', 'n', 'e', 't']
}

/// Where a template file or URL is read from: an `https://` or `http://`
/// URL, else a local path that must have the `jsonnet` extension.
pub open spec fn location_of(p: Seq<char>) -> Result<(SourceKind, Seq<char>), CliError> {
    if starts_with(p, https_prefix()) || starts_with(p, http_prefix()) {
        Ok((SourceKind::RemoteUrl { insecure: !starts_with(p, https_prefix()) }, p))
    } else if extension_of(p) == Some(template_extension()) {
        Ok((SourceKind::LocalFile, p))
    } else {
        Err(CliError::UnsupportedTemplateFormat)
    }
}

/// Decides how a template file or URL is read: a URL is fetched, a path
/// with the `jsonnet` extension is read from disk, and any other path fails
/// with `UnsupportedTemplateFormat` before anything is read.
pub fn template_location(path: &str) -> (r: Result<TemplateSource, CliError>)
    ensures
        outcome_is(r, location_of(path@)),
{
    let chars = chars_of(path);
    let https = vec!['h', 't', 't', 'p', 's', ':', '/', '/'];
    let http = vec!['h', 't', 't', 'p', ':', '/', '/'];
    assert(https@ =~= https_prefix());
    assert(http@ =~= http_prefix());
    let secure = has_prefix(&chars, &https);
    if secure || has_prefix(&chars, &http) {
        return Ok(TemplateSource::RemoteUrl { url: string_of(&chars), insecure: !secure });
    }
    match path_extension(path) {
        Some(ext) => {
            let e = chars_of(ext.as_str());
            let want = vec!['j', 's', 'o', 'n', 'n', 'e', 't'];
            assert(want@ =~= template_extension());
            if chars_equal(&e, &want) {
                Ok(TemplateSource::LocalFile(string_of(&chars)))
            } else {
                Err(CliError::UnsupportedTemplateFormat)
            }
        },
        None => Err(CliError::UnsupportedTemplateFormat),
    }
}

/// How a template reference resolves, given the prefix of the workspace's
/// template URLs: a valid name is an uploaded template; a template URL of
/// the workspace names one too (its rest must be a valid name, else
/// `InvalidName`); anything else is a file or URL (see [`location_of`]).
pub open spec fn reference_of(token: Seq<char>, base: Seq<char>) -> Result<(SourceKind, Seq<char>), CliError> {
    if is_valid_name(token) {
        Ok((SourceKind::UploadedByName, token))
    } else if starts_with(token, base) {
        let rest = token.subrange(base.len() as int, token.len() as int);
        if is_valid_name(rest) {
            Ok((SourceKind::UploadedByName, rest))
        } else {
            Err(CliError::InvalidName)
        }
    } else {
        location_of(token)
    }
}

/// Resolves a template reference (see [`reference_of`]); `template_url_base`
/// is the prefix of the workspace's template URLs.
pub fn resolve_template_source(token: &str, template_url_base: &str) -> (r: Result<TemplateSource, CliError>)
    ensures
        outcome_is(r, reference_of(token@, template_url_base@)),
{
    let chars = chars_of(token);
    if name_is_valid(&chars) {
        return Ok(TemplateSource::UploadedByName(string_of(&chars)));
    }
    let base = chars_of(template_url_base);
    if has_prefix(&chars, &base) {
        let rest = slice_chars(&chars, base.len(), chars.len());
        if name_is_valid(&rest) {
            Ok(TemplateSource::UploadedByName(string_of(&rest)))
        } else {
            Err(CliError::InvalidName)
        }
    } else {
        template_location(token)
    }
}

/// The prefix of the template URLs of a workspace:
/// `{base_url}workspaces/{workspace_id}/templates/`, resolved as a URL.
pub fn template_url_base(base_url: &str, workspace_id: &str) -> (r: Option<String>)
    ensures
        r is Some <==> url_join_of(
            base_url@,
            seq!['w', 'o', 'r', 'k', 's', 'p', 'a', 'c', 'e', 's', '/'] + workspace_id@ + seq![
                '/',
                't',
                'e',
                'm',
                'p',
                'l',
                'a',
                't',
                'e',
                's',
                '/',
            ],
        ) is Some,
        r is Some ==> r->Some_0@ == url_join_of(
            base_url@,
            seq!['w', 'o', 'r', 'k', 's', 'p', 'a', 'c', 'e', 's', '/'] + workspace_id@ + seq![
                '/',
                't',
                'e',
                'm',
                'p',
                'l',
                'a',
                't',
                'e',
                's',
                '/',
            ],
        )->Some_0,
{
    let mut rel = vec!['w', 'o', 'r', 'k', 's', 'p', 'a', 'c', 'e', 's', '/'];
    push_all(&mut rel, &chars_of(workspace_id));
    push_all(&mut rel, &['/', 't', 'e', 'm', 'p', 'l', 'a', 't', 'e', 's', '/']);
    let rel = string_of(&rel);
    join_url(base_url, rel.as_str())
}

} // verus!

verus! {

/// The URL of a notebook in a workspace:
/// `{base_url}workspaces/{workspace_id}/notebooks/{notebook_id}`, resolved
/// as a URL.
pub fn notebook_url(base_url: &str, workspace_id: &str, notebook_id: &str) -> (r: Option<String>)
    ensures
        r is Some <==> url_join_of(base_url@, "workspaces/"@ + workspace_id@ + "/notebooks/"@ + notebook_id@) is Some,
        r is Some ==> r->Some_0@ == url_join_of(
            base_url@,
            "workspaces/"@ + workspace_id@ + "/notebooks/"@ + notebook_id@,
        )->Some_0,
{
    let mut rel = chars_of("workspaces/");
    push_all(&mut rel, &chars_of(workspace_id));
    push_all(&mut rel, &chars_of("/notebooks/"));
    push_all(&mut rel, &chars_of(notebook_id));
    let rel = string_of(&rel);
    join_url(base_url, rel.as_str())
}

/// A valid template name always resolves to the uploaded template of that
/// name, so no file is read and no URL fetched for it.
pub proof fn lemma_name_resolves_to_upload(token: Seq<char>, base: Seq<char>)
    requires
        is_valid_name(token),
    ensures
        reference_of(token, base) == Ok::<(SourceKind, Seq<char>), CliError>((SourceKind::UploadedByName, token)),
{
}

/// A path that is not an HTTP(S) URL and lacks the `jsonnet` extension is
/// refused as `UnsupportedTemplateFormat` before anything is read or fetched.
pub proof fn lemma_wrong_extension_refused(p: Seq<char>)
    requires
        !starts_with(p, https_prefix()),
        !starts_with(p, http_prefix()),
        extension_of(p) != Some(template_extension()),
    ensures
        location_of(p) == Err::<(SourceKind, Seq<char>), CliError>(CliError::UnsupportedTemplateFormat),
{
}

} // verus!
