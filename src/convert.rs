use vstd::prelude::*;

use crate::text::{chars_of, push_all, string_of};

verus! {

#[verifier::external_type_specification]
#[verifier::external_body]
pub struct ExNotebook(fiberplane::models::notebooks::Notebook);

/// The file references of an image cell.
pub struct ImageRefs {
    /// Where the image can be fetched from.
    pub url: Option<String>,
    /// An attachment of the notebook the cell belongs to.
    pub file_id: Option<String>,
}

/// The view of an optional string.
pub open spec fn opt_view(o: Option<String>) -> Option<Seq<char>> {
    match o {
        Some(s) => Some(s@),
        None => None,
    }
}

impl View for ImageRefs {
    type V = (Option<Seq<char>>, Option<Seq<char>>);

    open spec fn view(&self) -> (Option<Seq<char>>, Option<Seq<char>>) {
        (opt_view(self.url), opt_view(self.file_id))
    }
}

/// `{base_url}api/notebooks/{notebook_id}/files/{file_id}`.
pub open spec fn file_url(base_url: Seq<char>, notebook_id: Seq<char>, file_id: Seq<char>) -> Seq<char> {
    base_url + seq!['a', 'p', 'i', '/', 'n', 'o', 't', 'e', 'b', 'o', 'o', 'k', 's', '/'] + notebook_id + seq![
        '/',
        'f',
        'i',
        'l',
        'e',
        's',
        '/',
    ] + file_id
}

/// An image's references once made reproducible: an image with no URL but
/// an attachment gets the attachment's URL and loses the attachment; any
/// other image is kept as it is.
pub open spec fn rewritten(
    refs: (Option<Seq<char>>, Option<Seq<char>>),
    base_url: Seq<char>,
    notebook_id: Seq<char>,
) -> (Option<Seq<char>>, Option<Seq<char>>) {
    match refs {
        (None, Some(f)) => (Some(file_url(base_url, notebook_id, f)), None),
        _ => refs,
    }
}

/// Rewrites one image's references (see [`rewritten`]).
pub fn rewrite_image_refs(refs: &mut ImageRefs, base_url: &str, notebook_id: &str)
    ensures
        final(refs)@ == rewritten(old(refs)@, base_url@, notebook_id@),
{
    if refs.url.is_none() {
        if let Some(file_id) = &refs.file_id {
            let mut u = chars_of(base_url);
            push_all(&mut u, &['a', 'p', 'i', '/', 'n', 'o', 't', 'e', 'b', 'o', 'o', 'k', 's', '/']);
            push_all(&mut u, &chars_of(notebook_id));
            push_all(&mut u, &['/', 'f', 'i', 'l', 'e', 's', '/']);
            push_all(&mut u, &chars_of(file_id.as_str()));
            proof {
                assert(u@ =~= file_url(base_url@, notebook_id@, file_id@));
            }
            refs.url = Some(string_of(&u));
            refs.file_id = None;
        }
    }
}

/// Rewrites the references of every image of a notebook; `cells` holds one
/// entry per cell, `None` for a cell that is not an image.
pub fn rewrite_image_cells(cells: &mut Vec<Option<ImageRefs>>, base_url: &str, notebook_id: &str)
    ensures
        final(cells)@.len() == old(cells)@.len(),
        forall|i: int|
            0 <= i < old(cells)@.len() ==> match (#[trigger] old(cells)@[i], final(cells)@[i]) {
                (None, None) => true,
                (Some(a), Some(b)) => b@ == rewritten(a@, base_url@, notebook_id@),
                _ => false,
            },
{
    let n = cells.len();
    let mut i: usize = 0;
    while i < n
        invariant
            n == cells@.len(),
            n == old(cells)@.len(),
            i <= n,
            forall|j: int|
                0 <= j < i ==> match (#[trigger] old(cells)@[j], cells@[j]) {
                    (None, None) => true,
                    (Some(a), Some(b)) => b@ == rewritten(a@, base_url@, notebook_id@),
                    _ => false,
                },
            forall|j: int| i <= j < n ==> #[trigger] cells@[j] == old(cells)@[j],
        decreases n - i,
    {
        let cell = cells.remove(i);
        let next = match cell {
            Some(mut refs) => {
                rewrite_image_refs(&mut refs, base_url, notebook_id);
                Some(refs)
            },
            None => None,
        };
        cells.insert(i, next);
        i = i + 1;
    }
}

/// Rewriting an image's references a second time changes nothing; an image
/// that has a URL is never changed.
pub proof fn lemma_rewrite_idempotent(
    refs: (Option<Seq<char>>, Option<Seq<char>>),
    base_url: Seq<char>,
    notebook_id: Seq<char>,
)
    ensures
        rewritten(rewritten(refs, base_url, notebook_id), base_url, notebook_id) == rewritten(
            refs,
            base_url,
            notebook_id,
        ),
        refs.0 is Some ==> rewritten(refs, base_url, notebook_id) == refs,
{
}

/// The comment put first in a template made from a notebook, recording
/// where it came from: `// Created from notebook: {notebook_url}` and a
/// line break.
pub open spec fn provenance_comment(notebook_url: Seq<char>) -> Seq<char> {
    seq![
        '/',
        '/',
        ' ',
        'C',
        'r',
        'e',
        'a',
        't',
        'e',
        'd',
        ' ',
        'f',
        'r',
        'o',
        'm',
        ' ',
        'n',
        'o',
        't',
        'e',
        'b',
        'o',
        'o',
        'k',
        ':',
        ' ',
    ] + notebook_url + seq!['\n']
}

/// The template source that the templating engine writes for a notebook.
pub uninterp spec fn template_of(notebook: fiberplane::models::notebooks::Notebook) -> Seq<char>;

/// Relies on `fiberplane::templates::notebook_to_template`, which writes
/// the template source of a notebook; the text depends on the notebook alone.
#[verifier::external_body]
fn notebook_template(notebook: fiberplane::models::notebooks::Notebook) -> (r: String)
    ensures
        r@ == template_of(notebook),
{
    fiberplane::templates::notebook_to_template(notebook)
}

/// The template body made from a notebook, headed by the comment that
/// records the notebook's URL.
pub fn template_from_notebook(notebook: fiberplane::models::notebooks::Notebook, notebook_url: &str) -> (r: String)
    ensures
        r@ == provenance_comment(notebook_url@) + template_of(notebook),
{
    let ghost nb = notebook;
    let body = notebook_template(notebook);
    let mut out = vec![
        '/',
        '/',
        ' ',
        'C',
        'r',
        'e',
        'a',
        't',
        'e',
        'd',
        ' ',
        'f',
        'r',
        'o',
        'm',
        ' ',
        'n',
        'o',
        't',
        'e',
        'b',
        'o',
        'o',
        'k',
        ':',
        ' ',
    ];
    push_all(&mut out, &chars_of(notebook_url));
    out.push('\n');
    let ghost head = out@;
    assert(head =~= provenance_comment(notebook_url@));
    push_all(&mut out, &chars_of(body.as_str()));
    assert(out@ =~= provenance_comment(notebook_url@) + template_of(nb));
    string_of(&out)
}

} // verus!

verus! {

/// What converting a notebook does to the workspace's templates.
#[derive(Debug, PartialEq, Eq)]
pub enum TemplateWrite {
    /// Replace the body and description of the named template.
    Update,
    /// Upload a new template.
    Create,
}

/// A converted notebook updates a template only where the user named one
/// that already exists; otherwise it creates one.
pub fn template_write(name_given: bool, exists: bool) -> (r: TemplateWrite)
    ensures
        r == (if name_given && exists { TemplateWrite::Update } else { TemplateWrite::Create }),
{
    if name_given && exists {
        TemplateWrite::Update
    } else {
        TemplateWrite::Create
    }
}

} // verus!
