use vstd::prelude::*;

use crate::args::{keys_unique, pairs_map, with_runtime_variables, TemplateArguments};
use crate::error::{CliError, EvaluationFailure};

verus! {

#[verifier::external_type_specification]
#[verifier::external_body]
pub struct ExNewNotebook(fiberplane::models::notebooks::NewNotebook);

/// What the templating engine makes of a template body with the given
/// top-level arguments: the notebook payload or the failure, or `None`
/// where the engine does not return (it panics on some bodies, for example
/// one whose value is a function of the standard library, or one that
/// hands such a function to `std.map`).
pub uninterp spec fn expansion_of(
    body: Seq<char>,
    args: Map<Seq<char>, serde_json::Value>,
) -> Option<Result<fiberplane::models::notebooks::NewNotebook, EvaluationFailure>>;

/// Relies on `fiberplane::templates::expand_template`, which evaluates a
/// template with the given top-level arguments (their order does not
/// matter); its error variants are told apart.
#[verifier::external_body]
fn evaluate(body: &str, args: Vec<(String, serde_json::Value)>) -> (r: Result<
    fiberplane::models::notebooks::NewNotebook,
    EvaluationFailure,
>)
    requires
        keys_unique(args@),
        expansion_of(body@, pairs_map(args@)) is Some,
    ensures
        expansion_of(body@, pairs_map(args@)) == Some(r),
{
    match fiberplane::templates::expand_template(body, args) {
        Ok(notebook) => Ok(notebook),
        Err(fiberplane::templates::Error::MissingArgument(p)) => Err(EvaluationFailure::MissingArgument(p)),
        Err(fiberplane::templates::Error::Evaluation(e)) => Err(EvaluationFailure::Evaluation(e)),
        Err(fiberplane::templates::Error::InvalidOutput(e)) => Err(EvaluationFailure::InvalidOutput(format!("{e}"))),
    }
}

/// The error reported for a failed evaluation.
pub fn evaluation_error(failure: EvaluationFailure) -> (r: CliError)
    ensures
        r == CliError::TemplateEvaluationFailed(failure),
{
    CliError::TemplateEvaluationFailed(failure)
}

/// Expands a template body into a notebook-creation payload, with the user's
/// arguments and the runtime variables (which take precedence) as its
/// arguments: the engine's payload, or its failure as
/// `TemplateEvaluationFailed`. The body must be one on which the engine
/// returns.
pub fn expand_template_body(body: &str, user: TemplateArguments, runtime: TemplateArguments) -> (r: Result<
    fiberplane::models::notebooks::NewNotebook,
    CliError,
>)
    requires
        user.wf(),
        runtime.wf(),
        expansion_of(body@, user@.union_prefer_right(runtime@)) is Some,
    ensures
        match expansion_of(body@, user@.union_prefer_right(runtime@)) {
            Some(Ok(n)) => r == Ok::<fiberplane::models::notebooks::NewNotebook, CliError>(n),
            Some(Err(f)) => r == Err::<fiberplane::models::notebooks::NewNotebook, CliError>(
                CliError::TemplateEvaluationFailed(f),
            ),
            None => false,
        },
{
    let args = with_runtime_variables(user, runtime);
    let pairs = args.into_pairs();
    match evaluate(body, pairs) {
        Ok(notebook) => Ok(notebook),
        Err(failure) => Err(evaluation_error(failure)),
    }
}

} // verus!
