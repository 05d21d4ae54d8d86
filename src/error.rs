use vstd::prelude::*;

verus! {

/// How evaluating a template failed.
#[derive(Debug, Clone, PartialEq, Eq)]
pub enum EvaluationFailure {
    /// A parameter without a default was given no argument; holds its name.
    MissingArgument(String),
    /// The evaluated output is not a valid notebook payload.
    InvalidOutput(String),
    /// The templating engine reported an error.
    Evaluation(String),
}

/// The errors of the library.
#[derive(Debug, Clone, PartialEq, Eq)]
pub enum CliError {
    /// The argument blob is neither a JSON object nor a list of `key=value` pairs.
    InvalidArgumentSyntax,
    /// No trailing token matches the identifier pattern.
    InvalidIdentifier,
    /// The text is not a valid template name.
    InvalidName,
    /// A local template path does not have the template extension.
    UnsupportedTemplateFormat,
    /// The text could not be used as a URL.
    InvalidUrl,
    /// Expanding the template failed.
    TemplateEvaluationFailed(EvaluationFailure),
    /// A trigger was created but its secret key was not returned.
    TriggerSecretUnavailable,
}

} // verus!
