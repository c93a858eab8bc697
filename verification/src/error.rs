use vstd::prelude::*;

verus! {

/// One message that failed cross-language completeness: where it is
/// defined and where it is missing.
#[derive(Debug)]
pub struct MessageValidationErrorEntry {
    pub message_id: String,
    pub defined_in_languages: Vec<String>,
    pub undefined_in_languages: Vec<String>,
}

/// Every way a bundle build can fail. Failures are terminal for the
/// compilation that raised them; nothing partial is kept.
#[derive(Debug)]
pub enum Error {
    /// Two entries of one language share an identifier.
    DuplicateEntryId(String),
    /// A message reference names an entry the language does not define.
    UndeclaredMessageReference { entry_id: String, reference_id: String },
    /// A term reference names an entry the language does not define.
    UndeclaredTermReference { entry_id: String, reference_id: String },
    /// A term call passes a named argument the term does not declare.
    UndeclaredTermArgument { term_id: String, arg_name: String },
    /// A select expression without exactly one default variant.
    InvalidSelectorDefaultVariant { message_id: String },
    /// A legal construct this compiler does not lower.
    UnsupportedFeature { feature: String, id: String },
    /// The builder was driven out of protocol; unreachable from input.
    UnexpectedContextState,
    /// Some public message is not defined in every language.
    MessageBundleValidationError { bundle: String, entries: Vec<MessageValidationErrorEntry> },
    /// The configured default language has no compiled resources.
    UnsupportedDefaultLanguage { lang: String },
    /// A numeric literal that does not parse or does not fit.
    InvalidLiteral(String),
}

/// The one-line description of an error, for build logs.
pub open spec fn spec_describe_error(e: Error) -> Seq<char> {
    match e {
        Error::DuplicateEntryId(d) => "Found duplicated entry with ID '"@ + d@ + "'"@,
        Error::UndeclaredMessageReference { entry_id, reference_id } =>
            "Undeclared message reference "@ + reference_id@ + " in "@ + entry_id@,
        Error::UndeclaredTermReference { entry_id, reference_id } =>
            "Undeclared term reference "@ + reference_id@ + " in "@ + entry_id@,
        Error::UndeclaredTermArgument { term_id, arg_name } => "Term "@ + term_id@
            + " does not declare the argument "@ + arg_name@,
        Error::InvalidSelectorDefaultVariant { message_id } => "Message "@ + message_id@
            + " selector must have exactly one default variant"@,
        Error::UnsupportedFeature { feature, id } => "Found unsupported feature "@ + feature@
            + ": "@ + id@,
        Error::UnexpectedContextState => "Message bundle builder context is in an invalid state"@,
        Error::MessageBundleValidationError { bundle, .. } => "Message bundle "@ + bundle@
            + " integrity validation failed"@,
        Error::UnsupportedDefaultLanguage { lang } => "Message bundle default language '"@ + lang@
            + "' has no corresponding resources"@,
        Error::InvalidLiteral(s) => "Error parsing literal value "@ + s@,
    }
}

/// Writes the one-line description of an error.
pub fn describe_error(error: &Error) -> (r: String)
    ensures
        r@ == spec_describe_error(*error),
{
    match error {
        Error::DuplicateEntryId(d) => {
            let mut out = "Found duplicated entry with ID '".to_owned();
            out.append(d.as_str());
            out.append("'");
            out
        },
        Error::UndeclaredMessageReference { entry_id, reference_id } => {
            let mut out = "Undeclared message reference ".to_owned();
            out.append(reference_id.as_str());
            out.append(" in ");
            out.append(entry_id.as_str());
            out
        },
        Error::UndeclaredTermReference { entry_id, reference_id } => {
            let mut out = "Undeclared term reference ".to_owned();
            out.append(reference_id.as_str());
            out.append(" in ");
            out.append(entry_id.as_str());
            out
        },
        Error::UndeclaredTermArgument { term_id, arg_name } => {
            let mut out = "Term ".to_owned();
            out.append(term_id.as_str());
            out.append(" does not declare the argument ");
            out.append(arg_name.as_str());
            out
        },
        Error::InvalidSelectorDefaultVariant { message_id } => {
            let mut out = "Message ".to_owned();
            out.append(message_id.as_str());
            out.append(" selector must have exactly one default variant");
            out
        },
        Error::UnsupportedFeature { feature, id } => {
            let mut out = "Found unsupported feature ".to_owned();
            out.append(feature.as_str());
            out.append(": ");
            out.append(id.as_str());
            out
        },
        Error::UnexpectedContextState => {
            "Message bundle builder context is in an invalid state".to_owned()
        },
        Error::MessageBundleValidationError { bundle, .. } => {
            let mut out = "Message bundle ".to_owned();
            out.append(bundle.as_str());
            out.append(" integrity validation failed");
            out
        },
        Error::UnsupportedDefaultLanguage { lang } => {
            let mut out = "Message bundle default language '".to_owned();
            out.append(lang.as_str());
            out.append("' has no corresponding resources");
            out
        },
        Error::InvalidLiteral(s) => {
            let mut out = "Error parsing literal value ".to_owned();
            out.append(s.as_str());
            out
        },
    }
}

} // verus!
