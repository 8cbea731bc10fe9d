//! Why one binary could not be provisioned.
use vstd::prelude::*;
use crate::url_context::TemplateError;

verus! {

/// The failure of one binary's pipeline, by the stage that failed.
#[derive(PartialEq, Eq, Debug, Clone)]
pub enum Error {
    /// A version string without exactly three numeric components.
    InvalidVersion(String),
    /// A URL pattern with an unknown or unterminated placeholder.
    Template(TemplateError),
    /// A built URL that is not a well-formed URL.
    UrlParse(String),
    /// A transport failure or a non-success response.
    Network(String),
    /// A local read or write failure.
    IO(String),
}

impl Error {
    /// The reason, as shown next to the binary's name.
    pub open spec fn reason_spec(&self) -> Seq<char> {
        match self {
            Error::InvalidVersion(m) => m@,
            Error::Template(TemplateError::Unterminated) => "unterminated placeholder"@,
            Error::Template(TemplateError::UnknownPlaceholder(k)) => "unknown placeholder "@ + k@,
            Error::UrlParse(m) => m@,
            Error::Network(m) => m@,
            Error::IO(m) => m@,
        }
    }

    /// The reason, as shown next to the binary's name.
    pub fn reason(&self) -> (r: String)
        ensures
            r@ == self.reason_spec(),
    {
        match self {
            Error::InvalidVersion(m) => m.clone(),
            Error::Template(TemplateError::Unterminated) => String::from_str(
                "unterminated placeholder",
            ),
            Error::Template(TemplateError::UnknownPlaceholder(k)) => {
                let mut r = String::from_str("unknown placeholder ");
                r.append(k.as_str());
                r
            },
            Error::UrlParse(m) => m.clone(),
            Error::Network(m) => m.clone(),
            Error::IO(m) => m.clone(),
        }
    }
}

} // verus!
