use vstd::prelude::*;

verus! {

/// The error codes of the HTTP layer's own errors.
#[derive(Debug, Clone, Copy, PartialEq, Eq, Structural)]
pub enum Code {
    MissingContentType,
    InvalidContentType,
}

/// Errors of the HTTP layer about a request's content type.
#[derive(Debug)]
pub enum MeilisearchHttpError {
    MissingContentType,
    InvalidContentType(String),
}

pub open spec fn accepted_types_text() -> Seq<char> {
    " Accepted values for the Content-Type header are: \"application/json\", \"application/x-ndjson\", \"text/csv\""@
}

impl MeilisearchHttpError {
    pub fn error_code(&self) -> (r: Code)
        ensures
            r == match self {
                MeilisearchHttpError::MissingContentType => Code::MissingContentType,
                MeilisearchHttpError::InvalidContentType(_) => Code::InvalidContentType,
            },
    {
        match self {
            MeilisearchHttpError::MissingContentType => Code::MissingContentType,
            MeilisearchHttpError::InvalidContentType(_) => Code::InvalidContentType,
        }
    }

    /// The message shown to the user.
    pub fn message(&self) -> (r: String)
        ensures
            r@ == match self {
                MeilisearchHttpError::MissingContentType => "A Content-Type header is missing."@
                    + accepted_types_text(),
                MeilisearchHttpError::InvalidContentType(t) => "The Content-Type \""@ + t@
                    + "\" is invalid."@ + accepted_types_text(),
            },
    {
        let accepted = " Accepted values for the Content-Type header are: \"application/json\", \"application/x-ndjson\", \"text/csv\"";
        match self {
            MeilisearchHttpError::MissingContentType => {
                let mut m = String::from_str("A Content-Type header is missing.");
                m.append(accepted);
                m
            },
            MeilisearchHttpError::InvalidContentType(t) => {
                let mut m = String::from_str("The Content-Type \"");
                m.append(t.as_str());
                m.append("\" is invalid.");
                m.append(accepted);
                m
            },
        }
    }
}

} // verus!
