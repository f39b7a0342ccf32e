//! Taking Duper request bodies over HTTP: which content types are accepted,
//! how a failure to read a body is classified, and what each rejection
//! answers.
use vstd::prelude::*;
use crate::text::str_eq;

verus! {

/// The content type of a Duper body.
pub const DUPER_CONTENT_TYPE: &'static str = "application/duper";

/// The alternative content type of a Duper body.
pub const DUPER_ALT_CONTENT_TYPE: &'static str = "application/x-duper";

/// The kinds of errors that can happen while turning Duper text into data.
#[derive(Debug, Clone, Copy, PartialEq, Eq, Structural)]
pub enum ErrorKind {
    /// The text is not valid Duper.
    ParseError,
    /// Serialization failed.
    SerializationError,
    /// The value does not fit the target type.
    DeserializationError,
    /// An invalid value was provided.
    InvalidValue,
    /// Unspecified conditions.
    Custom,
}

/// Each way taking a Duper body can fail.
#[derive(Debug, Clone, Copy, PartialEq, Eq, Structural)]
#[non_exhaustive]
pub enum DuperRejection {
    /// The body could not be read as UTF-8 text.
    DuperDataError,
    /// The body is not valid Duper.
    DuperSyntaxError,
    /// The request does not say that its body is Duper.
    MissingDuperContentType,
    /// The body could not be turned into the requested data.
    InternalDuperError,
}

/// Whether a `Content-Type` header value announces a Duper body.
pub open spec fn is_duper_type(content_type: Seq<char>) -> bool {
    content_type == "application/duper"@ || content_type == "application/x-duper"@
}

/// Whether the request's `Content-Type` header, if it has one that is
/// text, announces a Duper body.
pub fn is_duper_content_type(content_type: Option<&str>) -> (r: bool)
    ensures
        r == (content_type matches Some(t) && is_duper_type(t@)),
{
    match content_type {
        Some(t) => str_eq(t, DUPER_CONTENT_TYPE) || str_eq(t, DUPER_ALT_CONTENT_TYPE),
        None => false,
    }
}

/// The HTTP status and the body text that a rejection answers with.
pub open spec fn rejection_answer(r: DuperRejection) -> (u16, Seq<char>) {
    match r {
        DuperRejection::DuperDataError => (400, "Failed to parse duper"@),
        DuperRejection::DuperSyntaxError => (400, "Failed to parse duper"@),
        DuperRejection::MissingDuperContentType => (
            400,
            "Content-Type header must be application/duper"@,
        ),
        DuperRejection::InternalDuperError => (500, "Internal server error"@),
    }
}

impl DuperRejection {
    /// The rejection for a body whose Duper text failed with an error of
    /// the given kind: a syntax error for text that does not parse, an
    /// internal error otherwise.
    pub fn from_kind(kind: ErrorKind) -> (r: DuperRejection)
        ensures
            kind == ErrorKind::ParseError ==> r == DuperRejection::DuperSyntaxError,
            kind != ErrorKind::ParseError ==> r == DuperRejection::InternalDuperError,
    {
        match kind {
            ErrorKind::ParseError => DuperRejection::DuperSyntaxError,
            _ => DuperRejection::InternalDuperError,
        }
    }

    /// The HTTP status code this rejection answers with.
    pub fn status(&self) -> (code: u16)
        ensures
            code == rejection_answer(*self).0,
    {
        match self {
            DuperRejection::InternalDuperError => 500,
            _ => 400,
        }
    }

    /// The body text this rejection answers with.
    pub fn message(&self) -> (m: String)
        ensures
            m@ == rejection_answer(*self).1,
    {
        let m = match self {
            DuperRejection::DuperDataError | DuperRejection::DuperSyntaxError => {
                "Failed to parse duper".to_owned()
            },
            DuperRejection::MissingDuperContentType => {
                let mut m = "Content-Type header must be ".to_owned();
                m.append(DUPER_CONTENT_TYPE);
                m
            },
            DuperRejection::InternalDuperError => "Internal server error".to_owned(),
        };
        proof {
            reveal_strlit("Content-Type header must be ");
            reveal_strlit("application/duper");
            reveal_strlit("Content-Type header must be application/duper");
        }
        m
    }
}

} // verus!
