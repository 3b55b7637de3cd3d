//! The library's error type.

use vstd::prelude::*;

verus! {

/// What can go wrong talking to the firewall.
#[derive(Debug, Clone, PartialEq, Eq)]
pub enum Error {
    AuthorizationDenied(String),
    InvalidRequest(String),
    Transport(String),
    ResponseParse(String),
    ZeroRecords { resource: String },
    ApiError { resource: String, code: Option<String>, message: String },
}

/// The result type of the library.
pub type Result<T> = core::result::Result<T, Error>;

/// An [`Error`] with its texts as character sequences.
pub enum ErrorView {
    AuthorizationDenied(Seq<char>),
    InvalidRequest(Seq<char>),
    Transport(Seq<char>),
    ResponseParse(Seq<char>),
    ZeroRecords(Seq<char>),
    ApiError(Seq<char>, Option<Seq<char>>, Seq<char>),
    /// A reply the transport does not give to the document that was sent; no [`Error`]
    /// is this one, so a result that is one of them never comes from such a reply.
    Unanswered,
}

impl View for Error {
    type V = ErrorView;

    open spec fn view(&self) -> ErrorView {
        match self {
            Error::AuthorizationDenied(m) => ErrorView::AuthorizationDenied(m@),
            Error::InvalidRequest(m) => ErrorView::InvalidRequest(m@),
            Error::Transport(m) => ErrorView::Transport(m@),
            Error::ResponseParse(m) => ErrorView::ResponseParse(m@),
            Error::ZeroRecords { resource } => ErrorView::ZeroRecords(resource@),
            Error::ApiError { resource, code, message } => ErrorView::ApiError(
                resource@,
                crate::text::opt_view(*code),
                message@,
            ),
        }
    }
}

/// The human-readable text of an error.
pub open spec fn error_text(e: ErrorView) -> Seq<char> {
    match e {
        ErrorView::AuthorizationDenied(m) => "authorization denied: "@ + m,
        ErrorView::InvalidRequest(m) => "invalid request: "@ + m,
        ErrorView::Transport(m) => "transport error: "@ + m,
        ErrorView::ResponseParse(m) => "response parse error: "@ + m,
        ErrorView::ZeroRecords(r) => "zero records returned for "@ + r,
        ErrorView::ApiError(r, _, m) => "Sophos API error for "@ + r + ": "@ + m,
        ErrorView::Unanswered => Seq::empty(),
    }
}

impl Error {
    /// An invalid-request error with message `m`.
    pub fn invalid(m: String) -> (e: Error)
        ensures
            e@ == ErrorView::InvalidRequest(m@),
    {
        Error::InvalidRequest(m)
    }

    /// The human-readable text of the error.
    pub fn to_string(&self) -> (s: String)
        ensures
            s@ == error_text(self@),
    {
        let (mut s, tail) = match self {
            Error::AuthorizationDenied(m) => ("authorization denied: ".to_owned(), m.as_str()),
            Error::InvalidRequest(m) => ("invalid request: ".to_owned(), m.as_str()),
            Error::Transport(m) => ("transport error: ".to_owned(), m.as_str()),
            Error::ResponseParse(m) => ("response parse error: ".to_owned(), m.as_str()),
            Error::ZeroRecords { resource } => ("zero records returned for ".to_owned(), resource.as_str()),
            Error::ApiError { resource, message, .. } => {
                let mut s = "Sophos API error for ".to_owned();
                s.append(resource.as_str());
                s.append(": ");
                (s, message.as_str())
            },
        };
        s.append(tail);
        s
    }
}

} // verus!
