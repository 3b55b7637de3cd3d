//! The seam through which request documents reach a firewall, and what an HTTP reply
//! to one means.

use vstd::prelude::*;
use crate::client::{reply_view, Reply};
use crate::error::{Error, ErrorView, Result};
use crate::text::{decimal, decimal_chars, push_chars, push_str, string_of};

verus! {

/// Sends a request document to the firewall's XML API and hands back its reply.
///
/// Implementations do the network work. What comes back is theirs to say: [`Self::replies`]
/// names the replies a transport may give, and a call gives one of them for the very URL
/// and document it was handed.
pub trait SophosTransport {
    /// Whether `reply` is an answer this transport may give to `request_xml` posted to
    /// `api_url`; a transport that says nothing of its replies may give any.
    open spec fn replies(&self, api_url: Seq<char>, request_xml: Seq<char>, reply: Reply) -> bool {
        true
    }

    /// Posts `request_xml` to `api_url` and returns the reply document.
    fn send_xml(&self, api_url: &str, request_xml: &str) -> (r: Result<String>)
        ensures
            self.replies(api_url@, request_xml@, reply_view(r)),
    ;
}

/// Whether an HTTP status is a success (2xx).
pub open spec fn is_success(status: u16) -> bool {
    200 <= status && status < 300
}

/// `HTTP status {status} {reason}`, with `unknown` for a status without a reason phrase.
pub open spec fn status_error_text(status: u16, reason: Option<Seq<char>>) -> Seq<char> {
    "HTTP status "@ + decimal(status as nat) + " "@ + match reason {
        Some(r) => r,
        None => "unknown"@,
    }
}

/// The error an HTTP reply with `status` is, if it is one: none for a success, else a
/// transport error (see [`status_error_text`]).
pub fn http_status_error(status: u16, reason: Option<&str>) -> (r: Option<Error>)
    ensures
        is_success(status) ==> r is None,
        !is_success(status) ==> (r matches Some(e) && e@ == ErrorView::Transport(
            status_error_text(
                status,
                match reason {
                    Some(x) => Some(x@),
                    None => None,
                },
            ),
        )),
{
    if 200 <= status && status < 300 {
        return None;
    }
    let mut m: Vec<char> = Vec::new();
    push_str(&mut m, "HTTP status ");
    let digits = decimal_chars(status as u64);
    push_chars(&mut m, digits.as_slice());
    push_str(&mut m, " ");
    match reason {
        Some(x) => push_str(&mut m, x),
        None => push_str(&mut m, "unknown"),
    }
    Some(Error::Transport(string_of(m.as_slice())))
}

/// The transport error `{context}: {detail}`.
pub fn transport_error(context: &str, detail: &str) -> (e: Error)
    ensures
        e@ == ErrorView::Transport(context@ + ": "@ + detail@),
{
    let mut m: Vec<char> = Vec::new();
    push_str(&mut m, context);
    push_str(&mut m, ": ");
    push_str(&mut m, detail);
    Error::Transport(string_of(m.as_slice()))
}

} // verus!
