//! The client: connection settings, a transport and an optional authorization policy, and
//! the request round trip.

use vstd::prelude::*;
use crate::authz::{policy_decision, AuthorizationPolicy, AuthorizationRule, DecisionView};
use crate::error::{ErrorView, Result};
use crate::request::{api_url_of, RequestView, SophosConnection, SophosRequest};
use crate::response::{
    parse_response_of, parse_response_xml, resource_views, ResourceView, SophosResponse,
};
use crate::transport::SophosTransport;
use crate::xml::{build_request_xml, request_xml_of};

verus! {

/// The outcome of a transport call: the reply document or the transport's error.
pub type Reply = core::result::Result<Seq<char>, ErrorView>;

/// The resource replies of a round trip, or its error.
pub type Outcome = core::result::Result<Seq<ResourceView>, ErrorView>;

/// What a round trip depends on: the connection settings, the replies the transport may
/// give to each document, and the subject and rules requests are checked against, if any.
pub struct Link {
    pub conn: SophosConnection,
    pub replies: spec_fn(Seq<char>, Seq<char>, Reply) -> bool,
    pub guard: Option<(Seq<char>, Seq<AuthorizationRule>)>,
}

/// The URL requests over `link` are posted to.
pub open spec fn link_url(link: Link) -> Seq<char> {
    api_url_of(link.conn.host@, link.conn.port)
}

/// The document sent for `request` over `link`, or why nothing is sent: the policy's
/// denial, checked first, or the request's own error.
pub open spec fn document_of(link: Link, request: RequestView) -> core::result::Result<Seq<char>, ErrorView> {
    let refusal = match link.guard {
        Some((subject, rules)) => match policy_decision(rules, subject, request) {
            DecisionView::Deny(m) => Some(ErrorView::AuthorizationDenied(m)),
            DecisionView::Allow => None,
        },
        None => None,
    };
    match refusal {
        Some(e) => Err(e),
        None => match request_xml_of(link.conn, request) {
            Err(m) => Err(ErrorView::InvalidRequest(m)),
            Ok(x) => Ok(x),
        },
    }
}

/// What the transport's `reply` gives: its error, or the reply document parsed.
pub open spec fn reply_outcome(reply: Reply) -> Outcome {
    match reply {
        Err(e) => Err(e),
        Ok(x) => parse_response_of(x),
    }
}

/// What sending `request` over `link` gives when the transport answers `reply`: the
/// refusal when nothing is sent; else, for a reply the transport may give to the
/// document, that reply's outcome, and [`ErrorView::Unanswered`] for any other.
pub open spec fn exchange(link: Link, request: RequestView, reply: Reply) -> Outcome {
    match document_of(link, request) {
        Err(e) => Err(e),
        Ok(x) => if (link.replies)(link_url(link), x, reply) {
            reply_outcome(reply)
        } else {
            Err(ErrorView::Unanswered)
        },
    }
}

/// A transport result with its texts as character sequences.
pub open spec fn reply_view(r: Result<String>) -> Reply {
    match r {
        Ok(x) => Ok(x@),
        Err(e) => Err(e@),
    }
}

/// The resource replies of a response result.
pub open spec fn outcome_of(r: Result<SophosResponse>) -> Outcome {
    match r {
        Ok(resp) => Ok(resource_views(resp.resources@)),
        Err(e) => Err(e@),
    }
}

/// A firewall client: where and as whom to connect, how to send, and, if set, as which
/// subject under which policy requests are checked before they are built.
#[derive(Debug, Clone)]
pub struct SophosClient<T> {
    connection: SophosConnection,
    transport: T,
    authorization: Option<(String, AuthorizationPolicy)>,
}

impl<T> SophosClient<T> {
    /// The connection settings.
    pub closed spec fn settings(&self) -> SophosConnection {
        self.connection
    }

    /// The transport.
    pub closed spec fn trans(&self) -> T {
        self.transport
    }

    /// The subject and rules requests are checked against, if any.
    pub closed spec fn guard(&self) -> Option<(Seq<char>, Seq<AuthorizationRule>)> {
        match self.authorization {
            Some((s, p)) => Some((s@, p.rules@)),
            None => None,
        }
    }

    /// A client for `connection` sending through `transport`, with no policy.
    pub fn new(connection: SophosConnection, transport: T) -> (c: Self)
        ensures
            c.settings() == connection,
            c.trans() == transport,
            c.guard() is None,
    {
        SophosClient { connection, transport, authorization: None }
    }

    /// The same client checking every request as `subject` against `policy` before it is
    /// built; a denied request is answered with the denial and nothing is sent.
    pub fn with_authorization(self, subject: &str, policy: AuthorizationPolicy) -> (c: Self)
        ensures
            c.settings() == self.settings(),
            c.trans() == self.trans(),
            c.guard() == Some((subject@, policy.rules@)),
    {
        SophosClient {
            connection: self.connection,
            transport: self.transport,
            authorization: Some((subject.to_owned(), policy)),
        }
    }

    /// The connection settings.
    pub fn connection(&self) -> (c: &SophosConnection)
        ensures
            *c == self.settings(),
    {
        &self.connection
    }

    /// The transport.
    pub fn transport(&self) -> (t: &T)
        ensures
            *t == self.trans(),
    {
        &self.transport
    }
}

/// The response for the transport's `reply`: its error, or the reply parsed.
pub fn response_from_reply(reply: Result<String>) -> (r: Result<SophosResponse>)
    ensures
        outcome_of(r) == reply_outcome(reply_view(reply)),
        r matches Ok(resp) ==> reply_view(reply) == Ok::<Seq<char>, ErrorView>(resp.raw_xml@),
{
    match reply {
        Ok(x) => parse_response_xml(x.as_str()),
        Err(e) => Err(e),
    }
}

impl<T: SophosTransport> SophosClient<T> {
    /// The link requests of this client go over.
    pub open spec fn conn(&self) -> Link {
        Link {
            conn: self.settings(),
            replies: |u: Seq<char>, x: Seq<char>, r: Reply| self.trans().replies(u, x, r),
            guard: self.guard(),
        }
    }

    /// Checks `request` against the policy, if one is set, builds its document, posts it
    /// once to the API URL and parses the reply, which the response keeps as its raw XML.
    /// A denied request, or one that does not build, is answered with that error and
    /// nothing is sent.
    pub fn execute(&self, request: &SophosRequest) -> (r: Result<SophosResponse>)
        ensures
            match document_of(self.conn(), request@) {
                Err(e) => outcome_of(r) == Err::<Seq<ResourceView>, ErrorView>(e),
                Ok(x) => exists|reply: Reply|
                    self.trans().replies(link_url(self.conn()), x, reply)
                        && outcome_of(r) == reply_outcome(reply)
                        && (r matches Ok(resp) ==> reply == Ok::<Seq<char>, ErrorView>(resp.raw_xml@)),
            },
            exists|reply: Reply|
                outcome_of(r) == exchange(self.conn(), request@, reply)
                    && (r matches Ok(resp) ==> reply == Ok::<Seq<char>, ErrorView>(resp.raw_xml@)),
    {
        match &self.authorization {
            Some((subject, policy)) => match policy.authorize(subject.as_str(), request) {
                Ok(()) => {},
                Err(e) => {
                    assert(outcome_of(Err(e)) == exchange(self.conn(), request@, Err(e@)));
                    return Err(e);
                },
            },
            None => {},
        }
        let request_xml = match build_request_xml(&self.connection, request) {
            Ok(x) => x,
            Err(e) => {
                assert(outcome_of(Err(e)) == exchange(self.conn(), request@, Err(e@)));
                return Err(e);
            },
        };
        let url = self.connection.api_url();
        let reply = self.transport.send_xml(url.as_str(), request_xml.as_str());
        let ghost rv = reply_view(reply);
        assert((self.conn().replies)(link_url(self.conn()), request_xml@, rv));
        let r = response_from_reply(reply);
        assert(outcome_of(r) == exchange(self.conn(), request@, rv));
        r
    }
}

/// A request that is refused before anything is sent is answered with its refusal,
/// whatever the transport would have replied.
pub proof fn lemma_refusal_ignores_reply(link: Link, request: RequestView, a: Reply, b: Reply)
    requires
        document_of(link, request) is Err,
    ensures
        exchange(link, request, a) == exchange(link, request, b),
        exchange(link, request, a) == Err::<Seq<ResourceView>, ErrorView>(document_of(link, request)->Err_0),
{
}

/// A request the policy denies is answered with the denial, before the request is even
/// checked for building, and whatever the transport would have replied.
pub proof fn lemma_denial_comes_first(link: Link, request: RequestView, reply: Reply, subject: Seq<char>, rules: Seq<AuthorizationRule>, m: Seq<char>)
    requires
        link.guard == Some((subject, rules)),
        policy_decision(rules, subject, request) == DecisionView::Deny(m),
    ensures
        exchange(link, request, reply) == Err::<Seq<ResourceView>, ErrorView>(ErrorView::AuthorizationDenied(m)),
{
}

/// Without a policy, what is sent for a request is exactly its built document.
pub proof fn lemma_unguarded_document(link: Link, request: RequestView)
    requires
        link.guard is None,
    ensures
        document_of(link, request) == match request_xml_of(link.conn, request) {
            Ok(x) => Ok::<Seq<char>, ErrorView>(x),
            Err(m) => Err(ErrorView::InvalidRequest(m)),
        },
{
}

} // verus!
