//! Which subject may do what to which objects.

use vstd::prelude::*;
use crate::error::{Error, ErrorView};
use crate::request::{Action, RequestView, SophosRequest};
use crate::text::{
    contains_str, debug_quoted, debug_str, opt_view, push_str, str_eq, string_of, views,
};

verus! {

/// The objects a rule covers: any object, or only the named ones.
#[derive(Debug, Clone, PartialEq, Eq)]
pub enum ObjectScope {
    Any,
    Named(Vec<String>),
}

/// Allows `subject` the `actions` on `objects` of `resource`.
#[derive(Debug, Clone, PartialEq, Eq)]
pub struct AuthorizationRule {
    pub subject: String,
    pub resource: String,
    pub objects: ObjectScope,
    pub actions: Vec<Action>,
}

/// A list of allow rules; whatever no rule allows is denied.
#[derive(Debug, Clone, PartialEq, Eq)]
pub struct AuthorizationPolicy {
    pub rules: Vec<AuthorizationRule>,
}

/// The outcome of an authorization check.
#[derive(Debug, Clone, PartialEq, Eq)]
pub enum Decision {
    Allow,
    Deny(String),
}

/// A [`Decision`] with its reason as a character sequence.
pub enum DecisionView {
    Allow,
    Deny(Seq<char>),
}

impl View for Decision {
    type V = DecisionView;

    open spec fn view(&self) -> DecisionView {
        match self {
            Decision::Allow => DecisionView::Allow,
            Decision::Deny(m) => DecisionView::Deny(m@),
        }
    }
}

/// The `Debug` text of an action.
pub open spec fn action_text(a: Action) -> Seq<char> {
    match a {
        Action::Read => "Read"@,
        Action::Create => "Create"@,
        Action::Update => "Update"@,
        Action::Delete => "Delete"@,
        Action::RawXml => "RawXml"@,
    }
}

/// The `Debug` text of an optional object name.
pub open spec fn opt_debug_text(o: Option<Seq<char>>) -> Seq<char> {
    match o {
        Some(s) => "Some("@ + debug_quoted(s) + ")"@,
        None => "None"@,
    }
}

/// Whether `scope` covers the object `name`, or why not.
pub open spec fn scope_decision(scope: ObjectScope, name: Option<Seq<char>>) -> Result<(), Seq<char>> {
    match scope {
        ObjectScope::Any => Ok(()),
        ObjectScope::Named(names) => match name {
            None => Err("rule requires a named object but request has no object"@),
            Some(n) => if views(names@).contains(n) {
                Ok(())
            } else {
                Err("object "@ + debug_quoted(n) + " is outside allowed scope"@)
            },
        },
    }
}

/// The reason given when a rule matches subject and resource but not the action.
pub open spec fn action_denied_text(a: Action) -> Seq<char> {
    "action "@ + action_text(a) + " is not allowed"@
}

/// The reason given when no rule matches subject and resource.
pub open spec fn no_rule_text(subject: Seq<char>, request: RequestView) -> Seq<char> {
    "subject "@ + debug_quoted(subject) + " has no rule for "@ + action_text(request.action) + " "@
        + request.resource + " "@ + opt_debug_text(request.object_name)
}

/// Whether `rule` is about `subject` and the request's resource.
pub open spec fn rule_matches(rule: AuthorizationRule, subject: Seq<char>, request: RequestView) -> bool {
    rule.subject@ == subject && rule.resource@ == request.resource
}

/// Whether `rule` allows `subject` the request.
pub open spec fn rule_allows(rule: AuthorizationRule, subject: Seq<char>, request: RequestView) -> bool {
    &&& rule_matches(rule, subject, request)
    &&& rule.actions@.contains(request.action)
    &&& scope_decision(rule.objects, request.object_name) is Ok
}

/// The decision over `rules` in order: the first rule that allows the request allows it;
/// otherwise the request is denied with the reason of the last near miss, or
/// [`no_rule_text`] when none came close.
pub open spec fn decide_rules(
    rules: Seq<AuthorizationRule>,
    subject: Seq<char>,
    request: RequestView,
    near_miss: Option<Seq<char>>,
) -> DecisionView
    decreases rules.len(),
{
    if rules.len() == 0 {
        match near_miss {
            Some(m) => DecisionView::Deny(m),
            None => DecisionView::Deny(no_rule_text(subject, request)),
        }
    } else {
        let rule = rules[0];
        let rest = rules.drop_first();
        if !rule_matches(rule, subject, request) {
            decide_rules(rest, subject, request, near_miss)
        } else if !rule.actions@.contains(request.action) {
            decide_rules(rest, subject, request, Some(action_denied_text(request.action)))
        } else {
            match scope_decision(rule.objects, request.object_name) {
                Ok(()) => DecisionView::Allow,
                Err(m) => decide_rules(rest, subject, request, Some(m)),
            }
        }
    }
}

/// The reason every raw XML request is denied.
pub open spec fn raw_xml_denied_text() -> Seq<char> {
    "raw XML requests are denied because object scope cannot be trusted without XML inspection"@
}

/// The decision of a policy of `rules`: a raw XML request is denied whatever object it
/// claims, since only its XML says what it touches; any other goes by [`decide_rules`].
pub open spec fn policy_decision(rules: Seq<AuthorizationRule>, subject: Seq<char>, request: RequestView) -> DecisionView {
    if request.action is RawXml {
        DecisionView::Deny(raw_xml_denied_text())
    } else {
        decide_rules(rules, subject, request, None)
    }
}

impl ObjectScope {
    /// A scope of the given object names.
    pub fn named(names: Vec<&str>) -> (s: ObjectScope)
        ensures
            s matches ObjectScope::Named(ns) && forall|n: Seq<char>|
                views(ns@).contains(n) <==> exists|i: int| 0 <= i < names@.len() && #[trigger] names@[i]@ == n,
    {
        let mut out: Vec<String> = Vec::new();
        let mut i: usize = 0;
        while i < names.len()
            invariant
                i <= names@.len(),
                forall|n: Seq<char>|
                    views(out@).contains(n) <==> exists|j: int| 0 <= j < i && #[trigger] names@[j]@ == n,
            decreases names@.len() - i,
        {
            let ghost before = out@;
            if !contains_str(&out, names[i]) {
                out.push(names[i].to_owned());
                assert(views(out@) =~= views(before).push(names@[i as int]@));
            }
            assert forall|n: Seq<char>| views(out@).contains(n) <==> exists|j: int|
                0 <= j < i + 1 && #[trigger] names@[j]@ == n by {
                if views(out@).contains(n) && !views(before).contains(n) {
                    assert(names@[i as int]@ == n);
                }
                if exists|j: int| 0 <= j < i + 1 && #[trigger] names@[j]@ == n {
                    let j = choose|j: int| 0 <= j < i + 1 && #[trigger] names@[j]@ == n;
                    if j == i {
                        if views(out@) == views(before) {
                            assert(views(before).contains(names@[i as int]@));
                        } else {
                            assert(views(out@)[views(before).len() as int] == n);
                        }
                    } else {
                        assert(views(before).contains(n));
                        let k = choose|k: int| 0 <= k < views(before).len() && views(before)[k] == n;
                        assert(views(out@)[k] == n);
                    }
                }
            }
            i = i + 1;
        }
        ObjectScope::Named(out)
    }

    /// Whether this scope covers the object `object_name`, or why not.
    fn decide(&self, object_name: Option<&str>) -> (r: Result<(), String>)
        ensures
            match scope_decision(*self, crate::xml::opt_str_view(object_name)) {
                Ok(()) => r is Ok,
                Err(m) => r matches Err(e) && e@ == m,
            },
    {
        match self {
            ObjectScope::Any => Ok(()),
            ObjectScope::Named(names) => match object_name {
                None => Err("rule requires a named object but request has no object".to_owned()),
                Some(n) => if contains_str(names, n) {
                    Ok(())
                } else {
                    let mut m: Vec<char> = Vec::new();
                    push_str(&mut m, "object ");
                    let q = debug_str(n);
                    push_str(&mut m, q.as_str());
                    push_str(&mut m, " is outside allowed scope");
                    Err(string_of(m.as_slice()))
                },
            },
        }
    }
}

/// Whether `actions` holds `a`.
fn contains_action(actions: &Vec<Action>, a: Action) -> (b: bool)
    ensures
        b == actions@.contains(a),
{
    let mut i: usize = 0;
    while i < actions.len()
        invariant
            i <= actions@.len(),
            forall|j: int| 0 <= j < i ==> actions@[j] != a,
        decreases actions@.len() - i,
    {
        if actions[i] == a {
            return true;
        }
        i = i + 1;
    }
    false
}

/// The `Debug` text of `a`.
fn action_str(a: Action) -> (s: &'static str)
    ensures
        s@ == action_text(a),
{
    match a {
        Action::Read => "Read",
        Action::Create => "Create",
        Action::Update => "Update",
        Action::Delete => "Delete",
        Action::RawXml => "RawXml",
    }
}

impl AuthorizationRule {
    /// A rule allowing `subject` the given `actions` on `objects` of `resource`.
    pub fn allow(subject: &str, resource: &str, objects: ObjectScope, actions: Vec<Action>) -> (r: AuthorizationRule)
        ensures
            r.subject@ == subject@,
            r.resource@ == resource@,
            r.objects == objects,
            forall|a: Action| r.actions@.contains(a) <==> actions@.contains(a),
            r.actions@.no_duplicates(),
    {
        let mut set: Vec<Action> = Vec::new();
        let mut i: usize = 0;
        while i < actions.len()
            invariant
                i <= actions@.len(),
                forall|a: Action| set@.contains(a) <==> actions@.take(i as int).contains(a),
                set@.no_duplicates(),
            decreases actions@.len() - i,
        {
            let a = actions[i];
            let ghost before = set@;
            if !contains_action(&set, a) {
                set.push(a);
                assert(set@ == before.push(a));
            }
            assert(actions@.take(i + 1) =~= actions@.take(i as int).push(a));
            assert forall|b: Action| set@.contains(b) <==> actions@.take(i + 1).contains(b) by {
                let t = actions@.take(i as int);
                if b == a {
                    assert(actions@.take(i + 1)[i as int] == a);
                    if !before.contains(a) {
                        assert(set@[before.len() as int] == a);
                    }
                } else {
                    assert(before.contains(b) <==> t.contains(b));
                    if set@.contains(b) {
                        let k = choose|k: int| 0 <= k < set@.len() && set@[k] == b;
                        assert(before[k] == b);
                        let j = choose|j: int| 0 <= j < t.len() && t[j] == b;
                        assert(actions@.take(i + 1)[j] == b);
                    }
                    if actions@.take(i + 1).contains(b) {
                        let t1 = actions@.take(i + 1);
                        let j = choose|j: int| 0 <= j < t1.len() && t1[j] == b;
                        assert(t[j] == b);
                        let k = choose|k: int| 0 <= k < before.len() && before[k] == b;
                        assert(set@[k] == b);
                    }
                }
            }
            i = i + 1;
        }
        assert(actions@.take(actions@.len() as int) =~= actions@);
        AuthorizationRule {
            subject: subject.to_owned(),
            resource: resource.to_owned(),
            objects,
            actions: set,
        }
    }
}

impl Default for AuthorizationPolicy {
    /// A policy with no rule, which denies everything.
    fn default() -> (p: AuthorizationPolicy)
        ensures
            p.rules@.len() == 0,
    {
        AuthorizationPolicy { rules: Vec::new() }
    }
}

impl AuthorizationPolicy {
    /// A policy of the given rules.
    pub fn new(rules: Vec<AuthorizationRule>) -> (p: AuthorizationPolicy)
        ensures
            p.rules == rules,
    {
        AuthorizationPolicy { rules }
    }

    /// A policy with no rule, which denies everything.
    pub fn empty() -> (p: AuthorizationPolicy)
        ensures
            p.rules@.len() == 0,
    {
        AuthorizationPolicy { rules: Vec::new() }
    }

    /// Decides whether `subject` may perform `request` (see [`decide_rules`]).
    pub fn decide(&self, subject: &str, request: &SophosRequest) -> (d: Decision)
        ensures
            d@ == policy_decision(self.rules@, subject@, request@),
    {
        if request.action == Action::RawXml {
            return Decision::Deny(
                "raw XML requests are denied because object scope cannot be trusted without XML inspection".to_owned(),
            );
        }
        let mut near_miss: Option<String> = None;
        let name: Option<&str> = match &request.object_name {
            Some(n) => Some(n.as_str()),
            None => None,
        };
        let mut i: usize = 0;
        assert(self.rules@.skip(0) =~= self.rules@);
        while i < self.rules.len()
            invariant
                i <= self.rules@.len(),
                !(request.action is RawXml),
                crate::xml::opt_str_view(name) == opt_view(request.object_name),
                decide_rules(self.rules@, subject@, request@, None) == decide_rules(
                    self.rules@.skip(i as int),
                    subject@,
                    request@,
                    opt_view(near_miss),
                ),
            decreases self.rules@.len() - i,
        {
            let rule = &self.rules[i];
            let ghost rest = self.rules@.skip(i as int);
            assert(rest.drop_first() =~= self.rules@.skip(i + 1));
            assert(rest[0] == *rule);
            if !str_eq(rule.subject.as_str(), subject) || !str_eq(rule.resource.as_str(), request.resource.as_str()) {
                i = i + 1;
                continue;
            }
            if !contains_action(&rule.actions, request.action) {
                let mut m: Vec<char> = Vec::new();
                push_str(&mut m, "action ");
                push_str(&mut m, action_str(request.action));
                push_str(&mut m, " is not allowed");
                near_miss = Some(string_of(m.as_slice()));
                assert(opt_view(near_miss) == Some(action_denied_text(request.action)));
                i = i + 1;
                continue;
            }
            match rule.objects.decide(name) {
                Ok(()) => return Decision::Allow,
                Err(reason) => near_miss = Some(reason),
            }
            i = i + 1;
        }
        match near_miss {
            Some(m) => Decision::Deny(m),
            None => {
                let mut m: Vec<char> = Vec::new();
                push_str(&mut m, "subject ");
                let q = debug_str(subject);
                push_str(&mut m, q.as_str());
                push_str(&mut m, " has no rule for ");
                push_str(&mut m, action_str(request.action));
                push_str(&mut m, " ");
                push_str(&mut m, request.resource.as_str());
                push_str(&mut m, " ");
                let ghost prefix = m@;
                match name {
                    Some(n) => {
                        push_str(&mut m, "Some(");
                        let q2 = debug_str(n);
                        push_str(&mut m, q2.as_str());
                        push_str(&mut m, ")");
                        assert(m@ =~= prefix + ("Some("@ + debug_quoted(n@) + ")"@));
                    },
                    None => push_str(&mut m, "None"),
                }
                assert(m@ =~= no_rule_text(subject@, request@));
                let d = Decision::Deny(string_of(m.as_slice()));
                assert(d@ == DecisionView::Deny(no_rule_text(subject@, request@)));
                d
            },
        }
    }

    /// `Ok` when [`Self::decide`] allows the request, else the denial as an error.
    pub fn authorize(&self, subject: &str, request: &SophosRequest) -> (r: crate::error::Result<()>)
        ensures
            match policy_decision(self.rules@, subject@, request@) {
                DecisionView::Allow => r is Ok,
                DecisionView::Deny(m) => r matches Err(e) && e@ == ErrorView::AuthorizationDenied(m),
            },
    {
        match self.decide(subject, request) {
            Decision::Allow => Ok(()),
            Decision::Deny(reason) => Err(Error::AuthorizationDenied(reason)),
        }
    }
}

/// A request is allowed exactly when it is not raw XML and some rule allows it: the rule
/// is about the subject and the resource, lists the action, and its scope covers the
/// object.
pub proof fn lemma_allowed_iff_some_rule_allows(
    rules: Seq<AuthorizationRule>,
    subject: Seq<char>,
    request: RequestView,
)
    ensures
        (policy_decision(rules, subject, request) is Allow) <==> (request.action !is RawXml && exists|i: int|
            0 <= i < rules.len() && rule_allows(#[trigger] rules[i], subject, request)),
{
    lemma_decide_allows_iff(rules, subject, request, None);
}

/// Going through `rules` from any near miss allows exactly when some rule allows.
proof fn lemma_decide_allows_iff(
    rules: Seq<AuthorizationRule>,
    subject: Seq<char>,
    request: RequestView,
    near_miss: Option<Seq<char>>,
)
    ensures
        (decide_rules(rules, subject, request, near_miss) is Allow) <==> exists|i: int|
            0 <= i < rules.len() && rule_allows(#[trigger] rules[i], subject, request),
    decreases rules.len(),
{
    if rules.len() > 0 {
        let rest = rules.drop_first();
        let rule = rules[0];
        let next = if !rule_matches(rule, subject, request) {
            near_miss
        } else if !rule.actions@.contains(request.action) {
            Some(action_denied_text(request.action))
        } else {
            match scope_decision(rule.objects, request.object_name) {
                Ok(()) => near_miss,
                Err(m) => Some(m),
            }
        };
        lemma_decide_allows_iff(rest, subject, request, next);
        if exists|i: int| 0 <= i < rest.len() && rule_allows(#[trigger] rest[i], subject, request) {
            let i = choose|i: int| 0 <= i < rest.len() && rule_allows(#[trigger] rest[i], subject, request);
            assert(rules[i + 1] == rest[i]);
        }
        if exists|i: int| 0 <= i < rules.len() && rule_allows(#[trigger] rules[i], subject, request) {
            let i = choose|i: int| 0 <= i < rules.len() && rule_allows(#[trigger] rules[i], subject, request);
            if i > 0 {
                assert(rest[i - 1] == rules[i]);
            }
        }
    }
}

/// An empty policy denies every request: a raw XML one as such, any other for want of a
/// rule.
pub proof fn lemma_empty_policy_denies(subject: Seq<char>, request: RequestView)
    ensures
        policy_decision(Seq::empty(), subject, request) == DecisionView::Deny(
            if request.action is RawXml {
                raw_xml_denied_text()
            } else {
                no_rule_text(subject, request)
            },
        ),
{
}

} // verus!
