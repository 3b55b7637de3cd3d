//! Parsing the firewall's XML reply into per-resource results.

use vstd::prelude::*;
use crate::error::{Error, ErrorView};
use crate::events::{
    attribute_items, cdata_content, cdata_event_content, classify, classify_event,
    element_attributes, read_written_events, text_content, text_event_content, written_events,
    AttrItem, AttrView, Event, EventClass,
};
use crate::text::{
    chars_eq, chars_of, debug_quoted, debug_str, opt_view, push_chars, push_str, str_eq, string_of,
    trim, trim_chars,
};

verus! {

/// The status element of a resource reply.
#[derive(Debug, Clone, PartialEq, Eq)]
pub struct ResourceStatus {
    pub code: Option<String>,
    pub text: String,
}

/// The reply for one resource: its name, status and the resource element as XML.
#[derive(Debug, Clone, PartialEq, Eq)]
pub struct ResourceResponse {
    pub name: String,
    pub status: ResourceStatus,
    pub body_xml: String,
}

/// A parsed reply: the resource replies in document order and the raw document.
#[derive(Debug, Clone, PartialEq, Eq)]
pub struct SophosResponse {
    pub resources: Vec<ResourceResponse>,
    pub raw_xml: String,
}

/// A [`ResourceStatus`] as character sequences.
pub struct StatusView {
    pub code: Option<Seq<char>>,
    pub text: Seq<char>,
}

/// A [`ResourceResponse`] as character sequences.
pub struct ResourceView {
    pub name: Seq<char>,
    pub status: StatusView,
    pub body: Seq<char>,
}

impl View for ResourceStatus {
    type V = StatusView;

    open spec fn view(&self) -> StatusView {
        StatusView { code: opt_view(self.code), text: self.text@ }
    }
}

impl View for ResourceResponse {
    type V = ResourceView;

    open spec fn view(&self) -> ResourceView {
        ResourceView { name: self.name@, status: self.status@, body: self.body_xml@ }
    }
}

/// The views of a list of resource replies.
pub open spec fn resource_views(rs: Seq<ResourceResponse>) -> Seq<ResourceView> {
    rs.map_values(|r: ResourceResponse| r@)
}

/// The resource being read: its element so far and what is known of its status.
pub struct CurrentView {
    pub name: Seq<char>,
    pub status: Option<StatusView>,
    pub body: Seq<char>,
    pub depth: nat,
    pub in_status: bool,
    pub status_depth: nat,
    pub status_code: Option<Seq<char>>,
    pub status_text: Seq<char>,
}

/// The reader's state between events.
pub struct ParseView {
    pub stack: Seq<Seq<char>>,
    pub resources: Seq<ResourceView>,
    pub current: Option<CurrentView>,
}

/// The value of the first `code` attribute among `items`; the first malformed item before
/// it, or a value that fails to unescape, is an error.
pub open spec fn code_of(items: Seq<AttrView>) -> Result<Option<Seq<char>>, Seq<char>>
    decreases items.len(),
{
    if items.len() == 0 {
        Ok(None)
    } else {
        match items[0] {
            AttrView::Malformed(e) => Err(e),
            AttrView::Attr(k, v) => if k == "code"@ {
                match v {
                    Ok(x) => Ok(Some(x)),
                    Err(e) => Err(e),
                }
            } else {
                code_of(items.drop_first())
            },
        }
    }
}

/// Whether an element `name` directly under `<Response>` starts a resource reply.
pub open spec fn is_resource_start(stack: Seq<Seq<char>>, name: Seq<char>) -> bool {
    stack.len() == 1 && stack[0] == "Response"@ && name != "Status"@
}

/// The reply for a finished resource; no status element gives no code and empty text.
pub open spec fn finish(c: CurrentView) -> ResourceView {
    ResourceView {
        name: c.name,
        status: match c.status {
            Some(s) => s,
            None => StatusView { code: None, text: Seq::empty() },
        },
        body: c.body,
    }
}

/// The error a finished resource reply stands for: zero records, or a status code not
/// starting with `2`.
pub open spec fn status_error(r: ResourceView) -> Option<ErrorView> {
    if r.status.text == "Number of records Zero."@ {
        Some(ErrorView::ZeroRecords(r.name))
    } else {
        match r.status.code {
            Some(c) => if c.len() > 0 && c[0] == '2' {
                None
            } else {
                Some(ErrorView::ApiError(r.name, Some(c), r.status.text))
            },
            None => None,
        }
    }
}

/// `c` with the written event `w` added to its element.
pub open spec fn with_body(c: CurrentView, w: Seq<char>) -> CurrentView {
    CurrentView { body: c.body + w, ..c }
}

/// One reading step on the written event `w`.
pub open spec fn parse_step(st: ParseView, w: Seq<char>) -> Result<ParseView, ErrorView> {
    match classify(w) {
        EventClass::Start(name) => match st.current {
            Some(c) => {
                let d = c.depth + 1;
                if name == "Status"@ && d == 2 {
                    match code_of(attribute_items(w)) {
                        Err(e) => Err(ErrorView::ResponseParse(e)),
                        Ok(code) => Ok(
                            ParseView {
                                stack: st.stack.push(name),
                                current: Some(
                                    CurrentView {
                                        depth: d,
                                        in_status: true,
                                        status_depth: d,
                                        status_code: code,
                                        status_text: Seq::empty(),
                                        body: c.body + w,
                                        ..c
                                    },
                                ),
                                ..st
                            },
                        ),
                    }
                } else {
                    Ok(
                        ParseView {
                            stack: st.stack.push(name),
                            current: Some(CurrentView { depth: d, body: c.body + w, ..c }),
                            ..st
                        },
                    )
                }
            },
            None => if is_resource_start(st.stack, name) {
                Ok(
                    ParseView {
                        stack: st.stack.push(name),
                        current: Some(
                            CurrentView {
                                name,
                                status: None,
                                body: w,
                                depth: 1,
                                in_status: false,
                                status_depth: 0,
                                status_code: None,
                                status_text: Seq::empty(),
                            },
                        ),
                        ..st
                    },
                )
            } else {
                Ok(ParseView { stack: st.stack.push(name), ..st })
            },
        },
        EventClass::Empty(name) => match st.current {
            Some(c) => if name == "Status"@ && c.depth == 1 {
                match code_of(attribute_items(w)) {
                    Err(e) => Err(ErrorView::ResponseParse(e)),
                    Ok(code) => Ok(
                        ParseView {
                            current: Some(
                                CurrentView {
                                    status: Some(StatusView { code, text: Seq::empty() }),
                                    body: c.body + w,
                                    ..c
                                },
                            ),
                            ..st
                        },
                    ),
                }
            } else {
                Ok(ParseView { current: Some(with_body(c, w)), ..st })
            },
            None => if is_resource_start(st.stack, name) {
                Ok(
                    ParseView {
                        resources: st.resources.push(
                            ResourceView {
                                name,
                                status: StatusView { code: None, text: Seq::empty() },
                                body: w,
                            },
                        ),
                        ..st
                    },
                )
            } else {
                Ok(st)
            },
        },
        EventClass::Text(raw) => match st.current {
            Some(c) => if c.in_status {
                match text_content(raw) {
                    Err(e) => Err(ErrorView::ResponseParse(e)),
                    Ok(t) => Ok(
                        ParseView {
                            current: Some(
                                CurrentView { status_text: c.status_text + t, body: c.body + w, ..c },
                            ),
                            ..st
                        },
                    ),
                }
            } else {
                Ok(ParseView { current: Some(with_body(c, w)), ..st })
            },
            None => Ok(st),
        },
        EventClass::CData(raw) => match st.current {
            Some(c) => if c.in_status {
                match cdata_content(raw) {
                    Err(e) => Err(ErrorView::ResponseParse(e)),
                    Ok(t) => Ok(
                        ParseView {
                            current: Some(
                                CurrentView { status_text: c.status_text + t, body: c.body + w, ..c },
                            ),
                            ..st
                        },
                    ),
                }
            } else {
                Ok(ParseView { current: Some(with_body(c, w)), ..st })
            },
            None => Ok(st),
        },
        EventClass::End(name) => {
            let closed: Option<CurrentView> = match st.current {
                Some(c) => {
                    let c1 = with_body(c, w);
                    Some(
                        if c1.in_status && c1.depth == c1.status_depth && name == "Status"@ {
                            CurrentView {
                                in_status: false,
                                status: Some(StatusView { code: c1.status_code, text: trim(c1.status_text) }),
                                status_code: None,
                                ..c1
                            }
                        } else {
                            c1
                        },
                    )
                },
                None => None,
            };
            if st.stack.len() == 0 || st.stack.last() != name {
                Err(ErrorView::ResponseParse("unexpected closing XML tag "@ + debug_quoted(name)))
            } else {
                match closed {
                    Some(c2) => if c2.depth == 1 && name == c2.name {
                        let r = finish(c2);
                        match status_error(r) {
                            Some(e) => Err(e),
                            None => Ok(
                                ParseView {
                                    stack: st.stack.drop_last(),
                                    resources: st.resources.push(r),
                                    current: None,
                                },
                            ),
                        }
                    } else {
                        Ok(
                            ParseView {
                                stack: st.stack.drop_last(),
                                resources: st.resources,
                                current: Some(
                                    CurrentView {
                                        depth: if c2.depth > 0 {
                                            (c2.depth - 1) as nat
                                        } else {
                                            0
                                        },
                                        ..c2
                                    },
                                ),
                            },
                        )
                    },
                    None => Ok(ParseView { stack: st.stack.drop_last(), ..st }),
                }
            }
        },
        EventClass::Decl => Ok(st),
        EventClass::Other => match st.current {
            Some(c) => Ok(ParseView { current: Some(with_body(c, w)), ..st }),
            None => Ok(st),
        },
    }
}

/// The state before the first event.
pub open spec fn initial_parse() -> ParseView {
    ParseView { stack: Seq::empty(), resources: Seq::empty(), current: None }
}

/// The state after the written events `ws`, or the first error.
pub open spec fn parse_events(ws: Seq<Seq<char>>) -> Result<ParseView, ErrorView>
    decreases ws.len(),
{
    if ws.len() == 0 {
        Ok(initial_parse())
    } else {
        match parse_events(ws.drop_last()) {
            Err(e) => Err(e),
            Ok(st) => parse_step(st, ws.last()),
        }
    }
}

/// Once the reading of a prefix of `ws` has failed, the reading of `ws` fails the same way.
proof fn lemma_parse_error_stays(ws: Seq<Seq<char>>, k: int)
    requires
        0 <= k <= ws.len(),
        parse_events(ws.take(k)) is Err,
    ensures
        parse_events(ws) == parse_events(ws.take(k)),
    decreases ws.len(),
{
    if k == ws.len() {
        assert(ws.take(k) =~= ws);
    } else {
        assert(ws.drop_last().take(k) =~= ws.take(k));
        lemma_parse_error_stays(ws.drop_last(), k);
    }
}

/// The resource replies read from the written events `ws` of a reply, whose reading
/// ended with the error `read_error` if one is given: the first error of the events
/// themselves (a status element with a malformed code attribute, a mismatched closing tag,
/// a zero-record or non-2xx status), else the read error, else a resource left open.
pub open spec fn response_of_events(ws: Seq<Seq<char>>, read_error: Option<Seq<char>>) -> Result<
    Seq<ResourceView>,
    ErrorView,
> {
    match parse_events(ws) {
        Err(e) => Err(e),
        Ok(st) => match read_error {
            Some(m) => Err(ErrorView::ResponseParse(m)),
            None => if st.current is Some {
                Err(ErrorView::ResponseParse("unexpected end of XML while parsing resource"@))
            } else {
                Ok(st.resources)
            },
        },
    }
}

/// The resource replies of the document `xml` in document order, or why it is rejected
/// (see [`response_of_events`]).
pub open spec fn parse_response_of(xml: Seq<char>) -> Result<Seq<ResourceView>, ErrorView> {
    response_of_events(written_events(xml).0, written_events(xml).1)
}

/// The resource being read.
struct Current {
    name: Vec<char>,
    status: Option<ResourceStatus>,
    body: Vec<char>,
    depth: usize,
    in_status: bool,
    status_depth: usize,
    status_code: Option<String>,
    status_text: Vec<char>,
}

impl View for Current {
    type V = CurrentView;

    closed spec fn view(&self) -> CurrentView {
        CurrentView {
            name: self.name@,
            status: match self.status {
                Some(s) => Some(s@),
                None => None,
            },
            body: self.body@,
            depth: self.depth as nat,
            in_status: self.in_status,
            status_depth: self.status_depth as nat,
            status_code: opt_view(self.status_code),
            status_text: self.status_text@,
        }
    }
}

/// The reader's state.
struct State {
    stack: Vec<Vec<char>>,
    resources: Vec<ResourceResponse>,
    current: Option<Current>,
}

/// The views of a list of names.
pub open spec fn name_views(v: Seq<Vec<char>>) -> Seq<Seq<char>> {
    v.map_values(|n: Vec<char>| n@)
}

impl View for State {
    type V = ParseView;

    closed spec fn view(&self) -> ParseView {
        ParseView {
            stack: name_views(self.stack@),
            resources: resource_views(self.resources@),
            current: match self.current {
                Some(c) => Some(c@),
                None => None,
            },
        }
    }
}

/// Whether the characters of `s` spell `lit`.
fn is_lit(s: &[char], lit: &str) -> (b: bool)
    ensures
        b == (s@ == lit@),
{
    let l = chars_of(lit);
    chars_eq(s, l.as_slice())
}

/// The `code` attribute among `items` (see [`code_of`]).
fn code_attribute(items: &Vec<AttrItem>) -> (r: Result<Option<String>, String>)
    ensures
        match code_of(items@.map_values(|a: AttrItem| a@)) {
            Ok(c) => r matches Ok(x) && opt_view(x) == c,
            Err(e) => r matches Err(x) && x@ == e,
        },
{
    let ghost vs = items@.map_values(|a: AttrItem| a@);
    let mut i: usize = 0;
    assert(vs.skip(0) =~= vs);
    while i < items.len()
        invariant
            i <= items@.len(),
            vs == items@.map_values(|a: AttrItem| a@),
            code_of(vs) == code_of(vs.skip(i as int)),
        decreases items@.len() - i,
    {
        assert(vs.skip(i as int).drop_first() =~= vs.skip(i + 1));
        assert(vs.skip(i as int)[0] == items@[i as int]@);
        match &items[i] {
            AttrItem::Malformed(e) => return Err(e.clone()),
            AttrItem::Attr(k, v) => {
                if str_eq(k.as_str(), "code") {
                    return match v {
                        Ok(x) => Ok(Some(x.clone())),
                        Err(e) => Err(e.clone()),
                    };
                }
            },
        }
        i = i + 1;
    }
    Ok(None)
}

/// The status code of the written element `w`.
fn status_code_of(w: &[char]) -> (r: Result<Option<String>, String>)
    ensures
        match code_of(attribute_items(w@)) {
            Ok(c) => r matches Ok(x) && opt_view(x) == c,
            Err(e) => r matches Err(x) && x@ == e,
        },
{
    let ws = string_of(w);
    let items = element_attributes(ws.as_str());
    code_attribute(&items)
}

/// The reply for a finished resource.
fn finish_current(c: Current) -> (r: ResourceResponse)
    ensures
        r@ == finish(c@),
{
    let status = match c.status {
        Some(s) => s,
        None => ResourceStatus { code: None, text: String::new() },
    };
    ResourceResponse { name: string_of(c.name.as_slice()), status, body_xml: string_of(c.body.as_slice()) }
}

/// The error a finished reply stands for (see [`status_error`]).
fn check_status(r: &ResourceResponse) -> (e: Option<Error>)
    ensures
        match status_error(r@) {
            Some(x) => e matches Some(y) && y@ == x,
            None => e is None,
        },
{
    if str_eq(r.status.text.as_str(), "Number of records Zero.") {
        return Some(Error::ZeroRecords { resource: r.name.clone() });
    }
    match &r.status.code {
        Some(c) => {
            let cs = chars_of(c.as_str());
            if cs.len() > 0 && cs[0] == '2' {
                None
            } else {
                Some(Error::ApiError { resource: r.name.clone(), code: Some(c.clone()), message: r.status.text.clone() })
            }
        },
        None => None,
    }
}

/// One reading step (see [`parse_step`]).
fn step(st: &mut State, w: &[char], bound: usize) -> (r: Result<(), Error>)
    requires
        bound < usize::MAX,
        old(st).current matches Some(c) ==> c.depth <= bound,
    ensures
        match parse_step(old(st)@, w@) {
            Ok(s) => r is Ok && final(st)@ == s,
            Err(e) => r matches Err(x) && x@ == e,
        },
        r is Ok ==> (final(st).current matches Some(c) ==> c.depth <= bound + 1),
{
    let ghost before = st@;
    let ev = classify_event(w);
    match ev {
        Event::Start(name) => {
            let is_status = is_lit(name.as_slice(), "Status");
            match &mut st.current {
                Some(c) => {
                    c.depth = c.depth + 1;
                    if is_status && c.depth == 2 {
                        c.in_status = true;
                        c.status_depth = c.depth;
                        match status_code_of(w) {
                            Ok(code) => c.status_code = code,
                            Err(e) => return Err(Error::ResponseParse(e)),
                        }
                        c.status_text = Vec::new();
                    }
                    push_chars(&mut c.body, w);
                },
                None => {
                    if st.stack.len() == 1 && is_lit(st.stack[0].as_slice(), "Response") && !is_status {
                        let mut body: Vec<char> = Vec::new();
                        push_chars(&mut body, w);
                        st.current = Some(Current {
                            name: slice_copy(name.as_slice()),
                            status: None,
                            body,
                            depth: 1,
                            in_status: false,
                            status_depth: 0,
                            status_code: None,
                            status_text: Vec::new(),
                        });
                    }
                },
            }
            st.stack.push(name);
            assert(st@.stack =~= before.stack.push(classify(w@)->Start_0));
            assert(st@.current == parse_step(before, w@)->Ok_0.current);
            Ok(())
        },
        Event::Empty(name) => {
            let is_status = is_lit(name.as_slice(), "Status");
            match &mut st.current {
                Some(c) => {
                    if is_status && c.depth == 1 {
                        match status_code_of(w) {
                            Ok(code) => c.status = Some(ResourceStatus { code, text: String::new() }),
                            Err(e) => return Err(Error::ResponseParse(e)),
                        }
                    }
                    push_chars(&mut c.body, w);
                },
                None => {
                    if st.stack.len() == 1 && is_lit(st.stack[0].as_slice(), "Response") && !is_status {
                        let r = ResourceResponse {
                            name: string_of(name.as_slice()),
                            status: ResourceStatus { code: None, text: String::new() },
                            body_xml: string_of(w),
                        };
                        st.resources.push(r);
                        assert(st@.resources =~= before.resources.push(r@));
                    }
                },
            }
            Ok(())
        },
        Event::Text(raw) => {
            match &mut st.current {
                Some(c) => {
                    if c.in_status {
                        let rs = string_of(raw.as_slice());
                        match text_event_content(rs.as_str()) {
                            Ok(t) => {
                                let tc = chars_of(t.as_str());
                                push_chars(&mut c.status_text, tc.as_slice());
                            },
                            Err(e) => return Err(Error::ResponseParse(e)),
                        }
                    }
                    push_chars(&mut c.body, w);
                },
                None => {},
            }
            Ok(())
        },
        Event::CData(raw) => {
            match &mut st.current {
                Some(c) => {
                    if c.in_status {
                        let rs = string_of(raw.as_slice());
                        match cdata_event_content(rs.as_str()) {
                            Ok(t) => {
                                let tc = chars_of(t.as_str());
                                push_chars(&mut c.status_text, tc.as_slice());
                            },
                            Err(e) => return Err(Error::ResponseParse(e)),
                        }
                    }
                    push_chars(&mut c.body, w);
                },
                None => {},
            }
            Ok(())
        },
        Event::End(name) => {
            let is_status = is_lit(name.as_slice(), "Status");
            let mut finished = false;
            match &mut st.current {
                Some(c) => {
                    push_chars(&mut c.body, w);
                    if c.in_status && c.depth == c.status_depth && is_status {
                        c.in_status = false;
                        let code = c.status_code.take();
                        let t = trim_chars(c.status_text.as_slice());
                        c.status = Some(ResourceStatus { code, text: string_of(t.as_slice()) });
                    }
                    if c.depth == 1 && chars_eq(name.as_slice(), c.name.as_slice()) {
                        finished = true;
                    } else if c.depth > 0 {
                        c.depth = c.depth - 1;
                    }
                },
                None => {},
            }
            let ghost mid = st@;
            let n = st.stack.len();
            if n == 0 || !chars_eq(st.stack[n - 1].as_slice(), name.as_slice()) {
                let mut m: Vec<char> = Vec::new();
                push_str(&mut m, "unexpected closing XML tag ");
                let ns = string_of(name.as_slice());
                let q = debug_str(ns.as_str());
                push_str(&mut m, q.as_str());
                return Err(Error::ResponseParse(string_of(m.as_slice())));
            }
            st.stack.pop();
            assert(st@.stack =~= before.stack.drop_last());
            if finished {
                let c = st.current.take();
                match c {
                    Some(c) => {
                        let r = finish_current(c);
                        match check_status(&r) {
                            Some(e) => return Err(e),
                            None => {},
                        }
                        st.resources.push(r);
                        assert(st@.resources =~= before.resources.push(r@));
                    },
                    None => {},
                }
            }
            Ok(())
        },
        Event::Decl => Ok(()),
        Event::Other => {
            match &mut st.current {
                Some(c) => push_chars(&mut c.body, w),
                None => {},
            }
            Ok(())
        },
    }
}

/// A copy of `s`.
fn slice_copy(s: &[char]) -> (r: Vec<char>)
    ensures
        r@ == s@,
{
    let mut r: Vec<char> = Vec::new();
    push_chars(&mut r, s);
    assert(r@ =~= s@);
    r
}

/// Reads the resource replies from the written events of a reply, in order, and then
/// takes the read error that ended the reading, if any (see [`response_of_events`]).
pub fn resources_from_events(events: &Vec<String>, read_error: Option<String>) -> (r: Result<Vec<ResourceResponse>, Error>)
    ensures
        match response_of_events(crate::text::views(events@), opt_view(read_error)) {
            Ok(rs) => r matches Ok(v) && resource_views(v@) == rs,
            Err(e) => r matches Err(x) && x@ == e,
        },
{
    let ghost ws = crate::text::views(events@);
    let mut st = State { stack: Vec::new(), resources: Vec::new(), current: None };
    assert(st@.stack =~= initial_parse().stack);
    assert(st@.resources =~= initial_parse().resources);
    assert(ws.take(0) =~= Seq::<Seq<char>>::empty());
    let mut i: usize = 0;
    while i < events.len()
        invariant
            i <= events@.len(),
            ws == crate::text::views(events@),
            parse_events(ws.take(i as int)) == Ok::<ParseView, ErrorView>(st@),
            st.current matches Some(c) ==> c.depth <= i,
        decreases events@.len() - i,
    {
        let w = chars_of(events[i].as_str());
        assert(ws.take(i + 1).drop_last() =~= ws.take(i as int));
        assert(ws.take(i + 1).last() == w@);
        let ghost before = st@;
        assert(parse_events(ws.take(i + 1)) == parse_step(before, w@));
        match step(&mut st, w.as_slice(), i) {
            Ok(()) => {},
            Err(e) => {
                proof { lemma_parse_error_stays(ws, i + 1); }
                return Err(e);
            },
        }
        i = i + 1;
    }
    assert(ws.take(i as int) =~= ws);
    match read_error {
        Some(m) => return Err(Error::ResponseParse(m)),
        None => {},
    }
    if st.current.is_some() {
        return Err(Error::ResponseParse(string_of(chars_of("unexpected end of XML while parsing resource").as_slice())));
    }
    Ok(st.resources)
}

/// Parses the firewall's reply `xml` into its resource replies: each element directly
/// under `<Response>` (other than `Status`) with its status element and its XML.
pub fn parse_response_xml(xml: &str) -> (r: Result<SophosResponse, Error>)
    ensures
        match parse_response_of(xml@) {
            Ok(rs) => r matches Ok(resp) && resource_views(resp.resources@) == rs && resp.raw_xml@ == xml@,
            Err(e) => r matches Err(x) && x@ == e,
        },
{
    let (events, read_error) = read_written_events(xml);
    match resources_from_events(&events, read_error) {
        Ok(resources) => Ok(SophosResponse { resources, raw_xml: string_of(chars_of(xml).as_slice()) }),
        Err(e) => Err(e),
    }
}

impl SophosResponse {
    /// The first resource reply named `name`.
    pub fn resource(&self, name: &str) -> (r: Option<&ResourceResponse>)
        ensures
            match r {
                Some(x) => exists|i: int|
                    0 <= i < self.resources@.len() && self.resources@[i] == *x && x.name@ == name@
                        && forall|j: int| 0 <= j < i ==> self.resources@[j].name@ != name@,
                None => forall|j: int| 0 <= j < self.resources@.len() ==> self.resources@[j].name@ != name@,
            },
    {
        let mut i: usize = 0;
        while i < self.resources.len()
            invariant
                i <= self.resources@.len(),
                forall|j: int| 0 <= j < i ==> self.resources@[j].name@ != name@,
            decreases self.resources@.len() - i,
        {
            if str_eq(self.resources[i].name.as_str(), name) {
                return Some(&self.resources[i]);
            }
            i = i + 1;
        }
        None
    }

    /// The first resource reply.
    pub fn first_resource(&self) -> (r: Option<&ResourceResponse>)
        ensures
            match r {
                Some(x) => self.resources@.len() > 0 && *x == self.resources@[0],
                None => self.resources@.len() == 0,
            },
    {
        if self.resources.len() == 0 {
            None
        } else {
            Some(&self.resources[0])
        }
    }
}

} // verus!
