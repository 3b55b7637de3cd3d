//! Resource bodies read as element trees, and the field maps built from them.

use vstd::prelude::*;
use crate::error::{Error, ErrorView};
use crate::events::{
    cdata_content, cdata_event_content, classify, classify_event, read_written_events,
    text_content, text_event_content, written_events, Event, EventClass,
};
use crate::json::{jget, jinsert, jremove, FieldMap, Json, Value};
use crate::text::{
    chars_eq, chars_of, debug_quoted, debug_str, opt_view, push_chars, push_str, string_of, trim,
    trim_chars,
};

verus! {

/// An element: its name, its text (all text and CDATA directly inside it, joined) and its
/// child elements in document order.
#[derive(Debug)]
pub struct XmlNode {
    pub name: Vec<char>,
    pub text: Vec<char>,
    pub children: Vec<XmlNode>,
}

/// The mathematical form of an [`XmlNode`].
pub struct NodeView {
    pub name: Seq<char>,
    pub text: Seq<char>,
    pub children: Seq<NodeView>,
}

/// An element named `name` with no text and no children.
pub open spec fn leaf(name: Seq<char>) -> NodeView {
    NodeView { name, text: Seq::empty(), children: Seq::empty() }
}

impl View for XmlNode {
    type V = NodeView;

    open spec fn view(&self) -> NodeView
        decreases self,
    {
        NodeView {
            name: self.name@,
            text: self.text@,
            children: Seq::new(
                self.children@.len(),
                |i: int|
                    if 0 <= i < self.children@.len() {
                        self.children@[i]@
                    } else {
                        leaf(Seq::empty())
                    },
            ),
        }
    }
}

/// The views of a list of elements.
pub open spec fn node_views(v: Seq<XmlNode>) -> Seq<NodeView> {
    Seq::new(v.len(), |i: int| v[i]@)
}

/// The open elements (innermost last) and the finished top-level elements.
pub struct TreeView {
    pub stack: Seq<NodeView>,
    pub roots: Seq<NodeView>,
}

/// `st` with the finished element `n` added to the innermost open element, or to the
/// top-level elements when none is open.
pub open spec fn attach(st: TreeView, n: NodeView) -> TreeView {
    if st.stack.len() == 0 {
        TreeView { stack: st.stack, roots: st.roots.push(n) }
    } else {
        let p = st.stack.last();
        TreeView {
            stack: st.stack.drop_last().push(NodeView { children: p.children.push(n), ..p }),
            roots: st.roots,
        }
    }
}

/// `st` with `t` added to the text of the innermost open element.
pub open spec fn add_text(st: TreeView, t: Seq<char>) -> TreeView {
    let p = st.stack.last();
    TreeView { stack: st.stack.drop_last().push(NodeView { text: p.text + t, ..p }), roots: st.roots }
}

/// The error for a closing tag that closes no open element.
pub open spec fn closing_error(name: Seq<char>) -> ErrorView {
    ErrorView::ResponseParse("unexpected closing XML tag "@ + debug_quoted(name))
}

/// One tree-building step on the written event `w`.
pub open spec fn tree_step(st: TreeView, w: Seq<char>) -> Result<TreeView, ErrorView> {
    match classify(w) {
        EventClass::Start(name) => Ok(TreeView { stack: st.stack.push(leaf(name)), roots: st.roots }),
        EventClass::Empty(name) => Ok(attach(st, leaf(name))),
        EventClass::Text(raw) => if st.stack.len() == 0 {
            Ok(st)
        } else {
            match text_content(raw) {
                Err(e) => Err(ErrorView::ResponseParse(e)),
                Ok(t) => Ok(add_text(st, t)),
            }
        },
        EventClass::CData(raw) => if st.stack.len() == 0 {
            Ok(st)
        } else {
            match cdata_content(raw) {
                Err(e) => Err(ErrorView::ResponseParse(e)),
                Ok(t) => Ok(add_text(st, t)),
            }
        },
        EventClass::End(name) => if st.stack.len() == 0 || st.stack.last().name != name {
            Err(closing_error(name))
        } else {
            Ok(attach(TreeView { stack: st.stack.drop_last(), roots: st.roots }, st.stack.last()))
        },
        EventClass::Decl => Ok(st),
        EventClass::Other => Ok(st),
    }
}

/// The tree state after the written events `ws`, or the first error.
pub open spec fn tree_events(ws: Seq<Seq<char>>) -> Result<TreeView, ErrorView>
    decreases ws.len(),
{
    if ws.len() == 0 {
        Ok(TreeView { stack: Seq::empty(), roots: Seq::empty() })
    } else {
        match tree_events(ws.drop_last()) {
            Err(e) => Err(e),
            Ok(st) => tree_step(st, ws.last()),
        }
    }
}

/// The top-level elements built from the written events `ws` of a document, whose
/// reading ended with the error `read_error` if one is given: the first error of the
/// events themselves (a text that does not decode, a closing tag that closes nothing
/// open), else the read error, else an element left open.
pub open spec fn nodes_of_events(ws: Seq<Seq<char>>, read_error: Option<Seq<char>>) -> Result<
    Seq<NodeView>,
    ErrorView,
> {
    match tree_events(ws) {
        Err(e) => Err(e),
        Ok(st) => match read_error {
            Some(m) => Err(ErrorView::ResponseParse(m)),
            None => if st.stack.len() > 0 {
                Err(
                    ErrorView::ResponseParse(
                        "unexpected end of XML inside "@ + debug_quoted(st.stack.last().name),
                    ),
                )
            } else {
                Ok(st.roots)
            },
        },
    }
}

/// The top-level elements of `xml`, or why it is rejected (see [`nodes_of_events`]).
pub open spec fn nodes_of(xml: Seq<char>) -> Result<Seq<NodeView>, ErrorView> {
    nodes_of_events(written_events(xml).0, written_events(xml).1)
}

/// Once building from a prefix of `ws` has failed, building from `ws` fails the same way.
proof fn lemma_tree_error_stays(ws: Seq<Seq<char>>, k: int)
    requires
        0 <= k <= ws.len(),
        tree_events(ws.take(k)) is Err,
    ensures
        tree_events(ws) == tree_events(ws.take(k)),
    decreases ws.len(),
{
    if k == ws.len() {
        assert(ws.take(k) =~= ws);
    } else {
        assert(ws.drop_last().take(k) =~= ws.take(k));
        lemma_tree_error_stays(ws.drop_last(), k);
    }
}

/// The tree builder's state.
struct TreeState {
    stack: Vec<XmlNode>,
    roots: Vec<XmlNode>,
}

impl View for TreeState {
    type V = TreeView;

    closed spec fn view(&self) -> TreeView {
        TreeView { stack: node_views(self.stack@), roots: node_views(self.roots@) }
    }
}

impl XmlNode {
    /// An element named `name` with no text and no children.
    pub fn new(name: Vec<char>) -> (n: XmlNode)
        ensures
            n@ == leaf(name@),
    {
        let n = XmlNode { name, text: Vec::new(), children: Vec::new() };
        assert(n@.children =~= Seq::<NodeView>::empty());
        n
    }
}

/// Adds the finished element `n` to the innermost open element, or to the roots.
fn attach_node(st: &mut TreeState, n: XmlNode)
    ensures
        final(st)@ == attach(old(st)@, n@),
{
    let ghost before = st@;
    let ghost nv = n@;
    match st.stack.pop() {
        Some(mut p) => {
            let ghost pv = p@;
            p.children.push(n);
            assert(p@.children =~= pv.children.push(nv));
            st.stack.push(p);
            assert(st@.stack =~= before.stack.drop_last().push(NodeView { children: pv.children.push(nv), ..pv }));
        },
        None => {
            st.roots.push(n);
            assert(st@.roots =~= before.roots.push(nv));
            assert(st@.stack =~= before.stack);
        },
    }
}

/// Adds `t` to the text of the innermost open element.
fn add_node_text(st: &mut TreeState, t: &[char])
    requires
        old(st)@.stack.len() > 0,
    ensures
        final(st)@ == add_text(old(st)@, t@),
{
    let ghost before = st@;
    match st.stack.pop() {
        Some(mut p) => {
            let ghost pv = p@;
            push_chars(&mut p.text, t);
            assert(p@.children =~= pv.children);
            st.stack.push(p);
            assert(st@.stack =~= before.stack.drop_last().push(NodeView { text: pv.text + t@, ..pv }));
            assert(st@.roots =~= before.roots);
        },
        None => {},
    }
}

/// One tree-building step (see [`tree_step`]).
fn tree_step_exec(st: &mut TreeState, w: &[char]) -> (r: Result<(), Error>)
    ensures
        match tree_step(old(st)@, w@) {
            Ok(s) => r is Ok && final(st)@ == s,
            Err(e) => r matches Err(x) && x@ == e,
        },
{
    let ghost before = st@;
    let ev = classify_event(w);
    match ev {
        Event::Start(name) => {
            let n = XmlNode::new(name);
            let ghost nv = n@;
            st.stack.push(n);
            assert(st@.stack =~= before.stack.push(nv));
            assert(st@.roots =~= before.roots);
            Ok(())
        },
        Event::Empty(name) => {
            attach_node(st, XmlNode::new(name));
            Ok(())
        },
        Event::Text(raw) => {
            if st.stack.len() == 0 {
                return Ok(());
            }
            let rs = string_of(raw.as_slice());
            match text_event_content(rs.as_str()) {
                Ok(t) => {
                    let tc = chars_of(t.as_str());
                    add_node_text(st, tc.as_slice());
                    Ok(())
                },
                Err(e) => Err(Error::ResponseParse(e)),
            }
        },
        Event::CData(raw) => {
            if st.stack.len() == 0 {
                return Ok(());
            }
            let rs = string_of(raw.as_slice());
            match cdata_event_content(rs.as_str()) {
                Ok(t) => {
                    let tc = chars_of(t.as_str());
                    add_node_text(st, tc.as_slice());
                    Ok(())
                },
                Err(e) => Err(Error::ResponseParse(e)),
            }
        },
        Event::End(name) => {
            let n = st.stack.len();
            if n == 0 || !chars_eq(st.stack[n - 1].name.as_slice(), name.as_slice()) {
                let mut m: Vec<char> = Vec::new();
                push_str(&mut m, "unexpected closing XML tag ");
                let ns = string_of(name.as_slice());
                let q = debug_str(ns.as_str());
                push_str(&mut m, q.as_str());
                return Err(Error::ResponseParse(string_of(m.as_slice())));
            }
            match st.stack.pop() {
                Some(node) => {
                    assert(st@.stack =~= before.stack.drop_last());
                    attach_node(st, node);
                },
                None => {},
            }
            Ok(())
        },
        Event::Decl => Ok(()),
        Event::Other => Ok(()),
    }
}

/// Builds the top-level elements from the written events of a document, in order, and
/// then takes the read error that ended the reading, if any (see [`nodes_of_events`]).
pub fn nodes_from_events(events: &Vec<String>, read_error: Option<String>) -> (r: Result<Vec<XmlNode>, Error>)
    ensures
        match nodes_of_events(crate::text::views(events@), crate::text::opt_view(read_error)) {
            Ok(ns) => r matches Ok(v) && node_views(v@) == ns,
            Err(e) => r matches Err(x) && x@ == e,
        },
{
    let ghost ws = crate::text::views(events@);
    let mut st = TreeState { stack: Vec::new(), roots: Vec::new() };
    assert(st@.stack =~= Seq::<NodeView>::empty());
    assert(st@.roots =~= Seq::<NodeView>::empty());
    assert(ws.take(0) =~= Seq::<Seq<char>>::empty());
    let mut i: usize = 0;
    while i < events.len()
        invariant
            i <= events@.len(),
            ws == crate::text::views(events@),
            tree_events(ws.take(i as int)) == Ok::<TreeView, ErrorView>(st@),
        decreases events@.len() - i,
    {
        let w = chars_of(events[i].as_str());
        assert(ws.take(i + 1).drop_last() =~= ws.take(i as int));
        assert(ws.take(i + 1).last() == w@);
        match tree_step_exec(&mut st, w.as_slice()) {
            Ok(()) => {},
            Err(e) => {
                proof { lemma_tree_error_stays(ws, i + 1); }
                return Err(e);
            },
        }
        i = i + 1;
    }
    assert(ws.take(i as int) =~= ws);
    match read_error {
        Some(m) => return Err(Error::ResponseParse(m)),
        None => {},
    }
    let n = st.stack.len();
    if n > 0 {
        let mut m: Vec<char> = Vec::new();
        push_str(&mut m, "unexpected end of XML inside ");
        let ns = string_of(st.stack[n - 1].name.as_slice());
        let q = debug_str(ns.as_str());
        push_str(&mut m, q.as_str());
        return Err(Error::ResponseParse(string_of(m.as_slice())));
    }
    Ok(st.roots)
}

/// Reads `xml` into its top-level elements (see [`nodes_of`]).
pub fn parse_xml_nodes(xml: &str) -> (r: Result<Vec<XmlNode>, Error>)
    ensures
        match nodes_of(xml@) {
            Ok(ns) => r matches Ok(v) && node_views(v@) == ns,
            Err(e) => r matches Err(x) && x@ == e,
        },
{
    let (events, read_error) = read_written_events(xml);
    nodes_from_events(&events, read_error)
}

/// `es` with `v` added under `k`: a first value is stored as it is, a second turns the
/// entry into an array of both, later ones are appended to that array.
pub open spec fn grouped(es: Seq<(Seq<char>, Json)>, k: Seq<char>, v: Json) -> Seq<(Seq<char>, Json)> {
    match jget(es, k) {
        None => jinsert(es, k, v),
        Some(Json::Array(vs)) => jinsert(jremove(es, k), k, Json::Array(vs.push(v))),
        Some(x) => jinsert(jremove(es, k), k, Json::Array(seq![x, v])),
    }
}

/// The value an element stands for: its trimmed text when it has no children, else the
/// map of its children.
pub open spec fn node_value(n: NodeView) -> Json
    decreases n, n.children.len() + 1,
{
    if n.children.len() == 0 {
        Json::Str(trim(n.text))
    } else {
        Json::Object(node_fields(n, n.children.len()))
    }
}

/// The map of the first `k` children of `n`: each child's value under its name, repeated
/// names grouped into arrays in document order.
pub open spec fn node_fields(n: NodeView, k: nat) -> Seq<(Seq<char>, Json)>
    decreases n, k,
{
    if k == 0 || k > n.children.len() {
        Seq::empty()
    } else {
        proof {
            assert(decreases_to!(n => n.children));
            assert(decreases_to!(n.children => n.children[k - 1]));
        }
        let c = n.children[k - 1];
        grouped(node_fields(n, (k - 1) as nat), c.name, node_value(c))
    }
}

/// Without a member under `k`, removing `k` changes nothing.
proof fn lemma_jremove_absent(es: Seq<(Seq<char>, Json)>, k: Seq<char>)
    requires
        jget(es, k) is None,
    ensures
        jremove(es, k) == es,
    decreases es.len(),
{
    if es.len() > 0 {
        lemma_jremove_absent(es.drop_first(), k);
        assert(seq![es[0]] + es.drop_first() =~= es);
    }
}

/// Adds `value` under `key`, grouping repeated keys (see [`grouped`]).
pub fn insert_grouped_value(fields: &mut FieldMap, key: String, value: Value)
    ensures
        final(fields)@ == grouped(old(fields)@, key@, value@),
{
    let ghost es = fields@;
    let ghost v = value@;
    match fields.remove(key.as_str()) {
        None => {
            proof { lemma_jremove_absent(es, key@); }
            fields.insert(key, value);
        },
        Some(Value::Array(mut values)) => {
            let ghost before = Value::Array(values)@;
            values.push(value);
            let a = Value::Array(values);
            assert(a@ == Json::Array(before->Array_0.push(v))) by {
                assert(a@->Array_0 =~= before->Array_0.push(v));
            }
            fields.insert(key, a);
        },
        Some(existing) => {
            let ghost x = existing@;
            let mut values: Vec<Value> = Vec::new();
            values.push(existing);
            values.push(value);
            let a = Value::Array(values);
            assert(a@ == Json::Array(seq![x, v])) by {
                assert(a@->Array_0 =~= seq![x, v]);
            }
            fields.insert(key, a);
        },
    }
}

/// The value `node` stands for (see [`node_value`]).
pub fn value_from_node(node: &XmlNode) -> (v: Value)
    ensures
        v@ == node_value(node@),
    decreases node, 1nat,
{
    if node.children.len() == 0 {
        let t = trim_chars(node.text.as_slice());
        Value::String(string_of(t.as_slice()))
    } else {
        Value::Object(fields_from_node(node))
    }
}

/// The map of the children of `node` (see [`node_fields`]).
pub fn fields_from_node(node: &XmlNode) -> (m: FieldMap)
    ensures
        m@ == node_fields(node@, node@.children.len()),
    decreases node, 0nat,
{
    let mut fields = FieldMap::new();
    let mut i: usize = 0;
    while i < node.children.len()
        invariant
            i <= node.children@.len(),
            fields@ == node_fields(node@, i as nat),
        decreases node.children@.len() - i,
    {
        proof {
            vstd::std_specs::vec::axiom_vec_index_decreases(node.children, i as int);
        }
        let child = &node.children[i];
        let v = value_from_node(child);
        let k = string_of(child.name.as_slice());
        insert_grouped_value(&mut fields, k, v);
        i = i + 1;
    }
    fields
}

/// The first of `cs` named `name`.
pub open spec fn find_child(cs: Seq<NodeView>, name: Seq<char>) -> Option<NodeView>
    decreases cs.len(),
{
    if cs.len() == 0 {
        None
    } else if cs[0].name == name {
        Some(cs[0])
    } else {
        find_child(cs.drop_first(), name)
    }
}

/// The trimmed text of the first child of `n` named `name`, when that text is not empty.
pub open spec fn child_text_of(n: NodeView, name: Seq<char>) -> Option<Seq<char>> {
    match find_child(n.children, name) {
        Some(c) => if trim(c.text).len() == 0 {
            None
        } else {
            Some(trim(c.text))
        },
        None => None,
    }
}

impl XmlNode {
    /// The first child named `name`.
    pub fn child(&self, name: &str) -> (r: Option<&XmlNode>)
        ensures
            match find_child(self@.children, name@) {
                Some(c) => r matches Some(x) && x@ == c,
                None => r is None,
            },
    {
        let ghost cs = self@.children;
        let nc = chars_of(name);
        let mut i: usize = 0;
        assert(cs.skip(0) =~= cs);
        while i < self.children.len()
            invariant
                i <= self.children@.len(),
                cs == self@.children,
                nc@ == name@,
                find_child(cs, name@) == find_child(cs.skip(i as int), name@),
            decreases self.children@.len() - i,
        {
            assert(cs.skip(i as int).drop_first() =~= cs.skip(i + 1));
            assert(cs.skip(i as int)[0] == self.children@[i as int]@);
            if chars_eq(self.children[i].name.as_slice(), nc.as_slice()) {
                return Some(&self.children[i]);
            }
            i = i + 1;
        }
        None
    }

    /// The trimmed text of the first child named `name`, when not empty.
    pub fn child_text(&self, name: &str) -> (r: Option<String>)
        ensures
            opt_view(r) == child_text_of(self@, name@),
    {
        match self.child(name) {
            Some(c) => {
                let t = trim_chars(c.text.as_slice());
                if t.len() == 0 {
                    None
                } else {
                    Some(string_of(t.as_slice()))
                }
            },
            None => None,
        }
    }
}

} // verus!
