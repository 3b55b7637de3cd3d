//! XML documents as the event stream quick_xml reads from them.
//!
//! quick_xml reads a document (text trimmed) into events; each event is kept in the form
//! quick_xml's `Writer` writes it back, which tells the kind of event by its delimiters.

use vstd::prelude::*;
use crate::text::chars_of;

verus! {

/// The events quick_xml's `Reader` (with `trim_text(true)`) reads from `xml`, each as
/// quick_xml's `Writer` writes it, up to the end of input or the first error; with the
/// text of that error when one ended the reading.
pub uninterp spec fn written_events(xml: Seq<char>) -> (Seq<Seq<char>>, Option<Seq<char>>);

/// Reads `xml` with `quick_xml::Reader::from_str` (text trimmed) until `Eof`, writing each
/// event with `quick_xml::Writer::write_event` into its own buffer; a read or write error
/// ends the reading, and its text comes back with the events read before it.
#[verifier::external_body]
pub fn read_written_events(xml: &str) -> (r: (Vec<String>, Option<String>))
    ensures
        written_events(xml@) == (crate::text::views(r.0@), crate::text::opt_view(r.1)),
{
    let mut reader = quick_xml::Reader::from_str(xml);
    reader.config_mut().trim_text(true);
    let mut out = Vec::new();
    loop {
        match reader.read_event() {
            Ok(quick_xml::events::Event::Eof) => return (out, None),
            Ok(event) => {
                let mut writer = quick_xml::Writer::new(Vec::new());
                if let Err(e) = writer.write_event(event) { return (out, Some(e.to_string())); }
                out.push(String::from_utf8_lossy(&writer.into_inner()).into_owned());
            },
            Err(error) => return (out, Some(error.to_string())),
        }
    }
}

/// What `BytesText::xml_content` gives for the escaped text `raw`: the text decoded, line
/// ends normalized, entities left as they are; or the decoding error's text.
pub uninterp spec fn text_content(raw: Seq<char>) -> Result<Seq<char>, Seq<char>>;

/// Calls `quick_xml::events::BytesText::from_escaped(raw).xml_content()`.
#[verifier::external_body]
pub fn text_event_content(raw: &str) -> (r: Result<String, String>)
    ensures
        text_content(raw@) == match r {
            Ok(v) => Ok::<Seq<char>, Seq<char>>(v@),
            Err(e) => Err::<Seq<char>, Seq<char>>(e@),
        },
{
    quick_xml::events::BytesText::from_escaped(raw).xml_content().map(|c| c.into_owned()).map_err(|e| e.to_string())
}

/// What `BytesCData::xml_content` gives for the CDATA content `raw`.
pub uninterp spec fn cdata_content(raw: Seq<char>) -> Result<Seq<char>, Seq<char>>;

/// Calls `quick_xml::events::BytesCData::new(raw).xml_content()`.
#[verifier::external_body]
pub fn cdata_event_content(raw: &str) -> (r: Result<String, String>)
    ensures
        cdata_content(raw@) == match r {
            Ok(v) => Ok::<Seq<char>, Seq<char>>(v@),
            Err(e) => Err::<Seq<char>, Seq<char>>(e@),
        },
{
    quick_xml::events::BytesCData::new(raw).xml_content().map(|c| c.into_owned()).map_err(|e| e.to_string())
}

/// One item of an element's attribute iterator.
#[derive(Debug)]
pub enum AttrItem {
    /// An attribute: its key, and its unescaped value or the unescaping error's text.
    Attr(String, Result<String, String>),
    /// The text of a malformed-attribute error.
    Malformed(String),
}

/// An [`AttrItem`] with its texts as character sequences.
pub enum AttrView {
    Attr(Seq<char>, Result<Seq<char>, Seq<char>>),
    Malformed(Seq<char>),
}

impl View for AttrItem {
    type V = AttrView;

    open spec fn view(&self) -> AttrView {
        match self {
            AttrItem::Attr(k, v) => AttrView::Attr(
                k@,
                match v {
                    Ok(x) => Ok(x@),
                    Err(e) => Err(e@),
                },
            ),
            AttrItem::Malformed(e) => AttrView::Malformed(e@),
        }
    }
}

/// The items that quick_xml's attribute iterator yields for the written start or empty
/// element `element`.
pub uninterp spec fn attribute_items(element: Seq<char>) -> Seq<AttrView>;

/// Reads the first event of `element` with `quick_xml::Reader::from_str` and, when it is a
/// start or empty element, collects its `attributes()`: each key with its
/// `unescape_value()`, or the error's text.
#[verifier::external_body]
pub fn element_attributes(element: &str) -> (r: Vec<AttrItem>)
    ensures
        attribute_items(element@) == r@.map_values(|a: AttrItem| a@),
{
    match quick_xml::Reader::from_str(element).read_event() {
        Ok(quick_xml::events::Event::Start(e)) | Ok(quick_xml::events::Event::Empty(e)) => e.attributes().map(|a| match a {
            Ok(a) => AttrItem::Attr(String::from_utf8_lossy(a.key.as_ref()).into_owned(), a.unescape_value().map(|v| v.into_owned()).map_err(|e| e.to_string())),
            Err(e) => AttrItem::Malformed(e.to_string()),
        }).collect(),
        _ => Vec::new(),
    }
}

/// The kind of a written event and what the parsers need of it.
pub enum EventClass {
    /// `<name ...>`: the element name.
    Start(Seq<char>),
    /// `<name .../>`: the element name.
    Empty(Seq<char>),
    /// `</name>`: the element name.
    End(Seq<char>),
    /// Escaped text.
    Text(Seq<char>),
    /// `<![CDATA[raw]]>`: the raw content.
    CData(Seq<char>),
    /// `<?xml ...?>`.
    Decl,
    /// A comment, processing instruction, doctype or entity reference.
    Other,
}

/// XML white space as quick_xml counts it.
pub open spec fn is_xml_ws(c: char) -> bool {
    c == ' ' || c == '\r' || c == '\n' || c == '\t'
}

/// The length of the first word of `s`, up to XML white space.
pub open spec fn word_len(s: Seq<char>) -> nat
    decreases s.len(),
{
    if s.len() == 0 || is_xml_ws(s[0]) {
        0
    } else {
        1 + word_len(s.drop_first())
    }
}

/// Whether `s` starts with `p`.
pub open spec fn starts(s: Seq<char>, p: Seq<char>) -> bool {
    p.len() <= s.len() && s.take(p.len() as int) == p
}

/// Whether `s` ends with `p`.
pub open spec fn ends(s: Seq<char>, p: Seq<char>) -> bool {
    p.len() <= s.len() && s.skip(s.len() - p.len()) == p
}

/// The kind of the written event `w`, told by the delimiters the writer puts around it.
pub open spec fn classify(w: Seq<char>) -> EventClass {
    if starts(w, "</"@) && ends(w, ">"@) && w.len() >= 3 {
        EventClass::End(w.subrange(2, w.len() - 1))
    } else if starts(w, "<![CDATA["@) && ends(w, "]]>"@) && w.len() >= 12 {
        EventClass::CData(w.subrange(9, w.len() - 3))
    } else if starts(w, "<?"@) && ends(w, "?>"@) && w.len() >= 4 && is_decl(w.subrange(2, w.len() - 2)) {
        EventClass::Decl
    } else if starts(w, "<!"@) || starts(w, "<?"@) || starts(w, "&"@) {
        EventClass::Other
    } else if starts(w, "<"@) && ends(w, "/>"@) && w.len() >= 3 {
        let content = w.subrange(1, w.len() - 2);
        EventClass::Empty(content.take(word_len(content) as int))
    } else if starts(w, "<"@) && ends(w, ">"@) && w.len() >= 2 {
        let content = w.subrange(1, w.len() - 1);
        EventClass::Start(content.take(word_len(content) as int))
    } else {
        EventClass::Text(w)
    }
}

/// Whether the content of `<?...?>` is the XML declaration: `xml` then white space or end.
pub open spec fn is_decl(content: Seq<char>) -> bool {
    starts(content, "xml"@) && (content.len() == 3 || is_xml_ws(content[3]))
}

/// Whether `s` starts with `p`.
pub fn starts_with(s: &[char], p: &str) -> (b: bool)
    ensures
        b == starts(s@, p@),
{
    let pc = chars_of(p);
    if pc.len() > s.len() {
        return false;
    }
    let mut i: usize = 0;
    while i < pc.len()
        invariant
            pc@ == p@,
            pc@.len() <= s@.len(),
            i <= pc@.len(),
            forall|j: int| 0 <= j < i ==> s@[j] == pc@[j],
        decreases pc@.len() - i,
    {
        if s[i] != pc[i] {
            return false;
        }
        i = i + 1;
    }
    assert(s@.take(p@.len() as int) =~= p@);
    true
}

/// Whether `s` ends with `p`.
pub fn ends_with(s: &[char], p: &str) -> (b: bool)
    ensures
        b == ends(s@, p@),
{
    let pc = chars_of(p);
    if pc.len() > s.len() {
        return false;
    }
    let off = s.len() - pc.len();
    let mut i: usize = 0;
    while i < pc.len()
        invariant
            pc@ == p@,
            off + pc@.len() == s@.len(),
            s@.len() == s.len(),
            i <= pc@.len(),
            forall|j: int| 0 <= j < i ==> s@[off + j] == pc@[j],
        decreases pc@.len() - i,
    {
        assert(off + i < s@.len());
        if s[off + i] != pc[i] {
            assert(s@.skip(off as int)[i as int] != p@[i as int]);
            return false;
        }
        i = i + 1;
    }
    assert(s@.skip(off as int) =~= p@);
    true
}

/// The characters `s[lo..hi]`.
pub fn slice_of(s: &[char], lo: usize, hi: usize) -> (r: Vec<char>)
    requires
        lo <= hi <= s@.len(),
    ensures
        r@ == s@.subrange(lo as int, hi as int),
{
    let mut r: Vec<char> = Vec::new();
    let mut i: usize = lo;
    while i < hi
        invariant
            lo <= i <= hi,
            hi <= s@.len(),
            r@ == s@.subrange(lo as int, i as int),
        decreases hi - i,
    {
        r.push(s[i]);
        assert(s@.subrange(lo as int, i + 1) =~= s@.subrange(lo as int, i as int).push(s@[i as int]));
        i = i + 1;
    }
    r
}

/// The first word of `s`.
pub fn first_word(s: &[char]) -> (r: Vec<char>)
    ensures
        r@ == s@.take(word_len(s@) as int),
{
    let mut i: usize = 0;
    assert(s@.skip(0) =~= s@);
    while i < s.len() && !(s[i] == ' ' || s[i] == '\r' || s[i] == '\n' || s[i] == '\t')
        invariant
            i <= s@.len(),
            word_len(s@) == i + word_len(s@.skip(i as int)),
        decreases s@.len() - i,
    {
        assert(s@.skip(i as int).drop_first() =~= s@.skip(i + 1));
        i = i + 1;
    }
    slice_of(s, 0, i)
}

/// A written event, classified (see [`classify`]).
pub enum Event {
    Start(Vec<char>),
    Empty(Vec<char>),
    End(Vec<char>),
    Text(Vec<char>),
    CData(Vec<char>),
    Decl,
    Other,
}

impl View for Event {
    type V = EventClass;

    open spec fn view(&self) -> EventClass {
        match self {
            Event::Start(n) => EventClass::Start(n@),
            Event::Empty(n) => EventClass::Empty(n@),
            Event::End(n) => EventClass::End(n@),
            Event::Text(n) => EventClass::Text(n@),
            Event::CData(n) => EventClass::CData(n@),
            Event::Decl => EventClass::Decl,
            Event::Other => EventClass::Other,
        }
    }
}

/// Classifies the written event `w`.
pub fn classify_event(w: &[char]) -> (e: Event)
    ensures
        e@ == classify(w@),
{
    let n = w.len();
    if starts_with(w, "</") && ends_with(w, ">") && n >= 3 {
        proof { reveal_strlit("</"); reveal_strlit(">"); }
        return Event::End(slice_of(w, 2, n - 1));
    }
    if starts_with(w, "<![CDATA[") && ends_with(w, "]]>") && n >= 12 {
        return Event::CData(slice_of(w, 9, n - 3));
    }
    if starts_with(w, "<?") && ends_with(w, "?>") && n >= 4 {
        let content = slice_of(w, 2, n - 2);
        if starts_with(content.as_slice(), "xml") && (content.len() == 3 || (content.len() > 3 && (content[3] == ' ' || content[3] == '\r' || content[3] == '\n' || content[3] == '\t'))) {
            proof { reveal_strlit("xml"); }
            return Event::Decl;
        }
        proof { reveal_strlit("xml"); }
    }
    if starts_with(w, "<!") || starts_with(w, "<?") || starts_with(w, "&") {
        return Event::Other;
    }
    if starts_with(w, "<") && ends_with(w, "/>") && n >= 3 {
        let content = slice_of(w, 1, n - 2);
        return Event::Empty(first_word(content.as_slice()));
    }
    if starts_with(w, "<") && ends_with(w, ">") && n >= 2 {
        let content = slice_of(w, 1, n - 1);
        return Event::Start(first_word(content.as_slice()));
    }
    let t = slice_of(w, 0, n);
    assert(t@ =~= w@);
    Event::Text(t)
}

} // verus!
