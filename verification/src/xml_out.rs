//! XML output through `quick_xml`: the events a document is written as, and
//! a buffer that collects the text `quick_xml` writes for each of them.

use vstd::prelude::*;
use vstd::string::StringExecFns;
use quick_xml::events::{BytesDecl, BytesEnd, BytesStart, Event};
use quick_xml::Writer;

verus! {

/// One XML event: a declaration, a start tag, an empty-element tag (both
/// with attributes, values given unescaped) or an end tag.
pub enum XmlEvent {
    Decl { version: &'static str, encoding: &'static str },
    Start { name: String, attrs: Vec<(String, String)> },
    Empty { name: String, attrs: Vec<(String, String)> },
    End { name: String },
}

/// An event as text.
#[verifier::ext_equal]
pub enum XmlEventView {
    Decl(Seq<char>, Seq<char>),
    Start(Seq<char>, Seq<(Seq<char>, Seq<char>)>),
    Empty(Seq<char>, Seq<(Seq<char>, Seq<char>)>),
    End(Seq<char>),
}

/// Attribute pairs as text.
pub open spec fn attrs_view(attrs: Seq<(String, String)>) -> Seq<(Seq<char>, Seq<char>)> {
    attrs.map_values(|p: (String, String)| (p.0@, p.1@))
}

impl View for XmlEvent {
    type V = XmlEventView;

    open spec fn view(&self) -> XmlEventView {
        match self {
            XmlEvent::Decl { version, encoding } => XmlEventView::Decl(version@, encoding@),
            XmlEvent::Start { name, attrs } => XmlEventView::Start(name@, attrs_view(attrs@)),
            XmlEvent::Empty { name, attrs } => XmlEventView::Empty(name@, attrs_view(attrs@)),
            XmlEvent::End { name } => XmlEventView::End(name@),
        }
    }
}

/// An attribute value as `quick_xml` escapes it: `<`, `>`, `&`, `'` and
/// `"` become `&lt;`, `&gt;`, `&amp;`, `&apos;` and `&quot;`.
pub open spec fn escaped(s: Seq<char>) -> Seq<char>
    decreases s.len(),
{
    if s.len() == 0 {
        Seq::empty()
    } else {
        let c = s.last();
        let e = if c == '<' {
            "&lt;"@
        } else if c == '>' {
            "&gt;"@
        } else if c == '&' {
            "&amp;"@
        } else if c == '\'' {
            "&apos;"@
        } else if c == '"' {
            "&quot;"@
        } else {
            seq![c]
        };
        escaped(s.drop_last()) + e
    }
}

/// Attributes as written after a tag name: ` key="value"` each, the value
/// escaped.
pub open spec fn attrs_text(attrs: Seq<(Seq<char>, Seq<char>)>) -> Seq<char>
    decreases attrs.len(),
{
    if attrs.len() == 0 {
        Seq::empty()
    } else {
        attrs_text(attrs.drop_last()) + " "@ + attrs.last().0 + "=\""@ + escaped(attrs.last().1) + "\""@
    }
}

/// The text `quick_xml`'s writer produces for one event, without
/// indentation: `<?xml version="v" encoding="e"?>`, `<name attrs>`,
/// `<name attrs/>` or `</name>`.
pub open spec fn xml_event_text(e: XmlEventView) -> Seq<char> {
    match e {
        XmlEventView::Decl(v, enc) => "<?xml version=\""@ + v + "\" encoding=\""@ + enc + "\"?>"@,
        XmlEventView::Start(name, attrs) => "<"@ + name + attrs_text(attrs) + ">"@,
        XmlEventView::Empty(name, attrs) => "<"@ + name + attrs_text(attrs) + "/>"@,
        XmlEventView::End(name) => "</"@ + name + ">"@,
    }
}

/// `quick_xml::Writer::write_event` on a fresh writer without indentation
/// over an empty byte vector, the event built with `BytesDecl::new`,
/// `BytesStart::new(..).with_attributes(..)` or `BytesEnd::new`; the bytes
/// are read back with `String::from_utf8_lossy`.  The writer fails only
/// where writing to its sink fails, and writing to a `Vec<u8>` does not, so
/// the result is `Ok`.  `BytesDecl::new` writes the version and encoding
/// unescaped in double quotes, a `(&str, &str)` attribute is escaped by
/// `escape` and pushed as ` key="value"`, and the writer wraps each event
/// in its brackets: [`xml_event_text`].  Every piece comes from UTF-8 text
/// and escaping replaces only ASCII characters, so reading the bytes back
/// loses nothing.
#[verifier::external_body]
fn write_xml_event(e: &XmlEvent) -> (r: Result<String, quick_xml::Error>)
    ensures
        r is Ok,
        r matches Ok(t) ==> t@ == xml_event_text(e@),
{
    let mut buffer = Vec::new();
    Writer::new(&mut buffer).write_event(match e {
        XmlEvent::Decl { version, encoding } => Event::Decl(BytesDecl::new(version, Some(encoding), None)),
        XmlEvent::Start { name, attrs } => Event::Start(
            BytesStart::new(name).with_attributes(attrs.iter().map(|(k, v)| (k.as_str(), v.as_str()))),
        ),
        XmlEvent::Empty { name, attrs } => Event::Empty(
            BytesStart::new(name).with_attributes(attrs.iter().map(|(k, v)| (k.as_str(), v.as_str()))),
        ),
        XmlEvent::End { name } => Event::End(BytesEnd::new(name)),
    })?;
    Ok(String::from_utf8_lossy(&buffer).into_owned())
}

/// The text of a run of events, one after the other.
pub open spec fn events_text(evs: Seq<XmlEventView>) -> Seq<char>
    decreases evs.len(),
{
    if evs.len() == 0 {
        Seq::empty()
    } else {
        events_text(evs.drop_last()) + xml_event_text(evs.last())
    }
}

/// Text written so far, with the events it was written for.
pub struct XmlOut {
    pub text: String,
    pub written: Ghost<Seq<XmlEventView>>,
}

impl XmlOut {
    /// The text is exactly that of the events written.
    pub open spec fn wf(&self) -> bool {
        self.text@ == events_text(self.written@)
    }

    pub fn new() -> (o: Self)
        ensures
            o.wf(),
            o.written@ == Seq::<XmlEventView>::empty(),
    {
        XmlOut { text: String::new(), written: Ghost(Seq::empty()) }
    }

    /// Write one event after the others.
    pub fn put(&mut self, e: XmlEvent)
        requires
            old(self).wf(),
        ensures
            final(self).wf(),
            final(self).written@ == old(self).written@.push(e@),
    {
        let ghost ev = e@;
        match write_xml_event(&e) {
            Ok(t) => {
                self.text.append(t.as_str());
                proof {
                    let w = self.written@.push(ev);
                    assert(w.drop_last() =~= self.written@);
                    self.written = Ghost(w);
                }
            },
            Err(_) => {},
        }
    }
}

/// `(key, value)` as owned text.
pub(crate) fn attr(key: &str, value: &str) -> (r: (String, String))
    ensures
        r.0@ == key@,
        r.1@ == value@,
{
    (String::from_str(key), String::from_str(value))
}

} // verus!
