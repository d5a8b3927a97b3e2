//! A cursor over the events of an XML document, read by quick-xml, and the
//! writers for the elements the library emits.
//!
//! The events a document yields are named per position: `xml_event_kind`,
//! `xml_event_qname`, `xml_event_local_name`, `xml_event_attributes`,
//! `xml_event_written` and `xml_error_text` stand for what quick-xml reports
//! of the event at a given index when it reads the given bytes with the given
//! text-trimming setting. Verified code reads the events into plain
//! [`XmlEventData`] values and works on those.
use quick_xml::events::{BytesEnd, BytesStart, BytesText, Event};
use quick_xml::{Reader, Writer};
use vstd::prelude::*;
use vstd::utf8::*;
use vstd::string::*;

verus! {

#[verifier::external_type_specification]
#[verifier::external_body]
#[verifier::reject_recursive_types(R)]
pub struct ExXmlReader<R>(Reader<R>);

#[verifier::external_type_specification]
#[verifier::external_body]
pub struct ExXmlEvent<'a>(Event<'a>);

/// The kind of an event read from an XML document.
#[derive(Clone, Copy, PartialEq, Eq, Debug, Structural)]
pub enum XmlKind {
    /// A start tag `<name ...>`.
    Start,
    /// A self-closing tag `<name .../>`.
    Empty,
    /// An end tag `</name>`.
    End,
    /// Character data between tags.
    Text,
    /// A comment, CDATA section, declaration, processing instruction or doctype.
    Other,
    /// The end of the document.
    Eof,
    /// The document is not well-formed at this point.
    Error,
}

impl XmlKind {
    /// Whether reading stops at this event.
    pub open spec fn is_terminal(self) -> bool {
        self is Eof || self is Error
    }

    /// Whether the event is a tag carrying a name.
    pub open spec fn is_tag(self) -> bool {
        self is Start || self is Empty || self is End
    }
}

/// The kind of the event at `index` (0-based) when quick-xml reads `input`,
/// trimming whitespace around text when `trim` is set.
pub uninterp spec fn xml_event_kind(input: Seq<u8>, trim: bool, index: nat) -> XmlKind;

/// The qualified name (prefix included) of the tag event at `index`.
pub uninterp spec fn xml_event_qname(input: Seq<u8>, trim: bool, index: nat) -> Seq<u8>;

/// The local name (prefix removed) of the tag event at `index`.
pub uninterp spec fn xml_event_local_name(input: Seq<u8>, trim: bool, index: nat) -> Seq<u8>;

/// The well-formed attributes of the start or empty tag at `index`, in document
/// order, each as (local name of the key, raw value).
pub uninterp spec fn xml_event_attributes(input: Seq<u8>, trim: bool, index: nat) -> Seq<(Seq<u8>, Seq<u8>)>;

/// The bytes quick-xml's `Writer` emits for the event at `index`.
pub uninterp spec fn xml_event_written(input: Seq<u8>, trim: bool, index: nat) -> Seq<u8>;

/// The message of the error reported at `index`.
pub uninterp spec fn xml_error_text(input: Seq<u8>, trim: bool, index: nat) -> Seq<char>;

/// An attribute of a tag: the local name of its key and its raw value.
pub struct XmlAttribute {
    pub key: Vec<u8>,
    pub value: Vec<u8>,
}

/// A cursor reading the events of one document, one at a time.
pub struct XmlCursor<'a> {
    reader: Reader<&'a [u8]>,
    current: Option<Event<'a>>,
    error: Option<String>,
    input: Ghost<Seq<u8>>,
    trim: Ghost<bool>,
    read: Ghost<nat>,
}

impl<'a> XmlCursor<'a> {
    /// The bytes of the document.
    pub closed spec fn input(&self) -> Seq<u8> {
        self.input@
    }

    /// Whether text is trimmed of surrounding whitespace.
    pub closed spec fn trim(&self) -> bool {
        self.trim@
    }

    /// How many events have been read so far.
    pub closed spec fn read(&self) -> nat {
        self.read@
    }

    /// The kind of the most recently read event.
    pub open spec fn last_kind(&self) -> XmlKind {
        xml_event_kind(self.input(), self.trim(), (self.read() - 1) as nat)
    }

    /// Whether another event may be read: nothing was read yet, or the last
    /// event read did not end the document.
    pub open spec fn can_advance(&self) -> bool {
        self.read() == 0 || !self.last_kind().is_terminal()
    }
}

/// Start reading `input` with quick-xml (`Reader::from_str`), trimming text
/// when `trim` is set; no event has been read yet.
#[verifier::external_body]
pub(crate) fn xml_cursor<'a>(input: &'a str, trim: bool) -> (c: XmlCursor<'a>)
    ensures
        c.input() == encode_utf8(input@),
        c.trim() == trim,
        c.read() == 0,
{
    let mut reader = Reader::from_str(input);
    reader.config_mut().trim_text(trim);
    XmlCursor {
        reader,
        current: None,
        error: None,
        input: Ghost(encode_utf8(input@)),
        trim: Ghost(trim),
        read: Ghost(0),
    }
}

/// Read the next event (quick-xml's `Reader::read_event`) and report its kind.
#[verifier::external_body]
pub(crate) fn xml_advance(cursor: &mut XmlCursor) -> (k: XmlKind)
    requires
        old(cursor).can_advance(),
    ensures
        final(cursor).input() == old(cursor).input(),
        final(cursor).trim() == old(cursor).trim(),
        final(cursor).read() == old(cursor).read() + 1,
        k == xml_event_kind(old(cursor).input(), old(cursor).trim(), old(cursor).read()),
{
    let event = cursor.reader.read_event();
    let kind = match &event {
        Ok(Event::Start(_)) => XmlKind::Start,
        Ok(Event::Empty(_)) => XmlKind::Empty,
        Ok(Event::End(_)) => XmlKind::End,
        Ok(Event::Text(_)) => XmlKind::Text,
        Ok(Event::Eof) => XmlKind::Eof,
        Ok(_) => XmlKind::Other,
        Err(_) => XmlKind::Error,
    };
    cursor.error = event.as_ref().err().map(|e| e.to_string());
    cursor.current = event.ok();
    cursor.read = Ghost(cursor.read@ + 1);
    kind
}

/// The qualified name of the tag just read (quick-xml's `name`).
#[verifier::external_body]
pub(crate) fn xml_current_qname(cursor: &XmlCursor) -> (r: Vec<u8>)
    requires
        cursor.read() > 0,
        cursor.last_kind().is_tag(),
    ensures
        r@ == xml_event_qname(cursor.input(), cursor.trim(), (cursor.read() - 1) as nat),
{
    match &cursor.current {
        Some(Event::Start(tag)) | Some(Event::Empty(tag)) => tag.name().as_ref().to_vec(),
        Some(Event::End(tag)) => tag.name().as_ref().to_vec(),
        _ => Vec::new(),
    }
}

/// The local name of the tag just read (quick-xml's `local_name`).
#[verifier::external_body]
pub(crate) fn xml_current_local_name(cursor: &XmlCursor) -> (r: Vec<u8>)
    requires
        cursor.read() > 0,
        cursor.last_kind().is_tag(),
    ensures
        r@ == xml_event_local_name(cursor.input(), cursor.trim(), (cursor.read() - 1) as nat),
{
    match &cursor.current {
        Some(Event::Start(tag)) | Some(Event::Empty(tag)) => tag.local_name().as_ref().to_vec(),
        Some(Event::End(tag)) => tag.local_name().as_ref().to_vec(),
        _ => Vec::new(),
    }
}

/// The well-formed attributes of the start or empty tag just read (quick-xml's
/// `attributes`, malformed ones skipped), keys by local name.
#[verifier::external_body]
pub(crate) fn xml_current_attributes(cursor: &XmlCursor) -> (r: Vec<XmlAttribute>)
    requires
        cursor.read() > 0,
        cursor.last_kind() is Start || cursor.last_kind() is Empty,
    ensures
        r@.len() == xml_event_attributes(cursor.input(), cursor.trim(), (cursor.read() - 1) as nat).len(),
        forall|i: int|
            0 <= i < r@.len() ==> (#[trigger] r@[i]).key@ == xml_event_attributes(
                cursor.input(),
                cursor.trim(),
                (cursor.read() - 1) as nat,
            )[i].0 && r@[i].value@ == xml_event_attributes(
                cursor.input(),
                cursor.trim(),
                (cursor.read() - 1) as nat,
            )[i].1,
{
    match &cursor.current {
        Some(Event::Start(tag)) | Some(Event::Empty(tag)) => tag.attributes().flatten().map(
            |a| XmlAttribute { key: a.key.local_name().as_ref().to_vec(), value: a.value.to_vec() },
        ).collect(),
        _ => Vec::new(),
    }
}

/// Write the event just read, as quick-xml's `Writer::write_event` does,
/// at the end of `out`.
#[verifier::external_body]
pub(crate) fn xml_write_current(cursor: &XmlCursor, out: &mut Vec<u8>)
    requires
        cursor.read() > 0,
        !cursor.last_kind().is_terminal(),
    ensures
        final(out)@ == old(out)@ + xml_event_written(
            cursor.input(),
            cursor.trim(),
            (cursor.read() - 1) as nat,
        ),
{
    if let Some(event) = &cursor.current {
        let _ = Writer::new(out).write_event(event.clone());
    }
}

/// The message of the error just reported (the `Display` of quick-xml's error).
#[verifier::external_body]
pub(crate) fn xml_current_error(cursor: &XmlCursor) -> (r: String)
    requires
        cursor.read() > 0,
        cursor.last_kind() is Error,
    ensures
        r@ == xml_error_text(cursor.input(), cursor.trim(), (cursor.read() - 1) as nat),
{
    cursor.error.clone().unwrap_or_default()
}

/// The replacement of one character by quick-xml's `escape`.
pub open spec fn xml_escape_char(c: char) -> Seq<char> {
    if c == '<' {
        seq!['&', 'l', 't', ';']
    } else if c == '>' {
        seq!['&', 'g', 't', ';']
    } else if c == '&' {
        seq!['&', 'a', 'm', 'p', ';']
    } else if c == '\'' {
        seq!['&', 'a', 'p', 'o', 's', ';']
    } else if c == '"' {
        seq!['&', 'q', 'u', 'o', 't', ';']
    } else {
        seq![c]
    }
}

/// quick-xml's `escape`: `<`, `>`, `&`, `'` and `"` become entity references.
pub open spec fn xml_escape(s: Seq<char>) -> Seq<char>
    decreases s.len(),
{
    if s.len() == 0 {
        seq![]
    } else {
        xml_escape_char(s[0]) + xml_escape(s.drop_first())
    }
}

/// `c` followed by the rest, when the rest reads.
pub open spec fn prepend_char(c: char, rest: Option<Seq<char>>) -> Option<Seq<char>> {
    match rest {
        Some(r) => Some(seq![c] + r),
        None => None,
    }
}

/// What an XML reader makes of character data: the five predefined entity
/// references stand for their characters, other characters for themselves;
/// a `<` or an `&` that starts no such reference makes it unreadable.
pub open spec fn xml_unescape(t: Seq<char>) -> Option<Seq<char>>
    decreases t.len(),
{
    if t.len() == 0 {
        Some(Seq::<char>::empty())
    } else if t[0] == '<' {
        None
    } else if t[0] == '&' {
        if t.len() >= 4 && t.subrange(0, 4) == seq!['&', 'l', 't', ';'] {
            prepend_char('<', xml_unescape(t.skip(4)))
        } else if t.len() >= 4 && t.subrange(0, 4) == seq!['&', 'g', 't', ';'] {
            prepend_char('>', xml_unescape(t.skip(4)))
        } else if t.len() >= 5 && t.subrange(0, 5) == seq!['&', 'a', 'm', 'p', ';'] {
            prepend_char('&', xml_unescape(t.skip(5)))
        } else if t.len() >= 6 && t.subrange(0, 6) == seq!['&', 'a', 'p', 'o', 's', ';'] {
            prepend_char('\'', xml_unescape(t.skip(6)))
        } else if t.len() >= 6 && t.subrange(0, 6) == seq!['&', 'q', 'u', 'o', 't', ';'] {
            prepend_char('"', xml_unescape(t.skip(6)))
        } else {
            None
        }
    } else {
        prepend_char(t[0], xml_unescape(t.skip(1)))
    }
}

/// Escaped text reads back as the text itself, whatever `<`, `&` or quotes
/// it holds: what is written with quick-xml's escaping is what a reader gets.
pub proof fn law_escaped_text_reads_back(s: Seq<char>)
    ensures
        xml_unescape(xml_escape(s)) == Some(s),
    decreases s.len(),
{
    if s.len() > 0 {
        let c = s[0];
        let rest = s.drop_first();
        law_escaped_text_reads_back(rest);
        let e = xml_escape(rest);
        let t = xml_escape(s);
        assert(t == xml_escape_char(c) + e);
        let k = xml_escape_char(c).len() as int;
        assert(t.skip(k) =~= e);
        assert(t.subrange(0, k) =~= xml_escape_char(c));
        if c == '<' || c == '>' || c == '&' || c == '\'' || c == '"' {
            assert(t[0] == '&');
            assert(t.subrange(0, 4) =~= xml_escape_char(c).subrange(0, 4));
            if k >= 5 {
                assert(t.subrange(0, 5) =~= xml_escape_char(c).subrange(0, 5));
            }
        } else {
            assert(t[0] == c);
        }
        assert(seq![c] + rest =~= s);
    }
}

/// The bytes of a start tag `<name>`.
pub open spec fn start_tag_bytes(name: Seq<char>) -> Seq<u8> {
    encode_utf8(seq!['<'] + name + seq!['>'])
}

/// The bytes of an end tag `</name>`.
pub open spec fn end_tag_bytes(name: Seq<char>) -> Seq<u8> {
    encode_utf8(seq!['<', '/'] + name + seq!['>'])
}

/// The bytes of text content, escaped.
pub open spec fn text_bytes(text: Seq<char>) -> Seq<u8> {
    encode_utf8(xml_escape(text))
}

/// The bytes of a self-closing tag with two attributes,
/// `<tag k1="v1" k2="v2"/>`, both values escaped.
pub open spec fn empty_tag_bytes(tag: Seq<char>, k1: Seq<char>, v1: Seq<char>, k2: Seq<char>, v2: Seq<char>) -> Seq<u8> {
    encode_utf8(
        seq!['<'] + tag + seq![' '] + k1 + seq!['=', '"'] + xml_escape(v1) + seq!['"', ' '] + k2 + seq!['=', '"']
            + xml_escape(v2) + seq!['"', '/', '>'],
    )
}

/// The bytes of `<meta name="..." content="..."/>`, both values escaped.
pub open spec fn meta_tag_bytes(name: Seq<char>, content: Seq<char>) -> Seq<u8> {
    empty_tag_bytes("meta"@, "name"@, name, "content"@, content)
}

/// Write a start tag `<name>` with quick-xml's `Writer`.
#[verifier::external_body]
pub(crate) fn xml_write_start(out: &mut Vec<u8>, name: &str)
    ensures
        final(out)@ == old(out)@ + start_tag_bytes(name@),
{
    let _ = Writer::new(out).write_event(Event::Start(BytesStart::new(name)));
}

/// Write an end tag `</name>` with quick-xml's `Writer`.
#[verifier::external_body]
pub(crate) fn xml_write_end(out: &mut Vec<u8>, name: &str)
    ensures
        final(out)@ == old(out)@ + end_tag_bytes(name@),
{
    let _ = Writer::new(out).write_event(Event::End(BytesEnd::new(name)));
}

/// Write text content with quick-xml's `Writer`, escaped by `BytesText::new`.
#[verifier::external_body]
pub(crate) fn xml_write_text(out: &mut Vec<u8>, text: &str)
    ensures
        final(out)@ == old(out)@ + text_bytes(text@),
{
    let _ = Writer::new(out).write_event(Event::Text(BytesText::new(text)));
}

/// Write a self-closing tag with two attributes, `<tag k1="v1" k2="v2"/>`,
/// with quick-xml's `Writer`; `BytesStart::push_attribute` escapes the
/// attribute values.
#[verifier::external_body]
pub(crate) fn xml_write_empty_tag(out: &mut Vec<u8>, tag: &str, first: (&str, &str), second: (&str, &str))
    ensures
        final(out)@ == old(out)@ + empty_tag_bytes(tag@, first.0@, first.1@, second.0@, second.1@),
{
    let mut start = BytesStart::new(tag);
    start.push_attribute(first);
    start.push_attribute(second);
    let _ = Writer::new(out).write_event(Event::Empty(start));
}


/// One event of a document, as plain values. Names are empty for events that
/// are not tags; attributes are empty for events that are not start or empty
/// tags.
pub struct XmlEventData {
    pub kind: XmlKind,
    pub qname: Vec<u8>,
    pub local_name: Vec<u8>,
    pub attributes: Vec<XmlAttribute>,
    pub written: Vec<u8>,
}

/// The attributes of an event as (key, value) pairs of byte sequences.
pub open spec fn attributes_view(attributes: Seq<XmlAttribute>) -> Seq<(Seq<u8>, Seq<u8>)> {
    attributes.map_values(|a: XmlAttribute| (a.key@, a.value@))
}

/// What the library reads of one event.
pub ghost struct XmlEventView {
    pub kind: XmlKind,
    pub qname: Seq<u8>,
    pub local_name: Seq<u8>,
    pub attributes: Seq<(Seq<u8>, Seq<u8>)>,
    pub written: Seq<u8>,
}

/// The view of an event read into plain values.
pub open spec fn event_view(ev: XmlEventData) -> XmlEventView {
    XmlEventView {
        kind: ev.kind,
        qname: ev.qname@,
        local_name: ev.local_name@,
        attributes: attributes_view(ev.attributes@),
        written: ev.written@,
    }
}

/// What quick-xml reports of the event at `index` of `input`: names only for
/// tags, attributes only for start and empty tags.
pub open spec fn event_view_at(input: Seq<u8>, trim: bool, index: nat) -> XmlEventView {
    let kind = xml_event_kind(input, trim, index);
    XmlEventView {
        kind,
        qname: if kind.is_tag() {
            xml_event_qname(input, trim, index)
        } else {
            seq![]
        },
        local_name: if kind.is_tag() {
            xml_event_local_name(input, trim, index)
        } else {
            seq![]
        },
        attributes: if kind is Start || kind is Empty {
            xml_event_attributes(input, trim, index)
        } else {
            seq![]
        },
        written: xml_event_written(input, trim, index),
    }
}

/// `ev` holds what quick-xml reports of the event at `index` of `input`.
pub open spec fn is_event_at(ev: XmlEventData, input: Seq<u8>, trim: bool, index: nat) -> bool {
    event_view(ev) == event_view_at(input, trim, index)
}

/// The index of the first event at or after `from` (and before `limit`) that
/// ends the document, if any.
pub open spec fn xml_first_terminal(input: Seq<u8>, trim: bool, from: nat, limit: nat) -> Option<
    nat,
>
    decreases limit - from,
{
    if from >= limit {
        None
    } else if xml_event_kind(input, trim, from).is_terminal() {
        Some(from)
    } else {
        xml_first_terminal(input, trim, from + 1, limit)
    }
}

/// How many events are read before giving up: every event quick-xml reports
/// before the end of the document consumes at least one byte, so a document
/// of `n` bytes ends within `n + 1` events.
pub open spec fn xml_event_limit(input: Seq<u8>) -> nat {
    input.len() + 1
}

/// The message returned when a document yields more events than it has bytes.
pub open spec fn too_many_events_message() -> Seq<char> {
    "XML document yielded more events than it has bytes"@
}

/// What reading all events of `input` gives: the views of the events before
/// the end of the document, or the message of the first error.
pub open spec fn xml_read_outcome(input: Seq<u8>, trim: bool) -> Result<Seq<XmlEventView>, Seq<char>> {
    match xml_first_terminal(input, trim, 0, xml_event_limit(input)) {
        Some(n) => if xml_event_kind(input, trim, n) is Eof {
            Ok(Seq::new(n, |k: int| event_view_at(input, trim, k as nat)))
        } else {
            Err(xml_error_text(input, trim, n))
        },
        None => Err(too_many_events_message()),
    }
}

/// The views of events read into plain values.
pub open spec fn events_view(events: Seq<XmlEventData>) -> Seq<XmlEventView> {
    events.map_values(|ev: XmlEventData| event_view(ev))
}

/// `r` is what reading all events of `input` gives.
pub open spec fn spec_read_xml_events(
    input: Seq<u8>,
    trim: bool,
    r: Result<Vec<XmlEventData>, String>,
) -> bool {
    match xml_read_outcome(input, trim) {
        Ok(views) => r matches Ok(events) && events_view(events@) == views,
        Err(m) => r matches Err(e) && e@ == m,
    }
}

proof fn lemma_first_terminal_skip(input: Seq<u8>, trim: bool, from: nat, to: nat, limit: nat)
    requires
        from <= to <= limit,
        forall|k: nat| from <= k < to ==> !(#[trigger] xml_event_kind(input, trim, k)).is_terminal(),
    ensures
        xml_first_terminal(input, trim, from, limit) == xml_first_terminal(input, trim, to, limit),
    decreases to - from,
{
    if from < to {
        lemma_first_terminal_skip(input, trim, from + 1, to, limit);
    }
}

/// Read every event of `input` into plain values, stopping at the end of the
/// document or at the first error.
pub fn read_xml_events(input: &str, trim: bool) -> (r: Result<Vec<XmlEventData>, String>)
    ensures
        spec_read_xml_events(encode_utf8(input@), trim, r),
{
    let ghost bytes = encode_utf8(input@);
    let n = input.as_bytes().len();
    let mut cursor = xml_cursor(input, trim);
    let mut events: Vec<XmlEventData> = Vec::new();
    let mut remaining: usize = n;
    loop
        invariant
            bytes == encode_utf8(input@),
            n == bytes.len(),
            cursor.input() == bytes,
            cursor.trim() == trim,
            cursor.read() == events@.len(),
            remaining + events@.len() == n,
            forall|k: nat| k < cursor.read() ==> !(#[trigger] xml_event_kind(bytes, trim, k)).is_terminal(),
            forall|k: int|
                0 <= k < events@.len() ==> is_event_at(#[trigger] events@[k], bytes, trim, k as nat),
        decreases remaining,
    {
        let ghost index = cursor.read();
        proof {
            lemma_first_terminal_skip(bytes, trim, 0, index, xml_event_limit(bytes));
        }
        let kind = xml_advance(&mut cursor);
        match kind {
            XmlKind::Eof => {
                assert(events_view(events@) =~= Seq::new(
                    index,
                    |k: int| event_view_at(bytes, trim, k as nat),
                ));
                return Ok(events);
            },
            XmlKind::Error => {
                return Err(xml_current_error(&cursor));
            },
            _ => {},
        }
        let is_tag = match kind {
            XmlKind::Start | XmlKind::Empty | XmlKind::End => true,
            _ => false,
        };
        let qname = if is_tag { xml_current_qname(&cursor) } else { Vec::new() };
        let local_name = if is_tag { xml_current_local_name(&cursor) } else { Vec::new() };
        let attributes = match kind {
            XmlKind::Start | XmlKind::Empty => xml_current_attributes(&cursor),
            _ => Vec::new(),
        };
        proof {
            if kind is Start || kind is Empty {
                assert(attributes_view(attributes@) =~= xml_event_attributes(bytes, trim, index));
            } else {
                assert(attributes_view(attributes@) =~= seq![]);
            }
        }
        let mut written: Vec<u8> = Vec::new();
        xml_write_current(&cursor, &mut written);
        assert(written@ =~= xml_event_written(bytes, trim, index));
        events.push(XmlEventData { kind, qname, local_name, attributes, written });
        if remaining == 0 {
            proof {
                lemma_first_terminal_skip(bytes, trim, 0, index + 1, xml_event_limit(bytes));
            }
            return Err(String::from_str("XML document yielded more events than it has bytes"));
        }
        remaining = remaining - 1;
    }
}

} // verus!
