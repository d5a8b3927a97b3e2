//! Writing book metadata back into the OPF package document of an epub: the
//! values Stump owns, how they are derived from stored metadata, and the
//! surgical rewrite of the `<metadata>` block.
use crate::text::{
    bytes_equal, chars_of, from_utf8_lossy, string_from_chars, trim_chars, trim_spec, split_from,
    split_spec, utf8_lossy_decode, append_bytes, to_lowercase, unicode_lowercase, ascii_lowercase, is_ascii_text, format_zero_padded, zero_padded,
};
use crate::xml::{
    attributes_view, end_tag_bytes, meta_tag_bytes, read_xml_events, spec_read_xml_events,
    start_tag_bytes, text_bytes, xml_write_empty_tag, xml_write_end, xml_write_start, xml_write_text,
    XmlAttribute, XmlEventData, XmlKind, XmlEventView, xml_cursor, xml_advance,
    xml_current_local_name, xml_current_attributes, xml_current_error, xml_event_kind,
    xml_event_local_name, xml_event_attributes, xml_error_text, too_many_events_message,
    xml_event_limit, event_view, events_view, xml_read_outcome, xml_escape, xml_unescape,
    law_escaped_text_reads_back,
};
use vstd::prelude::*;
use vstd::string::*;
use vstd::utf8::*;

verus! {

/// Errors of the epub metadata writeback.
#[derive(Debug)]
pub enum FileError {
    /// The epub (its container or package document) could not be read.
    EpubReadError(String),
    /// The file is not of a type this operation supports.
    UnsupportedFileType(String),
}

/// The set of values Stump writes into an OPF. Built from the book's stored
/// metadata; `None` fields leave whatever the file already has untouched
#[derive(Debug, Clone)]
pub struct OpfWriteback {
    pub title: Option<String>,
    /// dc:creator, one element per writer
    pub creators: Vec<String>,
    pub publisher: Option<String>,
    pub language: Option<String>,
    /// dc:description
    pub summary: Option<String>,
    /// dc:subject, one element per genre
    pub subjects: Vec<String>,
    /// dc:date (YYYY or YYYY-MM-DD when month/day are known)
    pub date: Option<String>,
    /// calibre-style series name + index meta tags
    pub series: Option<String>,
    pub series_index: Option<String>,
}

impl Default for OpfWriteback {
    fn default() -> (r: Self)
        ensures
            r.is_empty_spec(),
    {
        OpfWriteback {
            title: None,
            creators: Vec::new(),
            publisher: None,
            language: None,
            summary: None,
            subjects: Vec::new(),
            date: None,
            series: None,
            series_index: None,
        }
    }
}

impl OpfWriteback {
    /// No value at all is to be written.
    pub open spec fn is_empty_spec(&self) -> bool {
        &&& self.title is None
        &&& self.creators@.len() == 0
        &&& self.publisher is None
        &&& self.language is None
        &&& self.summary is None
        &&& self.subjects@.len() == 0
        &&& self.date is None
        &&& self.series is None
        &&& self.series_index is None
    }

    pub fn is_empty(&self) -> (r: bool)
        ensures
            r == self.is_empty_spec(),
    {
        self.title.is_none() && self.creators.len() == 0 && self.publisher.is_none()
            && self.language.is_none() && self.summary.is_none() && self.subjects.len() == 0
            && self.date.is_none() && self.series.is_none() && self.series_index.is_none()
    }
}


/// The trimmed, non-empty entries among comma-separated pieces.
pub open spec fn list_entries(pieces: Seq<Seq<char>>) -> Seq<Seq<char>>
    decreases pieces.len(),
{
    if pieces.len() == 0 {
        seq![]
    } else {
        let t = trim_spec(pieces[0]);
        (if t.len() > 0 {
            seq![t]
        } else {
            seq![]
        }) + list_entries(pieces.drop_first())
    }
}

/// The entries of an optional comma-separated list: split on `,`, trimmed,
/// empty entries dropped.
pub open spec fn split_list_spec(value: Option<String>) -> Seq<Seq<char>> {
    let text = match value {
        Some(v) => v@,
        None => seq![],
    };
    list_entries(split_spec(text, ','))
}

/// Every entry of a list is trimmed and non-empty.
pub proof fn law_list_entries_are_trimmed(pieces: Seq<Seq<char>>)
    ensures
        forall|i: int| 0 <= i < list_entries(pieces).len() ==> {
            &&& (#[trigger] list_entries(pieces)[i]).len() > 0
            &&& exists|j: int| 0 <= j < pieces.len() && list_entries(pieces)[i] == trim_spec(#[trigger] pieces[j])
        },
    decreases pieces.len(),
{
    if pieces.len() > 0 {
        let rest = pieces.drop_first();
        law_list_entries_are_trimmed(rest);
        let t = trim_spec(pieces[0]);
        let head: Seq<Seq<char>> = if t.len() > 0 { seq![t] } else { seq![] };
        assert(list_entries(pieces) == head + list_entries(rest));
        assert forall|i: int| 0 <= i < list_entries(pieces).len() implies {
            &&& (#[trigger] list_entries(pieces)[i]).len() > 0
            &&& exists|j: int| 0 <= j < pieces.len() && list_entries(pieces)[i] == trim_spec(#[trigger] pieces[j])
        } by {
            if i < head.len() {
                assert(list_entries(pieces)[i] == t);
                assert(pieces[0] == pieces[0]);
            } else {
                let k = i - head.len();
                assert(list_entries(pieces)[i] == list_entries(rest)[k]);
                let j = choose|j: int| 0 <= j < rest.len() && list_entries(rest)[k] == trim_spec(#[trigger] rest[j]);
                assert(rest[j] == pieces[j + 1]);
            }
        }
    }
}

/// The views of a sequence of strings.
pub open spec fn strings_view(v: Seq<String>) -> Seq<Seq<char>> {
    v.map_values(|s: String| s@)
}

proof fn lemma_list_entries_cons(c: Seq<char>, rest: Seq<Seq<char>>)
    ensures
        list_entries(seq![c] + rest) == (if trim_spec(c).len() > 0 {
            seq![trim_spec(c)]
        } else {
            seq![]
        }) + list_entries(rest),
{
    assert((seq![c] + rest).drop_first() =~= rest);
    assert((seq![c] + rest)[0] == c);
}

/// Split an optional comma-separated list into its trimmed, non-empty entries.
pub fn split_list(value: &Option<String>) -> (r: Vec<String>)
    ensures
        strings_view(r@) == split_list_spec(*value),
{
    let chars: Vec<char> = match value {
        Some(v) => chars_of(v.as_str()),
        None => Vec::new(),
    };
    let ghost text = chars@;
    let n = chars.len();
    let mut r: Vec<String> = Vec::new();
    let mut start: usize = 0;
    let mut i: usize = 0;
    assert(text.subrange(0, n as int) =~= text);
    assert(text.subrange(0, 0) =~= seq![]);
    while i < n
        invariant
            text == chars@,
            n == text.len(),
            start <= i <= n,
            list_entries(split_spec(text, ',')) == strings_view(r@) + list_entries(
                split_from(text.subrange(i as int, n as int), ',', text.subrange(start as int, i as int)),
            ),
        decreases n - i,
    {
        let ghost rest = text.subrange(i as int, n as int);
        assert(rest.drop_first() =~= text.subrange(i + 1, n as int));
        if chars[i] == ',' {
            let piece = trim_chars(&chars, start, i);
            let ghost cur = text.subrange(start as int, i as int);
            proof {
                lemma_list_entries_cons(cur, split_from(text.subrange(i + 1, n as int), ',', seq![]));
                assert(text.subrange(i + 1, i + 1) =~= seq![]);
            }
            if piece.len() > 0 {
                let entry = string_from_chars(&piece);
                let ghost before = r@;
                r.push(entry);
                assert(strings_view(r@) =~= strings_view(before) + seq![piece@]);
            }
            i = i + 1;
            start = i;
        } else {
            assert(text.subrange(start as int, i + 1) =~= text.subrange(start as int, i as int).push(
                text[i as int],
            ));
            i = i + 1;
        }
    }
    let piece = trim_chars(&chars, start, n);
    proof {
        let cur = text.subrange(start as int, n as int);
        assert(text.subrange(n as int, n as int) =~= seq![]);
        assert(split_from(seq![], ',', cur) == seq![cur]);
        assert(seq![cur] =~= seq![cur] + Seq::<Seq<char>>::empty());
        lemma_list_entries_cons(cur, seq![]);
    }
    if piece.len() > 0 {
        let entry = string_from_chars(&piece);
        let ghost before = r@;
        r.push(entry);
        assert(strings_view(r@) =~= strings_view(before) + seq![piece@]);
    } else {
        assert(strings_view(r@) + seq![] =~= strings_view(r@));
    }
    r
}


/// The stored metadata of a book that the writeback reads.
pub struct BookMetadata {
    pub title: Option<String>,
    /// Comma-separated writers
    pub writers: Option<String>,
    pub publisher: Option<String>,
    pub language: Option<String>,
    pub summary: Option<String>,
    /// Comma-separated genres
    pub genres: Option<String>,
    pub year: Option<i32>,
    pub month: Option<i32>,
    pub day: Option<i32>,
    pub series: Option<String>,
    /// The number of the book within its series, as text
    pub number: Option<String>,
}

/// The `dc:date` value for a year and optional month and day:
/// `YYYY`, `YYYY-MM` or `YYYY-MM-DD`.
pub open spec fn date_spec(year: i32, month: Option<i32>, day: Option<i32>) -> Seq<char> {
    match (month, day) {
        (Some(m), Some(d)) => zero_padded(year as int, 4) + seq!['-'] + zero_padded(m as int, 2)
            + seq!['-'] + zero_padded(d as int, 2),
        (Some(m), None) => zero_padded(year as int, 4) + seq!['-'] + zero_padded(m as int, 2),
        _ => zero_padded(year as int, 4),
    }
}

/// The view of an optional string.
pub open spec fn opt_view(v: Option<String>) -> Option<Seq<char>> {
    match v {
        Some(s) => Some(s@),
        None => None,
    }
}

fn clone_opt(v: &Option<String>) -> (r: Option<String>)
    ensures
        r == *v,
{
    match v {
        Some(s) => Some(s.clone()),
        None => None,
    }
}

fn append_str(out: &mut Vec<char>, s: &String)
    ensures
        final(out)@ == old(out)@ + s@,
{
    let chars = chars_of(s.as_str());
    let mut i: usize = 0;
    while i < chars.len()
        invariant
            i <= chars@.len(),
            out@ == old(out)@ + chars@.subrange(0, i as int),
        decreases chars@.len() - i,
    {
        out.push(chars[i]);
        assert(chars@.subrange(0, i + 1) =~= chars@.subrange(0, i as int).push(chars@[i as int]));
        i = i + 1;
    }
    assert(chars@.subrange(0, chars@.len() as int) =~= chars@);
}

/// Format the `dc:date` value of a year and optional month and day.
pub fn format_date(year: i32, month: Option<i32>, day: Option<i32>) -> (r: String)
    ensures
        r@ == date_spec(year, month, day),
{
    let mut chars: Vec<char> = Vec::new();
    append_str(&mut chars, &format_zero_padded(year, 4));
    match month {
        Some(m) => {
            chars.push('-');
            append_str(&mut chars, &format_zero_padded(m, 2));
            match day {
                Some(d) => {
                    chars.push('-');
                    append_str(&mut chars, &format_zero_padded(d, 2));
                },
                None => {},
            }
        },
        None => {},
    }
    assert(chars@ =~= date_spec(year, month, day));
    string_from_chars(&chars)
}

impl OpfWriteback {
    /// The writeback values derived from a book's stored metadata.
    pub open spec fn from_metadata_spec(m: BookMetadata, r: OpfWriteback) -> bool {
        &&& r.title == m.title
        &&& strings_view(r.creators@) == split_list_spec(m.writers)
        &&& r.publisher == m.publisher
        &&& r.language == m.language
        &&& r.summary == m.summary
        &&& strings_view(r.subjects@) == split_list_spec(m.genres)
        &&& opt_view(r.date) == match m.year {
            Some(y) => Some(date_spec(y, m.month, m.day)),
            None => None,
        }
        &&& r.series == m.series
        &&& r.series_index == m.number
    }

    /// Build the writeback set from a book's stored metadata: writers and
    /// genres become one element per list entry, year/month/day become the date.
    pub fn from_metadata(metadata: &BookMetadata) -> (r: Self)
        ensures
            Self::from_metadata_spec(*metadata, r),
            r.title == metadata.title,
            r.publisher == metadata.publisher,
            r.language == metadata.language,
            r.summary == metadata.summary,
            r.series == metadata.series,
            r.series_index == metadata.number,
    {
        let date = match metadata.year {
            Some(year) => Some(format_date(year, metadata.month, metadata.day)),
            None => None,
        };
        OpfWriteback {
            title: clone_opt(&metadata.title),
            creators: split_list(&metadata.writers),
            publisher: clone_opt(&metadata.publisher),
            language: clone_opt(&metadata.language),
            summary: clone_opt(&metadata.summary),
            subjects: split_list(&metadata.genres),
            date,
            series: clone_opt(&metadata.series),
            series_index: clone_opt(&metadata.number),
        }
    }
}

/// Whether the writeback set replaces the metadata element with this local name.
pub open spec fn is_replaced_element_spec(wb: OpfWriteback, local: Seq<u8>) -> bool {
    if local == encode_utf8("title"@) {
        wb.title is Some
    } else if local == encode_utf8("creator"@) {
        wb.creators@.len() > 0
    } else if local == encode_utf8("publisher"@) {
        wb.publisher is Some
    } else if local == encode_utf8("language"@) {
        wb.language is Some
    } else if local == encode_utf8("description"@) {
        wb.summary is Some
    } else if local == encode_utf8("subject"@) {
        wb.subjects@.len() > 0
    } else if local == encode_utf8("date"@) {
        wb.date is Some
    } else {
        false
    }
}

proof fn lemma_distinct_names(a: Seq<char>, b: Seq<char>)
    requires
        a != b,
    ensures
        encode_utf8(a) != encode_utf8(b),
{
    encode_utf8_decode_utf8(a);
    encode_utf8_decode_utf8(b);
}

/// Each element the writeback writes replaces the existing ones of its name
/// in the metadata block, and only then: an existing `dc:title`,
/// `dc:creator`, `dc:publisher`, `dc:language`, `dc:description`,
/// `dc:subject` or `dc:date` is dropped exactly when the writeback holds a
/// title, at least one creator, a publisher, a language, a summary, at least
/// one subject or a date, so the rewritten block holds one value per written
/// field and keeps the fields it does not write.
pub proof fn law_written_fields_replace_existing(wb: OpfWriteback, attributes: Seq<(Seq<u8>, Seq<u8>)>)
    ensures
        is_replaced_spec(wb, encode_utf8("title"@), attributes) <==> wb.title is Some,
        is_replaced_spec(wb, encode_utf8("creator"@), attributes) <==> wb.creators@.len() > 0,
        is_replaced_spec(wb, encode_utf8("publisher"@), attributes) <==> wb.publisher is Some,
        is_replaced_spec(wb, encode_utf8("language"@), attributes) <==> wb.language is Some,
        is_replaced_spec(wb, encode_utf8("description"@), attributes) <==> wb.summary is Some,
        is_replaced_spec(wb, encode_utf8("subject"@), attributes) <==> wb.subjects@.len() > 0,
        is_replaced_spec(wb, encode_utf8("date"@), attributes) <==> wb.date is Some,
{
    reveal_strlit("title");
    reveal_strlit("creator");
    reveal_strlit("publisher");
    reveal_strlit("language");
    reveal_strlit("description");
    reveal_strlit("subject");
    reveal_strlit("date");
    reveal_strlit("meta");
    let names = seq!["title"@, "creator"@, "publisher"@, "language"@, "description"@, "subject"@, "date"@, "meta"@];
    assert forall|i: int, j: int| 0 <= i < j < names.len() implies encode_utf8(#[trigger] names[i]) != encode_utf8(
        #[trigger] names[j],
    ) by {
        assert(names[i].len() != names[j].len() || names[i][0] != names[j][0] || names[i][1] != names[j][1]);
        lemma_distinct_names(names[i], names[j]);
    }
    assert(encode_utf8(names[0]) != encode_utf8(names[7]));
    assert(encode_utf8(names[1]) != encode_utf8(names[7]));
    assert(encode_utf8(names[2]) != encode_utf8(names[7]));
    assert(encode_utf8(names[3]) != encode_utf8(names[7]));
    assert(encode_utf8(names[4]) != encode_utf8(names[7]));
    assert(encode_utf8(names[5]) != encode_utf8(names[7]));
    assert(encode_utf8(names[6]) != encode_utf8(names[7]));
    assert(encode_utf8(names[0]) != encode_utf8(names[2]));
    assert(encode_utf8(names[1]) != encode_utf8(names[2]));
    assert(encode_utf8(names[0]) != encode_utf8(names[1]));
    assert(encode_utf8(names[0]) != encode_utf8(names[3]));
    assert(encode_utf8(names[1]) != encode_utf8(names[3]));
    assert(encode_utf8(names[2]) != encode_utf8(names[3]));
    assert(encode_utf8(names[0]) != encode_utf8(names[4]));
    assert(encode_utf8(names[1]) != encode_utf8(names[4]));
    assert(encode_utf8(names[2]) != encode_utf8(names[4]));
    assert(encode_utf8(names[3]) != encode_utf8(names[4]));
    assert(encode_utf8(names[0]) != encode_utf8(names[5]));
    assert(encode_utf8(names[1]) != encode_utf8(names[5]));
    assert(encode_utf8(names[2]) != encode_utf8(names[5]));
    assert(encode_utf8(names[3]) != encode_utf8(names[5]));
    assert(encode_utf8(names[4]) != encode_utf8(names[5]));
    assert(encode_utf8(names[0]) != encode_utf8(names[6]));
    assert(encode_utf8(names[1]) != encode_utf8(names[6]));
    assert(encode_utf8(names[2]) != encode_utf8(names[6]));
    assert(encode_utf8(names[3]) != encode_utf8(names[6]));
    assert(encode_utf8(names[4]) != encode_utf8(names[6]));
    assert(encode_utf8(names[5]) != encode_utf8(names[6]));
}

/// The writeback carries each stored field over: the title, publisher,
/// language, summary, series and number written into the epub are the book's
/// stored ones (none written where none is stored), the creators and subjects
/// are the entries of the stored writers and genres lists, and the date is
/// the stored year, month and day.
pub proof fn law_writeback_copies_stored_fields(m: BookMetadata, r: OpfWriteback)
    requires
        OpfWriteback::from_metadata_spec(m, r),
    ensures
        r.title == m.title,
        r.publisher == m.publisher,
        r.language == m.language,
        r.summary == m.summary,
        r.series == m.series,
        r.series_index == m.number,
        strings_view(r.creators@) == split_list_spec(m.writers),
        strings_view(r.subjects@) == split_list_spec(m.genres),
        opt_view(r.date) == match m.year {
            Some(y) => Some(date_spec(y, m.month, m.day)),
            None => None,
        },
{
}

/// Whether the writeback set replaces this element of the metadata block
pub fn is_replaced_element(writeback: &OpfWriteback, local_name: &[u8]) -> (r: bool)
    ensures
        r == is_replaced_element_spec(*writeback, local_name@),
{
    if bytes_equal(local_name, "title".as_bytes()) {
        writeback.title.is_some()
    } else if bytes_equal(local_name, "creator".as_bytes()) {
        writeback.creators.len() > 0
    } else if bytes_equal(local_name, "publisher".as_bytes()) {
        writeback.publisher.is_some()
    } else if bytes_equal(local_name, "language".as_bytes()) {
        writeback.language.is_some()
    } else if bytes_equal(local_name, "description".as_bytes()) {
        writeback.summary.is_some()
    } else if bytes_equal(local_name, "subject".as_bytes()) {
        writeback.subjects.len() > 0
    } else if bytes_equal(local_name, "date".as_bytes()) {
        writeback.date.is_some()
    } else {
        false
    }
}

/// The value of the first attribute whose key is `key`.
pub open spec fn first_attribute(attributes: Seq<(Seq<u8>, Seq<u8>)>, key: Seq<u8>) -> Option<Seq<u8>>
    decreases attributes.len(),
{
    if attributes.len() == 0 {
        None
    } else if attributes[0].0 == key {
        Some(attributes[0].1)
    } else {
        first_attribute(attributes.drop_first(), key)
    }
}

/// The value of the first attribute of the tag whose key is `key`.
pub fn find_attribute(attributes: &[XmlAttribute], key: &[u8]) -> (r: Option<Vec<u8>>)
    ensures
        match first_attribute(attributes_view(attributes@), key@) {
            Some(v) => r matches Some(w) && w@ == v,
            None => r is None,
        },
{
    let mut i: usize = 0;
    assert(attributes_view(attributes@).subrange(0, attributes@.len() as int) =~= attributes_view(
        attributes@,
    ));
    while i < attributes.len()
        invariant
            i <= attributes@.len(),
            first_attribute(attributes_view(attributes@), key@) == first_attribute(
                attributes_view(attributes@).subrange(i as int, attributes@.len() as int),
                key@,
            ),
        decreases attributes@.len() - i,
    {
        let ghost rest = attributes_view(attributes@).subrange(i as int, attributes@.len() as int);
        assert(rest[0] == (attributes@[i as int].key@, attributes@[i as int].value@));
        if bytes_equal(attributes[i].key.as_slice(), key) {
            return Some(attributes[i].value.clone());
        }
        assert(rest.drop_first() =~= attributes_view(attributes@).subrange(i + 1, attributes@.len() as int));
        i = i + 1;
    }
    assert(attributes_view(attributes@).subrange(i as int, attributes@.len() as int) =~= seq![]);
    None
}

/// Whether a `<meta>` tag with these attributes is one of the calibre series
/// tags the writeback set replaces.
pub open spec fn is_replaced_meta_spec(wb: OpfWriteback, attributes: Seq<(Seq<u8>, Seq<u8>)>) -> bool {
    match first_attribute(attributes, encode_utf8("name"@)) {
        Some(v) => {
            ||| utf8_lossy_decode(v) == "calibre:series"@ && wb.series is Some
            ||| utf8_lossy_decode(v) == "calibre:series_index"@ && wb.series_index is Some
        },
        None => false,
    }
}

/// Whether a `<meta>` start tag is one of the calibre series tags we replace
pub fn is_replaced_meta(writeback: &OpfWriteback, attributes: &[XmlAttribute]) -> (r: bool)
    ensures
        r == is_replaced_meta_spec(*writeback, attributes_view(attributes@)),
{
    match find_attribute(attributes, "name".as_bytes()) {
        Some(value) => {
            let name = from_utf8_lossy(value.as_slice());
            let series = String::from_str("calibre:series");
            let series_index = String::from_str("calibre:series_index");
            (name == series && writeback.series.is_some()) || (name == series_index
                && writeback.series_index.is_some())
        },
        None => false,
    }
}


/// The bytes of `<name>text</name>`, the text escaped.
pub open spec fn simple_element_bytes(name: Seq<char>, text: Seq<char>) -> Seq<u8> {
    start_tag_bytes(name) + text_bytes(text) + end_tag_bytes(name)
}

/// One element for an optional value, nothing for `None`.
pub open spec fn optional_element_bytes(name: Seq<char>, value: Option<String>) -> Seq<u8> {
    match value {
        Some(text) => simple_element_bytes(name, text@),
        None => seq![],
    }
}

/// One element per value, in order.
pub open spec fn repeated_element_bytes(name: Seq<char>, values: Seq<String>) -> Seq<u8>
    decreases values.len(),
{
    if values.len() == 0 {
        seq![]
    } else {
        repeated_element_bytes(name, values.drop_last()) + simple_element_bytes(
            name,
            values.last()@,
        )
    }
}

/// One calibre `<meta>` tag for an optional value, nothing for `None`.
pub open spec fn optional_meta_bytes(name: Seq<char>, value: Option<String>) -> Seq<u8> {
    match value {
        Some(content) => meta_tag_bytes(name, content@),
        None => seq![],
    }
}

/// The elements the writeback set emits just before `</metadata>`, in order:
/// title, creators, publisher, language, description, subjects, date, then
/// the calibre series and series index tags.
pub open spec fn metadata_elements_bytes(wb: OpfWriteback) -> Seq<u8> {
    optional_element_bytes("dc:title"@, wb.title) + repeated_element_bytes(
        "dc:creator"@,
        wb.creators@,
    ) + optional_element_bytes("dc:publisher"@, wb.publisher) + optional_element_bytes(
        "dc:language"@,
        wb.language,
    ) + optional_element_bytes("dc:description"@, wb.summary) + repeated_element_bytes(
        "dc:subject"@,
        wb.subjects@,
    ) + optional_element_bytes("dc:date"@, wb.date) + optional_meta_bytes(
        "calibre:series"@,
        wb.series,
    ) + optional_meta_bytes("calibre:series_index"@, wb.series_index)
}

fn write_simple_element(out: &mut Vec<u8>, name: &str, text: &str)
    ensures
        final(out)@ == old(out)@ + simple_element_bytes(name@, text@),
{
    xml_write_start(out, name);
    xml_write_text(out, text);
    xml_write_end(out, name);
    assert(final(out)@ =~= old(out)@ + simple_element_bytes(name@, text@));
}

fn write_optional_element(out: &mut Vec<u8>, name: &str, value: &Option<String>)
    ensures
        final(out)@ == old(out)@ + optional_element_bytes(name@, *value),
{
    match value {
        Some(text) => write_simple_element(out, name, text.as_str()),
        None => {
            assert(old(out)@ + seq![] =~= old(out)@);
        },
    }
}

fn write_repeated_element(out: &mut Vec<u8>, name: &str, values: &Vec<String>)
    ensures
        final(out)@ == old(out)@ + repeated_element_bytes(name@, values@),
{
    let mut i: usize = 0;
    assert(values@.subrange(0, 0) =~= seq![]);
    assert(old(out)@ + seq![] =~= old(out)@);
    while i < values.len()
        invariant
            i <= values@.len(),
            out@ == old(out)@ + repeated_element_bytes(name@, values@.subrange(0, i as int)),
        decreases values@.len() - i,
    {
        write_simple_element(out, name, values[i].as_str());
        let ghost next = values@.subrange(0, i + 1);
        assert(next.drop_last() =~= values@.subrange(0, i as int));
        assert(next.last() == values@[i as int]);
        i = i + 1;
    }
    assert(values@.subrange(0, values@.len() as int) =~= values@);
}

fn write_optional_meta(out: &mut Vec<u8>, name: &str, value: &Option<String>)
    ensures
        final(out)@ == old(out)@ + optional_meta_bytes(name@, *value),
{
    match value {
        Some(content) => xml_write_empty_tag(out, "meta", ("name", name), ("content", content.as_str())),
        None => {
            assert(old(out)@ + seq![] =~= old(out)@);
        },
    }
}

/// `bytes` is `prefix`, then the element `name` holding the character data
/// `data`, then `suffix`.
pub open spec fn element_at(bytes: Seq<u8>, prefix: Seq<u8>, name: Seq<char>, data: Seq<char>, suffix: Seq<u8>) -> bool {
    bytes == prefix + start_tag_bytes(name) + encode_utf8(data) + end_tag_bytes(name) + suffix
}

/// `bytes` hold an element `name` whose character data an XML reader reads
/// as `value`.
pub open spec fn holds_element_reading(bytes: Seq<u8>, name: Seq<char>, value: Seq<char>) -> bool {
    exists|prefix: Seq<u8>, data: Seq<char>, suffix: Seq<u8>|
        #[trigger] element_at(bytes, prefix, name, data, suffix) && xml_unescape(data) == Some(value)
}

proof fn lemma_element_in(
    all: Seq<u8>,
    prefix: Seq<u8>,
    element: Seq<u8>,
    suffix: Seq<u8>,
    name: Seq<char>,
    value: Seq<char>,
)
    requires
        all == prefix + element + suffix,
        element == simple_element_bytes(name, value),
    ensures
        holds_element_reading(all, name, value),
{
    law_escaped_text_reads_back(value);
    let data = xml_escape(value);
    assert(all =~= prefix + start_tag_bytes(name) + encode_utf8(data) + end_tag_bytes(name) + suffix);
    assert(element_at(all, prefix, name, data, suffix));
}

/// The elements the writeback appends read back as its values: for each of
/// the title, publisher, language, summary and date it holds, the appended
/// bytes hold a `dc:title` (`dc:publisher`, `dc:language`, `dc:description`,
/// `dc:date`) element whose text reads as that value, whatever `&` or `<` it
/// holds.
#[verifier::spinoff_prover]
#[verifier::rlimit(80)]
pub proof fn law_written_values_read_back(wb: OpfWriteback)
    ensures
        wb.title matches Some(v) ==> holds_element_reading(metadata_elements_bytes(wb), "dc:title"@, v@),
        wb.publisher matches Some(v) ==> holds_element_reading(metadata_elements_bytes(wb), "dc:publisher"@, v@),
        wb.language matches Some(v) ==> holds_element_reading(metadata_elements_bytes(wb), "dc:language"@, v@),
        wb.summary matches Some(v) ==> holds_element_reading(metadata_elements_bytes(wb), "dc:description"@, v@),
        wb.date matches Some(v) ==> holds_element_reading(metadata_elements_bytes(wb), "dc:date"@, v@),
{
    let t = optional_element_bytes("dc:title"@, wb.title);
    let c = repeated_element_bytes("dc:creator"@, wb.creators@);
    let p = optional_element_bytes("dc:publisher"@, wb.publisher);
    let l = optional_element_bytes("dc:language"@, wb.language);
    let d = optional_element_bytes("dc:description"@, wb.summary);
    let sub = repeated_element_bytes("dc:subject"@, wb.subjects@);
    let dt = optional_element_bytes("dc:date"@, wb.date);
    let m = optional_meta_bytes("calibre:series"@, wb.series) + optional_meta_bytes(
        "calibre:series_index"@,
        wb.series_index,
    );
    let all = metadata_elements_bytes(wb);
    assert(all =~= t + c + p + l + d + sub + dt + m);
    if let Some(v) = wb.title {
        assert(all =~= Seq::<u8>::empty() + t + (c + p + l + d + sub + dt + m));
        lemma_element_in(all, Seq::<u8>::empty(), t, c + p + l + d + sub + dt + m, "dc:title"@, v@);
    }
    if let Some(v) = wb.publisher {
        assert(all =~= (t + c) + p + (l + d + sub + dt + m));
        lemma_element_in(all, t + c, p, l + d + sub + dt + m, "dc:publisher"@, v@);
    }
    if let Some(v) = wb.language {
        assert(all =~= (t + c + p) + l + (d + sub + dt + m));
        lemma_element_in(all, t + c + p, l, d + sub + dt + m, "dc:language"@, v@);
    }
    if let Some(v) = wb.summary {
        assert(all =~= (t + c + p + l) + d + (sub + dt + m));
        lemma_element_in(all, t + c + p + l, d, sub + dt + m, "dc:description"@, v@);
    }
    if let Some(v) = wb.date {
        assert(all =~= (t + c + p + l + d + sub) + dt + m);
        lemma_element_in(all, t + c + p + l + d + sub, dt, m, "dc:date"@, v@);
    }
}

/// Emit the writeback values as OPF elements.
#[verifier::spinoff_prover]
#[verifier::rlimit(40)]
pub fn write_metadata_elements(out: &mut Vec<u8>, writeback: &OpfWriteback)
    ensures
        final(out)@ == old(out)@ + metadata_elements_bytes(*writeback),
{
    write_optional_element(out, "dc:title", &writeback.title);
    write_repeated_element(out, "dc:creator", &writeback.creators);
    write_optional_element(out, "dc:publisher", &writeback.publisher);
    write_optional_element(out, "dc:language", &writeback.language);
    write_optional_element(out, "dc:description", &writeback.summary);
    write_repeated_element(out, "dc:subject", &writeback.subjects);
    write_optional_element(out, "dc:date", &writeback.date);
    write_optional_meta(out, "calibre:series", &writeback.series);
    write_optional_meta(out, "calibre:series_index", &writeback.series_index);
    assert(final(out)@ =~= old(out)@ + metadata_elements_bytes(*writeback));
}

/// Whether an element of the metadata block with this local name and these
/// attributes is replaced by the writeback set.
pub open spec fn is_replaced_spec(wb: OpfWriteback, local: Seq<u8>, attributes: Seq<(Seq<u8>, Seq<u8>)>) -> bool {
    is_replaced_element_spec(wb, local) || (local == encode_utf8("meta"@) && is_replaced_meta_spec(
        wb,
        attributes,
    ))
}

/// The state of the rewrite: whether the reader is inside `<metadata>`, the
/// depth of the element being skipped (0 when none), and the output so far.
pub ghost struct OpfRewriteState {
    pub inside_metadata: bool,
    pub skipping_depth: nat,
    pub output: Seq<u8>,
}

/// One event of the rewrite: elements the writeback replaces are dropped with
/// everything inside them; the writeback values are emitted right before
/// `</metadata>`; every other event is written through.
pub open spec fn opf_step(wb: OpfWriteback, st: OpfRewriteState, ev: XmlEventView) -> OpfRewriteState {
    let replaced = is_replaced_spec(wb, ev.local_name, ev.attributes);
    let is_metadata = ev.local_name == encode_utf8("metadata"@);
    match ev.kind {
        XmlKind::Start => if st.skipping_depth > 0 {
            OpfRewriteState { skipping_depth: st.skipping_depth + 1, ..st }
        } else if st.inside_metadata && replaced {
            OpfRewriteState { skipping_depth: 1, ..st }
        } else {
            OpfRewriteState {
                inside_metadata: st.inside_metadata || is_metadata,
                output: st.output + ev.written,
                ..st
            }
        },
        XmlKind::Empty => if st.skipping_depth == 0 && !(st.inside_metadata && replaced) {
            OpfRewriteState { output: st.output + ev.written, ..st }
        } else {
            st
        },
        XmlKind::End => if st.skipping_depth > 0 {
            OpfRewriteState { skipping_depth: (st.skipping_depth - 1) as nat, ..st }
        } else if is_metadata && st.inside_metadata {
            OpfRewriteState {
                inside_metadata: false,
                output: st.output + metadata_elements_bytes(wb) + ev.written,
                ..st
            }
        } else {
            OpfRewriteState { output: st.output + ev.written, ..st }
        },
        _ => if st.skipping_depth == 0 {
            OpfRewriteState { output: st.output + ev.written, ..st }
        } else {
            st
        },
    }
}

/// The rewrite state after a sequence of events.
pub open spec fn opf_fold(wb: OpfWriteback, events: Seq<XmlEventView>) -> OpfRewriteState
    decreases events.len(),
{
    if events.len() == 0 {
        OpfRewriteState { inside_metadata: false, skipping_depth: 0, output: seq![] }
    } else {
        opf_step(wb, opf_fold(wb, events.drop_last()), events.last())
    }
}

/// The bytes the events write, in order: the document as the reader would
/// write it back.
pub open spec fn written_concat(events: Seq<XmlEventView>) -> Seq<u8>
    decreases events.len(),
{
    if events.len() == 0 {
        seq![]
    } else {
        written_concat(events.drop_last()) + events.last().written
    }
}

/// An empty writeback set changes nothing: the rewrite writes every event of
/// the document back as it was read.
pub proof fn law_empty_writeback_rewrites_nothing(wb: OpfWriteback, events: Seq<XmlEventView>)
    requires
        wb.is_empty_spec(),
    ensures
        opf_fold(wb, events).output == written_concat(events),
        opf_fold(wb, events).skipping_depth == 0,
    decreases events.len(),
{
    assert(wb.creators@.len() == 0 && wb.subjects@.len() == 0);
    assert(repeated_element_bytes("dc:creator"@, wb.creators@) =~= seq![]);
    assert(repeated_element_bytes("dc:subject"@, wb.subjects@) =~= seq![]);
    assert(metadata_elements_bytes(wb) =~= seq![]);
    if events.len() > 0 {
        law_empty_writeback_rewrites_nothing(wb, events.drop_last());
        let ev = events.last();
        assert(!is_replaced_element_spec(wb, ev.local_name));
        assert(!is_replaced_meta_spec(wb, ev.attributes));
        let prev = opf_fold(wb, events.drop_last());
        assert(prev.output + metadata_elements_bytes(wb) + ev.written =~= prev.output + ev.written);
    }
}

/// The rewrite state after more events, from state `st`.
pub open spec fn opf_run(wb: OpfWriteback, st: OpfRewriteState, events: Seq<XmlEventView>) -> OpfRewriteState
    decreases events.len(),
{
    if events.len() == 0 {
        st
    } else {
        opf_step(wb, opf_run(wb, st, events.drop_last()), events.last())
    }
}

proof fn lemma_run_split(wb: OpfWriteback, st: OpfRewriteState, a: Seq<XmlEventView>, b: Seq<XmlEventView>)
    ensures
        opf_run(wb, st, a + b) == opf_run(wb, opf_run(wb, st, a), b),
    decreases b.len(),
{
    if b.len() == 0 {
        assert(a + b =~= a);
    } else {
        assert((a + b).drop_last() =~= a + b.drop_last());
        lemma_run_split(wb, st, a, b.drop_last());
    }
}

proof fn lemma_fold_is_run(wb: OpfWriteback, events: Seq<XmlEventView>)
    ensures
        opf_fold(wb, events) == opf_run(wb, opf_fold(wb, Seq::<XmlEventView>::empty()), events),
    decreases events.len(),
{
    if events.len() > 0 {
        lemma_fold_is_run(wb, events.drop_last());
    }
}

/// The rewrite of a document runs piece by piece: rewriting `a` then `b`
/// continues from where the rewrite of `a` left off.
pub proof fn law_rewrite_runs_in_pieces(wb: OpfWriteback, a: Seq<XmlEventView>, b: Seq<XmlEventView>)
    ensures
        opf_fold(wb, a + b) == opf_run(wb, opf_fold(wb, a), b),
{
    lemma_fold_is_run(wb, a + b);
    lemma_fold_is_run(wb, a);
    lemma_run_split(wb, opf_fold(wb, Seq::<XmlEventView>::empty()), a, b);
}

/// Every event other than the `metadata` tags and, inside the metadata
/// block, the elements the writeback replaces, is written back unchanged.
pub proof fn law_rewrite_keeps_other_events(wb: OpfWriteback, st: OpfRewriteState, events: Seq<XmlEventView>)
    requires
        st.skipping_depth == 0,
        forall|i: int|
            0 <= i < events.len() ==> (#[trigger] events[i]).local_name != encode_utf8("metadata"@) && !(
            st.inside_metadata && is_replaced_spec(wb, events[i].local_name, events[i].attributes)),
    ensures
        opf_run(wb, st, events) == (OpfRewriteState { output: st.output + written_concat(events), ..st }),
    decreases events.len(),
{
    if events.len() == 0 {
        assert(st.output + written_concat(events) =~= st.output);
    } else {
        let init = events.drop_last();
        assert forall|i: int| 0 <= i < init.len() implies (#[trigger] init[i]).local_name != encode_utf8(
            "metadata"@,
        ) && !(st.inside_metadata && is_replaced_spec(wb, init[i].local_name, init[i].attributes)) by {
            assert(init[i] == events[i]);
        }
        law_rewrite_keeps_other_events(wb, st, init);
        assert(events.last() == events[events.len() - 1]);
        assert(st.output + written_concat(init) + events.last().written =~= st.output + written_concat(events));
    }
}

/// The writeback values are appended right before `</metadata>`, and the
/// metadata block is closed.
pub proof fn law_rewrite_appends_before_metadata_end(wb: OpfWriteback, st: OpfRewriteState, ev: XmlEventView)
    requires
        st.inside_metadata,
        st.skipping_depth == 0,
        ev.kind == XmlKind::End,
        ev.local_name == encode_utf8("metadata"@),
    ensures
        opf_step(wb, st, ev).output == st.output + metadata_elements_bytes(wb) + ev.written,
        !opf_step(wb, st, ev).inside_metadata,
        opf_step(wb, st, ev).skipping_depth == 0,
{
}

/// How deep the events leave the nesting of elements: starts minus ends.
pub open spec fn nesting(events: Seq<XmlEventView>) -> int
    decreases events.len(),
{
    if events.len() == 0 {
        0
    } else {
        nesting(events.drop_last()) + match events.last().kind {
            XmlKind::Start => 1int,
            XmlKind::End => -1int,
            _ => 0int,
        }
    }
}

/// The events are the balanced content of an element: no end tag closes more
/// than they opened, and they close all they open.
pub open spec fn balanced(events: Seq<XmlEventView>) -> bool {
    &&& nesting(events) == 0
    &&& forall|k: int| 0 <= k <= events.len() ==> nesting(#[trigger] events.take(k)) >= 0
}

proof fn lemma_skipped_content(wb: OpfWriteback, st: OpfRewriteState, body: Seq<XmlEventView>, k: int)
    requires
        st.skipping_depth == 1,
        0 <= k <= body.len(),
        forall|j: int| 0 <= j <= body.len() ==> nesting(#[trigger] body.take(j)) >= 0,
    ensures
        opf_run(wb, st, body.take(k)) == (OpfRewriteState {
            skipping_depth: (1 + nesting(body.take(k))) as nat,
            ..st
        }),
    decreases k,
{
    if k == 0 {
        assert(body.take(0) =~= Seq::<XmlEventView>::empty());
    } else {
        lemma_skipped_content(wb, st, body, k - 1);
        assert(body.take(k).drop_last() =~= body.take(k - 1));
        assert(body.take(k).last() == body[k - 1]);
        assert(nesting(body.take(k)) >= 0);
    }
}

proof fn lemma_run_one(wb: OpfWriteback, st: OpfRewriteState, ev: XmlEventView)
    ensures
        opf_run(wb, st, seq![ev]) == opf_step(wb, st, ev),
{
    assert(seq![ev].drop_last() =~= Seq::<XmlEventView>::empty());
    assert(opf_run(wb, st, seq![ev].drop_last()) == st);
    assert(seq![ev].last() == ev);
}

/// An element the writeback replaces is dropped from the metadata block with
/// everything inside it: its start tag, its balanced content and its end tag
/// write nothing and leave the rewrite where it was.
pub proof fn law_rewrite_drops_replaced_elements(
    wb: OpfWriteback,
    st: OpfRewriteState,
    start: XmlEventView,
    body: Seq<XmlEventView>,
    end: XmlEventView,
)
    requires
        st.inside_metadata,
        st.skipping_depth == 0,
        start.kind == XmlKind::Start,
        is_replaced_spec(wb, start.local_name, start.attributes),
        balanced(body),
        end.kind == XmlKind::End,
    ensures
        opf_run(wb, st, seq![start] + body + seq![end]) == st,
{
    let st1 = OpfRewriteState { skipping_depth: 1, ..st };
    lemma_run_one(wb, st, start);
    assert(opf_step(wb, st, start) == st1);
    lemma_skipped_content(wb, st1, body, body.len() as int);
    assert(body.take(body.len() as int) =~= body);
    let st2 = opf_run(wb, st1, body);
    assert(st2 == st1);
    lemma_run_split(wb, st, seq![start], body);
    lemma_run_split(wb, st, seq![start] + body, seq![end]);
    lemma_run_one(wb, st2, end);
    assert(opf_step(wb, st2, end) == st);
}

/// Rewrite the `<metadata>` block of an OPF document given as its events.
pub fn rewrite_opf_events(events: &[XmlEventData], writeback: &OpfWriteback) -> (r: Vec<u8>)
    ensures
        r@ == opf_fold(*writeback, events_view(events@)).output,
{
    let mut output: Vec<u8> = Vec::new();
    let mut inside_metadata = false;
    let mut skipping_depth: usize = 0;
    let mut i: usize = 0;
    assert(events_view(events@).subrange(0, 0) =~= seq![]);
    while i < events.len()
        invariant
            i <= events@.len(),
            ({
                let st = opf_fold(*writeback, events_view(events@).subrange(0, i as int));
                &&& st.inside_metadata == inside_metadata
                &&& st.skipping_depth == skipping_depth
                &&& st.output == output@
            }),
            skipping_depth <= i,
        decreases events@.len() - i,
    {
        let ev = &events[i];
        let ghost prefix = events_view(events@).subrange(0, i + 1);
        assert(prefix.drop_last() =~= events_view(events@).subrange(0, i as int));
        assert(prefix.last() == event_view(*ev));
        let replaced = is_replaced_element(writeback, ev.local_name.as_slice()) || (bytes_equal(
            ev.local_name.as_slice(),
            "meta".as_bytes(),
        ) && is_replaced_meta(writeback, ev.attributes.as_slice()));
        let is_metadata = bytes_equal(ev.local_name.as_slice(), "metadata".as_bytes());
        match ev.kind {
            XmlKind::Start => {
                if skipping_depth > 0 {
                    skipping_depth = skipping_depth + 1;
                } else if inside_metadata && replaced {
                    skipping_depth = 1;
                } else {
                    if is_metadata {
                        inside_metadata = true;
                    }
                    append_bytes(&mut output, ev.written.as_slice());
                }
            },
            XmlKind::Empty => {
                if skipping_depth == 0 && !(inside_metadata && replaced) {
                    append_bytes(&mut output, ev.written.as_slice());
                }
            },
            XmlKind::End => {
                if skipping_depth > 0 {
                    skipping_depth = skipping_depth - 1;
                } else {
                    if is_metadata && inside_metadata {
                        write_metadata_elements(&mut output, writeback);
                        inside_metadata = false;
                    }
                    append_bytes(&mut output, ev.written.as_slice());
                }
            },
            _ => {
                if skipping_depth == 0 {
                    append_bytes(&mut output, ev.written.as_slice());
                }
            },
        }
        i = i + 1;
    }
    assert(events_view(events@).subrange(0, events@.len() as int) =~= events_view(events@));
    output
}

/// What rewriting an OPF document gives: the rewritten bytes, or the message
/// of the XML error that stopped reading it.
pub open spec fn rewrite_opf_spec(opf: Seq<char>, wb: OpfWriteback) -> Result<Seq<u8>, Seq<char>> {
    match xml_read_outcome(encode_utf8(opf), false) {
        Ok(events) => Ok(opf_fold(wb, events).output),
        Err(m) => Err(m),
    }
}

/// Rewrite the `<metadata>` block of an OPF document: drop the elements we
/// replace, append our values just before `</metadata>`, preserve everything
/// else untouched
pub fn rewrite_opf(opf: &str, writeback: &OpfWriteback) -> (r: Result<Vec<u8>, FileError>)
    ensures
        match rewrite_opf_spec(opf@, *writeback) {
            Ok(bytes) => r matches Ok(out) && out@ == bytes,
            Err(m) => r matches Err(FileError::EpubReadError(e)) && e@ == m,
        },
{
    match read_xml_events(opf, false) {
        Ok(events) => Ok(rewrite_opf_events(events.as_slice(), writeback)),
        Err(message) => Err(FileError::EpubReadError(message)),
    }
}


/// The `full-path` of the event at `index` of `container` when it is a
/// `rootfile` tag carrying one.
pub open spec fn rootfile_path_at(container: Seq<u8>, index: nat) -> Option<Seq<u8>> {
    let kind = xml_event_kind(container, false, index);
    if (kind is Start || kind is Empty) && xml_event_local_name(container, false, index)
        == encode_utf8("rootfile"@) {
        first_attribute(xml_event_attributes(container, false, index), encode_utf8("full-path"@))
    } else {
        None
    }
}

/// The message when `container.xml` names no package document.
pub open spec fn no_rootfile_message() -> Seq<char> {
    "No rootfile entry in container.xml"@
}

/// Scanning the events of `container` from `index` on: the raw `full-path` of
/// the first `rootfile` tag carrying one, or why none was found.
pub open spec fn locate_opf_from(container: Seq<u8>, index: nat) -> Result<Seq<u8>, Seq<char>>
    decreases xml_event_limit(container) - index,
{
    if index >= xml_event_limit(container) {
        Err(too_many_events_message())
    } else {
        let kind = xml_event_kind(container, false, index);
        if kind is Eof {
            Err(no_rootfile_message())
        } else if kind is Error {
            Err(xml_error_text(container, false, index))
        } else {
            match rootfile_path_at(container, index) {
                Some(path) => Ok(path),
                None => locate_opf_from(container, index + 1),
            }
        }
    }
}

/// Find the OPF package document path named by the `rootfile` entry of an
/// epub's META-INF/container.xml
pub fn locate_opf_path(container_xml: &str) -> (r: Result<String, FileError>)
    ensures
        match locate_opf_from(encode_utf8(container_xml@), 0) {
            Ok(path) => r matches Ok(p) && p@ == utf8_lossy_decode(path),
            Err(m) => r matches Err(FileError::EpubReadError(e)) && e@ == m,
        },
{
    let ghost bytes = encode_utf8(container_xml@);
    let mut cursor = xml_cursor(container_xml, false);
    let mut remaining: usize = container_xml.as_bytes().len();
    loop
        invariant
            bytes == encode_utf8(container_xml@),
            cursor.input() == bytes,
            cursor.trim() == false,
            cursor.can_advance(),
            remaining + cursor.read() == bytes.len(),
            locate_opf_from(bytes, 0) == locate_opf_from(bytes, cursor.read()),
        decreases remaining,
    {
        let ghost index = cursor.read();
        assert(index < xml_event_limit(bytes));
        let kind = xml_advance(&mut cursor);
        match kind {
            XmlKind::Eof => {
                return Err(FileError::EpubReadError(String::from_str("No rootfile entry in container.xml")));
            },
            XmlKind::Error => {
                return Err(FileError::EpubReadError(xml_current_error(&cursor)));
            },
            XmlKind::Start | XmlKind::Empty => {
                let local = xml_current_local_name(&cursor);
                if bytes_equal(local.as_slice(), "rootfile".as_bytes()) {
                    let attributes = xml_current_attributes(&cursor);
                    assert(attributes_view(attributes@) =~= xml_event_attributes(bytes, false, index));
                    match find_attribute(attributes.as_slice(), "full-path".as_bytes()) {
                        Some(value) => {
                            return Ok(from_utf8_lossy(value.as_slice()));
                        },
                        None => {},
                    }
                }
            },
            _ => {},
        }
        if remaining == 0 {
            return Err(FileError::EpubReadError(String::from_str("XML document yielded more events than it has bytes")));
        }
        remaining = remaining - 1;
    }
}

/// Whether `s` ends with `suffix`.
pub open spec fn ends_with_spec(s: Seq<char>, suffix: Seq<char>) -> bool {
    suffix.len() <= s.len() && s.subrange(s.len() - suffix.len(), s.len() as int) == suffix
}

fn ends_with(s: &[char], suffix: &[char]) -> (r: bool)
    ensures
        r == ends_with_spec(s@, suffix@),
{
    if suffix.len() > s.len() {
        return false;
    }
    let offset = s.len() - suffix.len();
    let mut i: usize = 0;
    while i < suffix.len()
        invariant
            offset + suffix@.len() == s@.len(),
            s@.len() == s.len(),
            i <= suffix@.len(),
            forall|j: int| 0 <= j < i ==> s@[offset + j] == suffix@[j],
        decreases suffix@.len() - i,
    {
        if s[offset + i] != suffix[i] {
            assert(s@.subrange(offset as int, s@.len() as int)[i as int] != suffix@[i as int]);
            return false;
        }
        i = i + 1;
    }
    assert(s@.subrange(offset as int, s@.len() as int) =~= suffix@);
    true
}

/// What writing metadata into the file at `path` starts with: `Ok(false)`
/// when there is nothing to write (the file is left alone), an error when the
/// file is not an epub, `Ok(true)` when the rewrite goes ahead.
pub open spec fn writeback_target_spec(path: Seq<char>, wb: OpfWriteback) -> Result<bool, Seq<char>> {
    if wb.is_empty_spec() {
        Ok(false)
    } else if !ends_with_spec(unicode_lowercase(path), ".epub"@) {
        Err("Metadata writeback only supports epub files"@)
    } else {
        Ok(true)
    }
}

/// Decide whether metadata is written into the file at `path`: an empty
/// writeback set is a no-op, and only epub files (by case-insensitive
/// extension) are supported.
pub fn check_writeback_target(path: &str, writeback: &OpfWriteback) -> (r: Result<bool, FileError>)
    ensures
        match writeback_target_spec(path@, *writeback) {
            Ok(b) => r == Ok::<bool, FileError>(b),
            Err(m) => r matches Err(FileError::UnsupportedFileType(e)) && e@ == m,
        },
        is_ascii_text(path@) && !writeback.is_empty_spec() ==> (r is Ok <==> ends_with_spec(
            ascii_lowercase(path@),
            ".epub"@,
        )),
{
    if writeback.is_empty() {
        return Ok(false);
    }
    let lower = to_lowercase(path);
    let lower_chars = chars_of(lower.as_str());
    let suffix = chars_of(".epub");
    if !ends_with(lower_chars.as_slice(), suffix.as_slice()) {
        return Err(FileError::UnsupportedFileType(String::from_str("Metadata writeback only supports epub files")));
    }
    Ok(true)
}

/// Whether an archive entry is copied unchanged into the rebuilt epub: the
/// `mimetype` entry is written first on its own and the package document is
/// replaced, every other entry is copied.
pub fn should_copy_entry(name: &str, opf_path: &str) -> (r: bool)
    ensures
        r == (name@ != "mimetype"@ && name@ != opf_path@),
{
    let name = String::from_str(name);
    let mimetype = String::from_str("mimetype");
    let opf = String::from_str(opf_path);
    !(name == mimetype) && !(name == opf)
}

/// One step of rebuilding an epub archive with a new package document.
#[derive(Debug, Clone, Copy, PartialEq, Eq, Structural)]
pub enum EpubRebuildStep {
    /// Write the `mimetype` entry, uncompressed.
    Mimetype,
    /// Copy the entry at this index of the old archive as it is.
    Copy { index: usize },
    /// Write the new package document, compressed.
    PackageDocument,
}

/// The copies of a rebuild: every entry but `mimetype` and the package
/// document, in archive order.
pub open spec fn rebuild_copies(names: Seq<Seq<char>>, opf_path: Seq<char>) -> Seq<EpubRebuildStep>
    decreases names.len(),
{
    if names.len() == 0 {
        Seq::<EpubRebuildStep>::empty()
    } else {
        let before = rebuild_copies(names.drop_last(), opf_path);
        let name = names.last();
        if name != "mimetype"@ && name != opf_path {
            before.push(EpubRebuildStep::Copy { index: (names.len() - 1) as usize })
        } else {
            before
        }
    }
}

/// The steps rebuilding an epub: `mimetype` first (when the archive has
/// one), then the other entries, then the new package document.
pub open spec fn rebuild_steps(names: Seq<Seq<char>>, opf_path: Seq<char>, has_mimetype: bool) -> Seq<EpubRebuildStep> {
    (if has_mimetype {
        seq![EpubRebuildStep::Mimetype]
    } else {
        Seq::<EpubRebuildStep>::empty()
    }) + rebuild_copies(names, opf_path) + seq![EpubRebuildStep::PackageDocument]
}

/// Plan the rebuild of an epub whose entries have these names, replacing the
/// package document at `opf_path`.
pub fn epub_rebuild_plan(names: &Vec<String>, opf_path: &str, has_mimetype: bool) -> (r: Vec<EpubRebuildStep>)
    ensures
        r@ == rebuild_steps(names@.map_values(|n: String| n@), opf_path@, has_mimetype),
{
    let ghost views = names@.map_values(|n: String| n@);
    let mut steps: Vec<EpubRebuildStep> = Vec::new();
    if has_mimetype {
        steps.push(EpubRebuildStep::Mimetype);
    }
    let ghost head = steps@;
    let mut i: usize = 0;
    assert(views.subrange(0, 0) =~= Seq::<Seq<char>>::empty());
    assert(steps@ =~= head + rebuild_copies(views.subrange(0, 0), opf_path@));
    while i < names.len()
        invariant
            i <= names@.len(),
            views == names@.map_values(|n: String| n@),
            head == (if has_mimetype { seq![EpubRebuildStep::Mimetype] } else { Seq::<EpubRebuildStep>::empty() }),
            steps@ == head + rebuild_copies(views.subrange(0, i as int), opf_path@),
        decreases names@.len() - i,
    {
        let ghost sub = views.subrange(0, i + 1);
        assert(sub.drop_last() =~= views.subrange(0, i as int));
        assert(sub.last() == names@[i as int]@);
        if should_copy_entry(names[i].as_str(), opf_path) {
            steps.push(EpubRebuildStep::Copy { index: i });
        }
        assert(steps@ =~= head + rebuild_copies(sub, opf_path@));
        i = i + 1;
    }
    assert(views.subrange(0, names@.len() as int) =~= views);
    steps.push(EpubRebuildStep::PackageDocument);
    assert(steps@ =~= rebuild_steps(views, opf_path@, has_mimetype));
    steps
}

proof fn lemma_rebuild_copies_are_copies(names: Seq<Seq<char>>, opf_path: Seq<char>)
    requires
        names.len() <= usize::MAX,
    ensures
        forall|k: int| 0 <= k < rebuild_copies(names, opf_path).len() ==> (#[trigger] rebuild_copies(names, opf_path)[k] matches EpubRebuildStep::Copy { index }
            && index < names.len() && names[index as int] != "mimetype"@ && names[index as int] != opf_path),
    decreases names.len(),
{
    if names.len() > 0 {
        let init = names.drop_last();
        lemma_rebuild_copies_are_copies(init, opf_path);
        let before = rebuild_copies(init, opf_path);
        assert forall|k: int| 0 <= k < rebuild_copies(names, opf_path).len() implies (#[trigger] rebuild_copies(names, opf_path)[k] matches EpubRebuildStep::Copy { index }
            && index < names.len() && names[index as int] != "mimetype"@ && names[index as int] != opf_path) by {
            if k < before.len() {
                assert(rebuild_copies(names, opf_path)[k] == before[k]);
                if let EpubRebuildStep::Copy { index } = before[k] {
                    assert(names[index as int] == init[index as int]);
                }
            } else {
                assert(rebuild_copies(names, opf_path)[k] == EpubRebuildStep::Copy { index: (names.len() - 1) as usize });
                assert(names[names.len() - 1] == names.last());
            }
        }
    }
}

/// A rebuilt epub keeps `mimetype` as its first entry, writes the package
/// document exactly once, as its last entry, and copies neither of the two
/// from the old archive.
pub proof fn law_rebuild_keeps_mimetype_first(names: Seq<Seq<char>>, opf_path: Seq<char>, has_mimetype: bool)
    requires
        names.len() <= usize::MAX,
    ensures
        has_mimetype ==> rebuild_steps(names, opf_path, has_mimetype)[0] == EpubRebuildStep::Mimetype,
        rebuild_steps(names, opf_path, has_mimetype).last() == EpubRebuildStep::PackageDocument,
        forall|k: int| 0 <= k < rebuild_steps(names, opf_path, has_mimetype).len() - 1
            ==> #[trigger] rebuild_steps(names, opf_path, has_mimetype)[k] != EpubRebuildStep::PackageDocument,
        forall|k: int| 0 <= k < rebuild_steps(names, opf_path, has_mimetype).len() ==> (#[trigger] rebuild_steps(names, opf_path, has_mimetype)[k] matches EpubRebuildStep::Copy { index }
            ==> names[index as int] != "mimetype"@ && names[index as int] != opf_path),
{
    lemma_rebuild_copies_are_copies(names, opf_path);
    let head: Seq<EpubRebuildStep> = if has_mimetype { seq![EpubRebuildStep::Mimetype] } else { Seq::<EpubRebuildStep>::empty() };
    let copies = rebuild_copies(names, opf_path);
    let steps = rebuild_steps(names, opf_path, has_mimetype);
    assert(steps == head + copies + seq![EpubRebuildStep::PackageDocument]);
    assert forall|k: int| 0 <= k < steps.len() - 1 implies #[trigger] steps[k] != EpubRebuildStep::PackageDocument by {
        if k < head.len() {
            assert(steps[k] == head[k]);
        } else {
            assert(steps[k] == copies[k - head.len()]);
        }
    }
    assert forall|k: int| 0 <= k < steps.len() implies (#[trigger] steps[k] matches EpubRebuildStep::Copy { index }
            ==> names[index as int] != "mimetype"@ && names[index as int] != opf_path) by {
        if head.len() <= k < head.len() + copies.len() {
            assert(steps[k] == copies[k - head.len()]);
        } else if k < head.len() {
            assert(steps[k] == head[k]);
        }
    }
}

} // verus!
