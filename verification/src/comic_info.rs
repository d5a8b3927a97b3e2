//! Merging stored metadata into an existing ComicInfo.xml document: values
//! Stump manages replace the text of their elements, everything else is
//! written back as it was read.
use crate::opf::{written_concat, BookMetadata};
use crate::text::{from_utf8_lossy, string_from_utf8, utf8_lossy_decode, append_bytes};
use crate::xml::{
    end_tag_bytes, event_view, events_view, read_xml_events, start_tag_bytes, text_bytes,
    xml_escape, xml_read_outcome, xml_unescape, xml_write_end, xml_write_start, xml_write_text,
    law_escaped_text_reads_back,
    XmlEventData, XmlEventView, XmlKind,
};
use vstd::prelude::*;
use vstd::utf8::*;
use vstd::string::*;

verus! {

/// The ComicInfo document used when a book carries none.
pub const SHELL_COMIC_INFO: &'static str = "<?xml version=\"1.0\"?>\n<ComicInfo xmlns:xsi=\"http://www.w3.org/2001/XMLSchema-instance\" xmlns:xsd=\"http://www.w3.org/2001/XMLSchema\">\n</ComicInfo>\n";

/// Errors of the ComicInfo merge.
#[derive(Debug)]
pub enum ComicInfoError {
    /// The merged document is not valid UTF-8.
    NotUtf8,
}

/// The ComicInfo elements Stump manages, with the stored value of each.
pub struct MetadataMap {
    pub entries: Vec<(String, Option<String>)>,
}

/// For a tag: `None` when Stump does not manage it, `Some(None)` when it
/// manages it but holds no value, `Some(Some(v))` for a stored value.
pub type TagLookup = spec_fn(Seq<char>) -> Option<Option<Seq<char>>>;

impl MetadataMap {
    /// The value stored for `tag`: `None` when Stump does not manage the tag,
    /// `Some(None)` when it manages it but holds no value.
    pub open spec fn get_spec(&self, tag: Seq<char>) -> Option<Option<Seq<char>>> {
        map_lookup(self.entries@, tag)
    }

    /// The lookup this map performs.
    pub open spec fn lookup(&self) -> TagLookup {
        |tag: Seq<char>| map_lookup(self.entries@, tag)
    }
}

/// The view of an optional string.
pub open spec fn opt_seq(v: Option<String>) -> Option<Seq<char>> {
    match v {
        Some(s) => Some(s@),
        None => None,
    }
}

/// The managed ComicInfo elements of a book's metadata: `Title` and `Series`.
pub open spec fn managed_lookup(metadata: BookMetadata) -> TagLookup {
    |tag: Seq<char>|
        if tag == "Title"@ {
            Some(opt_seq(metadata.title))
        } else if tag == "Series"@ {
            Some(opt_seq(metadata.series))
        } else {
            None
        }
}

/// The value of the first entry named `tag`.
pub open spec fn map_lookup(entries: Seq<(String, Option<String>)>, tag: Seq<char>) -> Option<Option<Seq<char>>>
    decreases entries.len(),
{
    if entries.len() == 0 {
        None
    } else if entries[0].0@ == tag {
        Some(
            match entries[0].1 {
                Some(v) => Some(v@),
                None => None,
            },
        )
    } else {
        map_lookup(entries.drop_first(), tag)
    }
}

fn clone_opt(v: &Option<String>) -> (r: Option<String>)
    ensures
        r == *v,
{
    match v {
        Some(s) => Some(s.clone()),
        None => None,
    }
}

/// The managed ComicInfo elements: `Title` and `Series`.
pub fn build_metadata_map(metadata: &BookMetadata, existing_tags: &Vec<String>) -> (r: MetadataMap)
    ensures
        r.entries@.len() == 2,
        r.entries@[0].0@ == "Title"@,
        r.entries@[0].1 == metadata.title,
        r.entries@[1].0@ == "Series"@,
        r.entries@[1].1 == metadata.series,
{
    let mut entries: Vec<(String, Option<String>)> = Vec::new();
    entries.push((String::from_str("Title"), clone_opt(&metadata.title)));
    entries.push((String::from_str("Series"), clone_opt(&metadata.series)));
    MetadataMap { entries }
}

/// Look up the value stored for `tag`.
pub fn map_get(map: &MetadataMap, tag: &String) -> (r: Option<Option<String>>)
    ensures
        match map.get_spec(tag@) {
            Some(Some(v)) => r matches Some(Some(s)) && s@ == v,
            Some(None) => r matches Some(None),
            None => r is None,
        },
{
    let mut i: usize = 0;
    assert(map.entries@.subrange(0, map.entries@.len() as int) =~= map.entries@);
    while i < map.entries.len()
        invariant
            i <= map.entries@.len(),
            map.get_spec(tag@) == map_lookup(map.entries@.subrange(i as int, map.entries@.len() as int), tag@),
        decreases map.entries@.len() - i,
    {
        let ghost rest = map.entries@.subrange(i as int, map.entries@.len() as int);
        assert(rest[0] == map.entries@[i as int]);
        assert(rest.drop_first() =~= map.entries@.subrange(i + 1, map.entries@.len() as int));
        if map.entries[i].0 == *tag {
            return Some(clone_opt(&map.entries[i].1));
        }
        i = i + 1;
    }
    None
}

/// The state of the merge: the tag of the innermost element started, and the
/// output so far.
pub ghost struct MergeState {
    pub current_tag: Seq<char>,
    pub output: Seq<u8>,
}

/// One event of the merge. Start and end tags of managed elements without a
/// value are dropped; text inside a managed element with a value is replaced
/// by that value, escaped; a self-closing managed element is dropped when it
/// has no value and written out with its value otherwise; every other event
/// is written through.
pub open spec fn merge_step(lookup: TagLookup, st: MergeState, ev: XmlEventView) -> MergeState {
    let tag = utf8_lossy_decode(ev.qname);
    match ev.kind {
        XmlKind::Start => if lookup(tag) == Some(None::<Seq<char>>) {
            MergeState { current_tag: tag, ..st }
        } else {
            MergeState { current_tag: tag, output: st.output + ev.written }
        },
        XmlKind::Text => match lookup(st.current_tag) {
            Some(Some(value)) => MergeState { output: st.output + text_bytes(value), ..st },
            Some(None) => st,
            None => MergeState { output: st.output + ev.written, ..st },
        },
        XmlKind::End => if lookup(tag) == Some(None::<Seq<char>>) {
            MergeState { current_tag: seq![], ..st }
        } else {
            MergeState { output: st.output + ev.written, ..st }
        },
        XmlKind::Empty => match lookup(tag) {
            Some(Some(value)) => MergeState {
                output: st.output + start_tag_bytes(tag) + text_bytes(value) + end_tag_bytes(tag),
                ..st
            },
            Some(None) => st,
            None => MergeState { output: st.output + ev.written, ..st },
        },
        _ => MergeState { output: st.output + ev.written, ..st },
    }
}

/// The merge state after a sequence of events.
pub open spec fn merge_fold(lookup: TagLookup, events: Seq<XmlEventView>) -> MergeState
    decreases events.len(),
{
    if events.len() == 0 {
        MergeState { current_tag: seq![], output: seq![] }
    } else {
        merge_step(lookup, merge_fold(lookup, events.drop_last()), events.last())
    }
}

/// A managed value is merged as text that reads back as exactly that value:
/// an element `<Tag>old</Tag>` whose tag has a stored value becomes
/// `<Tag>`, character data that an XML reader reads as the value (whatever
/// `&`, `<` or quotes it holds), and `</Tag>`; a self-closing `<Tag/>` with
/// a stored value becomes the same start tag, data and end tag.
pub proof fn law_merged_value_reads_back(
    lookup: TagLookup,
    st: MergeState,
    start: XmlEventView,
    text: XmlEventView,
    end: XmlEventView,
    empty: XmlEventView,
    value: Seq<char>,
)
    requires
        start.kind == XmlKind::Start,
        text.kind == XmlKind::Text,
        end.kind == XmlKind::End,
        empty.kind == XmlKind::Empty,
        lookup(utf8_lossy_decode(start.qname)) == Some(Some(value)),
        lookup(utf8_lossy_decode(empty.qname)) == Some(Some(value)),
        utf8_lossy_decode(end.qname) == utf8_lossy_decode(start.qname),
    ensures
        exists|data: Seq<char>|
            #[trigger] xml_unescape(data) == Some(value) && merge_step(
                lookup,
                merge_step(lookup, merge_step(lookup, st, start), text),
                end,
            ).output == st.output + start.written + encode_utf8(data) + end.written,
        exists|data: Seq<char>|
            #[trigger] xml_unescape(data) == Some(value) && merge_step(lookup, st, empty).output == st.output
                + start_tag_bytes(utf8_lossy_decode(empty.qname)) + encode_utf8(data) + end_tag_bytes(
                utf8_lossy_decode(empty.qname),
            ),
{
    law_escaped_text_reads_back(value);
    let data = xml_escape(value);
    let s1 = merge_step(lookup, st, start);
    let s2 = merge_step(lookup, s1, text);
    assert(s1.current_tag == utf8_lossy_decode(start.qname));
    assert(s2.output == st.output + start.written + encode_utf8(data));
    assert(merge_step(lookup, s2, end).output == st.output + start.written + encode_utf8(data) + end.written);
    assert(merge_step(lookup, st, empty).output == st.output + start_tag_bytes(utf8_lossy_decode(empty.qname))
        + encode_utf8(data) + end_tag_bytes(utf8_lossy_decode(empty.qname)));
}

/// A managed tag without a stored value is dropped with its text: an element
/// `<Tag>old</Tag>`, or a self-closing `<Tag/>`, whose tag is managed but has
/// no value writes nothing.
pub proof fn law_unset_managed_tags_are_dropped(
    lookup: TagLookup,
    st: MergeState,
    start: XmlEventView,
    text: XmlEventView,
    end: XmlEventView,
    empty: XmlEventView,
)
    requires
        start.kind == XmlKind::Start,
        text.kind == XmlKind::Text,
        end.kind == XmlKind::End,
        empty.kind == XmlKind::Empty,
        lookup(utf8_lossy_decode(start.qname)) == Some(None::<Seq<char>>),
        lookup(utf8_lossy_decode(empty.qname)) == Some(None::<Seq<char>>),
        utf8_lossy_decode(end.qname) == utf8_lossy_decode(start.qname),
    ensures
        merge_step(lookup, merge_step(lookup, merge_step(lookup, st, start), text), end).output == st.output,
        merge_step(lookup, st, empty).output == st.output,
{
}

/// The merge changes only managed tags: a document none of whose tags is
/// managed is written back exactly as it was read.
pub proof fn law_merge_keeps_unmanaged_documents(lookup: TagLookup, events: Seq<XmlEventView>)
    requires
        lookup(Seq::<char>::empty()) is None,
        forall|i: int| 0 <= i < events.len() ==> lookup(utf8_lossy_decode((#[trigger] events[i]).qname)) is None,
    ensures
        merge_fold(lookup, events).output == written_concat(events),
        lookup(merge_fold(lookup, events).current_tag) is None,
    decreases events.len(),
{
    if events.len() > 0 {
        let init = events.drop_last();
        assert forall|i: int| 0 <= i < init.len() implies lookup(utf8_lossy_decode((#[trigger] init[i]).qname)) is None by {
            assert(init[i] == events[i]);
        }
        law_merge_keeps_unmanaged_documents(lookup, init);
        assert(events.last() == events[events.len() - 1]);
    } else {
        assert(merge_fold(lookup, events).current_tag =~= Seq::<char>::empty());
    }
}

/// What the merge gives for a merged byte sequence: the document as text, or
/// an error when it is not valid UTF-8.
pub open spec fn merge_result_spec(output: Seq<u8>, r: Result<String, ComicInfoError>) -> bool {
    if valid_utf8(output) {
        r matches Ok(s) && s@ == decode_utf8(output)
    } else {
        r matches Err(ComicInfoError::NotUtf8)
    }
}

/// Merge the managed values into a ComicInfo document given as its events.
pub fn merge_metadata_into_xml_events(map: &MetadataMap, events: &[XmlEventData]) -> (r: Result<String, ComicInfoError>)
    ensures
        merge_result_spec(merge_fold(map.lookup(), events_view(events@)).output, r),
{
    let mut output: Vec<u8> = Vec::new();
    let mut current_tag = String::new();
    let mut i: usize = 0;
    assert(events_view(events@).subrange(0, 0) =~= seq![]);
    while i < events.len()
        invariant
            i <= events@.len(),
            ({
                let st = merge_fold(map.lookup(), events_view(events@).subrange(0, i as int));
                &&& st.current_tag == current_tag@
                &&& st.output == output@
            }),
        decreases events@.len() - i,
    {
        let ev = &events[i];
        let ghost prefix = events_view(events@).subrange(0, i + 1);
        assert(prefix.drop_last() =~= events_view(events@).subrange(0, i as int));
        assert(prefix.last() == event_view(*ev));
        assert(events_view(events@)[i as int] == event_view(*ev));
        match ev.kind {
            XmlKind::Start => {
                let tag = from_utf8_lossy(ev.qname.as_slice());
                let found = map_get(map, &tag);
                let unset = match found {
                    Some(None) => true,
                    _ => false,
                };
                if !unset {
                    append_bytes(&mut output, ev.written.as_slice());
                }
                current_tag = tag;
            },
            XmlKind::Text => {
                match map_get(map, &current_tag) {
                    Some(Some(value)) => {
                        xml_write_text(&mut output, value.as_str());
                    },
                    Some(None) => {},
                    None => {
                        append_bytes(&mut output, ev.written.as_slice());
                    },
                }
            },
            XmlKind::Empty => {
                let tag = from_utf8_lossy(ev.qname.as_slice());
                match map_get(map, &tag) {
                    Some(Some(value)) => {
                        let ghost before = output@;
                        xml_write_start(&mut output, tag.as_str());
                        xml_write_text(&mut output, value.as_str());
                        xml_write_end(&mut output, tag.as_str());
                        assert(output@ == before + start_tag_bytes(tag@) + text_bytes(value@) + end_tag_bytes(tag@));
                    },
                    Some(None) => {},
                    None => {
                        append_bytes(&mut output, ev.written.as_slice());
                    },
                }
            },
            XmlKind::End => {
                let tag = from_utf8_lossy(ev.qname.as_slice());
                let unset = match map_get(map, &tag) {
                    Some(None) => true,
                    _ => false,
                };
                if unset {
                    current_tag = String::new();
                } else {
                    append_bytes(&mut output, ev.written.as_slice());
                }
            },
            _ => {
                append_bytes(&mut output, ev.written.as_slice());
            },
        }
        i = i + 1;
    }
    assert(events_view(events@).subrange(0, events@.len() as int) =~= events_view(events@));
    match string_from_utf8(output) {
        Some(s) => Ok(s),
        None => Err(ComicInfoError::NotUtf8),
    }
}

/// Merge the managed values of `metadata` into the ComicInfo document
/// `existing_xml` (read with text trimmed). The document must read without
/// error.
pub fn merge_metadata_into_xml(
    metadata: &BookMetadata,
    existing_tags: &Vec<String>,
    existing_xml: &str,
) -> (r: Result<String, ComicInfoError>)
    requires
        xml_read_outcome(encode_utf8(existing_xml@), true) is Ok,
    ensures
        xml_read_outcome(encode_utf8(existing_xml@), true) matches Ok(events) && merge_result_spec(
            merge_fold(managed_lookup(*metadata), events).output,
            r,
        ),
{
    let map = build_metadata_map(metadata, existing_tags);
    assert(map.lookup() =~= managed_lookup(*metadata)) by {
        assert forall|tag: Seq<char>| #[trigger] (map.lookup())(tag) == (managed_lookup(*metadata))(tag) by {
            let e = map.entries@;
            reveal_with_fuel(map_lookup, 3);
            assert(e.drop_first()[0] == e[1]);
            assert(e.drop_first().drop_first().len() == 0);
        }
    }
    match read_xml_events(existing_xml, true) {
        Ok(events) => merge_metadata_into_xml_events(&map, events.as_slice()),
        Err(_) => Err(ComicInfoError::NotUtf8),
    }
}


/// Merge the managed values of `metadata` into the ComicInfo document
/// `existing_xml` when the merge applies to it: `None` when the document does
/// not read without error.
pub fn merge_metadata_into_document(
    metadata: &BookMetadata,
    existing_tags: &Vec<String>,
    existing_xml: &str,
) -> (r: Option<Result<String, ComicInfoError>>)
    ensures
        match xml_read_outcome(encode_utf8(existing_xml@), true) {
            Ok(events) => r matches Some(res) && merge_result_spec(
                merge_fold(managed_lookup(*metadata), events).output,
                res,
            ),
            Err(_) => r is None,
        },
{
    match read_xml_events(existing_xml, true) {
        Ok(_) => Some(merge_metadata_into_xml(metadata, existing_tags, existing_xml)),
        Err(_) => None,
    }
}

/// The ComicInfo text a metadata write starts from: the book's own document,
/// decoded leniently (invalid UTF-8 replaced), or an empty document when the
/// book has none.
pub fn comic_info_source(existing: Option<&[u8]>) -> (r: String)
    ensures
        existing is None ==> r@ == SHELL_COMIC_INFO@,
        existing matches Some(b) ==> r@ == utf8_lossy_decode(b@),
{
    match existing {
        Some(bytes) => from_utf8_lossy(bytes),
        None => String::from_str(SHELL_COMIC_INFO),
    }
}

} // verus!
