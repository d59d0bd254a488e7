//! Reading an Aria `.ariax` preset: the SFZ instrument slots it names and the output
//! bus of each, from the XML events quick-xml reads.

use vstd::prelude::*;
use quick_xml::events::{BytesStart, Event};
use quick_xml::reader::Reader;
use crate::sfz_values::{i32_text_value, parse_i32};
use crate::text::{chars_of, push_all, str_eq, string_of};

verus! {

#[verifier::external_type_specification]
#[verifier::external_body]
#[verifier::reject_recursive_types(R)]
pub struct ExXmlReader<R>(quick_xml::reader::Reader<R>);

/// An element tag: its name and its attributes, in order, as text.
#[derive(Debug, Clone)]
pub struct XmlTag {
    pub name: String,
    pub attributes: Vec<(String, String)>,
}

/// One XML event, as plain values: a start tag, an empty-element tag, an end tag
/// with its name, the end of the document, anything else, or a read error with its
/// message.
#[derive(Debug, Clone)]
pub enum XmlEvent {
    Start(XmlTag),
    Empty(XmlTag),
    End(String),
    Eof,
    Other,
    Error(String),
}

/// A tag's name and attributes as characters.
pub type TagView = (Seq<char>, Seq<(Seq<char>, Seq<char>)>);

/// An event as characters.
pub enum EventView {
    Start(TagView),
    Empty(TagView),
    End(Seq<char>),
    Eof,
    Other,
    Error(Seq<char>),
}

pub open spec fn tag_view(t: XmlTag) -> TagView {
    (t.name@, Seq::new(t.attributes@.len(), |i: int| (t.attributes@[i].0@, t.attributes@[i].1@)))
}

/// The characters of an event.
pub open spec fn event_view(e: XmlEvent) -> EventView {
    match e {
        XmlEvent::Start(t) => EventView::Start(tag_view(t)),
        XmlEvent::Empty(t) => EventView::Empty(tag_view(t)),
        XmlEvent::End(n) => EventView::End(n@),
        XmlEvent::Eof => EventView::Eof,
        XmlEvent::Other => EventView::Other,
        XmlEvent::Error(m) => EventView::Error(m@),
    }
}

pub open spec fn events_view(es: Seq<XmlEvent>) -> Seq<EventView> {
    Seq::new(es.len(), |i: int| event_view(es[i]))
}

/// The tag names of a slot element.
pub open spec fn is_slot_tag(n: Seq<char>) -> bool {
    n == "Slot"@ || n == "slot"@
}

/// The tag names of a main-output element.
pub open spec fn is_main_tag(n: Seq<char>) -> bool {
    n == "Main"@ || n == "main"@
}

/// The value of the first attribute named `name` among `attrs[i..]`.
pub open spec fn first_named_attr(attrs: Seq<(Seq<char>, Seq<char>)>, i: int) -> Option<Seq<char>>
    decreases attrs.len() - i,
{
    if i < 0 || i >= attrs.len() {
        None
    } else if attrs[i].0 == "name"@ {
        Some(attrs[i].1)
    } else {
        first_named_attr(attrs, i + 1)
    }
}

/// The `i32` read from the last attribute with key `key` among the first `n`
/// attributes; `None` when there is none or it does not read as one.
pub open spec fn last_int_attr(attrs: Seq<(Seq<char>, Seq<char>)>, key: Seq<char>, n: int) -> Option<i32>
    decreases n,
{
    if n <= 0 || n > attrs.len() {
        None
    } else if attrs[n - 1].0 == key {
        i32_text_value(attrs[n - 1].1)
    } else {
        last_int_attr(attrs, key, n - 1)
    }
}

/// The output bus a `<Main id="N" value="1"/>` tag selects: `N` held to 0..=31, when
/// the tag is a main tag whose `value` reads as 1 and whose `id` reads as a number.
pub open spec fn main_output_bus(t: TagView) -> Option<u8> {
    if !is_main_tag(t.0) {
        None
    } else if last_int_attr(t.1, "value"@, t.1.len() as int) == Some(1i32) {
        match last_int_attr(t.1, "id"@, t.1.len() as int) {
            Some(id) => Some(if id < 0 { 0u8 } else if id > 31 { 31u8 } else { id as u8 }),
            None => None,
        }
    } else {
        None
    }
}

/// The walk over the events: the slots closed so far (name and bus), and the slot
/// open now with the bus its first selecting `<Main>` gave, if any yet.
pub open spec fn slot_walk(es: Seq<EventView>) -> (Seq<(Seq<char>, u8)>, Option<(Seq<char>, Option<u8>)>)
    decreases es.len(),
{
    if es.len() == 0 {
        (Seq::empty(), None)
    } else {
        let (slots, cur) = slot_walk(es.drop_last());
        match es.last() {
            EventView::Start(t) => if is_slot_tag(t.0) {
                match first_named_attr(t.1, 0) {
                    Some(n) => (slots, Some((n, None))),
                    None => (slots, cur),
                }
            } else {
                (slots, cur)
            },
            EventView::Empty(t) => if is_main_tag(t.0) {
                match (cur, main_output_bus(t)) {
                    (Some((n, None)), Some(bus)) => (slots, Some((n, Some(bus)))),
                    _ => (slots, cur),
                }
            } else {
                (slots, cur)
            },
            EventView::End(n) => if is_slot_tag(n) {
                match cur {
                    Some((name, bus)) => (slots.push((name, match bus { Some(b) => b, None => 0u8 })), None),
                    None => (slots, None),
                }
            } else {
                (slots, cur)
            },
            _ => (slots, cur),
        }
    }
}

/// The slots an `.ariax` preset names, in order: each `<Slot>` with a `name`
/// attribute, closed by its end tag, with the bus of the first `<Main>` inside it that
/// selects one (bus 0 when none does).
pub open spec fn ariax_slots(es: Seq<EventView>) -> Seq<(Seq<char>, u8)> {
    slot_walk(es).0
}

pub open spec fn slots_view(v: Seq<(String, u8)>) -> Seq<(Seq<char>, u8)> {
    Seq::new(v.len(), |i: int| (v[i].0@, v[i].1))
}

fn tag_is_slot(name: &str) -> (r: bool)
    ensures
        r == is_slot_tag(name@),
{
    str_eq(name, "Slot") || str_eq(name, "slot")
}

fn tag_is_main(name: &str) -> (r: bool)
    ensures
        r == is_main_tag(name@),
{
    str_eq(name, "Main") || str_eq(name, "main")
}

fn slot_name_of(t: &XmlTag) -> (r: Option<String>)
    ensures
        match r {
            Some(n) => first_named_attr(tag_view(*t).1, 0) == Some(n@),
            None => first_named_attr(tag_view(*t).1, 0) is None,
        },
{
    let ghost attrs = tag_view(*t).1;
    let mut i: usize = 0;
    while i < t.attributes.len()
        invariant
            i <= t.attributes@.len(),
            attrs == tag_view(*t).1,
            first_named_attr(attrs, i as int) == first_named_attr(attrs, 0),
        decreases t.attributes@.len() - i,
    {
        if str_eq(t.attributes[i].0.as_str(), "name") {
            return Some(t.attributes[i].1.as_str().to_owned());
        }
        i = i + 1;
    }
    None
}

fn last_int_attr_of(t: &XmlTag, key: &str) -> (r: Option<i32>)
    ensures
        r == last_int_attr(tag_view(*t).1, key@, tag_view(*t).1.len() as int),
{
    let ghost attrs = tag_view(*t).1;
    let mut found: Option<i32> = None;
    let mut i: usize = 0;
    while i < t.attributes.len()
        invariant
            i <= t.attributes@.len(),
            attrs == tag_view(*t).1,
            found == last_int_attr(attrs, key@, i as int),
        decreases t.attributes@.len() - i,
    {
        if str_eq(t.attributes[i].0.as_str(), key) {
            let chars = chars_of(t.attributes[i].1.as_str());
            found = parse_i32(chars.as_slice());
        }
        i = i + 1;
    }
    found
}

fn main_output_bus_of(t: &XmlTag) -> (r: Option<u8>)
    ensures
        r == main_output_bus(tag_view(*t)),
{
    if !tag_is_main(t.name.as_str()) {
        return None;
    }
    let value = last_int_attr_of(t, "value");
    let id = last_int_attr_of(t, "id");
    match value {
        Some(v) => {
            if v != 1 {
                return None;
            }
        },
        None => {
            return None;
        },
    }
    match id {
        Some(i) => Some(if i < 0 { 0u8 } else if i > 31 { 31u8 } else { i as u8 }),
        None => None,
    }
}

/// The slots an `.ariax` preset names, from its XML events, as `ariax_slots` states.
pub fn ariax_slots_from_events(events: &[XmlEvent]) -> (slots: Vec<(String, u8)>)
    ensures
        slots_view(slots@) == ariax_slots(events_view(events@)),
{
    let ghost ev = events_view(events@);
    let mut slots: Vec<(String, u8)> = Vec::new();
    let mut cur: Option<(String, Option<u8>)> = None;
    let mut i: usize = 0;
    assert(ev.subrange(0, 0) =~= Seq::<EventView>::empty());
    while i < events.len()
        invariant
            i <= events@.len(),
            ev == events_view(events@),
            slots_view(slots@) == slot_walk(ev.subrange(0, i as int)).0,
            (match cur {
                Some((n, b)) => Some((n@, b)),
                None => None::<(Seq<char>, Option<u8>)>,
            }) == slot_walk(ev.subrange(0, i as int)).1,
        decreases events@.len() - i,
    {
        assert(ev.subrange(0, i + 1).drop_last() =~= ev.subrange(0, i as int));
        assert(ev.subrange(0, i + 1).last() == event_view(events@[i as int]));
        match &events[i] {
            XmlEvent::Start(t) => {
                if tag_is_slot(t.name.as_str()) {
                    match slot_name_of(t) {
                        Some(n) => {
                            cur = Some((n, None));
                        },
                        None => {},
                    }
                }
            },
            XmlEvent::Empty(t) => {
                if tag_is_main(t.name.as_str()) {
                    let bus = main_output_bus_of(t);
                    match (cur, bus) {
                        (Some((n, None)), Some(b)) => {
                            cur = Some((n, Some(b)));
                        },
                        (c, _) => {
                            cur = c;
                        },
                    }
                }
            },
            XmlEvent::End(n) => {
                if tag_is_slot(n.as_str()) {
                    match cur {
                        Some((name, bus)) => {
                            let ghost prev = slots_view(slots@);
                            let b: u8 = match bus {
                                Some(b) => b,
                                None => 0,
                            };
                            let ghost sv = (name@, b);
                            slots.push((name, b));
                            assert(slots_view(slots@) =~= prev.push(sv));
                        },
                        None => {},
                    }
                    cur = None;
                }
            },
            _ => {},
        }
        i = i + 1;
    }
    assert(ev.subrange(0, i as int) =~= ev);
    slots
}

/// How far a quick-xml reader over a text has got: the text it reads, whether it trims
/// white space around text (`Config::trim_text`), and how many events it has reported.
pub uninterp spec fn reader_progress(reader: Reader<&[u8]>) -> (Seq<char>, bool, nat);

/// The event number `k` (counting from 0) that a quick-xml reader over `xml`, trimming
/// text as `trim` says, reports when asked for one event after another from the start.
pub uninterp spec fn xml_event_at(xml: Seq<char>, trim: bool, k: nat) -> EventView;

/// Calls quick-xml's `Reader::from_str`: a reader over the XML text `xml`, which has
/// reported no event yet and does not trim text (quick-xml's default configuration).
#[verifier::external_body]
fn xml_reader_from_str<'a>(xml: &'a str) -> (r: Reader<&'a [u8]>)
    ensures
        reader_progress(r) == (xml@, false, 0nat),
{
    Reader::from_str(xml)
}

/// Calls quick-xml's `Config::trim_text` on the configuration of a reader that has
/// reported no event yet: white space around text is then dropped, and text made of
/// white space alone is not reported. Only the trim setting changes.
#[verifier::external_body]
fn set_trim_text(reader: &mut Reader<&[u8]>, trim: bool)
    requires
        reader_progress(*old(reader)).2 == 0,
    ensures
        reader_progress(*final(reader)) == (reader_progress(*old(reader)).0, trim, 0nat),
{
    reader.config_mut().trim_text(trim)
}

/// Calls quick-xml's `Reader::read_event_into` with an empty buffer and hands back the
/// event as plain values: for a start or empty-element tag its name and its
/// well-formed attributes (key and raw value text, in order), for an end tag its name,
/// the end of the document, anything else, or an error with its message. The event is
/// the next one of the reader's text, as `xml_event_at` names it, and the reader has
/// reported one event more. A trimming reader that has met neither the end nor an error
/// takes at least one character of its text for each event it reports (a tag from `<`
/// to `>`, a reference from `&` to `;`, or a run of text), so such an event is never
/// reported as number `k` unless `k` is below the text's length.
#[verifier::external_body]
fn read_xml_event(reader: &mut Reader<&[u8]>, buf: &mut Vec<u8>) -> (e: XmlEvent)
    requires
        old(buf)@.len() == 0,
    ensures
        ({
            let (text, trim, k) = reader_progress(*old(reader));
            trim && !is_end(event_view(e)) && (forall|j: nat| j < k ==> !is_end(#[trigger] xml_event_at(text, trim, j)))
                ==> k < text.len()
        }),
        event_view(e) == xml_event_at(
            reader_progress(*old(reader)).0,
            reader_progress(*old(reader)).1,
            reader_progress(*old(reader)).2,
        ),
        reader_progress(*final(reader)) == (
            reader_progress(*old(reader)).0,
            reader_progress(*old(reader)).1,
            reader_progress(*old(reader)).2 + 1,
        ),
{
    let tag = |s: &BytesStart| XmlTag {
        name: s.name().as_ref().to_owned(),
        attributes: s.attributes().flatten().map(|a| (a.key.as_ref().to_owned(), a.value.into_owned())).collect(),
    };
    match reader.read_event_into(buf) {
        Ok(Event::Start(s)) => XmlEvent::Start(tag(&s)),
        Ok(Event::Empty(s)) => XmlEvent::Empty(tag(&s)),
        Ok(Event::End(s)) => XmlEvent::End(s.name().as_ref().to_owned()),
        Ok(Event::Eof) => XmlEvent::Eof,
        Ok(_) => XmlEvent::Other,
        Err(err) => XmlEvent::Error(err.to_string()),
    }
}

/// The text of an error met while reading an `.ariax` preset.
pub open spec fn ariax_error_text(message: Seq<char>) -> Seq<char> {
    "parse .ariax: "@ + message
}

/// Whether an event ends the reading: the end of the document, or an error.
pub open spec fn is_end(e: EventView) -> bool {
    e is Eof || e is Error
}

/// Whether event number `n` of a trimming reader over `xml` is the first that ends the
/// reading.
pub open spec fn first_end(xml: Seq<char>, n: nat) -> bool {
    &&& is_end(xml_event_at(xml, true, n))
    &&& forall|j: nat| j < n ==> !is_end(#[trigger] xml_event_at(xml, true, j))
}

/// The first `n` events of a trimming reader over `xml`.
pub open spec fn events_before(xml: Seq<char>, n: nat) -> Seq<EventView> {
    Seq::new(n, |j: int| xml_event_at(xml, true, j as nat))
}

/// What reading `xml` gives where event number `n` is the first that ends it: the
/// reader's error, or the slots of the events before the end.
pub open spec fn ariax_outcome(xml: Seq<char>, n: nat, r: Result<Vec<(String, u8)>, String>) -> bool {
    match xml_event_at(xml, true, n) {
        EventView::Error(m) => r matches Err(e) && e@ == ariax_error_text(m),
        _ => r matches Ok(v) && slots_view(v@) == ariax_slots(events_before(xml, n)),
    }
}

/// Reads the XML of an `.ariax` preset with text trimmed, up to the first event that
/// ends the reading, and gives the slots that the events before it name (each slot's
/// name and output bus, in order) or the reader's error, as `ariax_outcome` states.
pub fn ariax_slot_entries(xml: &str) -> (r: Result<Vec<(String, u8)>, String>)
    ensures
        exists|n: nat| first_end(xml@, n) && ariax_outcome(xml@, n, r),
{
    let mut reader = xml_reader_from_str(xml);
    set_trim_text(&mut reader, true);
    let mut buf: Vec<u8> = Vec::new();
    let mut events: Vec<XmlEvent> = Vec::new();
    let limit = chars_of(xml).len();
    let mut count: usize = 0;
    assert(events_view(events@) =~= events_before(xml@, 0));
    loop
        invariant_except_break
            count <= limit,
            limit == xml@.len(),
            buf@.len() == 0,
            reader_progress(reader) == (xml@, true, count as nat),
            events_view(events@) == events_before(xml@, count as nat),
            forall|j: nat| j < count ==> !is_end(#[trigger] xml_event_at(xml@, true, j)),
        ensures
            first_end(xml@, count as nat),
            xml_event_at(xml@, true, count as nat) is Eof,
            events_view(events@) == events_before(xml@, count as nat),
        decreases limit - count,
    {
        let ev = read_xml_event(&mut reader, &mut buf);
        let ghost evv = event_view(ev);
        buf.clear();
        match ev {
            XmlEvent::Eof => {
                break;
            },
            XmlEvent::Error(message) => {
                let mut out = chars_of("parse .ariax: ");
                let m = chars_of(message.as_str());
                push_all(&mut out, m.as_slice());
                assert(out@ =~= ariax_error_text(message@));
                let r = Err(string_of(out.as_slice()));
                assert(first_end(xml@, count as nat) && ariax_outcome(xml@, count as nat, r));
                return r;
            },
            other => {
                let ghost before = events_view(events@);
                events.push(other);
                proof {
                    assert(event_view(events@.last()) == evv);
                    assert(events_view(events@) =~= before.push(evv));
                    assert(events_before(xml@, (count + 1) as nat) =~= events_before(xml@, count as nat).push(
                        xml_event_at(xml@, true, count as nat),
                    ));
                }
            },
        }
        count = count + 1;
    }
    let r = Ok(ariax_slots_from_events(events.as_slice()));
    assert(first_end(xml@, count as nat) && ariax_outcome(xml@, count as nat, r));
    r
}

} // verus!
