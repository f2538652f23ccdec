//! `ItemBuffs.xml`: the display template for every buff type, keyed by the same `Type` string
//! the `<Buff>` elements in item files use. Templates carry `%v1`, `%v2`, `%i1`, `%i2`, `%b1`
//! placeholders for the buff's values, sub-targets and bonus type.
//!
//! Read as a stream of events rather than as records: a long description is split over several
//! `<DisplayText>` elements that upstream interleaves with `<Effect>` and `<Requirements>`.

use quick_xml::events::Event;
use quick_xml::Reader;
use vstd::prelude::*;
use crate::text::{chars_eq, chars_of, eq_str, join, slice_chars, string_of, trim, trim_chars};

verus! {

/// An event of the XML stream, as far as this reader needs it.
#[derive(Debug, Clone, PartialEq, Eq)]
pub enum XmlEvent {
    /// A start tag, by qualified name.
    Start(String),
    /// An end tag, by qualified name.
    End(String),
    /// Character data between tags, with whitespace-only runs dropped.
    Text(String),
    /// Anything else: empty elements, comments, CDATA, declarations, entity references.
    Other,
}

/// [`XmlEvent`] with its text as characters.
pub enum EventView {
    Start(Seq<char>),
    End(Seq<char>),
    Text(Seq<char>),
    Other,
}

impl View for XmlEvent {
    type V = EventView;

    open spec fn view(&self) -> EventView {
        match self {
            XmlEvent::Start(n) => EventView::Start(n@),
            XmlEvent::End(n) => EventView::End(n@),
            XmlEvent::Text(t) => EventView::Text(t@),
            XmlEvent::Other => EventView::Other,
        }
    }
}

pub open spec fn event_views(es: Seq<XmlEvent>) -> Seq<EventView> {
    es.map_values(|e: XmlEvent| e@)
}

/// The file is not well-formed XML.
#[derive(Debug, Clone, PartialEq, Eq)]
pub struct XmlError {
    pub message: String,
}

/// The event stream quick-xml reads from `text` with whitespace-only text dropped, up to the end
/// of the document; `None` when it reports an error first.
pub uninterp spec fn xml_events(text: Seq<char>) -> Option<Seq<EventView>>;

/// `quick_xml::Reader::read_event` until `Eof`, on a reader over `text` configured with
/// `trim_text(true)`. The events are those of [`xml_events`]; an error's message is not stated.
#[verifier::external_body]
fn read_events(text: &str) -> (r: Result<Vec<XmlEvent>, XmlError>)
    ensures
        match r {
            Ok(es) => xml_events(text@) == Some(event_views(es@)),
            Err(_) => xml_events(text@) is None,
        },
{
    let mut reader = Reader::from_str(text);
    reader.config_mut().trim_text(true);
    let mut out = Vec::new();
    loop {
        out.push(match reader.read_event() {
            Ok(Event::Eof) => return Ok(out),
            Ok(Event::Start(e)) => XmlEvent::Start(e.name().as_ref().to_string()),
            Ok(Event::End(e)) => XmlEvent::End(e.name().as_ref().to_string()),
            Ok(Event::Text(t)) => XmlEvent::Text(t.xml10_content().into_owned()),
            Ok(_) => XmlEvent::Other,
            Err(e) => return Err(XmlError { message: format!("{e}") }),
        });
    }
}

/// What the reader is capturing: nothing, a `<Type>`, or a `<DisplayText>`.
pub open spec fn capture_of(name: Seq<char>) -> int {
    if name == "Type"@ {
        1
    } else if name == "DisplayText"@ {
        2
    } else {
        0
    }
}

/// The reader's state: `(depth, type read, paragraphs read, capturing, templates so far)`.
pub type ScanState = (nat, Option<Seq<char>>, Seq<Seq<char>>, int, Seq<(Seq<char>, Seq<char>)>);

/// The first index at or after `i` where `out` has `key`.
pub open spec fn key_index_from(out: Seq<(Seq<char>, Seq<char>)>, key: Seq<char>, i: int) -> Option<int>
    decreases out.len() - i,
{
    if i < 0 || i >= out.len() {
        None
    } else if out[i].0 == key {
        Some(i)
    } else {
        key_index_from(out, key, i + 1)
    }
}

/// `out` with `key` set to `value`: replaced where the key first is, appended otherwise.
pub open spec fn upsert(out: Seq<(Seq<char>, Seq<char>)>, key: Seq<char>, value: Seq<char>) -> Seq<
    (Seq<char>, Seq<char>),
> {
    match key_index_from(out, key, 0) {
        Some(i) => out.update(i, (key, value)),
        None => out.push((key, value)),
    }
}

/// One event through the reader. A start tag at depth 3 (a child of a `<Buff>`) starts or stops
/// capturing; captured text sets the type or adds a paragraph (when not empty); the end of a
/// `<Buff>` at depth 2 records its paragraphs, joined by newlines, under its type, if it had one.
pub open spec fn scan_step(s: ScanState, e: EventView) -> ScanState {
    let (depth, kind, paras, capturing, out) = s;
    match e {
        EventView::Start(name) => {
            let d = depth + 1;
            (d, kind, paras, if d == 3 { capture_of(name) } else { capturing }, out)
        },
        EventView::Text(t) => {
            let v = trim(t);
            if capturing == 1 {
                (depth, Some(v), paras, capturing, out)
            } else if capturing == 2 && v.len() > 0 {
                (depth, kind, paras.push(v), capturing, out)
            } else {
                (depth, kind, paras, capturing, out)
            }
        },
        EventView::End(name) => {
            let c = if depth == 3 { 0 } else { capturing };
            let d: nat = if depth > 0 { (depth - 1) as nat } else { 0 };
            if depth == 2 && name == "Buff"@ {
                match kind {
                    Some(k) => (d, None, Seq::empty(), c, upsert(out, k, join(paras, "\n"@))),
                    None => (d, None, Seq::empty(), c, out),
                }
            } else {
                (d, kind, paras, c, out)
            }
        },
        EventView::Other => s,
    }
}

/// The reader's state after the events.
pub open spec fn scan(es: Seq<EventView>) -> ScanState
    decreases es.len(),
{
    if es.len() == 0 {
        (0, None, Seq::empty(), 0, Seq::empty())
    } else {
        scan_step(scan(es.drop_last()), es.last())
    }
}

/// The templates the events hold, as `(type, template)`, each type once.
pub open spec fn templates(es: Seq<EventView>) -> Seq<(Seq<char>, Seq<char>)> {
    scan(es).4
}

pub open spec fn pair_views(v: Seq<(String, String)>) -> Seq<(Seq<char>, Seq<char>)> {
    v.map_values(|p: (String, String)| (p.0@, p.1@))
}

fn join_paragraphs(paras: &Vec<String>) -> (r: String)
    ensures
        r@ == join(paras@.map_values(|s: String| s@), "\n"@),
{
    let mut parts: Vec<Vec<char>> = Vec::new();
    let mut k: usize = 0;
    while k < paras.len()
        invariant
            k <= paras@.len(),
            parts@.map_values(|v: Vec<char>| v@) =~= paras@.subrange(0, k as int).map_values(|s: String| s@),
        decreases paras@.len() - k,
    {
        let ghost before = parts@.map_values(|v: Vec<char>| v@);
        parts.push(chars_of(paras[k].as_str()));
        assert(parts@.map_values(|v: Vec<char>| v@) =~= before.push(paras@[k as int]@));
        k += 1;
    }
    assert(paras@.subrange(0, paras@.len() as int) =~= paras@);
    let r = crate::text::join_chars(&parts, "\n");
    string_of(r.as_slice())
}

/// Set `key` to `value` in the list.
pub fn upsert_exec(out: &mut Vec<(String, String)>, key: String, value: String)
    ensures
        pair_views(final(out)@) == upsert(pair_views(old(out)@), key@, value@),
{
    let ghost o = pair_views(out@);
    let kc = chars_of(key.as_str());
    let mut i: usize = 0;
    while i < out.len()
        invariant
            i <= out@.len(),
            o == pair_views(out@),
            o == pair_views(old(out)@),
            kc@ == key@,
            key_index_from(o, key@, 0) == key_index_from(o, key@, i as int),
        decreases out@.len() - i,
    {
        let c = chars_of(out[i].0.as_str());
        assert(o[i as int].0 == out@[i as int].0@);
        if chars_eq(c.as_slice(), kc.as_slice()) {
            out.set(i, (key, value));
            assert(pair_views(out@) =~= o.update(i as int, (key@, value@)));
            return;
        }
        i += 1;
    }
    out.push((key, value));
    assert(pair_views(out@) =~= o.push((key@, value@)));
}

fn capture_exec(name: &str) -> (r: u8)
    ensures
        r as int == capture_of(name@),
{
    let c = chars_of(name);
    if eq_str(c.as_slice(), "Type") {
        1
    } else if eq_str(c.as_slice(), "DisplayText") {
        2
    } else {
        0
    }
}

/// The templates an event stream holds, as `(type, template)` with each type once: for every
/// `<Buff>` (an element at depth 2) with a `<Type>`, its `<DisplayText>` paragraphs joined by
/// newlines. A later `<Buff>` of the same type replaces the template.
pub fn templates_from_events(events: Vec<XmlEvent>) -> (r: Vec<(String, String)>)
    ensures
        pair_views(r@) == templates(event_views(events@)),
{
    let mut depth: usize = 0;
    let mut kind: Option<String> = None;
    let mut paras: Vec<String> = Vec::new();
    let mut capturing: u8 = 0;
    let mut out: Vec<(String, String)> = Vec::new();
    let ghost ev = event_views(events@);
    let mut k: usize = 0;
    assert(ev.subrange(0, 0) =~= Seq::<EventView>::empty());
    assert(paras@.map_values(|s: String| s@) =~= Seq::<Seq<char>>::empty());
    assert(pair_views(out@) =~= Seq::<(Seq<char>, Seq<char>)>::empty());
    while k < events.len()
        invariant
            k <= events@.len(),
            ev == event_views(events@),
            depth <= k,
            (depth as nat, crate::text::opt_string(kind), paras@.map_values(|s: String| s@), capturing as int, pair_views(out@))
                == scan(ev.subrange(0, k as int)),
        decreases events@.len() - k,
    {
        assert(ev.subrange(0, k + 1).drop_last() =~= ev.subrange(0, k as int));
        assert(ev.subrange(0, k + 1).last() == events@[k as int]@);
        match &events[k] {
            XmlEvent::Start(name) => {
                depth = depth + 1;
                if depth == 3 {
                    capturing = capture_exec(name.as_str());
                }
            },
            XmlEvent::Text(t) => {
                let v = crate::text::trim_str(t.as_str());
                if capturing == 1 {
                    kind = Some(v);
                } else if capturing == 2 && !v.as_str().is_empty() {
                    let ghost before = paras@.map_values(|s: String| s@);
                    paras.push(v);
                    assert(paras@.map_values(|s: String| s@) =~= before.push(trim(t@)));
                }
            },
            XmlEvent::End(name) => {
                if depth == 3 {
                    capturing = 0;
                }
                let nc = chars_of(name.as_str());
                if depth == 2 && eq_str(nc.as_slice(), "Buff") {
                    match kind {
                        Some(kd) => {
                            let joined = join_paragraphs(&paras);
                            upsert_exec(&mut out, kd, joined);
                        },
                        None => {},
                    }
                    kind = None;
                    paras = Vec::new();
                    assert(paras@.map_values(|s: String| s@) =~= Seq::<Seq<char>>::empty());
                }
                if depth > 0 {
                    depth = depth - 1;
                }
            },
            XmlEvent::Other => {},
        }
        k += 1;
    }
    assert(ev.subrange(0, events@.len() as int) =~= ev);
    out
}

/// `text` without a leading byte order mark.
pub open spec fn without_bom(text: Seq<char>) -> Seq<char> {
    if text.len() > 0 && text[0] == '\u{feff}' {
        text.drop_first()
    } else {
        text
    }
}

/// Read `ItemBuffs.xml` (which may start with a byte order mark) into its templates. Rejected
/// when the file is not well-formed XML.
pub fn parse(text: &str) -> (r: Result<Vec<(String, String)>, XmlError>)
    ensures
        match r {
            Ok(v) => xml_events(without_bom(text@)) matches Some(es) && pair_views(v@) == templates(es),
            Err(_) => xml_events(without_bom(text@)) is None,
        },
{
    let c = chars_of(text);
    let body = if c.len() > 0 && c[0] == '\u{feff}' {
        slice_chars(c.as_slice(), 1, c.len())
    } else {
        slice_chars(c.as_slice(), 0, c.len())
    };
    assert(body@ =~= without_bom(text@));
    let s = string_of(body.as_slice());
    match read_events(s.as_str()) {
        Ok(events) => Ok(templates_from_events(events)),
        Err(e) => Err(e),
    }
}

} // verus!
