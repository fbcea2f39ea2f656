use vstd::prelude::*;
use vstd::utf8::{encode_utf8, valid_utf8};
use crate::errors::{Error, ExtractResult};
use crate::metadata::{spec_insert, MetaEntry, Metadata};
use crate::numfmt::{spec_u64_str, u64_to_string};
use vstd::string::StringExecFns;
use quick_xml::events::Event;

verus! {

fn insert_one(m: &mut Metadata, key: String, value: String)
    requires
        old(m).wf(),
    ensures
        final(m).wf(),
        final(m)@ == spec_insert(old(m)@, key@, seq![value@]),
{
    let mut vs: Vec<String> = Vec::new();
    vs.push(value);
    proof {
        assert(vs.deep_view() =~= seq![value@]);
    }
    m.insert(key, vs);
}

proof fn lemma_meta_keys_distinct()
    ensures
        "Content-Type"@ != "File-Size"@,
        "Content-Type"@ != "Parser"@,
        "File-Size"@ != "Parser"@,
        "Content-Type"@ != "Sheet-Count"@,
        "File-Size"@ != "Sheet-Count"@,
        "Parser"@ != "Sheet-Count"@,
{
    reveal_strlit("Content-Type");
    reveal_strlit("File-Size");
    reveal_strlit("Parser");
    reveal_strlit("Sheet-Count");
    assert("Content-Type"@.len() == 12);
    assert("File-Size"@.len() == 9);
    assert("Parser"@.len() == 6);
    assert("Sheet-Count"@.len() == 11);
}

/// The metadata every in-process parser attaches: the media type, the
/// source's byte size, and the parser's name.
pub open spec fn spec_parser_meta(ct: Seq<char>, size: u64, parser: Seq<char>) -> Seq<MetaEntry> {
    seq![
        ("Content-Type"@, seq![ct]),
        ("File-Size"@, seq![spec_u64_str(size)]),
        ("Parser"@, seq![parser]),
    ]
}

fn parser_meta(ct: String, size: u64, parser: String) -> (m: Metadata)
    ensures
        m.wf(),
        m@ == spec_parser_meta(ct@, size, parser@),
{
    let mut m = Metadata::new();
    insert_one(&mut m, "Content-Type".to_owned(), ct);
    proof {
        assert(m@ =~= seq![("Content-Type"@, seq![ct@])]);
    }
    insert_one(&mut m, "File-Size".to_owned(), u64_to_string(size));
    proof {
        lemma_meta_keys_distinct();
        let p1 = seq![(("Content-Type"@), seq![ct@])];
        assert(p1.drop_first() =~= Seq::<MetaEntry>::empty());
        assert(crate::metadata::spec_find(p1.drop_first(), "File-Size"@) == 0);
        assert(crate::metadata::spec_find(p1, "File-Size"@) == 1);
        assert(m@ =~= seq![("Content-Type"@, seq![ct@]), ("File-Size"@, seq![spec_u64_str(size)])]);
    }
    insert_one(&mut m, "Parser".to_owned(), parser);
    proof {
        lemma_meta_keys_distinct();
        let p2 = seq![
            (("Content-Type"@), seq![ct@]),
            (("File-Size"@), seq![spec_u64_str(size)]),
        ];
        assert(p2.drop_first() =~= seq![(("File-Size"@), seq![spec_u64_str(size)])]);
        assert(p2.drop_first().drop_first() =~= Seq::<MetaEntry>::empty());
        assert(crate::metadata::spec_find(p2.drop_first().drop_first(), "Parser"@) == 0);
        assert(crate::metadata::spec_find(p2.drop_first(), "Parser"@) == 1);
        assert(crate::metadata::spec_find(p2, "Parser"@) == 2);
        assert(m@ =~= spec_parser_meta(ct@, size, parser@));
    }
    m
}

/// Assembles the extraction outcome for a PDF source of `size` bytes
/// from the PDF parser's own outcome. The parser (pdf-extract) can abort
/// the process on malformed input, so the library never calls it; the
/// shell runs it behind an unwind boundary and hands the outcome in here
/// as a plain value. Succeeds exactly when the parser did, with the
/// parser's text and the standard metadata; a failure becomes a parse
/// error carrying the parser's message.
pub fn pdf_outcome_from_text(parsed: Result<String, String>, size: u64) -> (r: ExtractResult<
    (String, Metadata),
>)
    ensures
        r is Ok <==> parsed is Ok,
        parsed matches Ok(t) ==> (r matches Ok(tm) && tm.0@ == t@ && tm.1@ == spec_parser_meta(
            "application/pdf"@,
            size,
            "pure-rust-pdf"@,
        ) && tm.1.wf()),
        parsed matches Err(m) ==> (r matches Err(e) && e is ParseError && e->ParseError_0@ == m@),
{
    match parsed {
        Ok(text) => {
            let m = parser_meta("application/pdf".to_owned(), size, "pure-rust-pdf".to_owned());
            Ok((text, m))
        },
        Err(msg) => Err(Error::ParseError(msg)),
    }
}

#[verifier::external_type_specification]
#[verifier::external_body]
#[verifier::reject_recursive_types(R)]
pub struct ExXmlReader<R>(quick_xml::reader::Reader<R>);

/// One markup event, reduced to plain values.
pub enum XmlEvent {
    /// A start tag, by name.
    Open(Vec<u8>),
    /// An end tag, by name.
    Close(Vec<u8>),
    /// Unescaped character data.
    Content(String),
    /// The escaped form of a CDATA section.
    RawContent(String),
    /// An event the text extraction ignores.
    Skip,
    /// The end of the document.
    Done,
    /// A malformed document, with the parser's message.
    Fault(String),
}

/// The sequence of markup events the parser produces for a byte buffer,
/// cut at its first terminal event (end of document or fault), which it
/// includes. What the parser yields takes pages to state, but it depends
/// on the bytes alone, so the sequence carries a name that contracts can
/// speak of exactly.
pub uninterp spec fn xml_events_of(data: Seq<u8>) -> Seq<XmlEvent>;

/// The events a reader has still to yield.
pub uninterp spec fn reader_events(r: quick_xml::reader::Reader<std::io::Cursor<Vec<u8>>>) -> Seq<
    XmlEvent,
>;

/// The event ends the stream: the document's end, or a parser fault.
pub open spec fn is_terminal_event(ev: XmlEvent) -> bool {
    ev is Done || ev is Fault
}

/// The stream ends in exactly one terminal event, at its last position.
pub open spec fn terminal_shaped(evs: Seq<XmlEvent>) -> bool {
    &&& evs.len() >= 1
    &&& is_terminal_event(evs.last())
    &&& forall|i: int| 0 <= i < evs.len() - 1 ==> !is_terminal_event(#[trigger] evs[i])
}

/// Relies on quick_xml's Reader::from_reader and trim_text: a reader
/// over the bytes that trims text events and will yield exactly the
/// buffer's events. On a finite input the parser always reaches the end
/// of the document or reports an error, so the stream ends in one
/// terminal event.
#[verifier::external_body]
fn xml_reader_from_bytes(data: &[u8]) -> (r: quick_xml::reader::Reader<std::io::Cursor<Vec<u8>>>)
    ensures
        reader_events(r) == xml_events_of(data@),
        terminal_shaped(reader_events(r)),
{
    let mut reader = quick_xml::reader::Reader::from_reader(std::io::Cursor::new(data.to_vec()));
    reader.trim_text(true);
    reader
}

/// Relies on quick_xml's Reader::read_event_into and the event accessors
/// name, unescape and escape: the reader's next pending event, each
/// variant's data moved out as plain bytes or text.
#[verifier::external_body]
fn read_xml_event(
    reader: &mut quick_xml::reader::Reader<std::io::Cursor<Vec<u8>>>,
    buf: &mut Vec<u8>,
) -> (ev: XmlEvent)
    ensures
        reader_events(*old(reader)).len() > 0 ==> ev == reader_events(*old(reader))[0]
            && reader_events(*final(reader)) == reader_events(*old(reader)).drop_first(),
{
    match reader.read_event_into(buf) {
        Ok(Event::Start(e)) => XmlEvent::Open(e.name().as_ref().to_vec()),
        Ok(Event::End(e)) => XmlEvent::Close(e.name().as_ref().to_vec()),
        Ok(Event::Text(e)) => XmlEvent::Content(e.unescape().unwrap_or_default().into_owned()),
        Ok(Event::CData(e)) => match e.escape() {
            Ok(t) => XmlEvent::RawContent(String::from_utf8_lossy(&t).into_owned()),
            Err(_) => XmlEvent::RawContent(String::new()),
        },
        Ok(Event::Eof) => XmlEvent::Done,
        Ok(_) => XmlEvent::Skip,
        Err(e) => XmlEvent::Fault(e.to_string()),
    }
}

fn collect_xml_events(data: &[u8]) -> (evs: Vec<XmlEvent>)
    ensures
        evs@ == xml_events_of(data@),
{
    let mut reader = xml_reader_from_bytes(data);
    let ghost all = xml_events_of(data@);
    let mut buf: Vec<u8> = Vec::new();
    let mut evs: Vec<XmlEvent> = Vec::new();
    loop
        invariant_except_break
            forall|i: int| 0 <= i < evs@.len() ==> !is_terminal_event(#[trigger] evs@[i]),
        invariant
            all == xml_events_of(data@),
            terminal_shaped(all),
            evs@.len() <= all.len(),
            evs@ == all.take(evs@.len() as int),
            reader_events(reader) == all.skip(evs@.len() as int),
        ensures
            evs@ == all,
        decreases all.len() - evs@.len(),
    {
        proof {
            if evs@.len() == all.len() {
                assert(evs@[all.len() - 1] == all[all.len() - 1]);
                assert(false);
            }
            assert(reader_events(reader).len() > 0);
            assert(reader_events(reader)[0] == all[evs@.len() as int]);
        }
        let ghost k = evs@.len() as int;
        let ev = read_xml_event(&mut reader, &mut buf);
        buf.clear();
        proof {
            assert(ev == all[k]);
            assert(all.skip(k).drop_first() =~= all.skip(k + 1));
        }
        let stop = match &ev {
            XmlEvent::Done => true,
            XmlEvent::Fault(_) => true,
            _ => false,
        };
        evs.push(ev);
        proof {
            assert(evs@ =~= all.take(k + 1));
        }
        if stop {
            proof {
                assert(is_terminal_event(all[k]));
                assert(k == all.len() - 1);
                assert(evs@ =~= all);
            }
            break ;
        }
        proof {
            assert(!is_terminal_event(all[k]));
        }
    }
    evs
}

/// The tag name is `script`.
pub open spec fn is_script_tag(n: Seq<u8>) -> bool {
    n.len() == 6 && n[0] == 0x73 && n[1] == 0x63 && n[2] == 0x72 && n[3] == 0x69 && n[4] == 0x70
        && n[5] == 0x74
}

/// The tag name is `style`.
pub open spec fn is_style_tag(n: Seq<u8>) -> bool {
    n.len() == 5 && n[0] == 0x73 && n[1] == 0x74 && n[2] == 0x79 && n[3] == 0x6c && n[4] == 0x65
}

/// The tag name is `p`, `div` or `br`: an end tag that becomes a line
/// break.
pub open spec fn is_break_tag(n: Seq<u8>) -> bool {
    ||| (n.len() == 1 && n[0] == 0x70)
    ||| (n.len() == 3 && n[0] == 0x64 && n[1] == 0x69 && n[2] == 0x76)
    ||| (n.len() == 2 && n[0] == 0x62 && n[1] == 0x72)
}

fn check_script_tag(n: &Vec<u8>) -> (r: bool)
    ensures
        r == is_script_tag(n@),
{
    n.len() == 6 && n[0] == 0x73 && n[1] == 0x63 && n[2] == 0x72 && n[3] == 0x69 && n[4] == 0x70
        && n[5] == 0x74
}

fn check_style_tag(n: &Vec<u8>) -> (r: bool)
    ensures
        r == is_style_tag(n@),
{
    n.len() == 5 && n[0] == 0x73 && n[1] == 0x74 && n[2] == 0x79 && n[3] == 0x6c && n[4] == 0x65
}

fn check_break_tag(n: &Vec<u8>) -> (r: bool)
    ensures
        r == is_break_tag(n@),
{
    (n.len() == 1 && n[0] == 0x70) || (n.len() == 3 && n[0] == 0x64 && n[1] == 0x69 && n[2] == 0x76)
        || (n.len() == 2 && n[0] == 0x62 && n[1] == 0x72)
}

/// Prefixes the text of a successful fold; a failure passes through.
pub open spec fn emit_then(p: Seq<char>, r: Result<Seq<char>, Seq<char>>) -> Result<
    Seq<char>,
    Seq<char>,
> {
    match r {
        Ok(t) => Ok(p + t),
        Err(e) => Err(e),
    }
}

/// The text that the HTML extraction builds from the events at `i` on,
/// given whether the scan is inside a script or style element: text
/// events outside those elements are kept with a trailing space, a
/// closing `p`, `div` or `br` becomes a line break, and a parser fault
/// ends the fold with its message.
pub open spec fn spec_html_fold(evs: Seq<XmlEvent>, i: int, in_ss: bool) -> Result<
    Seq<char>,
    Seq<char>,
>
    decreases evs.len() - i,
{
    if i < 0 || i >= evs.len() {
        Ok(seq![])
    } else {
        match evs[i] {
            XmlEvent::Open(name) => {
                if is_script_tag(name@) || is_style_tag(name@) {
                    spec_html_fold(evs, i + 1, true)
                } else {
                    spec_html_fold(evs, i + 1, in_ss)
                }
            },
            XmlEvent::Close(name) => {
                if is_script_tag(name@) || is_style_tag(name@) {
                    spec_html_fold(evs, i + 1, false)
                } else if is_break_tag(name@) {
                    emit_then(seq!['\n'], spec_html_fold(evs, i + 1, in_ss))
                } else {
                    spec_html_fold(evs, i + 1, in_ss)
                }
            },
            XmlEvent::Content(s) => {
                if !in_ss {
                    emit_then(s@ + seq![' '], spec_html_fold(evs, i + 1, in_ss))
                } else {
                    spec_html_fold(evs, i + 1, in_ss)
                }
            },
            XmlEvent::RawContent(_) => spec_html_fold(evs, i + 1, in_ss),
            XmlEvent::Skip => spec_html_fold(evs, i + 1, in_ss),
            XmlEvent::Done => Ok(seq![]),
            XmlEvent::Fault(m) => Err(m@),
        }
    }
}

/// Builds the HTML text from a sequence of markup events: exactly the
/// fold that `spec_html_fold` describes.
pub fn html_text_from_events(events: &Vec<XmlEvent>) -> (r: Result<String, String>)
    ensures
        r matches Ok(t) ==> spec_html_fold(events@, 0, false) == Ok::<Seq<char>, Seq<char>>(t@),
        r matches Err(e) ==> spec_html_fold(events@, 0, false) == Err::<Seq<char>, Seq<char>>(e@),
{
    let n = events.len();
    let mut out: Vec<char> = Vec::new();
    let mut in_ss = false;
    let mut i: usize = 0;
    while i < n
        invariant
            n == events@.len(),
            0 <= i <= n,
            spec_html_fold(events@, 0, false) == emit_then(
                out@,
                spec_html_fold(events@, i as int, in_ss),
            ),
        decreases n - i,
    {
        let ghost out0 = out@;
        match &events[i] {
            XmlEvent::Open(name) => {
                if check_script_tag(name) || check_style_tag(name) {
                    in_ss = true;
                }
            },
            XmlEvent::Close(name) => {
                if check_script_tag(name) || check_style_tag(name) {
                    in_ss = false;
                } else if check_break_tag(name) {
                    out.push('\n');
                    proof {
                        assert(out@ =~= out0 + seq!['\n']);
                        lemma_emit_then_assoc(
                            out0,
                            seq!['\n'],
                            spec_html_fold(events@, i + 1, in_ss),
                        );
                    }
                }
            },
            XmlEvent::Content(s) => {
                if !in_ss {
                    let cv = crate::strutil::chars_of(s.as_str());
                    let m = cv.len();
                    let mut k: usize = 0;
                    while k < m
                        invariant
                            m == cv@.len(),
                            0 <= k <= m,
                            out@ == out0 + cv@.take(k as int),
                        decreases m - k,
                    {
                        let c = cv[k];
                        out.push(c);
                        proof {
                            assert(out@ =~= out0 + cv@.take(k + 1));
                        }
                        k += 1;
                    }
                    out.push(' ');
                    proof {
                        assert(cv@.take(m as int) =~= cv@);
                        assert(out@ =~= out0 + (s@ + seq![' ']));
                        lemma_emit_then_assoc(
                            out0,
                            s@ + seq![' '],
                            spec_html_fold(events@, i + 1, in_ss),
                        );
                    }
                }
            },
            XmlEvent::RawContent(_) => {},
            XmlEvent::Skip => {},
            XmlEvent::Done => {
                proof {
                    lemma_emit_then_flatten(out0, Seq::<char>::empty());
                }
                return Ok(crate::strutil::string_from_chars(&out));
            },
            XmlEvent::Fault(m) => {
                return Err(m.clone());
            },
        }
        i += 1;
    }
    proof {
        lemma_emit_then_flatten(out@, Seq::<char>::empty());
    }
    Ok(crate::strutil::string_from_chars(&out))
}

proof fn lemma_emit_then_assoc(a: Seq<char>, b: Seq<char>, r: Result<Seq<char>, Seq<char>>)
    ensures
        emit_then(a, emit_then(b, r)) == emit_then(a + b, r),
{
    match r {
        Ok(t) => {
            assert(a + (b + t) =~= (a + b) + t);
        },
        Err(_) => {},
    }
}

proof fn lemma_emit_then_flatten(a: Seq<char>, t: Seq<char>)
    ensures
        emit_then(a, Ok::<Seq<char>, Seq<char>>(t)) == Ok::<Seq<char>, Seq<char>>(a + t),
        a + Seq::<char>::empty() =~= a,
{
}

/// The text that the XML extraction builds from the events at `i` on:
/// every text event and every CDATA section is kept with a trailing
/// space, and a parser fault ends the fold with its message.
pub open spec fn spec_xml_fold(evs: Seq<XmlEvent>, i: int) -> Result<Seq<char>, Seq<char>>
    decreases evs.len() - i,
{
    if i < 0 || i >= evs.len() {
        Ok(seq![])
    } else {
        match evs[i] {
            XmlEvent::Content(s) => emit_then(s@ + seq![' '], spec_xml_fold(evs, i + 1)),
            XmlEvent::RawContent(s) => emit_then(s@ + seq![' '], spec_xml_fold(evs, i + 1)),
            XmlEvent::Open(_) => spec_xml_fold(evs, i + 1),
            XmlEvent::Close(_) => spec_xml_fold(evs, i + 1),
            XmlEvent::Skip => spec_xml_fold(evs, i + 1),
            XmlEvent::Done => Ok(seq![]),
            XmlEvent::Fault(m) => Err(m@),
        }
    }
}

/// Builds the XML text from a sequence of markup events: exactly the
/// fold that `spec_xml_fold` describes.
pub fn xml_text_from_events(events: &Vec<XmlEvent>) -> (r: Result<String, String>)
    ensures
        r matches Ok(t) ==> spec_xml_fold(events@, 0) == Ok::<Seq<char>, Seq<char>>(t@),
        r matches Err(e) ==> spec_xml_fold(events@, 0) == Err::<Seq<char>, Seq<char>>(e@),
{
    let n = events.len();
    let mut out: Vec<char> = Vec::new();
    let mut i: usize = 0;
    while i < n
        invariant
            n == events@.len(),
            0 <= i <= n,
            spec_xml_fold(events@, 0) == emit_then(out@, spec_xml_fold(events@, i as int)),
        decreases n - i,
    {
        let ghost out0 = out@;
        match &events[i] {
            XmlEvent::Content(s) => {
                push_text_and_space(&mut out, s);
                proof {
                    assert(out@ =~= out0 + (s@ + seq![' ']));
                    lemma_emit_then_assoc(out0, s@ + seq![' '], spec_xml_fold(events@, i + 1));
                }
            },
            XmlEvent::RawContent(s) => {
                push_text_and_space(&mut out, s);
                proof {
                    assert(out@ =~= out0 + (s@ + seq![' ']));
                    lemma_emit_then_assoc(out0, s@ + seq![' '], spec_xml_fold(events@, i + 1));
                }
            },
            XmlEvent::Open(_) => {},
            XmlEvent::Close(_) => {},
            XmlEvent::Skip => {},
            XmlEvent::Done => {
                proof {
                    lemma_emit_then_flatten(out0, Seq::<char>::empty());
                }
                return Ok(crate::strutil::string_from_chars(&out));
            },
            XmlEvent::Fault(m) => {
                return Err(m.clone());
            },
        }
        i += 1;
    }
    proof {
        lemma_emit_then_flatten(out@, Seq::<char>::empty());
    }
    Ok(crate::strutil::string_from_chars(&out))
}

fn push_text_and_space(out: &mut Vec<char>, s: &String)
    ensures
        final(out)@ == old(out)@ + s@ + seq![' '],
{
    let ghost out0 = out@;
    let cv = crate::strutil::chars_of(s.as_str());
    let m = cv.len();
    let mut k: usize = 0;
    while k < m
        invariant
            m == cv@.len(),
            cv@ == s@,
            0 <= k <= m,
            out@ == out0 + cv@.take(k as int),
        decreases m - k,
    {
        let c = cv[k];
        out.push(c);
        proof {
            assert(out@ =~= out0 + cv@.take(k + 1));
        }
        k += 1;
    }
    out.push(' ');
    proof {
        assert(cv@.take(m as int) =~= cv@);
        assert(out@ =~= out0 + s@ + seq![' ']);
    }
}

/// Extracts the readable text from HTML bytes: the buffer must be valid
/// UTF-8, script and style content is dropped, tags separate text, and
/// paragraph breaks become line breaks. The result is exactly the fold
/// of the buffer's markup events; the extraction succeeds exactly when
/// the buffer is valid UTF-8 and the markup parses. Metadata describes
/// the buffer.
pub fn extract_html_text(data: &[u8]) -> (r: ExtractResult<(String, Metadata)>)
    ensures
        r is Ok <==> valid_utf8(data@) && spec_html_fold(xml_events_of(data@), 0, false) is Ok,
        r matches Ok(tm) ==> Ok::<Seq<char>, Seq<char>>(tm.0@) == spec_html_fold(
            xml_events_of(data@),
            0,
            false,
        ) && tm.1@ == spec_parser_meta("text/html"@, data@.len() as u64, "pure-rust-html"@)
            && tm.1.wf(),
        r is Err ==> r->Err_0 is ParseError,
        valid_utf8(data@) && r is Err ==> r->Err_0->ParseError_0@ == "HTML parse error: "@
            + spec_html_fold(xml_events_of(data@), 0, false)->Err_0,
{
    if !crate::text::validate_utf8_fast(data) {
        return Err(Error::ParseError("Invalid UTF-8 in HTML".to_owned()));
    }
    let len = data.len() as u64;
    let evs = collect_xml_events(data);
    match html_text_from_events(&evs) {
        Ok(text) => {
            let m = parser_meta("text/html".to_owned(), len, "pure-rust-html".to_owned());
            Ok((text, m))
        },
        Err(msg) => Err(Error::ParseError("HTML parse error: ".to_owned().concat(msg.as_str()))),
    }
}

/// Extracts the character data from XML bytes: the buffer must be valid
/// UTF-8, and every text and CDATA section is kept, each followed by a
/// space. The result is exactly the fold of the buffer's markup events;
/// the extraction succeeds exactly when the buffer is valid UTF-8 and
/// the markup parses. Metadata describes the buffer.
pub fn extract_xml_text(data: &[u8]) -> (r: ExtractResult<(String, Metadata)>)
    ensures
        r is Ok <==> valid_utf8(data@) && spec_xml_fold(xml_events_of(data@), 0) is Ok,
        r matches Ok(tm) ==> Ok::<Seq<char>, Seq<char>>(tm.0@) == spec_xml_fold(
            xml_events_of(data@),
            0,
        ) && tm.1@ == spec_parser_meta("application/xml"@, data@.len() as u64, "pure-rust-xml"@)
            && tm.1.wf(),
        r is Err ==> r->Err_0 is ParseError,
        valid_utf8(data@) && r is Err ==> r->Err_0->ParseError_0@ == "XML parse error: "@
            + spec_xml_fold(xml_events_of(data@), 0)->Err_0,
{
    if !crate::text::validate_utf8_fast(data) {
        return Err(Error::ParseError("Invalid UTF-8 in XML".to_owned()));
    }
    let len = data.len() as u64;
    let evs = collect_xml_events(data);
    match xml_text_from_events(&evs) {
        Ok(text) => {
            let m = parser_meta("application/xml".to_owned(), len, "pure-rust-xml".to_owned());
            Ok((text, m))
        },
        Err(msg) => Err(Error::ParseError("XML parse error: ".to_owned().concat(msg.as_str()))),
    }
}


#[verifier::external_type_specification]
#[verifier::external_body]
#[verifier::reject_recursive_types(RS)]
pub struct ExXlsx<RS>(calamine::Xlsx<RS>);

#[verifier::external_type_specification]
#[verifier::external_body]
#[verifier::reject_recursive_types(T)]
pub struct ExCursor<T>(std::io::Cursor<T>);

/// Whether the spreadsheet parser accepts a byte buffer as a workbook.
pub uninterp spec fn xlsx_opens(data: Seq<u8>) -> bool;

/// The workbook's sheet names, in workbook order, as the parser reads
/// them from the bytes.
pub uninterp spec fn xlsx_sheet_names_of(data: Seq<u8>) -> Seq<Seq<char>>;

/// The grid the parser reads for the named sheet: None when the sheet
/// cannot be read, otherwise the rows of cells, an empty cell as None
/// and every other cell as its text.
pub uninterp spec fn xlsx_range_of(data: Seq<u8>, name: Seq<char>) -> Option<
    Seq<Seq<Option<Seq<char>>>>,
>;

/// The bytes a workbook value was opened from.
pub uninterp spec fn wb_source(wb: calamine::Xlsx<std::io::Cursor<Vec<u8>>>) -> Seq<u8>;

/// Relies on calamine::open_workbook_from_rs for Xlsx over an in-memory
/// cursor: it parses a workbook from the bytes, succeeding exactly when
/// the parser accepts them; a failure is turned into its message.
#[verifier::external_body]
fn open_xlsx_from_bytes(data: Vec<u8>) -> (r: Result<
    calamine::Xlsx<std::io::Cursor<Vec<u8>>>,
    String,
>)
    ensures
        r is Ok <==> xlsx_opens(data@),
        r matches Ok(wb) ==> wb_source(wb) == data@,
{
    calamine::open_workbook_from_rs(std::io::Cursor::new(data)).map_err(
        |e| format!("Excel extraction failed: {}", e),
    )
}

/// Relies on calamine's Reader::sheet_names: the workbook's sheet names,
/// in workbook order.
#[verifier::external_body]
fn xlsx_sheet_names(wb: &calamine::Xlsx<std::io::Cursor<Vec<u8>>>) -> (r: Vec<String>)
    ensures
        r.deep_view() == xlsx_sheet_names_of(wb_source(*wb)),
{
    calamine::Reader::sheet_names(wb)
}

/// Relies on calamine's Reader::worksheet_range, DataType::is_empty and
/// Data's Display: the grid of one sheet, every cell shown as its text
/// and an empty cell as None, exactly as the parser reads it from the
/// workbook's bytes; a failure is turned into its message. Reading a
/// sheet may fill the workbook's caches but never changes its content.
#[verifier::external_body]
fn xlsx_sheet_rows(wb: &mut calamine::Xlsx<std::io::Cursor<Vec<u8>>>, name: &String) -> (r: Result<
    Vec<Vec<Option<String>>>,
    String,
>)
    ensures
        wb_source(*final(wb)) == wb_source(*old(wb)),
        r is Ok <==> xlsx_range_of(wb_source(*old(wb)), name@) is Some,
        r matches Ok(rows) ==> rows.deep_view() == xlsx_range_of(
            wb_source(*old(wb)),
            name@,
        )->Some_0,
{
    match calamine::Reader::worksheet_range(wb, name.as_str()) {
        Ok(rg) => Ok(rg.rows().map(
            |row| row.iter().map(
                |c| if calamine::DataType::is_empty(c) { None } else { Some(c.to_string()) },
            ).collect(),
        ).collect()),
        Err(e) => Err(format!("Excel extraction failed: {}", e)),
    }
}

/// The text of one spreadsheet row from cell `j` on: each filled cell's
/// text followed by one space.
pub open spec fn spec_row_text(row: Seq<Option<Seq<char>>>, j: int) -> Seq<char>
    decreases row.len() - j,
{
    if j < 0 || j >= row.len() {
        seq![]
    } else {
        match row[j] {
            Some(s) => s + seq![' '] + spec_row_text(row, j + 1),
            None => spec_row_text(row, j + 1),
        }
    }
}

/// The text of a sheet from row `i` on: each row's cells followed by a
/// line feed.
pub open spec fn spec_sheet_text(rows: Seq<Seq<Option<Seq<char>>>>, i: int) -> Seq<char>
    decreases rows.len() - i,
{
    if i < 0 || i >= rows.len() {
        seq![]
    } else {
        spec_row_text(rows[i], 0) + seq!['\n'] + spec_sheet_text(rows, i + 1)
    }
}

/// Renders one sheet's grid as text: each filled cell followed by a
/// space, each row ended with a line feed.
pub fn xlsx_text_from_sheet(rows: &Vec<Vec<Option<String>>>) -> (r: String)
    ensures
        r@ == spec_sheet_text(rows.deep_view(), 0),
{
    let n = rows.len();
    let mut out: Vec<char> = Vec::new();
    let ghost rws = rows.deep_view();
    proof {
        assert(rws.len() == n);
    }
    let mut i: usize = 0;
    while i < n
        invariant
            n == rows@.len(),
            rws == rows.deep_view(),
            rws.len() == n,
            0 <= i <= n,
            spec_sheet_text(rws, 0) == out@ + spec_sheet_text(rws, i as int),
        decreases n - i,
    {
        let ghost out_row = out@;
        let row = &rows[i];
        let m = row.len();
        let ghost rw = rws[i as int];
        proof {
            assert(rw == row.deep_view());
            assert(rw.len() == m);
        }
        let mut j: usize = 0;
        while j < m
            invariant
                m == row@.len(),
                rw == row.deep_view(),
                rw.len() == m,
                0 <= j <= m,
                out@ == out_row + (spec_row_text(rw, 0).subrange(
                    0,
                    spec_row_text(rw, 0).len() - spec_row_text(rw, j as int).len(),
                )),
                spec_row_text(rw, 0) == out@.subrange(out_row.len() as int, out@.len() as int)
                    + spec_row_text(rw, j as int),
            decreases m - j,
        {
            let ghost out_cell = out@;
            proof {
                assert(rw[j as int] == (match row@[j as int] {
                    Some(s) => Some(s@),
                    None => None::<Seq<char>>,
                }));
            }
            match &row[j] {
                Some(cell) => {
                    push_text_and_space(&mut out, cell);
                    proof {
                        assert(out@ =~= out_cell + (cell@ + seq![' ']));
                        assert(spec_row_text(rw, j as int) == (cell@ + seq![' '])
                            + spec_row_text(rw, j + 1));
                    }
                },
                None => {},
            }
            proof {
                lemma_row_suffix(rw, j as int);
                assert(out@.subrange(out_row.len() as int, out@.len() as int) =~= out_cell.subrange(
                    out_row.len() as int,
                    out_cell.len() as int,
                ) + out@.subrange(out_cell.len() as int, out@.len() as int));
                assert(out@ =~= out_row + (spec_row_text(rw, 0).subrange(
                    0,
                    spec_row_text(rw, 0).len() - spec_row_text(rw, j + 1).len(),
                )));
            }
            j += 1;
        }
        out.push('\n');
        proof {
            assert(spec_row_text(rw, m as int) =~= Seq::<char>::empty());
            assert(out@ =~= out_row + (spec_row_text(rw, 0) + seq!['\n']));
            assert(spec_sheet_text(rws, i as int) == (spec_row_text(rw, 0) + seq!['\n'])
                + spec_sheet_text(rws, i + 1));
            assert(out@ + spec_sheet_text(rws, i + 1) =~= out_row + spec_sheet_text(
                rws,
                i as int,
            ));
        }
        i += 1;
    }
    proof {
        assert(spec_sheet_text(rws, n as int) =~= Seq::<char>::empty());
        assert(out@ =~= spec_sheet_text(rws, 0));
    }
    crate::strutil::string_from_chars(&out)
}

proof fn lemma_row_suffix(rw: Seq<Option<Seq<char>>>, j: int)
    requires
        0 <= j <= rw.len(),
    ensures
        spec_row_text(rw, j).len() <= spec_row_text(rw, 0).len(),
        spec_row_text(rw, j + 1).len() <= spec_row_text(rw, j).len(),
    decreases rw.len(),
{
    lemma_row_prefix_len(rw, 0, j);
    if j < rw.len() {
        lemma_row_prefix_len(rw, j, j + 1);
    } else {
        assert(spec_row_text(rw, j) =~= Seq::<char>::empty());
        assert(spec_row_text(rw, j + 1) =~= Seq::<char>::empty());
    }
}

proof fn lemma_row_prefix_len(rw: Seq<Option<Seq<char>>>, a: int, b: int)
    requires
        0 <= a <= b <= rw.len(),
    ensures
        spec_row_text(rw, b).len() <= spec_row_text(rw, a).len(),
    decreases b - a,
{
    if a < b {
        lemma_row_prefix_len(rw, a + 1, b);
    }
}

/// The metadata the spreadsheet parser attaches: the media type, how many
/// sheets were read, the parser's name, and the source's byte size.
pub open spec fn spec_xlsx_meta(count: u64, size: u64) -> Seq<MetaEntry> {
    seq![
        ("Content-Type"@, seq!["application/vnd.openxmlformats-officedocument.spreadsheetml.sheet"@]),
        ("Sheet-Count"@, seq![spec_u64_str(count)]),
        ("Parser"@, seq!["pure-rust-excel"@]),
        ("File-Size"@, seq![spec_u64_str(size)]),
    ]
}

fn xlsx_meta(count: u64, size: u64) -> (m: Metadata)
    ensures
        m.wf(),
        m@ == spec_xlsx_meta(count, size),
{
    let ghost ctv = "application/vnd.openxmlformats-officedocument.spreadsheetml.sheet"@;
    let mut m = Metadata::new();
    insert_one(
        &mut m,
        "Content-Type".to_owned(),
        "application/vnd.openxmlformats-officedocument.spreadsheetml.sheet".to_owned(),
    );
    proof {
        assert(m@ =~= seq![(("Content-Type"@), seq![ctv])]);
    }
    insert_one(&mut m, "Sheet-Count".to_owned(), u64_to_string(count));
    proof {
        lemma_meta_keys_distinct();
        let p1 = seq![(("Content-Type"@), seq![ctv])];
        assert(p1.drop_first() =~= Seq::<MetaEntry>::empty());
        assert(crate::metadata::spec_find(p1.drop_first(), "Sheet-Count"@) == 0);
        assert(crate::metadata::spec_find(p1, "Sheet-Count"@) == 1);
        assert(m@ =~= seq![(("Content-Type"@), seq![ctv]), (("Sheet-Count"@), seq![spec_u64_str(count)])]);
    }
    insert_one(&mut m, "Parser".to_owned(), "pure-rust-excel".to_owned());
    proof {
        lemma_meta_keys_distinct();
        let p2 = seq![(("Content-Type"@), seq![ctv]), (("Sheet-Count"@), seq![spec_u64_str(count)])];
        assert(p2.drop_first() =~= seq![(("Sheet-Count"@), seq![spec_u64_str(count)])]);
        assert(p2.drop_first().drop_first() =~= Seq::<MetaEntry>::empty());
        assert(crate::metadata::spec_find(p2.drop_first().drop_first(), "Parser"@) == 0);
        assert(crate::metadata::spec_find(p2.drop_first(), "Parser"@) == 1);
        assert(crate::metadata::spec_find(p2, "Parser"@) == 2);
        assert(m@ =~= seq![
            (("Content-Type"@), seq![ctv]),
            (("Sheet-Count"@), seq![spec_u64_str(count)]),
            (("Parser"@), seq!["pure-rust-excel"@]),
        ]);
    }
    insert_one(&mut m, "File-Size".to_owned(), u64_to_string(size));
    proof {
        lemma_meta_keys_distinct();
        let p3 = seq![
            (("Content-Type"@), seq![ctv]),
            (("Sheet-Count"@), seq![spec_u64_str(count)]),
            (("Parser"@), seq!["pure-rust-excel"@]),
        ];
        assert(p3.drop_first() =~= seq![
            (("Sheet-Count"@), seq![spec_u64_str(count)]),
            (("Parser"@), seq!["pure-rust-excel"@]),
        ]);
        assert(p3.drop_first().drop_first() =~= seq![(("Parser"@), seq!["pure-rust-excel"@])]);
        assert(p3.drop_first().drop_first().drop_first() =~= Seq::<MetaEntry>::empty());
        assert(crate::metadata::spec_find(p3.drop_first().drop_first().drop_first(), "File-Size"@)
            == 0);
        assert(crate::metadata::spec_find(p3.drop_first().drop_first(), "File-Size"@) == 1);
        assert(crate::metadata::spec_find(p3.drop_first(), "File-Size"@) == 2);
        assert(crate::metadata::spec_find(p3, "File-Size"@) == 3);
        assert(m@ =~= spec_xlsx_meta(count, size));
    }
    m
}

/// Extracts the text of a spreadsheet held in memory: every readable
/// sheet contributes its cells in order, a sheet that fails to read is
/// skipped, and the metadata counts the sheets that were read.
/// The text of every readable sheet from position `i` on in the name
/// list, in order: an unreadable sheet contributes nothing.
pub open spec fn spec_xlsx_text(data: Seq<u8>, names: Seq<Seq<char>>, i: int) -> Seq<char>
    decreases names.len() - i,
{
    if i < 0 || i >= names.len() {
        seq![]
    } else {
        match xlsx_range_of(data, names[i]) {
            Some(rows) => spec_sheet_text(rows, 0) + spec_xlsx_text(data, names, i + 1),
            None => spec_xlsx_text(data, names, i + 1),
        }
    }
}

/// How many sheets from position `i` on in the name list are readable.
pub open spec fn spec_xlsx_count(data: Seq<u8>, names: Seq<Seq<char>>, i: int) -> int
    decreases names.len() - i,
{
    if i < 0 || i >= names.len() {
        0
    } else {
        (if xlsx_range_of(data, names[i]) is Some {
            1int
        } else {
            0int
        }) + spec_xlsx_count(data, names, i + 1)
    }
}

proof fn lemma_xlsx_count_bound(data: Seq<u8>, names: Seq<Seq<char>>, i: int)
    requires
        0 <= i <= names.len(),
    ensures
        0 <= spec_xlsx_count(data, names, i) <= names.len() - i,
    decreases names.len() - i,
{
    if i < names.len() {
        lemma_xlsx_count_bound(data, names, i + 1);
    }
}

/// Extracts the text of a spreadsheet held in memory: succeeds exactly
/// when the parser accepts the bytes as a workbook; then every readable
/// sheet contributes its cells in workbook order, a sheet that fails to
/// read is skipped, and the metadata counts the sheets that were read.
pub fn extract_xlsx_from_bytes(data: Vec<u8>) -> (r: ExtractResult<(String, Metadata)>)
    ensures
        r is Ok <==> xlsx_opens(data@),
        r matches Ok(tm) ==> tm.0@ == spec_xlsx_text(data@, xlsx_sheet_names_of(data@), 0)
            && tm.1@ == spec_xlsx_meta(
            spec_xlsx_count(data@, xlsx_sheet_names_of(data@), 0) as u64,
            data@.len() as u64,
        ) && tm.1.wf(),
        r is Err ==> r->Err_0 is ParseError,
{
    let ghost d = data@;
    let size = data.len() as u64;
    let mut wb = match open_xlsx_from_bytes(data) {
        Ok(wb) => wb,
        Err(msg) => {
            return Err(Error::ParseError(msg));
        },
    };
    let names = xlsx_sheet_names(&wb);
    let ghost ns = names.deep_view();
    let mut text = String::new();
    let mut count: u64 = 0;
    let n = names.len();
    let mut i: usize = 0;
    while i < n
        invariant
            n == names@.len(),
            ns == names.deep_view(),
            ns.len() == n,
            ns == xlsx_sheet_names_of(d),
            wb_source(wb) == d,
            0 <= i <= n,
            count <= i,
            spec_xlsx_text(d, ns, 0) == text@ + spec_xlsx_text(d, ns, i as int),
            spec_xlsx_count(d, ns, 0) == count + spec_xlsx_count(d, ns, i as int),
        decreases n - i,
    {
        proof {
            assert(ns[i as int] == names@[i as int]@);
        }
        let ghost t0 = text@;
        match xlsx_sheet_rows(&mut wb, &names[i]) {
            Ok(rows) => {
                let sheet = xlsx_text_from_sheet(&rows);
                text.append(sheet.as_str());
                count = count + 1;
                proof {
                    assert(rows.deep_view() == xlsx_range_of(d, ns[i as int])->Some_0);
                    assert(spec_xlsx_text(d, ns, i as int) == spec_sheet_text(
                        rows.deep_view(),
                        0,
                    ) + spec_xlsx_text(d, ns, i + 1));
                    assert(t0 + (spec_sheet_text(rows.deep_view(), 0) + spec_xlsx_text(
                        d,
                        ns,
                        i + 1,
                    )) =~= text@ + spec_xlsx_text(d, ns, i + 1));
                }
            },
            Err(_) => {},
        }
        i += 1;
    }
    proof {
        assert(spec_xlsx_text(d, ns, n as int) =~= Seq::<char>::empty());
        assert(text@ =~= spec_xlsx_text(d, ns, 0));
        lemma_xlsx_count_bound(d, ns, 0);
        assert(count == spec_xlsx_count(d, ns, 0));
    }
    let m = xlsx_meta(count, size);
    Ok((text, m))
}

/// The in-process fast-path extractor: a byte-length cap on the text it
/// returns.
pub struct PureRustExtractor {
    pub max_text_length: usize,
}

impl PureRustExtractor {
    /// A fast-path extractor with the default 500000 byte cap.
    pub fn new() -> (r: Self)
        ensures
            r.max_text_length == 500000,
    {
        PureRustExtractor { max_text_length: 500000 }
    }

    /// A fast-path extractor with the given byte cap.
    pub fn with_max_length(max_length: usize) -> (r: Self)
        ensures
            r.max_text_length == max_length,
    {
        PureRustExtractor { max_text_length: max_length }
    }

    /// Extracts text from a byte buffer of a declared format. HTML and
    /// XML have in-process parsers here; every other format, PDF
    /// included, is rejected with a parse error naming it, since the PDF
    /// parser can abort the process and runs only outside the library
    /// (see `extract_pdf_outcome`). The text is capped at the configured
    /// byte length on a character boundary.
    pub fn extract_bytes(&self, data: &[u8], format: crate::format::DocumentFormat) -> (r:
        ExtractResult<(String, Metadata)>)
        ensures
            r is Err ==> r->Err_0 is ParseError,
            format is Html ==> (r is Ok <==> valid_utf8(data@) && spec_html_fold(
                xml_events_of(data@),
                0,
                false,
            ) is Ok),
            format is Html ==> (r matches Ok(tm) ==> tm.0@ == crate::text::spec_cap_bytes(
                spec_html_fold(xml_events_of(data@), 0, false)->Ok_0,
                self.max_text_length as int,
            ) && encode_utf8(tm.0@).len() <= self.max_text_length && tm.1@ == spec_parser_meta(
                "text/html"@,
                data@.len() as u64,
                "pure-rust-html"@,
            )),
            format is Xml ==> (r is Ok <==> valid_utf8(data@) && spec_xml_fold(
                xml_events_of(data@),
                0,
            ) is Ok),
            format is Xml ==> (r matches Ok(tm) ==> tm.0@ == crate::text::spec_cap_bytes(
                spec_xml_fold(xml_events_of(data@), 0)->Ok_0,
                self.max_text_length as int,
            ) && encode_utf8(tm.0@).len() <= self.max_text_length && tm.1@ == spec_parser_meta(
                "application/xml"@,
                data@.len() as u64,
                "pure-rust-xml"@,
            )),
            !(format is Html || format is Xml) ==> r is Err && r->Err_0->ParseError_0@
                == "Format "@ + format.spec_name() + " not supported by pure Rust parsers"@,
    {
        let picked = match format {
            crate::format::DocumentFormat::Html => extract_html_text(data),
            crate::format::DocumentFormat::Xml => extract_xml_text(data),
            _ => {
                let msg = "Format ".to_owned().concat(format.name().as_str()).concat(
                    " not supported by pure Rust parsers",
                );
                return Err(Error::ParseError(msg));
            },
        };
        match picked {
            Ok((text, metadata)) => {
                let capped = crate::text::truncate_to_char_boundary(text, self.max_text_length);
                Ok((capped, metadata))
            },
            Err(e) => Err(e),
        }
    }

    /// Assembles the capped extraction outcome for a PDF source of
    /// `size` bytes from the PDF parser's own outcome, handed in by the
    /// shell that ran the parser (see `pdf_outcome_from_text`). Succeeds
    /// exactly when the parser did, with the parser's text capped at the
    /// configured byte length on a character boundary.
    pub fn extract_pdf_outcome(&self, parsed: Result<String, String>, size: u64) -> (r:
        ExtractResult<(String, Metadata)>)
        ensures
            r is Ok <==> parsed is Ok,
            parsed matches Ok(t) ==> (r matches Ok(tm) && tm.0@ == crate::text::spec_cap_bytes(
                t@,
                self.max_text_length as int,
            ) && encode_utf8(tm.0@).len() <= self.max_text_length && tm.1@ == spec_parser_meta(
                "application/pdf"@,
                size,
                "pure-rust-pdf"@,
            ) && tm.1.wf()),
            parsed matches Err(m) ==> (r matches Err(e) && e is ParseError && e->ParseError_0@
                == m@),
    {
        match pdf_outcome_from_text(parsed, size) {
            Ok((text, metadata)) => {
                let capped = crate::text::truncate_to_char_boundary(text, self.max_text_length);
                Ok((capped, metadata))
            },
            Err(e) => Err(e),
        }
    }
}


} // verus!
