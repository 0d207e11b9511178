//! Writing catalog XML through `quick_xml`, with the text each write
//! produces.
use vstd::prelude::*;

use quick_xml::events::{BytesDecl, BytesEnd, BytesStart, BytesText, Event};
use quick_xml::Writer;
use std::io::Cursor;

verus! {

/// The Atom namespace.
pub const ATOM_NS: &'static str = "http://www.w3.org/2005/Atom";

/// The OPDS catalog namespace.
pub const OPDS_NS: &'static str = "http://opds-spec.org/2010/catalog";

/// The Dublin Core terms namespace.
pub const DC_NS: &'static str = "http://purl.org/dc/terms/";

/// The Atom threading namespace.
pub const THR_NS: &'static str = "http://purl.org/syndication/thread/1.0";

/// The OpenSearch namespace.
pub const OPENSEARCH_NS: &'static str = "http://a9.com/-/spec/opensearch/1.1/";

/// Media type of an OPDS navigation feed.
pub const OPDS_CT_NAV: &'static str = "application/atom+xml;profile=opds-catalog;kind=navigation";

/// Media type of an OPDS acquisition feed.
pub const OPDS_CT_ACQ: &'static str = "application/atom+xml;profile=opds-catalog;kind=acquisition";

/// Media type of an OpenSearch description.
pub const OPENSEARCH_CT: &'static str = "application/opensearchdescription+xml";

/// Media type of a download whose format is not known.
pub const DEFAULT_ACQ_TYPE: &'static str = "application/octet-stream";

/// The version announced in feed `generator` elements.
pub const GENERATOR_VERSION: &'static str = "0.1.0";

/// The URI announced in feed `generator` elements.
pub const GENERATOR_URI: &'static str = "https://github.com/";

/// Initial capacity of a feed buffer.
pub const FEED_CAPACITY: usize = 16384;

/// `quick_xml::Writer`, opaque to the proofs.
#[verifier::external_type_specification]
#[verifier::external_body]
#[verifier::reject_recursive_types(W)]
pub struct ExWriter<W>(Writer<W>);

/// `std::io::Cursor`, opaque to the proofs.
#[verifier::external_type_specification]
#[verifier::external_body]
#[verifier::reject_recursive_types(T)]
pub struct ExCursor<T>(Cursor<T>);

/// `quick_xml::events::BytesStart`, opaque to the proofs.
#[verifier::external_type_specification]
#[verifier::external_body]
pub struct ExBytesStart<'a>(BytesStart<'a>);

/// The text a feed writer holds so far.
pub uninterp spec fn written(w: Writer<Cursor<Vec<u8>>>) -> Seq<char>;

/// The name and attributes a start tag holds so far.
pub uninterp spec fn tag_content(b: BytesStart<'static>) -> Seq<char>;

// ---------------------------------------------------------------------------
// What quick_xml writes
// ---------------------------------------------------------------------------
/// How `quick_xml` escapes a character of text content.
pub open spec fn escape_text_char(c: char) -> Seq<char> {
    if c == '<' {
        seq!['&', 'l', 't', ';']
    } else if c == '>' {
        seq!['&', 'g', 't', ';']
    } else if c == '&' {
        seq!['&', 'a', 'm', 'p', ';']
    } else if c == '\'' {
        seq!['&', 'a', 'p', 'o', 's', ';']
    } else if c == '"' {
        seq!['&', 'q', 'u', 'o', 't', ';']
    } else if c == '\r' {
        seq!['&', '#', '1', '3', ';']
    } else {
        seq![c]
    }
}

/// How `quick_xml` escapes a character of an attribute value.
pub open spec fn escape_attr_char(c: char) -> Seq<char> {
    if c == '\n' {
        seq!['&', '#', '1', '0', ';']
    } else if c == '\t' {
        seq!['&', '#', '9', ';']
    } else {
        escape_text_char(c)
    }
}

/// Escaped text content.
pub open spec fn escape_text(s: Seq<char>) -> Seq<char>
    decreases s.len(),
{
    if s.len() == 0 {
        Seq::empty()
    } else {
        escape_text(s.drop_last()) + escape_text_char(s.last())
    }
}

/// An escaped attribute value.
pub open spec fn escape_attr(s: Seq<char>) -> Seq<char>
    decreases s.len(),
{
    if s.len() == 0 {
        Seq::empty()
    } else {
        escape_attr(s.drop_last()) + escape_attr_char(s.last())
    }
}

/// One attribute as a start tag holds it: ` key="escaped value"`.
pub open spec fn attr_text(key: Seq<char>, value: Seq<char>) -> Seq<char> {
    seq![' '] + key + seq!['=', '"'] + escape_attr(value) + seq!['"']
}

/// A list of attributes as a start tag holds it.
pub open spec fn attrs_text(attrs: Seq<(Seq<char>, Seq<char>)>) -> Seq<char>
    decreases attrs.len(),
{
    if attrs.len() == 0 {
        Seq::empty()
    } else {
        attrs_text(attrs.drop_last()) + attr_text(attrs.last().0, attrs.last().1)
    }
}

/// The views of a list of attribute pairs.
pub open spec fn attr_views(attrs: Seq<(&str, &str)>) -> Seq<(Seq<char>, Seq<char>)> {
    attrs.map_values(|p: (&str, &str)| (p.0@, p.1@))
}

/// A start tag.
pub open spec fn start_text(tag: Seq<char>, attrs: Seq<(Seq<char>, Seq<char>)>) -> Seq<char> {
    seq!['<'] + tag + attrs_text(attrs) + seq!['>']
}

/// An empty element.
pub open spec fn empty_text(tag: Seq<char>, attrs: Seq<(Seq<char>, Seq<char>)>) -> Seq<char> {
    seq!['<'] + tag + attrs_text(attrs) + seq!['/', '>']
}

/// An end tag.
pub open spec fn end_text(tag: Seq<char>) -> Seq<char> {
    seq!['<', '/'] + tag + seq!['>']
}

/// An element holding text, with attributes.
pub open spec fn elem_text(tag: Seq<char>, attrs: Seq<(Seq<char>, Seq<char>)>, text: Seq<char>) -> Seq<
    char,
> {
    start_text(tag, attrs) + escape_text(text) + end_text(tag)
}

/// An element holding text, without attributes.
pub open spec fn text_elem_text(tag: Seq<char>, text: Seq<char>) -> Seq<char> {
    elem_text(tag, Seq::empty(), text)
}

/// The XML declaration of a feed.
pub open spec fn decl_text(version: Seq<char>, encoding: Seq<char>) -> Seq<char> {
    "<?xml version=\""@ + version + "\" encoding=\""@ + encoding + "\"?>"@
}

/// A `link` element.
pub open spec fn link_text(rel: Seq<char>, href: Seq<char>, mime: Seq<char>) -> Seq<char> {
    empty_text("link"@, seq![("rel"@, rel), ("href"@, href), ("type"@, mime)])
}

/// The namespaces declared on a feed.
pub open spec fn feed_ns_attrs() -> Seq<(Seq<char>, Seq<char>)> {
    seq![
        ("xmlns"@, ATOM_NS@),
        ("xmlns:opds"@, OPDS_NS@),
        ("xmlns:dc"@, DC_NS@),
        ("xmlns:thr"@, THR_NS@),
        ("xmlns:opensearch"@, OPENSEARCH_NS@),
    ]
}

/// The opening of a feed with identifier `id`.
pub open spec fn start_feed_text(id: Seq<char>) -> Seq<char> {
    decl_text("1.0"@, "UTF-8"@) + start_text("feed"@, feed_ns_attrs()) + text_elem_text("id"@, id)
}

/// The end of a feed.
pub open spec fn end_feed_text() -> Seq<char> {
    end_text("feed"@)
}

/// A feed's `author` element.
pub open spec fn feed_author_text(app_name: Seq<char>) -> Seq<char> {
    start_text("author"@, Seq::empty()) + text_elem_text("name"@, app_name) + end_text("author"@)
}

/// A feed's `generator` element.
pub open spec fn generator_text(app_name: Seq<char>) -> Seq<char> {
    elem_text(
        "generator"@,
        seq![("uri"@, GENERATOR_URI@), ("version"@, GENERATOR_VERSION@)],
        app_name,
    )
}

// ---------------------------------------------------------------------------
// Trusted calls into quick_xml. The writer writes into memory, which cannot
// fail, so its results are unwrapped.
// ---------------------------------------------------------------------------
/// `Writer::new` over an empty in-memory buffer: nothing written yet.
#[verifier::external_body]
fn new_writer(capacity: usize) -> (w: Writer<Cursor<Vec<u8>>>)
    ensures
        written(w) == Seq::<char>::empty(),
{
    Writer::new(Cursor::new(Vec::with_capacity(capacity)))
}

/// `BytesStart::new`: a start tag holding only its name.
#[verifier::external_body]
fn new_start(name: &str) -> (b: BytesStart<'static>)
    ensures
        tag_content(b) == name@,
{
    BytesStart::new(name.to_owned())
}

/// `BytesStart::push_attribute` with a `(&str, &str)` pair: appends a space,
/// the key as it is, `="`, the value escaped as `escape_attribute` does, and
/// `"`.
#[verifier::external_body]
fn push_attr(b: &mut BytesStart<'static>, key: &str, value: &str)
    ensures
        tag_content(*final(b)) == tag_content(*old(b)) + attr_text(key@, value@),
{
    b.push_attribute((key, value));
}

/// `Writer::write_event(Event::Start(b))`: writes `<`, the tag's content and
/// `>` (no indentation is configured).
#[verifier::external_body]
fn write_start_tag(w: &mut Writer<Cursor<Vec<u8>>>, b: BytesStart<'static>)
    ensures
        written(*final(w)) == written(*old(w)) + seq!['<'] + tag_content(b) + seq!['>'],
{
    w.write_event(Event::Start(b)).unwrap();
}

/// `Writer::write_event(Event::Empty(b))`: writes `<`, the tag's content and
/// `/>` (the writer's configuration adds no space before the slash).
#[verifier::external_body]
fn write_empty_tag(w: &mut Writer<Cursor<Vec<u8>>>, b: BytesStart<'static>)
    ensures
        written(*final(w)) == written(*old(w)) + seq!['<'] + tag_content(b) + seq!['/', '>'],
{
    w.write_event(Event::Empty(b)).unwrap();
}

/// `Writer::write_event(Event::End(BytesEnd::new(name)))`: writes `</`, the
/// name and `>`.
#[verifier::external_body]
fn write_end_tag(w: &mut Writer<Cursor<Vec<u8>>>, name: &str)
    ensures
        written(*final(w)) == written(*old(w)) + end_text(name@),
{
    w.write_event(Event::End(BytesEnd::new(name))).unwrap();
}

/// `Writer::write_event(Event::Text(BytesText::new(text)))`: writes the text
/// escaped as `quick_xml::escape::escape` does.
#[verifier::external_body]
fn write_text_event(w: &mut Writer<Cursor<Vec<u8>>>, text: &str)
    ensures
        written(*final(w)) == written(*old(w)) + escape_text(text@),
{
    w.write_event(Event::Text(BytesText::new(text))).unwrap();
}

/// `Writer::write_event(Event::Decl(BytesDecl::new(version, Some(encoding),
/// None)))`: writes `<?xml version="…" encoding="…"?>`, values unescaped.
#[verifier::external_body]
fn write_decl_event(w: &mut Writer<Cursor<Vec<u8>>>, version: &str, encoding: &str)
    ensures
        written(*final(w)) == written(*old(w)) + decl_text(version@, encoding@),
{
    w.write_event(Event::Decl(BytesDecl::new(version, Some(encoding), None))).unwrap();
}

/// The writer's buffer as a string: the text written (quick-xml writes the
/// UTF-8 of what it is given).
#[verifier::external_body]
fn writer_into_string(w: Writer<Cursor<Vec<u8>>>) -> (s: String)
    ensures
        s@ == written(w),
{
    String::from_utf8(w.into_inner().into_inner()).expect("quick-xml produced non-UTF-8")
}

// ---------------------------------------------------------------------------
// Feed building blocks
// ---------------------------------------------------------------------------
/// A writer for a new document.
pub fn writer() -> (w: Writer<Cursor<Vec<u8>>>)
    ensures
        written(w) == Seq::<char>::empty(),
{
    new_writer(FEED_CAPACITY)
}

/// The document written.
pub fn finish(w: Writer<Cursor<Vec<u8>>>) -> (s: String)
    ensures
        s@ == written(w),
{
    writer_into_string(w)
}

/// A start tag with attributes `attrs`.
pub fn start_with_attrs(tag: &str, attrs: &[(&str, &str)]) -> (b: BytesStart<'static>)
    ensures
        tag_content(b) == tag@ + attrs_text(attr_views(attrs@)),
{
    let mut b = new_start(tag);
    let mut i: usize = 0;
    while i < attrs.len()
        invariant
            i <= attrs.len(),
            tag_content(b) == tag@ + attrs_text(attr_views(attrs@.take(i as int))),
        decreases attrs.len() - i,
    {
        let (key, value) = attrs[i];
        push_attr(&mut b, key, value);
        proof {
            let t = attr_views(attrs@.take(i + 1));
            assert(t.drop_last() =~= attr_views(attrs@.take(i as int)));
            assert(t.last() == (key@, value@));
        }
        i = i + 1;
    }
    proof {
        assert(attrs@.take(attrs.len() as int) =~= attrs@);
        assert(attrs_text(Seq::<(Seq<char>, Seq<char>)>::empty()) == Seq::<char>::empty());
    }
    b
}

/// Writes a start tag built by `start_with_attrs`.
pub fn write_start(w: &mut Writer<Cursor<Vec<u8>>>, b: BytesStart<'static>)
    ensures
        written(*final(w)) == written(*old(w)) + seq!['<'] + tag_content(b) + seq!['>'],
{
    write_start_tag(w, b);
}

/// Writes the opening of a feed with identifier `id`.
pub fn start_feed(w: &mut Writer<Cursor<Vec<u8>>>, id: &str)
    ensures
        written(*final(w)) == written(*old(w)) + start_feed_text(id@),
{
    write_decl_event(w, "1.0", "UTF-8");
    let attrs = [
        ("xmlns", ATOM_NS),
        ("xmlns:opds", OPDS_NS),
        ("xmlns:dc", DC_NS),
        ("xmlns:thr", THR_NS),
        ("xmlns:opensearch", OPENSEARCH_NS),
    ];
    let feed = start_with_attrs("feed", &attrs);
    write_start_tag(w, feed);
    text_elem(w, "id", id);
    proof {
        assert(attr_views(attrs@) =~= feed_ns_attrs());
        assert(written(*final(w)) =~= written(*old(w)) + start_feed_text(id@));
    }
}

/// Writes the end of a feed.
pub fn end_feed(w: &mut Writer<Cursor<Vec<u8>>>)
    ensures
        written(*final(w)) == written(*old(w)) + end_feed_text(),
{
    write_end_tag(w, "feed");
}

/// Writes a `link` element.
pub fn link(w: &mut Writer<Cursor<Vec<u8>>>, rel: &str, href: &str, mime: &str)
    ensures
        written(*final(w)) == written(*old(w)) + link_text(rel@, href@, mime@),
{
    let attrs = [("rel", rel), ("href", href), ("type", mime)];
    let tag = start_with_attrs("link", &attrs);
    write_empty_tag(w, tag);
    proof {
        assert(attr_views(attrs@) =~= seq![("rel"@, rel@), ("href"@, href@), ("type"@, mime@)]);
        assert(written(*final(w)) =~= written(*old(w)) + link_text(rel@, href@, mime@));
    }
}

/// Writes an element holding `text`.
pub fn text_elem(w: &mut Writer<Cursor<Vec<u8>>>, tag: &str, text: &str)
    ensures
        written(*final(w)) == written(*old(w)) + text_elem_text(tag@, text@),
{
    let start = new_start(tag);
    write_start_tag(w, start);
    write_text_event(w, text);
    write_end_tag(w, tag);
    proof {
        assert(attrs_text(Seq::<(Seq<char>, Seq<char>)>::empty()) == Seq::<char>::empty());
        assert(written(*final(w)) =~= written(*old(w)) + text_elem_text(tag@, text@));
    }
}

/// Writes an element with attributes holding `text`.
pub fn text_elem_with_attrs(
    w: &mut Writer<Cursor<Vec<u8>>>,
    tag: &str,
    attrs: &[(&str, &str)],
    text: &str,
)
    ensures
        written(*final(w)) == written(*old(w)) + elem_text(tag@, attr_views(attrs@), text@),
{
    let start = start_with_attrs(tag, attrs);
    write_start_tag(w, start);
    write_text_event(w, text);
    write_end_tag(w, tag);
    proof {
        assert(written(*final(w)) =~= written(*old(w)) + elem_text(tag@, attr_views(attrs@), text@));
    }
}

/// Writes an element with attributes holding `text` (the same element as
/// `text_elem_with_attrs` writes).
pub fn simple_elem_with_attrs(
    w: &mut Writer<Cursor<Vec<u8>>>,
    tag: &str,
    attrs: &[(&str, &str)],
    text: &str,
)
    ensures
        written(*final(w)) == written(*old(w)) + elem_text(tag@, attr_views(attrs@), text@),
{
    text_elem_with_attrs(w, tag, attrs, text);
}

/// Writes an empty element with attributes.
pub fn empty_elem_with_attrs(w: &mut Writer<Cursor<Vec<u8>>>, tag: &str, attrs: &[(&str, &str)])
    ensures
        written(*final(w)) == written(*old(w)) + empty_text(tag@, attr_views(attrs@)),
{
    let start = start_with_attrs(tag, attrs);
    write_empty_tag(w, start);
    proof {
        assert(written(*final(w)) =~= written(*old(w)) + empty_text(tag@, attr_views(attrs@)));
    }
}

/// Writes a start tag without attributes.
pub fn start_elem(w: &mut Writer<Cursor<Vec<u8>>>, tag: &str)
    ensures
        written(*final(w)) == written(*old(w)) + start_text(tag@, Seq::empty()),
{
    let start = new_start(tag);
    write_start_tag(w, start);
    proof {
        assert(attrs_text(Seq::<(Seq<char>, Seq<char>)>::empty()) == Seq::<char>::empty());
        assert(written(*final(w)) =~= written(*old(w)) + start_text(tag@, Seq::empty()));
    }
}

/// Writes an end tag.
pub fn end_elem(w: &mut Writer<Cursor<Vec<u8>>>, tag: &str)
    ensures
        written(*final(w)) == written(*old(w)) + end_text(tag@),
{
    write_end_tag(w, tag);
}

/// Writes the XML declaration `<?xml version="1.0" encoding="UTF-8"?>`.
pub fn xml_decl(w: &mut Writer<Cursor<Vec<u8>>>)
    ensures
        written(*final(w)) == written(*old(w)) + decl_text("1.0"@, "UTF-8"@),
{
    write_decl_event(w, "1.0", "UTF-8");
}

/// Writes a feed's `author` element naming the application.
pub fn feed_author(w: &mut Writer<Cursor<Vec<u8>>>, app_name: &str)
    ensures
        written(*final(w)) == written(*old(w)) + feed_author_text(app_name@),
{
    start_elem(w, "author");
    text_elem(w, "name", app_name);
    end_elem(w, "author");
    proof {
        assert(written(*final(w)) =~= written(*old(w)) + feed_author_text(app_name@));
    }
}

/// Writes a feed's `generator` element naming the application.
pub fn generator(w: &mut Writer<Cursor<Vec<u8>>>, app_name: &str)
    ensures
        written(*final(w)) == written(*old(w)) + generator_text(app_name@),
{
    let attrs = [("uri", GENERATOR_URI), ("version", GENERATOR_VERSION)];
    text_elem_with_attrs(w, "generator", &attrs, app_name);
    proof {
        assert(attr_views(attrs@) =~= seq![
            ("uri"@, GENERATOR_URI@),
            ("version"@, GENERATOR_VERSION@),
        ]);
    }
}

} // verus!
