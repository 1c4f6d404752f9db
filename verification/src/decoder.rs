//! The trusted boundary to the low-level event decoder (`quick_xml`).
//!
//! A [`Decoder`] owns a `quick_xml` reader over an in-memory buffer. Because
//! that reader decodes a given byte buffer deterministically, the event it
//! returns on the `idx`-th pull, the reported position and consumed byte
//! count after each event, and the attribute pairs enumerated from a tag's
//! content are given names here ([`event_at`], [`position_after`],
//! [`offset_after`], [`attrs_strict`], [`attrs_html`]): pure
//! functions of the input bytes and the mode alone. The wrappers in this
//! module relate each `quick_xml` call to those names; everything downstream
//! is verified against them.

use vstd::prelude::*;
use vstd::utf8::decode_utf8;
use vstd::utf8::valid_utf8;

use crate::model::EvModel;
use quick_xml::events::Event;

verus! {

/// Declares `quick_xml`'s reader type to the verifier; its values are opaque.
#[verifier::external_type_specification]
#[verifier::external_body]
#[verifier::reject_recursive_types(R)]
pub struct ExReader<R>(quick_xml::reader::Reader<R>);

/// Declares the standard in-memory cursor to the verifier.
#[verifier::external_type_specification]
#[verifier::external_body]
#[verifier::reject_recursive_types(T)]
pub struct ExCursor<T>(std::io::Cursor<T>);

/// Declares `quick_xml`'s event type to the verifier.
#[verifier::external_type_specification]
#[verifier::external_body]
pub struct ExEvent<'a>(quick_xml::events::Event<'a>);

/// The event decoder: a `quick_xml` pull reader over an in-memory buffer.
/// Its abstract state is given by [`decoder_bytes`] (the buffer it reads),
/// [`decoder_strict`] (whether end-tag names are checked) and [`decoder_idx`]
/// (how many events have been pulled), tied down by the contracts of
/// [`decoder_new`] and [`read_event`].
pub struct Decoder {
    inner: quick_xml::reader::Reader<std::io::Cursor<Vec<u8>>>,
}

/// The bytes the decoder was created over.
pub uninterp spec fn decoder_bytes(d: Decoder) -> Seq<u8>;

/// Whether end-tag name checking is on (strict mode).
pub uninterp spec fn decoder_strict(d: Decoder) -> bool;

/// How many events have been pulled from the decoder so far.
pub uninterp spec fn decoder_idx(d: Decoder) -> nat;

/// One enumerated attribute: raw key bytes and raw value bytes.
pub struct AttrPair {
    /// The attribute key, undecoded.
    pub(crate) key: Vec<u8>,
    /// The attribute value, undecoded.
    pub(crate) value: Vec<u8>,
}

/// View of enumerated attribute pairs as sequences of byte runs.
pub(crate) open spec fn pairs_view(s: Seq<AttrPair>) -> Seq<(Seq<u8>, Seq<u8>)> {
    s.map_values(|p: AttrPair| (p.key@, p.value@))
}

/// One decoded lexical event, with raw byte payloads. A start or empty tag
/// carries its whole content and the byte length of the leading name.
pub enum RawEvent {
    Decl(Vec<u8>),
    Doctype(Vec<u8>),
    Instruction(Vec<u8>),
    Start(Vec<u8>, usize),
    Empty(Vec<u8>, usize),
    End(Vec<u8>),
    Text(Vec<u8>),
    CData(Vec<u8>),
    Comment(Vec<u8>),
    Eof,
    Fail(String),
}

impl View for RawEvent {
    type V = EvModel;

    open spec fn view(&self) -> EvModel {
        match self {
            RawEvent::Decl(b) => EvModel::Decl(b@),
            RawEvent::Doctype(b) => EvModel::Doctype(b@),
            RawEvent::Instruction(b) => EvModel::Instruction(b@),
            RawEvent::Start(c, n) => EvModel::Start(c@, *n as nat),
            RawEvent::Empty(c, n) => EvModel::Empty(c@, *n as nat),
            RawEvent::End(b) => EvModel::End(b@),
            RawEvent::Text(b) => EvModel::Text(b@),
            RawEvent::CData(b) => EvModel::CData(b@),
            RawEvent::Comment(b) => EvModel::Comment(b@),
            RawEvent::Eof => EvModel::Eof,
            RawEvent::Fail(s) => EvModel::Fail(s@),
        }
    }
}

/// The event that the decoder over `bytes` (with end-tag checking `strict`)
/// returns on its `idx`-th pull. `quick_xml` reads an in-memory buffer
/// deterministically, so this is a function of the arguments alone.
pub uninterp spec fn event_at(bytes: Seq<u8>, strict: bool, idx: nat) -> EvModel;

/// The byte position `quick_xml` reports just after the `idx`-th pull on the
/// decoder over `bytes`; a function of the arguments alone, for the same
/// reason as [`event_at`].
pub uninterp spec fn position_after(bytes: Seq<u8>, strict: bool, idx: nat) -> nat;

/// The count of input bytes the reader has consumed after the `idx`-th pull
/// on the decoder over `bytes`; a function of the arguments alone, for the
/// same reason as [`event_at`]. It differs from [`position_after`] — the
/// *reported* position — by at most one: inside opened markup the reader
/// reports the position one byte back.
pub uninterp spec fn offset_after(bytes: Seq<u8>, strict: bool, idx: nat) -> nat;

/// The attribute pairs enumerated, in source order, from a tag with the given
/// content and name length under strict (XML) attribute syntax, together with
/// the description of the syntax error that stopped enumeration, if one did.
/// A function of the arguments alone.
pub uninterp spec fn attrs_strict(content: Seq<u8>, name_len: nat) -> (
    Seq<(Seq<u8>, Seq<u8>)>,
    Option<Seq<char>>,
);

/// As [`attrs_strict`], but under permissive (HTML-like) attribute syntax:
/// unquoted values and boolean attributes are accepted, and a boolean
/// attribute's value is the empty byte run.
pub uninterp spec fn attrs_html(content: Seq<u8>, name_len: nat) -> (
    Seq<(Seq<u8>, Seq<u8>)>,
    Option<Seq<char>>,
);

/// Relies on `quick_xml::reader::Reader::from_reader` over an in-memory
/// cursor, and on `Reader::check_end_names`, which makes mismatched end tags
/// a decode error exactly in strict mode.
#[verifier::external_body]
pub(crate) fn decoder_new(data: Vec<u8>, strict: bool) -> (d: Decoder)
    ensures
        decoder_bytes(d) == data@,
        decoder_strict(d) == strict,
        decoder_idx(d) == 0,
{
    let mut r = quick_xml::reader::Reader::from_reader(std::io::Cursor::new(data));
    r.check_end_names(strict);
    Decoder { inner: r }
}

/// Converts one `quick_xml` event into an owned [`RawEvent`], one arm per
/// variant: payloads are copied out. Relies on the payloads dereferencing to
/// their raw content bytes and on `BytesStart::name` for the name length.
#[verifier::external_body]
fn classify(ev: quick_xml::events::Event<'static>) -> RawEvent {
    match ev {
        Event::Decl(x) => RawEvent::Decl(x.to_vec()),
        Event::DocType(x) => RawEvent::Doctype(x.to_vec()),
        Event::PI(x) => RawEvent::Instruction(x.to_vec()),
        Event::Start(x) => RawEvent::Start(x.to_vec(), x.name().0.len()),
        Event::Empty(x) => RawEvent::Empty(x.to_vec(), x.name().0.len()),
        Event::End(x) => RawEvent::End(x.to_vec()),
        Event::Text(x) => RawEvent::Text(x.to_vec()),
        Event::CData(x) => RawEvent::CData(x.to_vec()),
        Event::Comment(x) => RawEvent::Comment(x.to_vec()),
        Event::Eof => RawEvent::Eof,
    }
}

/// Relies on `quick_xml::reader::Reader::read_event_into`: pulls the next
/// event, which is [`event_at`] of the decoder's bytes, mode and pull count.
/// A tag's name length never exceeds its content. Every event other than
/// end-of-stream or a failure consumes at least one byte (the reader never
/// returns an empty text event), and neither the consumed count nor the
/// reported position ever exceeds the buffer, which bounds the number of
/// pulls. The reported position trails the consumed count by at most one
/// byte.
#[verifier::external_body]
pub(crate) fn read_event(d: &mut Decoder) -> (ev: RawEvent)
    ensures
        decoder_bytes(*final(d)) == decoder_bytes(*old(d)),
        decoder_strict(*final(d)) == decoder_strict(*old(d)),
        decoder_idx(*final(d)) == decoder_idx(*old(d)) + 1,
        ev@ == event_at(decoder_bytes(*old(d)), decoder_strict(*old(d)), decoder_idx(*old(d))),
        offset_after(
            decoder_bytes(*old(d)),
            decoder_strict(*old(d)),
            decoder_idx(*old(d)) + 1,
        ) <= decoder_bytes(*old(d)).len(),
        !(ev@ is Eof) && !(ev@ is Fail) ==> offset_after(
            decoder_bytes(*old(d)),
            decoder_strict(*old(d)),
            decoder_idx(*old(d)) + 1,
        ) > offset_after(decoder_bytes(*old(d)), decoder_strict(*old(d)), decoder_idx(*old(d))),
        position_after(
            decoder_bytes(*old(d)),
            decoder_strict(*old(d)),
            decoder_idx(*old(d)) + 1,
        ) <= offset_after(
            decoder_bytes(*old(d)),
            decoder_strict(*old(d)),
            decoder_idx(*old(d)) + 1,
        ),
        offset_after(
            decoder_bytes(*old(d)),
            decoder_strict(*old(d)),
            decoder_idx(*old(d)) + 1,
        ) <= position_after(
            decoder_bytes(*old(d)),
            decoder_strict(*old(d)),
            decoder_idx(*old(d)) + 1,
        ) + 1,
        ev@ matches EvModel::Start(c, n) ==> n <= c.len(),
        ev@ matches EvModel::Empty(c, n) ==> n <= c.len(),
{
    let mut buf = Vec::new();
    match d.inner.read_event_into(&mut buf) {
        Ok(ev) => classify(ev.into_owned()),
        Err(e) => RawEvent::Fail(format!("{:?}", e)),
    }
}

/// Relies on `quick_xml::reader::Reader::buffer_position`: the byte position
/// just after the last pulled event.
#[verifier::external_body]
pub(crate) fn position(d: &Decoder) -> (p: usize)
    ensures
        p as nat == position_after(decoder_bytes(*d), decoder_strict(*d), decoder_idx(*d)),
{
    d.inner.buffer_position()
}

/// Relies on `quick_xml::encoding::Decoder::decode` (reached through
/// `Reader::decoder`): without the `encoding` feature it is exactly UTF-8
/// decoding, succeeding on valid UTF-8 with the decoded characters and
/// failing otherwise.
#[verifier::external_body]
pub(crate) fn decode_bytes(d: &Decoder, b: &Vec<u8>) -> (r: Option<String>)
    ensures
        match r {
            Some(s) => valid_utf8(b@) && s@ == decode_utf8(b@),
            None => !valid_utf8(b@),
        },
{
    match d.inner.decoder().decode(b.as_slice()) {
        Ok(c) => Some(c.into_owned()),
        Err(_) => None,
    }
}

/// Relies on `quick_xml::events::attributes::Attributes::new`: enumerates the
/// attribute pairs of a tag's content in source order under strict syntax,
/// stopping at the first syntax error, whose description is returned beside
/// the pairs enumerated before it. Content that is not valid UTF-8 is
/// reported as a syntax error.
#[verifier::external_body]
pub(crate) fn parse_attrs_strict(content: &Vec<u8>, name_len: usize) -> (r: (
    Vec<AttrPair>,
    Option<String>,
))
    ensures
        pairs_view(r.0@) == attrs_strict(content@, name_len as nat).0,
        match r.1 {
            Some(m) => attrs_strict(content@, name_len as nat).1 == Some(m@),
            None => attrs_strict(content@, name_len as nat).1 is None,
        },
{
    let s = match std::str::from_utf8(content.as_slice()) {
        Ok(s) => s,
        Err(e) => return (Vec::new(), Some(format!("{:?}", e))),
    };
    let mut out = Vec::new();
    for a in quick_xml::events::attributes::Attributes::new(s, name_len) {
        match a {
            Ok(at) => out.push(AttrPair { key: at.key.as_ref().to_vec(), value: at.value.to_vec() }),
            Err(e) => return (out, Some(format!("{:?}", e))),
        }
    }
    (out, None)
}

/// Relies on `quick_xml::events::attributes::Attributes::html`: as
/// [`parse_attrs_strict`], but accepting unquoted values and boolean
/// attributes (a boolean attribute's value is empty).
#[verifier::external_body]
pub(crate) fn parse_attrs_html(content: &Vec<u8>, name_len: usize) -> (r: (
    Vec<AttrPair>,
    Option<String>,
))
    ensures
        pairs_view(r.0@) == attrs_html(content@, name_len as nat).0,
        match r.1 {
            Some(m) => attrs_html(content@, name_len as nat).1 == Some(m@),
            None => attrs_html(content@, name_len as nat).1 is None,
        },
{
    let s = match std::str::from_utf8(content.as_slice()) {
        Ok(s) => s,
        Err(e) => return (Vec::new(), Some(format!("{:?}", e))),
    };
    let mut out = Vec::new();
    for a in quick_xml::events::attributes::Attributes::html(s, name_len) {
        match a {
            Ok(at) => out.push(AttrPair { key: at.key.as_ref().to_vec(), value: at.value.to_vec() }),
            Err(e) => return (out, Some(format!("{:?}", e))),
        }
    }
    (out, None)
}

} // verus!
