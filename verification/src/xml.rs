//! The XML event layer.  The history document is scanned and rewritten as a
//! stream of events; quick_xml does the actual tokenising and serialising
//! behind the trusted wrappers here, and everything a resolver decides on is
//! first reduced to the plain event values of [`ReadStep`].  The reader is
//! deterministic — the document text alone decides what it produces — and
//! [`events_of`] names that event sequence, so callers can state results
//! directly over the document they passed in.

use vstd::prelude::*;

use crate::errors::ErrView;
use crate::text::kv_views;

verus! {

/// One event read from the document.  A tag the logic examines carries its
/// name and attributes as plain values, beside its own serialised bytes so
/// a rewrite can copy it through verbatim; everything else carries only the
/// bytes.  An attribute list that quick_xml could not parse is carried as
/// `Err` with the reader's message, so that the error surfaces only if the
/// logic actually looks at that element's attributes, exactly as a
/// streaming scan would surface it.
#[derive(Debug, PartialEq, Eq)]
pub enum ReadStep {
    /// A start tag: its name, attributes, and serialised form.
    Open(String, Result<Vec<(String, String)>, String>, Vec<u8>),
    /// A self-closed (empty) tag: its name, attributes, and serialised form.
    Leaf(String, Result<Vec<(String, String)>, String>, Vec<u8>),
    /// Any event the logic never examines — end tags, text, comments, the
    /// declaration — as its serialised form.
    Other(Vec<u8>),
    /// The end of the document.
    Eof,
    /// The reader failed; carries its message.  No further event follows.
    Fail(String),
}

/// `true` for the two steps that end a scan of the stream.
pub open spec fn is_terminator(s: ReadStep) -> bool {
    s is Eof || s is Fail
}

/// The shape every collected event sequence has: exactly one terminator, at
/// the end.
pub open spec fn terminated(events: Seq<ReadStep>) -> bool {
    &&& events.len() >= 1
    &&& is_terminator(events.last())
    &&& forall|i: int| 0 <= i < events.len() - 1 ==> !is_terminator(#[trigger] events[i])
}

/// The event sequence the reader produces for a document, through its first
/// end-of-file or failure.  Reading from an in-memory document depends on
/// nothing but the text, so this is a function of the document alone.
pub uninterp spec fn events_of(doc: Seq<char>) -> Seq<ReadStep>;

/// The document a reader was opened over.
pub uninterp spec fn reader_doc(r: quick_xml::Reader<&[u8]>) -> Seq<char>;

/// How many events a reader has already produced.
pub uninterp spec fn reader_pos(r: quick_xml::Reader<&[u8]>) -> int;

#[verifier::external_type_specification]
#[verifier::external_body]
#[verifier::reject_recursive_types(R)]
pub struct ExReader<R>(quick_xml::Reader<R>);

#[verifier::external_type_specification]
#[verifier::external_body]
#[verifier::reject_recursive_types(W)]
pub struct ExWriter<W>(quick_xml::Writer<W>);

#[verifier::external_type_specification]
#[verifier::external_body]
pub struct ExBytesStart<'a>(quick_xml::events::BytesStart<'a>);

#[verifier::external_type_specification]
#[verifier::external_body]
pub struct ExEvent<'a>(quick_xml::events::Event<'a>);

/// Relies on `quick_xml::Reader::from_str`: a reader positioned at the
/// start of the given document, which will produce the document's own event
/// sequence.  That sequence always reaches a terminator — every event
/// before end-of-file consumes input, and a failure ends the stream — and
/// holds no terminator earlier.
#[verifier::external_body]
fn xml_reader(doc: &str) -> (r: quick_xml::Reader<&[u8]>)
    ensures
        reader_doc(r) == doc@,
        reader_pos(r) == 0,
        terminated(events_of(reader_doc(r))),
{
    quick_xml::Reader::from_str(doc)
}

/// Relies on `BytesStart::attributes`: the tag's attribute list as plain
/// pairs of key and raw value, or the attribute parser's message where the
/// list is malformed.
#[verifier::external_body]
fn tag_attrs<'a>(t: &quick_xml::events::BytesStart<'a>) -> (attrs: Result<
    Vec<(String, String)>,
    String,
>) {
    t.attributes().map(
        |a| a.map(|a| (a.key.0.to_owned(), a.value.into_owned())).map_err(|e| e.to_string()),
    ).collect()
}

/// Relies on `quick_xml::Writer::write_event` over a throwaway writer: the
/// tag's serialised form, byte for byte as the reader saw it (the event
/// keeps the raw tag text and an unindented writer emits it unchanged).
#[verifier::external_body]
fn tag_raw<'a>(t: &quick_xml::events::BytesStart<'a>, leaf: bool) -> (raw: Vec<u8>) {
    let mut w = quick_xml::Writer::new(Vec::new());
    let _ = w.write_event(
        if leaf {
            quick_xml::events::Event::Empty(t.borrow())
        } else {
            quick_xml::events::Event::Start(t.borrow())
        },
    );
    w.into_inner()
}

/// Relies on `quick_xml::Writer::write_event` over a throwaway writer: the
/// event's serialised form, byte for byte as the reader saw it.
#[verifier::external_body]
fn other_raw<'a>(e: &quick_xml::events::Event<'a>) -> (raw: Vec<u8>) {
    let mut w = quick_xml::Writer::new(Vec::new());
    let _ = w.write_event(e.borrow());
    w.into_inner()
}

/// Relies on `quick_xml::Reader::read_event`, with `tag_attrs`, `tag_raw`
/// and `other_raw` converting the event: the next event of the document,
/// reduced to plain values.  For a given document the reader's events are
/// fixed, so the step handed back is the next entry of [`events_of`].
#[verifier::external_body]
fn xml_next(r: &mut quick_xml::Reader<&[u8]>) -> (step: ReadStep)
    ensures
        reader_doc(*final (r)) == reader_doc(*old(r)),
        reader_pos(*final (r)) == reader_pos(*old(r)) + 1,
        reader_pos(*old(r)) < events_of(reader_doc(*old(r))).len() ==> step == events_of(
            reader_doc(*old(r)),
        )[reader_pos(*old(r))],
{
    let (leaf, t) = match r.read_event() {
        Ok(quick_xml::events::Event::Start(t)) => (false, t),
        Ok(quick_xml::events::Event::Empty(t)) => (true, t),
        Ok(quick_xml::events::Event::Eof) => return ReadStep::Eof,
        Ok(e) => return ReadStep::Other(other_raw(&e)),
        Err(e) => return ReadStep::Fail(e.to_string()),
    };
    let name = t.name().0.to_owned();
    let attrs = tag_attrs(&t);
    let raw = tag_raw(&t, leaf);
    if leaf {
        ReadStep::Leaf(name, attrs, raw)
    } else {
        ReadStep::Open(name, attrs, raw)
    }
}

/// Read the whole document into its event sequence: every event up to and
/// including the first end-of-file or reader failure.
pub fn collect_events(doc: &str) -> (events: Vec<ReadStep>)
    ensures
        events@ == events_of(doc@),
        terminated(events@),
{
    let mut reader = xml_reader(doc);
    let mut out: Vec<ReadStep> = Vec::new();
    proof {
        assert(out@ =~= events_of(doc@).take(0));
    }
    loop
        invariant
            reader_doc(reader) == doc@,
            reader_pos(reader) == out@.len(),
            terminated(events_of(doc@)),
            out@.len() < events_of(doc@).len(),
            out@ == events_of(doc@).take(out@.len() as int),
        decreases events_of(doc@).len() - out@.len(),
    {
        let ghost evs = events_of(doc@);
        let ghost pos = out@.len() as int;
        let step = xml_next(&mut reader);
        let done = matches!(step, ReadStep::Eof | ReadStep::Fail(_));
        out.push(step);
        proof {
            assert(out@ =~= evs.take(pos + 1));
        }
        if done {
            proof {
                // a terminator stands only at the end of the sequence
                assert(pos == evs.len() - 1) by {
                    if pos < evs.len() - 1 {
                        assert(!is_terminator(evs[pos]));
                    }
                };
                assert(out@ =~= evs);
            }
            return out;
        }
        proof {
            // and the last event is one, so the scan is not there yet
            assert(pos + 1 < evs.len()) by {
                if pos == evs.len() - 1 {
                    assert(is_terminator(evs[pos]));
                }
            };
        }
    }
}

/// Prefix some bytes onto the result of rewriting the rest of a stream:
/// errors pass through, output accumulates in front.
pub open spec fn prepend_bytes(b: Seq<u8>, rest: Result<Seq<u8>, ErrView>) -> Result<
    Seq<u8>,
    ErrView,
> {
    match rest {
        Ok(r) => Ok(b + r),
        Err(e) => Err(e),
    }
}

/// Prefixing in two steps is prefixing the concatenation.
pub proof fn lemma_prepend_prepend(w: Seq<u8>, b: Seq<u8>, rest: Result<Seq<u8>, ErrView>)
    ensures
        prepend_bytes(w, prepend_bytes(b, rest)) == prepend_bytes(w + b, rest),
{
    match rest {
        Ok(r) => {
            assert((w + b) + r =~= w + (b + r));
        },
        Err(_) => {},
    }
}

/// The bytes a fresh writer has produced so far, and what writing one
/// freshly built tag appends.  `leaf_bytes` names quick_xml's serialisation
/// of one self-closed tag: for a given name and attribute list the bytes
/// written are always the same.
pub uninterp spec fn writer_out(w: quick_xml::Writer<Vec<u8>>) -> Seq<u8>;

/// The serialised form of a self-closed tag with the given name and
/// attributes.
pub uninterp spec fn leaf_bytes(name: Seq<char>, attrs: Seq<(Seq<char>, Seq<char>)>) -> Seq<u8>;

/// Relies on `quick_xml::Writer::new` over a fresh `Vec<u8>`: a writer that
/// has produced nothing yet.
#[verifier::external_body]
fn xml_writer() -> (w: quick_xml::Writer<Vec<u8>>)
    ensures
        writer_out(w) == Seq::<u8>::empty(),
{
    quick_xml::Writer::new(Vec::new())
}

/// Relies on `quick_xml::Writer::write_event` with an `Empty` event:
/// appends the tag's serialised form to the output.  The attribute values
/// are written exactly as given.  Writing into a `Vec<u8>` cannot fail: std
/// documents `Write` for `Vec<u8>` as infallible.
#[verifier::external_body]
fn write_leaf(w: &mut quick_xml::Writer<Vec<u8>>, name: &str, attrs: &Vec<(String, String)>)
    ensures
        writer_out(*final (w)) == writer_out(*old(w)) + leaf_bytes(name@, kv_views(attrs@)),
{
    let mut t = quick_xml::events::BytesStart::new(name);
    t.extend_attributes(attrs.iter().map(|(k, v)| quick_xml::events::attributes::Attribute {
        key: quick_xml::name::QName(k.as_str()),
        value: std::borrow::Cow::Borrowed(v.as_str()),
    }));
    let _ = w.write_event(quick_xml::events::Event::Empty(t));
}

/// Relies on `quick_xml::Writer::get_mut` handing out the underlying
/// `Vec<u8>`: appends the given bytes to the output unchanged.
#[verifier::external_body]
fn write_raw(w: &mut quick_xml::Writer<Vec<u8>>, bytes: &Vec<u8>)
    ensures
        writer_out(*final (w)) == writer_out(*old(w)) + bytes@,
{
    w.get_mut().extend_from_slice(bytes);
}

/// Relies on `quick_xml::Writer::into_inner`: the bytes produced so far.
#[verifier::external_body]
fn writer_take(w: quick_xml::Writer<Vec<u8>>) -> (out: Vec<u8>)
    ensures
        out@ == writer_out(w),
{
    w.into_inner()
}

/// An output stream under construction: a writer together with the bytes it
/// has produced, so that callers can state what a rewrite appends.
pub struct XmlOut {
    w: quick_xml::Writer<Vec<u8>>,
}

impl XmlOut {
    /// The bytes produced so far.
    pub closed spec fn bytes(self) -> Seq<u8> {
        writer_out(self.w)
    }

    /// A fresh, empty output stream.
    pub fn new() -> (r: Self)
        ensures
            r.bytes() == Seq::<u8>::empty(),
    {
        XmlOut { w: xml_writer() }
    }

    /// Append a freshly built self-closed tag.
    pub fn leaf(&mut self, name: &str, attrs: &Vec<(String, String)>)
        ensures
            final (self).bytes() == old(self).bytes() + leaf_bytes(name@, kv_views(attrs@)),
    {
        write_leaf(&mut self.w, name, attrs)
    }

    /// Append already serialised content unchanged.
    pub fn raw(&mut self, bytes: &Vec<u8>)
        ensures
            final (self).bytes() == old(self).bytes() + bytes@,
    {
        write_raw(&mut self.w, bytes)
    }

    /// Finish, handing back the bytes produced.
    pub fn into_bytes(self) -> (out: Vec<u8>)
        ensures
            out@ == self.bytes(),
    {
        writer_take(self.w)
    }
}

} // verus!
