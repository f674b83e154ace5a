//! Schema 2: the "reverse chronological" encoding.
//!
//! Records are kept newest first, each carrying the action performed, a
//! fixed-pattern timestamp of when it happened, a content fingerprint and an
//! opaque version token.  Under the ordering invariant, the record current
//! at a time is simply the first one at or before it, so the scan exits
//! early, and an install prepends its record.

use vstd::prelude::*;

use crate::actions::Action;
use crate::actions::action_label;
use crate::errors::ErrView;
use crate::errors::SwInstallError;
use crate::schemas::ReturnElt;
use crate::schemas::ReturnEltView;
use crate::stamp::StampValue;
use crate::stamp::parse_timestamp;
use crate::stamp::stamp_le;
use crate::stamp::stamp_of;
use crate::text::find_last_attr;
use crate::text::kv_views;
use crate::text::attr_value;
use crate::text::last_attr;
use crate::text::lemma_attr_value_at;
use crate::text::lemma_last_attr_at;
use crate::text::str_eq;
use crate::xml::ReadStep;
use crate::xml::XmlOut;
use crate::xml::collect_events;
use crate::xml::events_of;
use crate::xml::leaf_bytes;
use crate::xml::lemma_prepend_prepend;
use crate::xml::prepend_bytes;

verus! {

/// The mathematical shadow of a schema-2 record.
pub ghost struct EltView {
    pub action: Seq<char>,
    pub datetime: Seq<char>,
    pub hash: Seq<char>,
    pub version: Seq<char>,
}

/// One schema-2 record.
#[derive(Debug, PartialEq, Eq, Clone)]
pub struct Elt {
    pub action: String,
    pub datetime: String,
    pub hash: String,
    pub version: String,
}

impl View for Elt {
    type V = EltView;

    open spec fn view(&self) -> EltView {
        EltView {
            action: self.action@,
            datetime: self.datetime@,
            hash: self.hash@,
            version: self.version@,
        }
    }
}

/// What decoding an attribute list into a schema-2 record yields: the last
/// occurrence of each of the four attributes; any of them missing is an
/// error.
pub open spec fn decode_attrs(attrs: Seq<(String, String)>) -> Result<EltView, ErrView> {
    match (
        last_attr(attrs, "action"@),
        last_attr(attrs, "datetime"@),
        last_attr(attrs, "hash"@),
        last_attr(attrs, "version"@),
    ) {
        (Some(a), Some(d), Some(h), Some(v)) => Ok(
            EltView { action: a, datetime: d, hash: h, version: v },
        ),
        _ => Err(ErrView::MissingEltAttribute),
    }
}

/// The attribute list a schema-2 record encodes back to.
pub open spec fn encode_attrs(e: EltView) -> Seq<(Seq<char>, Seq<char>)> {
    seq![
        ("action"@, e.action),
        ("datetime"@, e.datetime),
        ("hash"@, e.hash),
        ("version"@, e.version),
    ]
}

impl Elt {
    pub fn new(action: String, datetime: String, hash: String, version: String) -> (r: Self)
        ensures
            r@ == (EltView {
                action: action@,
                datetime: datetime@,
                hash: hash@,
                version: version@,
            }),
    {
        Elt { action, datetime, hash, version }
    }

    /// Decode a record from a flat attribute list.
    pub fn from_attrs(attrs: &Vec<(String, String)>) -> (r: Result<Elt, SwInstallError>)
        ensures
            match r {
                Ok(e) => decode_attrs(attrs@) == Ok::<EltView, ErrView>(e@),
                Err(er) => decode_attrs(attrs@) == Err::<EltView, ErrView>(er@),
            },
    {
        let action = match find_last_attr(attrs, "action") {
            Some(v) => v,
            None => {
                return Err(SwInstallError::MissingEltAttribute);
            },
        };
        let datetime = match find_last_attr(attrs, "datetime") {
            Some(v) => v,
            None => {
                return Err(SwInstallError::MissingEltAttribute);
            },
        };
        let hash = match find_last_attr(attrs, "hash") {
            Some(v) => v,
            None => {
                return Err(SwInstallError::MissingEltAttribute);
            },
        };
        let version = match find_last_attr(attrs, "version") {
            Some(v) => v,
            None => {
                return Err(SwInstallError::MissingEltAttribute);
            },
        };
        Ok(Elt { action, datetime, hash, version })
    }

    /// The record's version token.
    pub fn version(&self) -> (r: String)
        ensures
            r@ == self@.version,
    {
        self.version.clone()
    }

    /// Encode the record back to its attribute list.
    pub fn to_attrs(&self) -> (r: Vec<(String, String)>)
        ensures
            kv_views(r@) == encode_attrs(self@),
    {
        let mut out: Vec<(String, String)> = Vec::new();
        out.push(("action".to_owned(), self.action.clone()));
        out.push(("datetime".to_owned(), self.datetime.clone()));
        out.push(("hash".to_owned(), self.hash.clone()));
        out.push(("version".to_owned(), self.version.clone()));
        proof {
            assert(kv_views(out@) =~= encode_attrs(self@));
        }
        out
    }
}

/// Round trip of the schema-2 codec: decoding any attribute list that a
/// record encodes to gives that record back, value for value.
pub proof fn lemma_round_trip(attrs: Seq<(String, String)>, e: EltView)
    requires
        kv_views(attrs) == encode_attrs(e),
    ensures
        decode_attrs(attrs) == Ok::<EltView, ErrView>(e),
{
    reveal_strlit("action");
    reveal_strlit("datetime");
    reveal_strlit("hash");
    reveal_strlit("version");
    assert("action"@.len() == 6);
    assert("datetime"@.len() == 8);
    assert("hash"@.len() == 4);
    assert("version"@.len() == 7);
    assert(kv_views(attrs).len() == attrs.len());
    assert(attrs.len() == 4);
    assert(kv_views(attrs)[0] == (attrs[0].0@, attrs[0].1@));
    assert(kv_views(attrs)[1] == (attrs[1].0@, attrs[1].1@));
    assert(kv_views(attrs)[2] == (attrs[2].0@, attrs[2].1@));
    assert(kv_views(attrs)[3] == (attrs[3].0@, attrs[3].1@));
    assert((attrs[0].0@, attrs[0].1@) == encode_attrs(e)[0]);
    assert((attrs[1].0@, attrs[1].1@) == encode_attrs(e)[1]);
    assert((attrs[2].0@, attrs[2].1@) == encode_attrs(e)[2]);
    assert((attrs[3].0@, attrs[3].1@) == encode_attrs(e)[3]);
    lemma_last_attr_at(attrs, "action"@, 0);
    lemma_last_attr_at(attrs, "datetime"@, 1);
    lemma_last_attr_at(attrs, "hash"@, 2);
    lemma_last_attr_at(attrs, "version"@, 3);
    assert(last_attr(attrs, "action"@) == Some(e.action));
    assert(last_attr(attrs, "datetime"@) == Some(e.datetime));
    assert(last_attr(attrs, "hash"@) == Some(e.hash));
    assert(last_attr(attrs, "version"@) == Some(e.version));
}


/// The schema-2 resolver.
#[derive(Debug, PartialEq, Eq, Structural, Clone, Copy)]
pub struct Two;

impl Two {
    pub fn new() -> (r: Self)
        ensures
            r == (Two {  }),
    {
        Two {  }
    }

    /// The schema identifier this resolver handles.
    pub fn schema(&self) -> (r: &'static str)
        ensures
            r@ == "2"@,
    {
        "2"
    }
}


/// What the scan from position `i` yields: the first record element whose
/// datetime is at or before the target; end of stream without one is
/// `NoCurrentFound`.  A record element that cannot be decoded, or whose
/// datetime does not parse, stops the scan with that error — but only if it
/// is reached before a match.
pub open spec fn scan(events: Seq<ReadStep>, i: int, target: StampValue) -> Result<
    EltView,
    ErrView,
>
    decreases events.len() - i,
{
    if i < 0 || i >= events.len() {
        Err(ErrView::NoCurrentFound)
    } else {
        match events[i] {
            ReadStep::Eof => Err(ErrView::NoCurrentFound),
            ReadStep::Fail(m) => Err(ErrView::QuckXmlError(m@)),
            ReadStep::Leaf(name, attrs, _) => if name@ == "elt"@ {
                match attrs {
                    Err(m) => Err(ErrView::QuckXmlError(m@)),
                    Ok(list) => match decode_attrs(list@) {
                        Err(e) => Err(e),
                        Ok(elt) => match stamp_of(elt.datetime) {
                            None => Err(ErrView::ChronoParseError(elt.datetime)),
                            Some(dt) => if stamp_le(dt, target) {
                                Ok(elt)
                            } else {
                                scan(events, i + 1, target)
                            },
                        },
                    },
                }
            } else {
                scan(events, i + 1, target)
            },
            _ => scan(events, i + 1, target),
        }
    }
}

impl Two {
    /// Resolve the record current at `datetime`: the records stand newest
    /// first, so this is the first record element at or before the target.
    pub fn current_at(&self, events: &Vec<ReadStep>, start: usize, datetime: &StampValue) -> (r:
        Result<ReturnElt, SwInstallError>)
        ensures
            match r {
                Ok(e) => e@ matches ReturnEltView::Two(v) && scan(events@, start as int, *datetime)
                    == Ok::<EltView, ErrView>(v),
                Err(er) => scan(events@, start as int, *datetime) == Err::<EltView, ErrView>(er@),
            },
    {
        let n = events.len();
        let mut i = start;
        while i < n
            invariant
                n == events@.len(),
                scan(events@, start as int, *datetime) == scan(events@, i as int, *datetime),
            decreases n - i,
        {
            match &events[i] {
                ReadStep::Eof => {
                    return Err(SwInstallError::NoCurrentFound);
                },
                ReadStep::Fail(m) => {
                    return Err(SwInstallError::QuckXmlError(m.clone()));
                },
                ReadStep::Leaf(name, attrs, _) => {
                    if str_eq(name.as_str(), "elt") {
                        let list = match attrs {
                            Ok(l) => l,
                            Err(m) => {
                                return Err(SwInstallError::QuckXmlError(m.clone()));
                            },
                        };
                        let elt = match Elt::from_attrs(list) {
                            Ok(e) => e,
                            Err(er) => {
                                return Err(er);
                            },
                        };
                        let dt = match parse_timestamp(elt.datetime.as_str()) {
                            Ok(d) => d,
                            Err(er) => {
                                return Err(er);
                            },
                        };
                        if dt.le(datetime) {
                            return Ok(ReturnElt::Two(elt));
                        }
                    }
                },
                _ => {},
            }
            i = i + 1;
        }
        Err(SwInstallError::NoCurrentFound)
    }
}

/// What rewriting the stream from position `i` on appends for an install:
/// every event is copied through byte-for-byte and the new record goes
/// immediately before the first existing record element; where the stream
/// ends before any record element was seen, the new record is written then,
/// so an install always inserts it.  A failed stream is an error.
pub open spec fn update_out(events: Seq<ReadStep>, i: int, ins: EltView, inserted: bool) -> Result<
    Seq<u8>,
    ErrView,
>
    decreases events.len() - i,
{
    if i < 0 || i >= events.len() {
        Ok(
            if inserted {
                Seq::<u8>::empty()
            } else {
                leaf_bytes("elt"@, encode_attrs(ins))
            },
        )
    } else {
        match events[i] {
            ReadStep::Eof => Ok(
                if inserted {
                    Seq::<u8>::empty()
                } else {
                    leaf_bytes("elt"@, encode_attrs(ins))
                },
            ),
            ReadStep::Fail(m) => Err(ErrView::QuckXmlError(m@)),
            ReadStep::Open(_, _, raw) => prepend_bytes(
                raw@,
                update_out(events, i + 1, ins, inserted),
            ),
            ReadStep::Other(raw) => prepend_bytes(raw@, update_out(events, i + 1, ins, inserted)),
            ReadStep::Leaf(name, _, raw) => if name@ == "elt"@ && !inserted {
                prepend_bytes(
                    leaf_bytes("elt"@, encode_attrs(ins)) + raw@,
                    update_out(events, i + 1, ins, true),
                )
            } else {
                prepend_bytes(raw@, update_out(events, i + 1, ins, inserted))
            },
        }
    }
}

/// The schema-2 record inside a resolved record; meaningless for the other
/// case.
pub open spec fn elem_view(e: ReturnEltView) -> EltView {
    match e {
        ReturnEltView::Two(v) => v,
        ReturnEltView::One(_) => arbitrary(),
    }
}

impl Two {
    /// Rewrite the record stream for an install, appending the output.  On
    /// success the bytes appended are exactly what [`update_out`] gives for
    /// this event sequence.
    pub fn update_events(&self, events: &Vec<ReadStep>, elem: &Elt, out: &mut XmlOut) -> (r: Result<
        (),
        SwInstallError,
    >)
        ensures
            match r {
                Ok(_) => update_out(events@, 0, elem@, false) matches Ok(b) && final (out).bytes()
                    == old(out).bytes() + b,
                Err(er) => update_out(events@, 0, elem@, false) == Err::<Seq<u8>, ErrView>(er@),
            },
    {
        let n = events.len();
        let mut i: usize = 0;
        let mut inserted = false;
        let ghost mut written: Seq<u8> = Seq::<u8>::empty();
        let new_attrs = elem.to_attrs();
        proof {
            assert(out.bytes() =~= old(out).bytes() + written);
        }
        while i < n
            invariant
                n == events@.len(),
                i <= n,
                update_out(events@, 0, elem@, false) == prepend_bytes(
                    written,
                    update_out(events@, i as int, elem@, inserted),
                ),
                out.bytes() == old(out).bytes() + written,
                kv_views(new_attrs@) == encode_attrs(elem@),
            decreases n - i,
        {
            match &events[i] {
                ReadStep::Eof => {
                    if !inserted {
                        out.leaf("elt", &new_attrs);
                    }
                    proof {
                        if inserted {
                            assert(written + Seq::<u8>::empty() =~= written);
                        }
                    }
                    return Ok(());
                },
                ReadStep::Fail(m) => {
                    return Err(SwInstallError::QuckXmlError(m.clone()));
                },
                ReadStep::Open(_, _, raw) => {
                    out.raw(raw);
                    proof {
                        lemma_prepend_prepend(
                            written,
                            raw@,
                            update_out(events@, i + 1 as int, elem@, inserted),
                        );
                        written = written + raw@;
                    }
                },
                ReadStep::Other(raw) => {
                    out.raw(raw);
                    proof {
                        lemma_prepend_prepend(
                            written,
                            raw@,
                            update_out(events@, i + 1 as int, elem@, inserted),
                        );
                        written = written + raw@;
                    }
                },
                ReadStep::Leaf(name, _, raw) => {
                    if !inserted && str_eq(name.as_str(), "elt") {
                        out.leaf("elt", &new_attrs);
                        out.raw(raw);
                        proof {
                            lemma_prepend_prepend(
                                written,
                                leaf_bytes("elt"@, encode_attrs(elem@)) + raw@,
                                update_out(events@, i + 1 as int, elem@, true),
                            );
                            written = written + (leaf_bytes("elt"@, encode_attrs(elem@)) + raw@);
                        }
                        inserted = true;
                    } else {
                        out.raw(raw);
                        proof {
                            lemma_prepend_prepend(
                                written,
                                raw@,
                                update_out(events@, i + 1 as int, elem@, inserted),
                            );
                            written = written + raw@;
                        }
                    }
                },
            }
            i = i + 1;
        }
        if !inserted {
            out.leaf("elt", &new_attrs);
        }
        proof {
            if inserted {
                assert(written + Seq::<u8>::empty() =~= written);
            }
        }
        Ok(())
    }

    /// Rewrite a serialised record stream for the given action.  Only an
    /// install is implemented: the new record, built from `elem`, is placed
    /// immediately before the first existing record element — or at the end
    /// where no record exists, so it is always inserted — and everything
    /// else is copied through byte-for-byte; any other action fails as
    /// unsupported.
    pub fn update(&self, action: Action, input: &str, elem: ReturnElt) -> (r: Result<
        Vec<u8>,
        SwInstallError,
    >)
        requires
            elem matches ReturnElt::Two(_),
        ensures
            match action {
                Action::Install(_) => match r {
                    Ok(outb) => update_out(events_of(input@), 0, elem_view(elem@), false) == Ok::<
                        Seq<u8>,
                        ErrView,
                    >(outb@),
                    Err(er) => update_out(events_of(input@), 0, elem_view(elem@), false) == Err::<
                        Seq<u8>,
                        ErrView,
                    >(er@),
                },
                _ => r matches Err(e) && e@ == ErrView::UnsupportedAction(action_label(action)),
            },
    {
        match &action {
            Action::Install(_) => {},
            _ => {
                return Err(SwInstallError::UnsupportedAction(action.to_string()));
            },
        }
        let el = match elem {
            ReturnElt::Two(e) => e,
            ReturnElt::One(_) => {
                proof {
                    assert(false);
                }
                unreached()
            },
        };
        let events = collect_events(input);
        let mut out = XmlOut::new();
        match self.update_events(&events, &el, &mut out) {
            Ok(_) => Ok(out.into_bytes()),
            Err(er) => Err(er),
        }
    }
}


/// Decoding then re-encoding reproduces every attribute's value: whatever
/// order the original list had, the re-encoded list holds the same value
/// for each of the four attributes.
pub proof fn lemma_reencode_preserves_values(attrs: Seq<(String, String)>, e: EltView)
    requires
        decode_attrs(attrs) == Ok::<EltView, ErrView>(e),
    ensures
        attr_value(encode_attrs(e), "action"@) == last_attr(attrs, "action"@),
        attr_value(encode_attrs(e), "datetime"@) == last_attr(attrs, "datetime"@),
        attr_value(encode_attrs(e), "hash"@) == last_attr(attrs, "hash"@),
        attr_value(encode_attrs(e), "version"@) == last_attr(attrs, "version"@),
{
    reveal_strlit("action");
    reveal_strlit("datetime");
    reveal_strlit("hash");
    reveal_strlit("version");
    assert("action"@.len() == 6);
    assert("datetime"@.len() == 8);
    assert("hash"@.len() == 4);
    assert("version"@.len() == 7);
    let enc = encode_attrs(e);
    lemma_attr_value_at(enc, "action"@, 0);
    lemma_attr_value_at(enc, "datetime"@, 1);
    lemma_attr_value_at(enc, "hash"@, 2);
    lemma_attr_value_at(enc, "version"@, 3);
}

/// Position `j` holds a well-formed record element: a record leaf whose
/// attribute list parsed, decoded, and whose datetime parses as a timestamp.
pub open spec fn clean_record_at(events: Seq<ReadStep>, j: int) -> bool {
    match events[j] {
        ReadStep::Leaf(name, attrs, _) => name@ == "elt"@ && match attrs {
            Ok(list) => decode_attrs(list@) is Ok && stamp_of(
                decode_attrs(list@)->Ok_0.datetime,
            ) is Some,
            Err(_) => false,
        },
        _ => false,
    }
}

/// The record a well-formed position decodes to.
pub open spec fn record_at(events: Seq<ReadStep>, j: int) -> EltView {
    match events[j] {
        ReadStep::Leaf(_, attrs, _) => match attrs {
            Ok(list) => decode_attrs(list@)->Ok_0,
            Err(_) => arbitrary(),
        },
        _ => arbitrary(),
    }
}

/// The timestamp embedded in a well-formed position's record.
pub open spec fn record_stamp(events: Seq<ReadStep>, j: int) -> StampValue {
    match stamp_of(record_at(events, j).datetime) {
        Some(d) => d,
        None => arbitrary(),
    }
}

/// A well-formed record stream from `i` to the end: record elements only,
/// closed by end-of-file.
pub open spec fn clean_stream(events: Seq<ReadStep>, i: int) -> bool {
    &&& 0 <= i < events.len()
    &&& events.last() is Eof
    &&& forall|j: int| i <= j < events.len() - 1 ==> clean_record_at(events, j)
}

/// Over a well-formed record stream, resolution returns exactly the first
/// record whose timestamp is at or before the target: here, the record at
/// `j`, the first in-range position.
pub proof fn lemma_current_is_first_match(
    events: Seq<ReadStep>,
    i: int,
    target: StampValue,
    j: int,
)
    requires
        clean_stream(events, i),
        i <= j < events.len() - 1,
        stamp_le(record_stamp(events, j), target),
        forall|l: int| i <= l < j ==> !stamp_le(record_stamp(events, l), target),
    ensures
        scan(events, i, target) == Ok::<EltView, ErrView>(record_at(events, j)),
    decreases j - i,
{
    assert(clean_record_at(events, i));
    if i < j {
        assert(!stamp_le(record_stamp(events, i), target));
        lemma_current_is_first_match(events, i + 1, target, j);
        assert(scan(events, i, target) == scan(events, i + 1, target));
    } else {
        assert(stamp_le(record_stamp(events, i), target));
        assert(scan(events, i, target) == Ok::<EltView, ErrView>(record_at(events, i)));
    }
}

/// Over a well-formed record stream with no record at or before the target,
/// resolution reports that no current record exists.
pub proof fn lemma_current_none(events: Seq<ReadStep>, i: int, target: StampValue)
    requires
        clean_stream(events, i),
        forall|l: int| i <= l < events.len() - 1 ==> !stamp_le(record_stamp(events, l), target),
    ensures
        scan(events, i, target) == Err::<EltView, ErrView>(ErrView::NoCurrentFound),
    decreases events.len() - i,
{
    if i < events.len() - 1 {
        assert(clean_record_at(events, i));
        assert(!stamp_le(record_stamp(events, i), target));
        lemma_current_none(events, i + 1, target);
        assert(scan(events, i, target) == scan(events, i + 1, target));
    } else {
        assert(events[i] == events.last());
    }
}

/// Position `j` holds a record element (the rewrite copies it without ever
/// decoding its attributes).
pub open spec fn leaf_elt_at(events: Seq<ReadStep>, j: int) -> bool {
    match events[j] {
        ReadStep::Leaf(name, _, _) => name@ == "elt"@,
        _ => false,
    }
}

/// The serialised form of the record element at such a position.
pub open spec fn leaf_raw_at(events: Seq<ReadStep>, j: int) -> Seq<u8> {
    match events[j] {
        ReadStep::Leaf(_, _, raw) => raw@,
        _ => arbitrary(),
    }
}

/// The serialised form of copying the records from `j` on through verbatim.
pub open spec fn copied_bytes(events: Seq<ReadStep>, j: int) -> Seq<u8>
    decreases events.len() - j,
{
    if j < 0 || j >= events.len() || !leaf_elt_at(events, j) {
        Seq::<u8>::empty()
    } else {
        leaf_raw_at(events, j) + copied_bytes(events, j + 1)
    }
}

/// Once the new record is in, the rest of a record stream is copied through
/// byte-for-byte.
proof fn lemma_update_copies(events: Seq<ReadStep>, j: int, ins: EltView)
    requires
        0 <= j < events.len(),
        events.last() is Eof,
        forall|l: int| j <= l < events.len() - 1 ==> leaf_elt_at(events, l),
    ensures
        update_out(events, j, ins, true) == Ok::<Seq<u8>, ErrView>(copied_bytes(events, j)),
    decreases events.len() - j,
{
    if j < events.len() - 1 {
        lemma_update_copies(events, j + 1, ins);
        match update_out(events, j + 1, ins, true) {
            Ok(rest) => {
                assert(copied_bytes(events, j) =~= leaf_raw_at(events, j) + rest);
            },
            Err(_) => {},
        }
    } else {
        assert(events[j] == events.last());
        assert(!leaf_elt_at(events, j));
    }
}

/// Over a well-formed record stream — even one with no records at all — an
/// install writes the new record first and then every existing record
/// byte-for-byte: it always inserts at the front and preserves the rest.
pub proof fn lemma_update_inserts_first(events: Seq<ReadStep>, i: int, ins: EltView)
    requires
        0 <= i < events.len(),
        events.last() is Eof,
        forall|l: int| i <= l < events.len() - 1 ==> leaf_elt_at(events, l),
    ensures
        update_out(events, i, ins, false) == Ok::<Seq<u8>, ErrView>(
            leaf_bytes("elt"@, encode_attrs(ins)) + copied_bytes(events, i),
        ),
{
    if i < events.len() - 1 {
        lemma_update_copies(events, i + 1, ins);
        match update_out(events, i + 1, ins, true) {
            Ok(rest) => {
                assert((leaf_bytes("elt"@, encode_attrs(ins)) + leaf_raw_at(events, i)) + rest
                    =~= leaf_bytes("elt"@, encode_attrs(ins)) + copied_bytes(events, i));
            },
            Err(_) => {},
        }
    } else {
        assert(events[i] == events.last());
        assert(!leaf_elt_at(events, i));
        assert(leaf_bytes("elt"@, encode_attrs(ins)) + copied_bytes(events, i) =~= leaf_bytes(
            "elt"@,
            encode_attrs(ins),
        ));
    }
}

} // verus!
