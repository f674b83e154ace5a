//! Schema 1: the "currency flag" encoding.
//!
//! Records are kept in append order (oldest declared first).  Each record
//! declares an explicit `is_current` flag beside a `version` token that
//! embeds its own timestamp, and the two can disagree: rollbacks flip flags
//! in place without appending history.  Resolution therefore reproduces the
//! legacy scan exactly; see [`scan`].
//!
//! A `version` token is a timestamp, optionally joined to a revision
//! identifier by a single underscore (`20161213-093146_r575055`).

use vstd::prelude::*;

use crate::errors::ErrView;
use crate::errors::SwInstallError;
use crate::pybool::Pybool;
use crate::pybool::pybool_label;
use crate::pybool::pybool_of;
use crate::text::find_last_attr;
use crate::text::find_sep_positions;
use crate::text::kv_views;
use crate::text::attr_value;
use crate::text::last_attr;
use crate::text::lemma_attr_value_at;
use crate::text::lemma_last_attr_at;
use crate::text::lemma_sep_positions_none;
use crate::text::lemma_sep_positions_single;
use crate::text::lemma_sep_positions_sound;
use crate::text::lower;
use crate::text::sep_positions;
use crate::actions::Action;
use crate::actions::action_label;
use crate::schemas::ReturnElt;
use crate::schemas::ReturnEltView;
use crate::stamp::StampValue;
use crate::stamp::parse_timestamp;
use crate::stamp::stamp_le;
use crate::stamp::stamp_of;
use crate::text::str_eq;
use crate::xml::ReadStep;
use crate::xml::XmlOut;
use crate::xml::collect_events;
use crate::xml::events_of;
use crate::xml::leaf_bytes;
use crate::xml::lemma_prepend_prepend;
use crate::xml::prepend_bytes;
use crate::text::to_lower;
use vstd::string::StrSliceExecFns;
use vstd::string::StringExecFns;

verus! {

/// The mathematical shadow of a schema-1 record.
pub ghost struct EltView {
    pub is_current: Pybool,
    pub version: Seq<char>,
    pub revision: Option<Seq<char>>,
}

/// One schema-1 record: the currency flag, the timestamp part of the
/// version token, and the revision suffix that was split off it, if any.
#[derive(Debug, PartialEq, Eq, Clone)]
pub struct Elt {
    pub is_current: Pybool,
    pub version: String,
    pub revision: Option<String>,
}

impl View for Elt {
    type V = EltView;

    open spec fn view(&self) -> EltView {
        EltView {
            is_current: self.is_current,
            version: self.version@,
            revision: match self.revision {
                Some(r) => Some(r@),
                None => None,
            },
        }
    }
}

/// How a raw `version` token splits into a timestamp part and an optional
/// revision: exactly one underscore separates the two; with no underscore
/// the whole token is the timestamp; with two or more, only what follows
/// the last underscore is kept as the timestamp and there is no revision.
pub open spec fn split_version(v: Seq<char>) -> (Seq<char>, Option<Seq<char>>) {
    let seps = sep_positions(v, '_');
    if seps.len() == 1 {
        (v.take(seps[0]), Some(v.skip(seps[0] + 1)))
    } else if seps.len() == 0 {
        (v, None)
    } else {
        (v.skip(seps.last() + 1), None)
    }
}

/// The full version token re-assembled from its two parts.
pub open spec fn joined(version: Seq<char>, revision: Option<Seq<char>>) -> Seq<char> {
    match revision {
        Some(r) => version + "_"@ + r,
        None => version,
    }
}

/// Splitting a token with at most one separator loses nothing: joining the
/// two parts gives the token back.
pub proof fn lemma_split_join(v: Seq<char>)
    requires
        sep_positions(v, '_').len() <= 1,
    ensures
        joined(split_version(v).0, split_version(v).1) == v,
{
    let seps = sep_positions(v, '_');
    if seps.len() == 1 {
        lemma_sep_positions_sound(v, '_');
        let p = seps[0];
        reveal_strlit("_");
        assert(v.take(p) + "_"@ + v.skip(p + 1) =~= v);
    }
}

impl Elt {
    /// Build a record from the flag and the raw version token, splitting the
    /// token on its revision separator.
    pub fn new(is_current: Pybool, version: String) -> (r: Self)
        ensures
            r@.is_current == is_current,
            (r@.version, r@.revision) == split_version(version@),
    {
        let seps = find_sep_positions(version.as_str(), '_');
        proof {
            lemma_sep_positions_sound(version@, '_');
            assert(seps@.map_values(|p: usize| p as int).len() == seps@.len());
            if seps@.len() > 0 {
                assert(seps@.map_values(|p: usize| p as int)[0] == seps@[0] as int);
                assert(seps@.map_values(|p: usize| p as int)[seps@.len() - 1] == seps@[seps@.len()
                    - 1] as int);
            }
        }
        let n = version.as_str().unicode_len();
        if seps.len() == 1 {
            let p = seps[0];
            let v = version.as_str().substring_char(0, p).to_owned();
            let rev = version.as_str().substring_char(p + 1, n).to_owned();
            proof {
                assert(v@ =~= version@.take(p as int));
                assert(rev@ =~= version@.skip(p + 1 as int));
            }
            Elt { is_current, version: v, revision: Some(rev) }
        } else if seps.len() == 0 {
            Elt { is_current, version, revision: None }
        } else {
            let p = seps[seps.len() - 1];
            let v = version.as_str().substring_char(p + 1, n).to_owned();
            proof {
                assert(v@ =~= version@.skip(sep_positions(version@, '_').last() + 1));
            }
            Elt { is_current, version: v, revision: None }
        }
    }

    /// The full version token, with the revision joined back on when there
    /// is one.
    pub fn version(&self) -> (r: String)
        ensures
            r@ == joined(self@.version, self@.revision),
    {
        match &self.revision {
            Some(rev) => {
                let mut s = self.version.clone();
                s.append("_");
                s.append(rev.as_str());
                s
            },
            None => self.version.clone(),
        }
    }
}

/// What decoding an attribute list into a schema-1 record yields: the last
/// `is_current` attribute (lowered, then read as a boolean token) and the
/// last `version` attribute (split on its revision separator); a missing
/// attribute or an unreadable boolean is an error.
pub open spec fn decode_attrs(attrs: Seq<(String, String)>) -> Result<EltView, ErrView> {
    match last_attr(attrs, "is_current"@) {
        None => Err(ErrView::MissingEltAttribute),
        Some(ic) => match pybool_of(lower(ic)) {
            None => Err(ErrView::RuntimeError("invalid input: "@ + lower(ic))),
            Some(b) => match last_attr(attrs, "version"@) {
                None => Err(ErrView::MissingEltAttribute),
                Some(v) => Ok(
                    EltView {
                        is_current: b,
                        version: split_version(v).0,
                        revision: split_version(v).1,
                    },
                ),
            },
        },
    }
}

/// The attribute list a schema-1 record encodes back to.
pub open spec fn encode_attrs(e: EltView) -> Seq<(Seq<char>, Seq<char>)> {
    seq![
        ("is_current"@, pybool_label(e.is_current)),
        ("version"@, joined(e.version, e.revision)),
    ]
}

impl Elt {
    /// Decode a record from a flat attribute list.
    pub fn from_attrs(attrs: &Vec<(String, String)>) -> (r: Result<Elt, SwInstallError>)
        ensures
            match r {
                Ok(e) => decode_attrs(attrs@) == Ok::<EltView, ErrView>(e@),
                Err(er) => decode_attrs(attrs@) == Err::<EltView, ErrView>(er@),
            },
    {
        let ic = match find_last_attr(attrs, "is_current") {
            Some(v) => v,
            None => {
                return Err(SwInstallError::MissingEltAttribute);
            },
        };
        let lowered = to_lower(ic.as_str());
        let flag = match Pybool::from_str(lowered.as_str()) {
            Ok(b) => b,
            Err(e) => {
                return Err(e);
            },
        };
        let version = match find_last_attr(attrs, "version") {
            Some(v) => v,
            None => {
                return Err(SwInstallError::MissingEltAttribute);
            },
        };
        Ok(Elt::new(flag, version))
    }

    /// Encode the record back to its attribute list.
    pub fn to_attrs(&self) -> (r: Vec<(String, String)>)
        ensures
            kv_views(r@) == encode_attrs(self@),
    {
        let mut out: Vec<(String, String)> = Vec::new();
        out.push(("is_current".to_owned(), self.is_current.to_string()));
        out.push(("version".to_owned(), self.version()));
        proof {
            assert(kv_views(out@) =~= encode_attrs(self@));
        }
        out
    }
}

/// Round trip of the schema-1 codec: decoding any attribute list that a
/// record encodes to gives that record back, value for value.  This holds
/// of every record whose timestamp part is free of the separator and whose
/// revision, when present, is too — which is every record the decoder can
/// produce.
pub proof fn lemma_round_trip(attrs: Seq<(String, String)>, e: EltView)
    requires
        kv_views(attrs) == encode_attrs(e),
        forall|i: int| 0 <= i < e.version.len() ==> e.version[i] != '_',
        e.revision matches Some(r) ==> forall|i: int| 0 <= i < r.len() ==> r[i] != '_',
    ensures
        decode_attrs(attrs) == Ok::<EltView, ErrView>(e),
{
    reveal_strlit("is_current");
    reveal_strlit("version");
    reveal_strlit("True");
    reveal_strlit("true");
    reveal_strlit("False");
    reveal_strlit("false");
    reveal_strlit("_");
    assert("is_current"@.len() == 10);
    assert("version"@.len() == 7);
    assert(kv_views(attrs).len() == attrs.len());
    assert(attrs.len() == 2);
    assert(kv_views(attrs)[0] == (attrs[0].0@, attrs[0].1@));
    assert(kv_views(attrs)[1] == (attrs[1].0@, attrs[1].1@));
    assert((attrs[0].0@, attrs[0].1@) == encode_attrs(e)[0]);
    assert((attrs[1].0@, attrs[1].1@) == encode_attrs(e)[1]);
    lemma_last_attr_at(attrs, "is_current"@, 0);
    lemma_last_attr_at(attrs, "version"@, 1);
    assert(last_attr(attrs, "is_current"@) == Some(pybool_label(e.is_current)));
    assert(last_attr(attrs, "version"@) == Some(joined(e.version, e.revision)));
    match e.is_current {
        Pybool::True => {
            assert(lower("True"@) =~= "true"@);
        },
        Pybool::False => {
            assert(lower("False"@) =~= "false"@);
        },
    }
    assert(pybool_of(lower(pybool_label(e.is_current))) == Some(e.is_current));
    let v = joined(e.version, e.revision);
    match e.revision {
        Some(r) => {
            assert(v =~= e.version + seq!['_'] + r);
            lemma_sep_positions_single(e.version, r, '_');
            let seps = sep_positions(v, '_');
            assert(seps == seq![e.version.len() as int]);
            assert(v.take(e.version.len() as int) =~= e.version);
            assert(v.skip(e.version.len() + 1 as int) =~= r);
            assert(split_version(v) == (e.version, Some(r)));
        },
        None => {
            lemma_sep_positions_none(e.version, '_');
            assert(split_version(v) == (e.version, None::<Seq<char>>));
        },
    }
}


/// The schema-1 resolver.
#[derive(Debug, PartialEq, Eq, Structural, Clone, Copy)]
pub struct One;

impl One {
    pub fn new() -> (r: Self)
        ensures
            r == (One {  }),
    {
        One {  }
    }

    /// The schema identifier this resolver handles.
    pub fn schema(&self) -> (r: &'static str)
        ensures
            r@ == "1"@,
    {
        "1"
    }
}


/// The scan state and result, from position `i` on.  The scan walks records
/// in declared (append) order keeping the last in-range record seen, and
/// stops as soon as a record is both in range and flagged current, or is out
/// of range; `cur` and `in_dt` carry the flags of the record handled last,
/// because a self-closed element of another name re-evaluates the stop
/// condition against them.  End of stream without a stop is `NoCurrentFound`.
pub open spec fn scan(
    events: Seq<ReadStep>,
    i: int,
    cur: bool,
    in_dt: bool,
    last: Option<EltView>,
    target: StampValue,
) -> Result<EltView, ErrView>
    decreases events.len() - i,
{
    if i < 0 || i >= events.len() {
        Err(ErrView::NoCurrentFound)
    } else {
        match events[i] {
            ReadStep::Eof => Err(ErrView::NoCurrentFound),
            ReadStep::Fail(m) => Err(ErrView::QuckXmlError(m@)),
            ReadStep::Leaf(name, attrs, _) => if name@ == "elt"@ {
                match attrs {
                    Err(m) => Err(ErrView::QuckXmlError(m@)),
                    Ok(list) => match decode_attrs(list@) {
                        Err(e) => Err(e),
                        Ok(elt) => match stamp_of(elt.version) {
                            None => Err(ErrView::ChronoParseError(elt.version)),
                            Some(dt) => {
                                let in2 = stamp_le(dt, target);
                                let cur2 = elt.is_current == Pybool::True;
                                let last2 = if in2 {
                                    Some(elt)
                                } else {
                                    last
                                };
                                if (cur2 && in2) || !in2 {
                                    match last2 {
                                        Some(e) => Ok(e),
                                        None => Err(ErrView::NoCurrentFound),
                                    }
                                } else {
                                    scan(events, i + 1, cur2, in2, last2, target)
                                }
                            },
                        },
                    },
                }
            } else {
                if (cur && in_dt) || !in_dt {
                    match last {
                        Some(e) => Ok(e),
                        None => Err(ErrView::NoCurrentFound),
                    }
                } else {
                    scan(events, i + 1, cur, in_dt, last, target)
                }
            },
            _ => scan(events, i + 1, cur, in_dt, last, target),
        }
    }
}

/// The view of the record held as "last in range", if any.
pub open spec fn last_view(last: Option<Elt>) -> Option<EltView> {
    match last {
        Some(e) => Some(e@),
        None => None,
    }
}

impl One {
    /// Resolve the record current at `datetime`, by the legacy flag scan:
    /// the last in-range record seen when the scan stops.
    pub fn current_at(&self, events: &Vec<ReadStep>, start: usize, datetime: &StampValue) -> (r:
        Result<ReturnElt, SwInstallError>)
        ensures
            match r {
                Ok(e) => e@ matches ReturnEltView::One(v) && scan(
                    events@,
                    start as int,
                    false,
                    false,
                    None,
                    *datetime,
                ) == Ok::<EltView, ErrView>(v),
                Err(er) => scan(events@, start as int, false, false, None, *datetime) == Err::<
                    EltView,
                    ErrView,
                >(er@),
            },
    {
        let n = events.len();
        let mut i = start;
        let mut cur = false;
        let mut in_dt = false;
        let mut last: Option<Elt> = None;
        while i < n
            invariant
                n == events@.len(),
                scan(events@, start as int, false, false, None, *datetime) == scan(
                    events@,
                    i as int,
                    cur,
                    in_dt,
                    last_view(last),
                    *datetime,
                ),
            decreases n - i,
        {
            match &events[i] {
                ReadStep::Eof => {
                    return Err(SwInstallError::NoCurrentFound);
                },
                ReadStep::Fail(m) => {
                    return Err(SwInstallError::QuckXmlError(m.clone()));
                },
                ReadStep::Leaf(name, attrs, _) => {
                    if str_eq(name.as_str(), "elt") {
                        let list = match attrs {
                            Ok(l) => l,
                            Err(m) => {
                                return Err(SwInstallError::QuckXmlError(m.clone()));
                            },
                        };
                        let elt = match Elt::from_attrs(list) {
                            Ok(e) => e,
                            Err(er) => {
                                return Err(er);
                            },
                        };
                        let dt = match parse_timestamp(elt.version.as_str()) {
                            Ok(d) => d,
                            Err(er) => {
                                return Err(er);
                            },
                        };
                        in_dt = dt.le(datetime);
                        cur = elt.is_current.as_bool();
                        if in_dt {
                            last = Some(elt);
                        }
                        if (cur && in_dt) || !in_dt {
                            return match last {
                                Some(e) => Ok(ReturnElt::One(e)),
                                None => Err(SwInstallError::NoCurrentFound),
                            };
                        }
                    } else {
                        if (cur && in_dt) || !in_dt {
                            return match last {
                                Some(e) => Ok(ReturnElt::One(e)),
                                None => Err(SwInstallError::NoCurrentFound),
                            };
                        }
                    }
                },
                _ => {},
            }
            i = i + 1;
        }
        Err(SwInstallError::NoCurrentFound)
    }
}

/// A record with its currency flag forced off.
pub open spec fn flipped(e: EltView) -> EltView {
    EltView { is_current: Pybool::False, version: e.version, revision: e.revision }
}

/// What rewriting the stream from position `i` on appends for an install:
/// every record element whose flag is set is rewritten with the flag forced
/// off, every other event — records left alone, container tags, text,
/// comments — is copied through byte-for-byte, and one new record is
/// appended when the end of the stream is reached.  A failed stream, or a
/// record element whose attribute list cannot be read, is an error.
pub open spec fn update_out(events: Seq<ReadStep>, i: int, ins: EltView) -> Result<
    Seq<u8>,
    ErrView,
>
    decreases events.len() - i,
{
    if i < 0 || i >= events.len() {
        Ok(leaf_bytes("elt"@, encode_attrs(ins)))
    } else {
        match events[i] {
            ReadStep::Eof => Ok(leaf_bytes("elt"@, encode_attrs(ins))),
            ReadStep::Fail(m) => Err(ErrView::QuckXmlError(m@)),
            ReadStep::Open(_, _, raw) => prepend_bytes(raw@, update_out(events, i + 1, ins)),
            ReadStep::Other(raw) => prepend_bytes(raw@, update_out(events, i + 1, ins)),
            ReadStep::Leaf(name, attrs, raw) => if name@ == "elt"@ {
                match attrs {
                    Err(m) => Err(ErrView::QuckXmlError(m@)),
                    Ok(list) => match decode_attrs(list@) {
                        Err(e) => Err(e),
                        Ok(elt) => if elt.is_current == Pybool::True {
                            prepend_bytes(
                                leaf_bytes("elt"@, encode_attrs(flipped(elt))),
                                update_out(events, i + 1, ins),
                            )
                        } else {
                            prepend_bytes(raw@, update_out(events, i + 1, ins))
                        },
                    },
                }
            } else {
                prepend_bytes(raw@, update_out(events, i + 1, ins))
            },
        }
    }
}

/// The schema-1 record inside a resolved record; meaningless for the other
/// case.
pub open spec fn elem_view(e: ReturnEltView) -> EltView {
    match e {
        ReturnEltView::One(v) => v,
        ReturnEltView::Two(_) => arbitrary(),
    }
}

impl One {
    /// Rewrite the record stream for an install, appending the output.  On
    /// success the bytes appended are exactly what [`update_out`] gives for
    /// this event sequence.
    pub fn update_events(&self, events: &Vec<ReadStep>, elem: &Elt, out: &mut XmlOut) -> (r: Result<
        (),
        SwInstallError,
    >)
        ensures
            match r {
                Ok(_) => update_out(events@, 0, elem@) matches Ok(b) && final (out).bytes() == old(
                    out,
                ).bytes() + b,
                Err(er) => update_out(events@, 0, elem@) == Err::<Seq<u8>, ErrView>(er@),
            },
    {
        let n = events.len();
        let mut i: usize = 0;
        let ghost mut written: Seq<u8> = Seq::<u8>::empty();
        let new_attrs = elem.to_attrs();
        proof {
            assert(out.bytes() =~= old(out).bytes() + written);
        }
        while i < n
            invariant
                n == events@.len(),
                i <= n,
                update_out(events@, 0, elem@) == prepend_bytes(
                    written,
                    update_out(events@, i as int, elem@),
                ),
                out.bytes() == old(out).bytes() + written,
                kv_views(new_attrs@) == encode_attrs(elem@),
            decreases n - i,
        {
            match &events[i] {
                ReadStep::Eof => {
                    out.leaf("elt", &new_attrs);
                    return Ok(());
                },
                ReadStep::Fail(m) => {
                    return Err(SwInstallError::QuckXmlError(m.clone()));
                },
                ReadStep::Open(_, _, raw) => {
                    out.raw(raw);
                    proof {
                        lemma_prepend_prepend(
                            written,
                            raw@,
                            update_out(events@, i + 1 as int, elem@),
                        );
                        written = written + raw@;
                    }
                },
                ReadStep::Other(raw) => {
                    out.raw(raw);
                    proof {
                        lemma_prepend_prepend(
                            written,
                            raw@,
                            update_out(events@, i + 1 as int, elem@),
                        );
                        written = written + raw@;
                    }
                },
                ReadStep::Leaf(name, attrs, raw) => {
                    if str_eq(name.as_str(), "elt") {
                        let list = match attrs {
                            Ok(l) => l,
                            Err(m) => {
                                return Err(SwInstallError::QuckXmlError(m.clone()));
                            },
                        };
                        let elt = match Elt::from_attrs(list) {
                            Ok(e) => e,
                            Err(er) => {
                                return Err(er);
                            },
                        };
                        if elt.is_current.as_bool() {
                            let flip = Elt {
                                is_current: Pybool::False,
                                version: elt.version,
                                revision: elt.revision,
                            };
                            let flip_attrs = flip.to_attrs();
                            out.leaf("elt", &flip_attrs);
                            proof {
                                assert(flip@ == flipped(elt@));
                                lemma_prepend_prepend(
                                    written,
                                    leaf_bytes("elt"@, encode_attrs(flipped(elt@))),
                                    update_out(events@, i + 1 as int, elem@),
                                );
                                written = written + leaf_bytes("elt"@, encode_attrs(flipped(elt@)));
                            }
                        } else {
                            out.raw(raw);
                            proof {
                                lemma_prepend_prepend(
                                    written,
                                    raw@,
                                    update_out(events@, i + 1 as int, elem@),
                                );
                                written = written + raw@;
                            }
                        }
                    } else {
                        out.raw(raw);
                        proof {
                            lemma_prepend_prepend(
                                written,
                                raw@,
                                update_out(events@, i + 1 as int, elem@),
                            );
                            written = written + raw@;
                        }
                    }
                },
            }
            i = i + 1;
        }
        out.leaf("elt", &new_attrs);
        Ok(())
    }

    /// Rewrite a serialised record stream for the given action.  Only an
    /// install is implemented: every record whose flag is set is rewritten
    /// with the flag forced off and one new record, built from `elem`, is
    /// appended at the end; any other action fails as unsupported.
    pub fn update(&self, action: Action, input: &str, elem: ReturnElt) -> (r: Result<
        Vec<u8>,
        SwInstallError,
    >)
        requires
            elem matches ReturnElt::One(_),
        ensures
            match action {
                Action::Install(_) => match r {
                    Ok(outb) => update_out(events_of(input@), 0, elem_view(elem@)) == Ok::<
                        Seq<u8>,
                        ErrView,
                    >(outb@),
                    Err(er) => update_out(events_of(input@), 0, elem_view(elem@)) == Err::<
                        Seq<u8>,
                        ErrView,
                    >(er@),
                },
                _ => r matches Err(e) && e@ == ErrView::UnsupportedAction(action_label(action)),
            },
    {
        match &action {
            Action::Install(_) => {},
            _ => {
                return Err(SwInstallError::UnsupportedAction(action.to_string()));
            },
        }
        let el = match elem {
            ReturnElt::One(e) => e,
            ReturnElt::Two(_) => {
                proof {
                    assert(false);
                }
                unreached()
            },
        };
        let events = collect_events(input);
        let mut out = XmlOut::new();
        match self.update_events(&events, &el, &mut out) {
            Ok(_) => Ok(out.into_bytes()),
            Err(er) => Err(er),
        }
    }
}


/// Decoding then re-encoding reproduces every attribute's value: whatever
/// order the original list had, the re-encoded list holds the same value
/// for both attributes.  This holds of every list whose currency flag is
/// canonically spelt and whose version token has at most one separator.
pub proof fn lemma_reencode_preserves_values(attrs: Seq<(String, String)>, e: EltView)
    requires
        decode_attrs(attrs) == Ok::<EltView, ErrView>(e),
        last_attr(attrs, "is_current"@) == Some("True"@) || last_attr(attrs, "is_current"@)
            == Some("False"@),
        sep_positions(
            match last_attr(attrs, "version"@) {
                Some(v) => v,
                None => Seq::<char>::empty(),
            },
            '_',
        ).len() <= 1,
    ensures
        attr_value(encode_attrs(e), "is_current"@) == last_attr(attrs, "is_current"@),
        attr_value(encode_attrs(e), "version"@) == last_attr(attrs, "version"@),
{
    reveal_strlit("is_current");
    reveal_strlit("version");
    reveal_strlit("True");
    reveal_strlit("true");
    reveal_strlit("False");
    reveal_strlit("false");
    assert("is_current"@.len() == 10);
    assert("version"@.len() == 7);
    let ic = last_attr(attrs, "is_current"@)->Some_0;
    if ic == "True"@ {
        assert(lower("True"@) =~= "true"@);
    } else {
        assert(lower("False"@) =~= "false"@);
    }
    assert(pybool_label(e.is_current) == ic);
    let v = last_attr(attrs, "version"@)->Some_0;
    lemma_split_join(v);
    let enc = encode_attrs(e);
    lemma_attr_value_at(enc, "is_current"@, 0);
    lemma_attr_value_at(enc, "version"@, 1);
}

/// The induction behind [`lemma_current_not_after_target`]: whenever the
/// held last-in-range record is in range, whatever the scan returns is too.
proof fn lemma_scan_in_range(
    events: Seq<ReadStep>,
    i: int,
    cur: bool,
    in_dt: bool,
    last: Option<EltView>,
    target: StampValue,
)
    requires
        last matches Some(e) ==> (stamp_of(e.version) matches Some(d) && stamp_le(d, target)),
    ensures
        scan(events, i, cur, in_dt, last, target) matches Ok(e) ==> (stamp_of(e.version) matches
            Some(d) && stamp_le(d, target)),
    decreases events.len() - i,
{
    if 0 <= i < events.len() {
        match events[i] {
            ReadStep::Leaf(name, attrs, _) => {
                if name@ == "elt"@ {
                    match attrs {
                        Ok(list) => {
                            match decode_attrs(list@) {
                                Ok(elt) => {
                                    match stamp_of(elt.version) {
                                        Some(dt) => {
                                            let in2 = stamp_le(dt, target);
                                            let last2 = if in2 {
                                                Some(elt)
                                            } else {
                                                last
                                            };
                                            lemma_scan_in_range(
                                                events,
                                                i + 1,
                                                elt.is_current == Pybool::True,
                                                in2,
                                                last2,
                                                target,
                                            );
                                        },
                                        None => {},
                                    }
                                },
                                Err(_) => {},
                            }
                        },
                        Err(_) => {},
                    }
                } else {
                    lemma_scan_in_range(events, i + 1, cur, in_dt, last, target);
                }
            },
            _ => {
                lemma_scan_in_range(events, i + 1, cur, in_dt, last, target);
            },
        }
    }
}

/// A resolved schema-1 record's embedded timestamp is never after the
/// target: whatever the scan returns is a record that was in range when it
/// was seen.
pub proof fn lemma_current_not_after_target(events: Seq<ReadStep>, i: int, target: StampValue)
    ensures
        scan(events, i, false, false, None, target) matches Ok(e) ==> (stamp_of(e.version) matches
            Some(d) && stamp_le(d, target)),
{
    lemma_scan_in_range(events, i, false, false, None, target);
}

/// Position `j` holds a well-formed record element: a record leaf whose
/// attribute list parsed and decoded.
pub open spec fn clean_record_at(events: Seq<ReadStep>, j: int) -> bool {
    match events[j] {
        ReadStep::Leaf(name, attrs, _) => name@ == "elt"@ && match attrs {
            Ok(list) => decode_attrs(list@) is Ok,
            Err(_) => false,
        },
        _ => false,
    }
}

/// The record a well-formed position decodes to.
pub open spec fn record_at(events: Seq<ReadStep>, j: int) -> EltView {
    match events[j] {
        ReadStep::Leaf(_, attrs, _) => match attrs {
            Ok(list) => decode_attrs(list@)->Ok_0,
            Err(_) => arbitrary(),
        },
        _ => arbitrary(),
    }
}

/// The serialised form of the record element at a well-formed position.
pub open spec fn leaf_raw_at(events: Seq<ReadStep>, j: int) -> Seq<u8> {
    match events[j] {
        ReadStep::Leaf(_, _, raw) => raw@,
        _ => arbitrary(),
    }
}

/// The serialised form of rewriting the records from `j` on: a record whose
/// flag is set goes out with the flag forced off, any other record goes out
/// byte-for-byte.
pub open spec fn flipped_bytes(events: Seq<ReadStep>, j: int) -> Seq<u8>
    decreases events.len() - j,
{
    if j < 0 || j >= events.len() || !clean_record_at(events, j) {
        Seq::<u8>::empty()
    } else {
        (if record_at(events, j).is_current == Pybool::True {
            leaf_bytes("elt"@, encode_attrs(flipped(record_at(events, j))))
        } else {
            leaf_raw_at(events, j)
        }) + flipped_bytes(events, j + 1)
    }
}

/// Over a well-formed record stream, an install rewrites every record whose
/// flag is set with the flag forced off, copies every other record
/// byte-for-byte, and appends exactly one new record at the end.
pub proof fn lemma_update_flips_and_appends(events: Seq<ReadStep>, i: int, ins: EltView)
    requires
        0 <= i < events.len(),
        events.last() is Eof,
        forall|l: int| i <= l < events.len() - 1 ==> clean_record_at(events, l),
    ensures
        update_out(events, i, ins) == Ok::<Seq<u8>, ErrView>(
            flipped_bytes(events, i) + leaf_bytes("elt"@, encode_attrs(ins)),
        ),
    decreases events.len() - i,
{
    if i < events.len() - 1 {
        assert(clean_record_at(events, i));
        lemma_update_flips_and_appends(events, i + 1, ins);
        let step = if record_at(events, i).is_current == Pybool::True {
            leaf_bytes("elt"@, encode_attrs(flipped(record_at(events, i))))
        } else {
            leaf_raw_at(events, i)
        };
        assert(step + (flipped_bytes(events, i + 1) + leaf_bytes("elt"@, encode_attrs(ins))) =~= (
        step + flipped_bytes(events, i + 1)) + leaf_bytes("elt"@, encode_attrs(ins)));
        assert(events[i] matches ReadStep::Leaf(name, _, _) && name@ == "elt"@);
    } else {
        assert(events[i] == events.last());
        assert(!clean_record_at(events, i));
        assert(flipped_bytes(events, i) + leaf_bytes("elt"@, encode_attrs(ins)) =~= leaf_bytes(
            "elt"@,
            encode_attrs(ins),
        ));
    }
}

} // verus!
