//! The closed set of schemas, and the tagged unions that let one resolution
//! path handle either: a resolved record is a [`ReturnElt`], a resolver is a
//! [`SchemaWrapper`].

pub mod one;
pub mod two;

use vstd::prelude::*;

use crate::errors::ErrView;
use crate::errors::SwInstallError;
use crate::stamp::StampValue;
use crate::text::str_eq;
use crate::xml::ReadStep;

verus! {

/// The mathematical shadow of a resolved record.
pub ghost enum ReturnEltView {
    One(one::EltView),
    Two(two::EltView),
}

/// A record of either schema, as handed back by resolution.
#[derive(Debug, PartialEq, Eq)]
pub enum ReturnElt {
    One(one::Elt),
    Two(two::Elt),
}

impl View for ReturnElt {
    type V = ReturnEltView;

    open spec fn view(&self) -> ReturnEltView {
        match self {
            ReturnElt::One(e) => ReturnEltView::One(e@),
            ReturnElt::Two(e) => ReturnEltView::Two(e@),
        }
    }
}

/// The version token of a resolved record of either schema.
pub open spec fn return_elt_version(e: ReturnEltView) -> Seq<char> {
    match e {
        ReturnEltView::One(e) => one::joined(e.version, e.revision),
        ReturnEltView::Two(e) => e.version,
    }
}

impl ReturnElt {
    /// Decode a record of the schema named by `version` ("1" or "2") from a
    /// flat attribute list.
    pub fn from_attrs(version: &str, attrs: &Vec<(String, String)>) -> (r: Result<
        Self,
        SwInstallError,
    >)
        ensures
            match r {
                Ok(e) => (version@ == "1"@ && (e@ matches ReturnEltView::One(v)
                    && one::decode_attrs(attrs@) == Ok::<one::EltView, ErrView>(v))) || (version@
                    == "2"@ && (e@ matches ReturnEltView::Two(v) && two::decode_attrs(attrs@)
                    == Ok::<two::EltView, ErrView>(v))),
                Err(er) => (version@ == "1"@ && one::decode_attrs(attrs@) == Err::<
                    one::EltView,
                    ErrView,
                >(er@)) || (version@ == "2"@ && two::decode_attrs(attrs@) == Err::<
                    two::EltView,
                    ErrView,
                >(er@)) || (version@ != "1"@ && version@ != "2"@ && er@ == ErrView::RuntimeError(
                    "unable to instantiate Elt"@,
                )),
            },
    {
        if str_eq(version, "1") {
            match one::Elt::from_attrs(attrs) {
                Ok(e) => Ok(ReturnElt::One(e)),
                Err(er) => Err(er),
            }
        } else if str_eq(version, "2") {
            match two::Elt::from_attrs(attrs) {
                Ok(e) => Ok(ReturnElt::Two(e)),
                Err(er) => Err(er),
            }
        } else {
            Err(SwInstallError::RuntimeError("unable to instantiate Elt".to_owned()))
        }
    }

    /// The resolved record's version token, whichever schema it came from.
    pub fn version(&self) -> (r: String)
        ensures
            r@ == return_elt_version(self@),
    {
        match self {
            ReturnElt::One(e) => e.version(),
            ReturnElt::Two(e) => e.version(),
        }
    }
}

/// A resolver for either schema.
#[derive(Debug, PartialEq, Eq, Structural, Clone, Copy)]
pub enum SchemaWrapper {
    One(one::One),
    Two(two::Two),
}

/// The identifier a resolver is registered under.
pub open spec fn schema_id(w: SchemaWrapper) -> Seq<char> {
    match w {
        SchemaWrapper::One(_) => "1"@,
        SchemaWrapper::Two(_) => "2"@,
    }
}

impl SchemaWrapper {
    /// The schema identifier this resolver handles.
    pub fn schema(&self) -> (r: &'static str)
        ensures
            r@ == schema_id(*self),
    {
        match self {
            SchemaWrapper::One(one) => one.schema(),
            SchemaWrapper::Two(two) => two.schema(),
        }
    }
}


/// What resolution yields for a given resolver over the record stream from
/// position `i` on.
pub open spec fn wrapper_scan(
    w: SchemaWrapper,
    events: Seq<ReadStep>,
    i: int,
    target: StampValue,
) -> Result<ReturnEltView, ErrView> {
    match w {
        SchemaWrapper::One(_) => match one::scan(events, i, false, false, None, target) {
            Ok(e) => Ok(ReturnEltView::One(e)),
            Err(er) => Err(er),
        },
        SchemaWrapper::Two(_) => match two::scan(events, i, target) {
            Ok(e) => Ok(ReturnEltView::Two(e)),
            Err(er) => Err(er),
        },
    }
}

impl SchemaWrapper {
    /// Resolve the record current at `datetime` with this resolver's own
    /// scan, over the events from `start` on.
    pub fn current_at(&self, events: &Vec<ReadStep>, start: usize, datetime: &StampValue) -> (r:
        Result<ReturnElt, SwInstallError>)
        ensures
            match r {
                Ok(e) => wrapper_scan(*self, events@, start as int, *datetime) == Ok::<
                    ReturnEltView,
                    ErrView,
                >(e@),
                Err(er) => wrapper_scan(*self, events@, start as int, *datetime) == Err::<
                    ReturnEltView,
                    ErrView,
                >(er@),
            },
    {
        match self {
            SchemaWrapper::One(one) => one.current_at(events, start, datetime),
            SchemaWrapper::Two(two) => two.current_at(events, start, datetime),
        }
    }
}

} // verus!
