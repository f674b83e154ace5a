//! The boolean token of schema 1.  The wire format spells its booleans
//! `True` / `False` (a foreign language's literal spelling), so the accepted
//! spellings and the canonical output spelling are part of the format and
//! are modelled by an explicit two-case enumeration rather than the host
//! language's boolean parser.

use vstd::prelude::*;

use crate::errors::SwInstallError;
use crate::errors::ErrView;
use crate::text::str_eq;
use vstd::string::StringExecFns;

verus! {

#[derive(Debug, PartialEq, Eq, Structural, Clone, Copy)]
pub enum Pybool {
    True,
    False,
}

/// The token accepted for each boolean value: the canonical capitalised
/// spelling and its fully lower-case form.
pub open spec fn pybool_of(s: Seq<char>) -> Option<Pybool> {
    if s == "True"@ || s == "true"@ {
        Some(Pybool::True)
    } else if s == "False"@ || s == "false"@ {
        Some(Pybool::False)
    } else {
        None
    }
}

/// The canonical spelling written back out for each boolean value.
pub open spec fn pybool_label(b: Pybool) -> Seq<char> {
    match b {
        Pybool::True => "True"@,
        Pybool::False => "False"@,
    }
}

impl Pybool {
    /// Generate a Pybool from a bool.
    pub fn new(value: bool) -> (r: Self)
        ensures
            r == (if value {
                Pybool::True
            } else {
                Pybool::False
            }),
    {
        match value {
            true => Pybool::True,
            false => Pybool::False,
        }
    }

    /// Generate a Pybool from a str; only the canonical and the fully
    /// lower-case spellings are accepted.
    pub fn from_str(value: &str) -> (r: Result<Self, SwInstallError>)
        ensures
            match r {
                Ok(b) => pybool_of(value@) == Some(b),
                Err(e) => pybool_of(value@) is None && (e@ matches ErrView::RuntimeError(m)
                    && m == "invalid input: "@ + value@),
            },
    {
        if str_eq(value, "True") || str_eq(value, "true") {
            Ok(Pybool::True)
        } else if str_eq(value, "False") || str_eq(value, "false") {
            Ok(Pybool::False)
        } else {
            let mut msg = "invalid input: ".to_owned();
            msg.append(value);
            Err(SwInstallError::RuntimeError(msg))
        }
    }

    pub fn as_bool(&self) -> (r: bool)
        ensures
            r == (*self == Pybool::True),
    {
        match *self {
            Pybool::True => true,
            Pybool::False => false,
        }
    }

    /// The canonical token for this value.
    pub fn to_string(&self) -> (r: String)
        ensures
            r@ == pybool_label(*self),
    {
        match *self {
            Pybool::True => "True".to_owned(),
            Pybool::False => "False".to_owned(),
        }
    }
}

} // verus!
