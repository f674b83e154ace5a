//! The actions a schema-2 record can declare, each carrying the version
//! token it applies to.

use vstd::prelude::*;

use crate::errors::ErrView;
use crate::errors::SwInstallError;
use crate::text::str_eq;

verus! {

#[derive(Debug, PartialEq, Eq, Clone)]
pub enum Action {
    Install(String),
    Rollback(String),
    Rollforward(String),
}

/// The wire name of each action.
pub open spec fn action_label(a: Action) -> Seq<char> {
    match a {
        Action::Install(_) => "install"@,
        Action::Rollback(_) => "rollback"@,
        Action::Rollforward(_) => "rollforward"@,
    }
}

/// The version token an action carries.
pub open spec fn action_version(a: Action) -> Seq<char> {
    match a {
        Action::Install(s) => s@,
        Action::Rollback(s) => s@,
        Action::Rollforward(s) => s@,
    }
}

impl Action {
    /// Parse an action from its wire name, attaching the version token it
    /// applies to.
    pub fn from_str(action: &str, version: &str) -> (r: Result<Action, SwInstallError>)
        ensures
            match r {
                Ok(a) => action_label(a) == action@ && action_version(a) == version@,
                Err(e) => action@ != "install"@ && action@ != "rollback"@ && action@
                    != "rollforward"@ && e@ == ErrView::InvalidAction(action@),
            },
    {
        if str_eq(action, "install") {
            Ok(Action::Install(version.to_owned()))
        } else if str_eq(action, "rollback") {
            Ok(Action::Rollback(version.to_owned()))
        } else if str_eq(action, "rollforward") {
            Ok(Action::Rollforward(version.to_owned()))
        } else {
            Err(SwInstallError::InvalidAction(action.to_owned()))
        }
    }

    /// The wire name of this action.
    pub fn to_string(&self) -> (r: String)
        ensures
            r@ == action_label(*self),
    {
        match self {
            Action::Install(_) => "install".to_owned(),
            Action::Rollback(_) => "rollback".to_owned(),
            Action::Rollforward(_) => "rollforward".to_owned(),
        }
    }

    /// The version token this action applies to.
    pub fn version(&self) -> (r: String)
        ensures
            r@ == action_version(*self),
    {
        match self {
            Action::Install(s) => s.clone(),
            Action::Rollback(s) => s.clone(),
            Action::Rollforward(s) => s.clone(),
        }
    }
}

} // verus!
