//! The client's page state: which page is showing and what it needs.

use vstd::prelude::*;
use crate::{ClassID, ClassItemID};
use crate::errors::LoginError;

verus! {

/// The page the client is on, with the data that page needs.
#[derive(Clone, Debug, PartialEq, Eq)]
pub enum PageState {
    Login { username: String, password: String },
    LoggingIn { username: String, password: String },
    LoginFailed { username: String, password: String, reason: LoginError },
    Main { day: Option<usize> },
    LoadingClass { class_id: ClassID },
    ClassPage { id: ClassID, expanded_folders: Vec<ClassItemID> },
    ClassItemPage { id: ClassItemID },
}

/// The username shown on a login-like page; empty anywhere else.
pub open spec fn spec_login_username(s: PageState) -> Seq<char> {
    match s {
        PageState::Login { username, .. } => username@,
        PageState::LoginFailed { username, .. } => username@,
        _ => Seq::empty(),
    }
}

/// The password held on a login-like page; empty anywhere else.
pub open spec fn spec_login_password(s: PageState) -> Seq<char> {
    match s {
        PageState::Login { password, .. } => password@,
        PageState::LoginFailed { password, .. } => password@,
        _ => Seq::empty(),
    }
}

impl PageState {
    /// Whether this is a login-like page (fresh or failed).
    pub fn is_login(&self) -> (r: bool)
        ensures
            r == (self matches PageState::Login { .. } || self matches PageState::LoginFailed {
                ..
            }),
    {
        match self {
            PageState::Login { .. } => true,
            PageState::LoginFailed { .. } => true,
            _ => false,
        }
    }

    /// The username field of a login-like page.
    pub fn as_login_username(&self) -> (r: Option<&String>)
        ensures
            match r {
                Some(u) => (self matches PageState::Login { .. } || self
                    matches PageState::LoginFailed { .. }) && u@ == spec_login_username(*self),
                None => !(self matches PageState::Login { .. }) && !(self
                    matches PageState::LoginFailed { .. }),
            },
    {
        match self {
            PageState::Login { username, .. } => Some(username),
            PageState::LoginFailed { username, .. } => Some(username),
            _ => None,
        }
    }

    /// The password field of a login-like page.
    pub fn as_login_password(&self) -> (r: Option<&String>)
        ensures
            match r {
                Some(p) => (self matches PageState::Login { .. } || self
                    matches PageState::LoginFailed { .. }) && p@ == spec_login_password(*self),
                None => !(self matches PageState::Login { .. }) && !(self
                    matches PageState::LoginFailed { .. }),
            },
    {
        match self {
            PageState::Login { password, .. } => Some(password),
            PageState::LoginFailed { password, .. } => Some(password),
            _ => None,
        }
    }

    /// Whether this is the main page.
    pub fn is_main(&self) -> (r: bool)
        ensures
            r == (self matches PageState::Main { .. }),
    {
        match self {
            PageState::Main { .. } => true,
            _ => false,
        }
    }
}

} // verus!
