//! Page-state and data-state transitions, as pure reducers.

use vstd::prelude::*;
use crate::{ClassID, ClassItemID};
use crate::data::{ClassEntry, FrontendData, Keyed, MaterialEntry};
use crate::errors::LoginError;
use crate::state::{spec_login_password, spec_login_username, PageState};

verus! {

/// What can happen to the page state.
#[derive(Debug, Clone)]
pub enum StateUpdateAction {
    ToLogin,
    FailLogin(LoginError),
    LogIn,
    ReturnLogin,
    SetUname(String),
    SetPassw(String),
    ToMain,
    SetDayFilter(usize),
    LoadClass(ClassID),
    ToClass(ClassID),
    ToClassItem(ClassItemID),
}

impl PageState {
    /// The next page state after `action`. Login-like fields are carried over
    /// from the current state where the action does not supply them, and are
    /// empty when the current state has none.
    pub fn reduce(&self, action: StateUpdateAction) -> (r: PageState)
        ensures
            match action {
                StateUpdateAction::ToLogin => r matches PageState::Login { username, password }
                    && username@ == Seq::<char>::empty() && password@ == Seq::<char>::empty(),
                StateUpdateAction::FailLogin(reason) => r matches PageState::LoginFailed {
                    username,
                    password,
                    reason: rr,
                } && username@ == spec_login_username(*self) && password@ == spec_login_password(
                    *self,
                ) && rr == reason,
                StateUpdateAction::LogIn => r matches PageState::LoggingIn { username, password }
                    && username@ == spec_login_username(*self) && password@ == spec_login_password(
                    *self,
                ),
                StateUpdateAction::ReturnLogin => r matches PageState::Login {
                    username,
                    password,
                } && username@ == spec_login_username(*self) && password@ == spec_login_password(
                    *self,
                ),
                StateUpdateAction::SetUname(u) => r matches PageState::Login {
                    username,
                    password,
                } && username == u && password@ == spec_login_password(*self),
                StateUpdateAction::SetPassw(p) => r matches PageState::Login {
                    username,
                    password,
                } && username@ == spec_login_username(*self) && password == p,
                StateUpdateAction::ToMain => r == (PageState::Main { day: None }),
                StateUpdateAction::SetDayFilter(day) => r == (PageState::Main { day: Some(day) }),
                StateUpdateAction::LoadClass(class_id) => r == (PageState::LoadingClass {
                    class_id,
                }),
                StateUpdateAction::ToClass(class_id) => r matches PageState::ClassPage {
                    id,
                    expanded_folders,
                } && id == class_id && expanded_folders@ == Seq::<ClassItemID>::empty(),
                StateUpdateAction::ToClassItem(item_id) => r == (PageState::ClassItemPage {
                    id: item_id,
                }),
            },
    {
        match action {
            StateUpdateAction::ToLogin => PageState::Login {
                username: String::new(),
                password: String::new(),
            },
            StateUpdateAction::FailLogin(reason) => PageState::LoginFailed {
                username: self.login_username_or_empty(),
                password: self.login_password_or_empty(),
                reason,
            },
            StateUpdateAction::LogIn => PageState::LoggingIn {
                username: self.login_username_or_empty(),
                password: self.login_password_or_empty(),
            },
            StateUpdateAction::ReturnLogin => PageState::Login {
                username: self.login_username_or_empty(),
                password: self.login_password_or_empty(),
            },
            StateUpdateAction::SetUname(username) => PageState::Login {
                username,
                password: self.login_password_or_empty(),
            },
            StateUpdateAction::SetPassw(password) => PageState::Login {
                username: self.login_username_or_empty(),
                password,
            },
            StateUpdateAction::ToMain => PageState::Main { day: None },
            StateUpdateAction::SetDayFilter(day) => PageState::Main { day: Some(day) },
            StateUpdateAction::LoadClass(class_id) => PageState::LoadingClass { class_id },
            StateUpdateAction::ToClass(class_id) => PageState::ClassPage {
                id: class_id,
                expanded_folders: Vec::new(),
            },
            StateUpdateAction::ToClassItem(item_id) => PageState::ClassItemPage { id: item_id },
        }
    }

    fn login_username_or_empty(&self) -> (r: String)
        ensures
            r@ == spec_login_username(*self),
    {
        match self.as_login_username() {
            Some(u) => u.clone(),
            None => String::new(),
        }
    }

    fn login_password_or_empty(&self) -> (r: String)
        ensures
            r@ == spec_login_password(*self),
    {
        match self.as_login_password() {
            Some(p) => p.clone(),
            None => String::new(),
        }
    }
}

/// What can happen to the data the client holds.
pub enum DataUpdateAction {
    ClearClassListing,
    SetClassListing(Vec<ClassEntry>),
    ClearClassPageInfo,
    SetClassPageInfo(Vec<MaterialEntry>),
}

impl FrontendData {
    /// The next data state after `action`: the targeted slot is replaced and
    /// its refresh counter bumped; the other slot is untouched.
    pub fn reduce(self, action: DataUpdateAction) -> (r: FrontendData)
        requires
            self.classes.spec_key() < usize::MAX,
            self.curr_class_data.spec_key() < usize::MAX,
        ensures
            match action {
                DataUpdateAction::ClearClassListing => r.classes.spec_value() is None
                    && r.classes.spec_key() == self.classes.spec_key() + 1 && r.curr_class_data
                    == self.curr_class_data,
                DataUpdateAction::SetClassListing(entries) => r.classes.spec_value() == Some(
                    entries,
                ) && r.classes.spec_key() == self.classes.spec_key() + 1 && r.curr_class_data
                    == self.curr_class_data,
                DataUpdateAction::ClearClassPageInfo => r.curr_class_data.spec_value() is None
                    && r.curr_class_data.spec_key() == self.curr_class_data.spec_key() + 1
                    && r.classes == self.classes,
                DataUpdateAction::SetClassPageInfo(materials) => r.curr_class_data.spec_value()
                    == Some(materials) && r.curr_class_data.spec_key()
                    == self.curr_class_data.spec_key() + 1 && r.classes == self.classes,
            },
    {
        match action {
            DataUpdateAction::ClearClassListing => FrontendData {
                classes: self.classes.new_inc(None),
                curr_class_data: self.curr_class_data,
            },
            DataUpdateAction::SetClassListing(entries) => FrontendData {
                classes: self.classes.new_inc(Some(entries)),
                curr_class_data: self.curr_class_data,
            },
            DataUpdateAction::ClearClassPageInfo => FrontendData {
                classes: self.classes,
                curr_class_data: self.curr_class_data.new_inc(None),
            },
            DataUpdateAction::SetClassPageInfo(materials) => FrontendData {
                classes: self.classes,
                curr_class_data: self.curr_class_data.new_inc(Some(materials)),
            },
        }
    }
}

} // verus!
