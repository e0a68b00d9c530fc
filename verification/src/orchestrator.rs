//! The externally-callable operations, as state machines over plain events.
//!
//! Network calls are the only things the library cannot do itself; the caller
//! performs each requested action and feeds the outcome back as an event. The
//! decisions — when the cache answers, when to log in, how to classify a
//! response, what to store and what to return — all live here and are
//! verified.

use vstd::prelude::*;
use crate::b64::base64_of;
use crate::cache::{BackendCache, CacheDataState, spec_listing_state};
use crate::codec::{
    class_listing_to_base64, enc_bool, enc_entries, entry_model, entry_models, enc_materials,
    material_models, EntryModel, SectionModel,
};
use crate::courses::{spec_joined, join_active, ActiveClasses, ActiveClassesCourse, ActiveClassesSection};
use crate::data::{ClassEntry, MaterialEntry, SectionData};
use crate::errors::LoginError;
use crate::extract::{parse_class_materials, spec_class_materials, spec_detail_body, spec_needs_enrichment, body_from_detail};
use crate::order::{sort_class_entries, sort_spec};
use crate::schedule::{spec_days, spec_period, wf_schedule};
use crate::scrape::login_form_of;
use crate::session::{
    find_login_form, plan_submission, spec_invalid_creds, spec_login_fields, fields_model,
    spec_form_selector, Credentials, SubmitPlan,
};
use crate::ClassID;
use crate::extract::or_empty;

verus! {

/// What came back from one network call, reduced to what the logic reads.
#[derive(Debug, Clone, PartialEq, Eq)]
pub enum FetchOutcome {
    /// A successful response and its body text.
    Success(String),
    /// The response arrived with a non-success status.
    HttpError,
    /// The request never got a response.
    TransportError,
    /// The response body could not be read as text.
    DecodeError,
}

/// Where the class-listing operation stands.
#[derive(Debug, Clone, Copy, PartialEq, Eq, Structural)]
pub enum ListingState {
    Start,
    AwaitLoginPage,
    AwaitSubmit,
    AwaitCourses,
    AwaitDecode,
    Done,
    Failed(LoginError),
    Aborted,
}

/// What the caller must do next.
#[derive(Debug, Clone, PartialEq, Eq)]
pub enum ListingAction {
    /// Hand this still-fresh payload to the caller; no network call is made.
    ReturnCached(String),
    /// Fetch the login page.
    FetchLoginPage,
    /// Send the login submission as planned.
    SubmitForm(SubmitPlan),
    /// Fetch the active-courses endpoint; persist the session cookies first
    /// when asked to (best effort).
    FetchActiveCourses { persist_cookies: bool },
    /// Decode this body as the active-courses response.
    DecodeCourses(String),
    /// Hand this freshly built payload to the caller.
    ReturnFresh(String),
    /// Surface this error to the caller.
    Fail(LoginError),
    /// The form declared a method that is neither literal `post` nor `get`:
    /// an unrecoverable configuration fault.
    AbortBadMethod(String),
    /// Nothing; the event did not belong to the current state.
    Nothing,
}

/// What happened since the last step.
#[derive(Debug, Clone)]
pub enum ListingEvent {
    Begin,
    LoginPageFetched(FetchOutcome),
    LoginSubmitted(FetchOutcome),
    CoursesFetched(FetchOutcome),
    CoursesDecoded(Option<ActiveClasses>),
}

/// The event fits the state.
pub open spec fn expected_event(state: ListingState, event: ListingEvent) -> bool {
    match (state, event) {
        (ListingState::Start, ListingEvent::Begin) => true,
        (ListingState::AwaitLoginPage, ListingEvent::LoginPageFetched(_)) => true,
        (ListingState::AwaitSubmit, ListingEvent::LoginSubmitted(_)) => true,
        (ListingState::AwaitCourses, ListingEvent::CoursesFetched(_)) => true,
        (ListingState::AwaitDecode, ListingEvent::CoursesDecoded(_)) => true,
        _ => false,
    }
}

/// The step that writes the cache: a decoded courses response arriving in the
/// awaiting-decode state.
pub open spec fn is_commit_step(state: ListingState, event: ListingEvent) -> bool {
    state matches ListingState::AwaitDecode && (event matches ListingEvent::CoursesDecoded(o)
        && o is Some)
}

/// The schedule a section title parses to, as a model.
pub open spec fn schedule_model(s: Seq<char>) -> SectionModel {
    if wf_schedule(s) {
        SectionModel { is_good: true, bad_text: Seq::empty(), days: spec_days(s), period: spec_period(s) }
    } else {
        SectionModel { is_good: false, bad_text: s, days: Seq::empty(), period: 0 }
    }
}

/// The class entries a joined course/section list becomes, before sorting:
/// the course title, the parsed section schedule, an empty picture, and the
/// course id.
pub open spec fn listing_models(
    pairs: Seq<(ActiveClassesCourse, ActiveClassesSection)>,
) -> Seq<EntryModel> {
    pairs.map_values(
        |p: (ActiveClassesCourse, ActiveClassesSection)| EntryModel {
            name: p.0.course_title@,
            section: schedule_model(p.1.section_title@),
            picture: Seq::empty(),
            id: p.1.course_nid,
        },
    )
}

/// Build the class entries of a decoded active-courses response, in join
/// order (not yet sorted).
pub fn listing_entries(active: &ActiveClasses) -> (r: Vec<ClassEntry>)
    ensures
        entry_models(r@) == listing_models(spec_joined(active.body.courses)),
{
    let pairs = join_active(&active.body.courses);
    let ghost sp = spec_joined(active.body.courses);
    let mut out: Vec<ClassEntry> = Vec::new();
    let mut i: usize = 0;
    while i < pairs.len()
        invariant
            i <= pairs@.len(),
            pairs@ == sp,
            out@.len() == i,
            forall|k: int|
                0 <= k < i ==> entry_model(#[trigger] out@[k]) == listing_models(sp)[k],
        decreases pairs@.len() - i,
    {
        let pair = &pairs[i];
        let entry = ClassEntry {
            name: pair.0.course_title.clone(),
            section: SectionData::parse(pair.1.section_title.as_str()),
            picture: Vec::new(),
            id: ClassID(pair.1.course_nid),
        };
        proof {
            assert(listing_models(sp)[i as int] == EntryModel {
                name: sp[i as int].0.course_title@,
                section: schedule_model(sp[i as int].1.section_title@),
                picture: Seq::empty(),
                id: sp[i as int].1.course_nid,
            });
            assert(entry.picture@ =~= Seq::<u8>::empty());
            if wf_schedule(pair.1.section_title@) {
                assert(crate::codec::section_model(entry.section.guts) == schedule_model(
                    pair.1.section_title@,
                ));
            } else {
                assert(crate::codec::section_model(entry.section.guts) == schedule_model(
                    pair.1.section_title@,
                ));
            }
        }
        out.push(entry);
        i = i + 1;
    }
    proof {
        assert(entry_models(out@) =~= listing_models(sp));
    }
    out
}

/// One step of the class-listing operation: given the cache, the current
/// credentials, the clock, the state and the event, produce the next state
/// and the action the caller must take. Only the commit step touches the
/// cache, and it touches only the listing slot.
#[verifier::rlimit(100)]
pub fn listing_step(
    cache: &mut BackendCache,
    creds: &Credentials,
    now: u64,
    state: ListingState,
    event: ListingEvent,
) -> (r: (ListingState, ListingAction))
    ensures
        !is_commit_step(state, event) ==> *final(cache) == *old(cache),
        !expected_event(state, event) ==> r.0 is Aborted && r.1 is Nothing,
        (state matches ListingState::Start && event matches ListingEvent::Begin) ==> (if
        spec_listing_state(*old(cache), now) == CacheDataState::Fresh {
            &&& r.0 is Done
            &&& old(cache).class_listing.data matches Some(v) && r.1 matches
                ListingAction::ReturnCached(p) && p@ == base64_of(
                enc_entries(entry_models(v@)),
            )
        } else {
            r.0 is AwaitLoginPage && r.1 is FetchLoginPage
        }),
        state matches ListingState::AwaitLoginPage ==> match event {
            ListingEvent::LoginPageFetched(o) => match o {
                FetchOutcome::TransportError => r.0 == ListingState::Failed(
                    LoginError::RequestError,
                ) && r.1 == ListingAction::Fail(LoginError::RequestError),
                FetchOutcome::HttpError => r.0 == ListingState::Failed(LoginError::RequestError)
                    && r.1 == ListingAction::Fail(LoginError::RequestError),
                FetchOutcome::DecodeError => r.0 == ListingState::Failed(LoginError::DecodeError)
                    && r.1 == ListingAction::Fail(LoginError::DecodeError),
                FetchOutcome::Success(text) => match login_form_of(
                    text@,
                    spec_form_selector(),
                    "input"@,
                ) {
                    None => r.0 is AwaitCourses && (r.1 matches
                        ListingAction::FetchActiveCourses { persist_cookies } && !persist_cookies),
                    Some(t) => {
                        let method = or_empty(t.0);
                        if method == "post"@ {
                            &&& r.0 is AwaitSubmit
                            &&& r.1 matches ListingAction::SubmitForm(SubmitPlan::Post {
                                action,
                                fields,
                            }) && action@ == or_empty(t.1) && fields_model(fields@)
                                == spec_login_fields(t.2, creds.username@, creds.password@)
                        } else if method == "get"@ {
                            &&& r.0 is AwaitSubmit
                            &&& r.1 matches ListingAction::SubmitForm(SubmitPlan::Get { action })
                                && action@ == or_empty(t.1)
                        } else {
                            &&& r.0 is Aborted
                            &&& r.1 matches ListingAction::AbortBadMethod(m) && m@ == method
                        }
                    },
                },
            },
            _ => true,
        },
        state matches ListingState::AwaitSubmit ==> match event {
            ListingEvent::LoginSubmitted(o) => match o {
                FetchOutcome::TransportError => r.0 == ListingState::Failed(
                    LoginError::LaterRequestError,
                ) && r.1 == ListingAction::Fail(LoginError::LaterRequestError),
                FetchOutcome::HttpError => r.0 == ListingState::Failed(
                    LoginError::LaterRequestError,
                ) && r.1 == ListingAction::Fail(LoginError::LaterRequestError),
                FetchOutcome::DecodeError => r.0 == ListingState::Failed(LoginError::DecodeError)
                    && r.1 == ListingAction::Fail(LoginError::DecodeError),
                FetchOutcome::Success(text) => if spec_invalid_creds(text@) {
                    r.0 == ListingState::Failed(LoginError::InvalidCredsError) && r.1
                        == ListingAction::Fail(LoginError::InvalidCredsError)
                } else {
                    r.0 is AwaitCourses && (r.1 matches ListingAction::FetchActiveCourses {
                        persist_cookies,
                    } && persist_cookies)
                },
            },
            _ => true,
        },
        state matches ListingState::AwaitCourses ==> match event {
            ListingEvent::CoursesFetched(o) => match o {
                FetchOutcome::TransportError => r.0 == ListingState::Failed(
                    LoginError::LaterRequestError,
                ) && r.1 == ListingAction::Fail(LoginError::LaterRequestError),
                FetchOutcome::HttpError => r.0 == ListingState::Failed(
                    LoginError::LaterRequestError,
                ) && r.1 == ListingAction::Fail(LoginError::LaterRequestError),
                FetchOutcome::DecodeError => r.0 == ListingState::Failed(LoginError::DecodeError)
                    && r.1 == ListingAction::Fail(LoginError::DecodeError),
                FetchOutcome::Success(text) => r.0 is AwaitDecode && (r.1 matches
                    ListingAction::DecodeCourses(t2) && t2 == text),
            },
            _ => true,
        },
        state matches ListingState::AwaitDecode ==> match event {
            ListingEvent::CoursesDecoded(o) => match o {
                None => r.0 == ListingState::Failed(LoginError::JsonError) && r.1
                    == ListingAction::Fail(LoginError::JsonError),
                Some(active) => {
                    &&& r.0 is Done
                    &&& final(cache).class_listing.prev_update == now
                    &&& final(cache).class_data == old(cache).class_data
                    &&& final(cache).assignment_data == old(cache).assignment_data
                    &&& exists|b: Seq<ClassEntry>|
                        {
                            &&& entry_models(b) == listing_models(
                                spec_joined(active.body.courses),
                            )
                            &&& final(cache).class_listing.data matches Some(v) && v@
                                == #[trigger] sort_spec(b)
                            &&& r.1 matches ListingAction::ReturnFresh(p) && p@ == base64_of(
                                enc_entries(entry_models(sort_spec(b))),
                            )
                        }
                },
            },
            _ => true,
        },
{
    match (state, event) {
        (ListingState::Start, ListingEvent::Begin) => {
            let fresh = match cache.get_class_listing_state(now) {
                CacheDataState::Fresh => true,
                _ => false,
            };
            if fresh {
                match &cache.class_listing.data {
                    Some(v) => {
                        let payload = class_listing_to_base64(v);
                        (ListingState::Done, ListingAction::ReturnCached(payload))
                    },
                    None => {
                        // unreachable: a fresh slot holds a payload
                        (ListingState::AwaitLoginPage, ListingAction::FetchLoginPage)
                    },
                }
            } else {
                (ListingState::AwaitLoginPage, ListingAction::FetchLoginPage)
            }
        },
        (ListingState::AwaitLoginPage, ListingEvent::LoginPageFetched(o)) => match o {
            FetchOutcome::TransportError => (
                ListingState::Failed(LoginError::RequestError),
                ListingAction::Fail(LoginError::RequestError),
            ),
            FetchOutcome::HttpError => (
                ListingState::Failed(LoginError::RequestError),
                ListingAction::Fail(LoginError::RequestError),
            ),
            FetchOutcome::DecodeError => (
                ListingState::Failed(LoginError::DecodeError),
                ListingAction::Fail(LoginError::DecodeError),
            ),
            FetchOutcome::Success(text) => match find_login_form(text.as_str()) {
                Err(_) => (
                    ListingState::AwaitCourses,
                    ListingAction::FetchActiveCourses { persist_cookies: false },
                ),
                Ok(details) => match plan_submission(
                    &details,
                    creds.username.as_str(),
                    creds.password.as_str(),
                ) {
                    Some(plan) => (ListingState::AwaitSubmit, ListingAction::SubmitForm(plan)),
                    None => (ListingState::Aborted, ListingAction::AbortBadMethod(details.method)),
                },
            },
        },
        (ListingState::AwaitSubmit, ListingEvent::LoginSubmitted(o)) => match o {
            FetchOutcome::TransportError => (
                ListingState::Failed(LoginError::LaterRequestError),
                ListingAction::Fail(LoginError::LaterRequestError),
            ),
            FetchOutcome::HttpError => (
                ListingState::Failed(LoginError::LaterRequestError),
                ListingAction::Fail(LoginError::LaterRequestError),
            ),
            FetchOutcome::DecodeError => (
                ListingState::Failed(LoginError::DecodeError),
                ListingAction::Fail(LoginError::DecodeError),
            ),
            FetchOutcome::Success(text) => {
                if crate::session::invalid_creds_marker(text.as_str()) {
                    (
                        ListingState::Failed(LoginError::InvalidCredsError),
                        ListingAction::Fail(LoginError::InvalidCredsError),
                    )
                } else {
                    (
                        ListingState::AwaitCourses,
                        ListingAction::FetchActiveCourses { persist_cookies: true },
                    )
                }
            },
        },
        (ListingState::AwaitCourses, ListingEvent::CoursesFetched(o)) => match o {
            FetchOutcome::TransportError => (
                ListingState::Failed(LoginError::LaterRequestError),
                ListingAction::Fail(LoginError::LaterRequestError),
            ),
            FetchOutcome::HttpError => (
                ListingState::Failed(LoginError::LaterRequestError),
                ListingAction::Fail(LoginError::LaterRequestError),
            ),
            FetchOutcome::DecodeError => (
                ListingState::Failed(LoginError::DecodeError),
                ListingAction::Fail(LoginError::DecodeError),
            ),
            FetchOutcome::Success(text) => (
                ListingState::AwaitDecode,
                ListingAction::DecodeCourses(text),
            ),
        },
        (ListingState::AwaitDecode, ListingEvent::CoursesDecoded(o)) => match o {
            None => (
                ListingState::Failed(LoginError::JsonError),
                ListingAction::Fail(LoginError::JsonError),
            ),
            Some(active) => {
                let entries = listing_entries(&active);
                let ghost b = entries@;
                let sorted = sort_class_entries(entries);
                let payload = class_listing_to_base64(&sorted);
                cache.write_class_listing(sorted, now);
                proof {
                    assert(final(cache).class_listing.data matches Some(v) && v@ == sort_spec(b));
                }
                (ListingState::Done, ListingAction::ReturnFresh(payload))
            },
        },
        _ => (ListingState::Aborted, ListingAction::Nothing),
    }
}

/// Whether the caller counts as logged in: a fresh class listing counts, and
/// so does a login page without its login form (there is nothing left to log
/// into); a present form means not logged in, and any other failure to read
/// the page is surfaced as it is.
pub fn is_logged_in(
    listing_fresh: bool,
    login_page: &Result<crate::session::LoginFormDetails, LoginError>,
) -> (r: Result<bool, LoginError>)
    ensures
        listing_fresh ==> r == Result::<bool, LoginError>::Ok(true),
        !listing_fresh ==> match login_page {
            Ok(_) => r == Result::<bool, LoginError>::Ok(false),
            Err(e) => if e == LoginError::FindFormError {
                r == Result::<bool, LoginError>::Ok(true)
            } else {
                r == Result::<bool, LoginError>::Err(*e)
            },
        },
{
    if listing_fresh {
        Result::Ok(true)
    } else {
        match login_page {
            Ok(_) => Result::Ok(false),
            Err(e) => match e {
                LoginError::FindFormError => Result::Ok(true),
                other => Result::Err(*other),
            },
        }
    }
}

/// The materials operation: the extracted records and how far the per-item
/// enrichment has got.
pub struct MaterialsFlow {
    pub entries: Vec<MaterialEntry>,
    pub pos: usize,
}

impl MaterialsFlow {
    /// Extract one materials page; enrichment starts at the first record.
    pub fn begin(page: &str) -> (r: MaterialsFlow)
        ensures
            material_models(r.entries@) == spec_class_materials(page@),
            r.pos == 0,
    {
        MaterialsFlow { entries: parse_class_materials(page), pos: 0 }
    }

    /// The next record whose detail page must be fetched: the first file or
    /// discussion record at or after the current position.
    pub fn next_enrichment(&self) -> (r: Option<usize>)
        ensures
            match r {
                Some(j) => self.pos <= j < self.entries@.len() && spec_needs_enrichment(
                    self.entries@[j as int].kind,
                ) && forall|m: int|
                    self.pos <= m < j ==> !spec_needs_enrichment(
                        #[trigger] self.entries@[m].kind,
                    ),
                None => forall|m: int|
                    self.pos <= m < self.entries@.len() ==> !spec_needs_enrichment(
                        #[trigger] self.entries@[m].kind,
                    ),
            },
    {
        let mut j: usize = self.pos;
        if j > self.entries.len() {
            return None;
        }
        while j < self.entries.len()
            invariant
                self.pos <= j <= self.entries@.len(),
                forall|m: int|
                    self.pos <= m < j ==> !spec_needs_enrichment(
                        #[trigger] self.entries@[m].kind,
                    ),
            decreases self.entries@.len() - j,
        {
            if self.entries[j].needs_enrichment() {
                return Some(j);
            }
            j = j + 1;
        }
        None
    }

    /// Feed back the outcome of one detail fetch for the record at `j`. A
    /// successful fetch fills the record's body from the detail page; a body
    /// that cannot be read degrades to an empty body; a transport failure or
    /// an error status aborts the pipeline with the error returned.
    pub fn set_body(&mut self, j: usize, outcome: FetchOutcome) -> (r: Option<LoginError>)
        requires
            j < old(self).entries@.len(),
        ensures
            match outcome {
                FetchOutcome::Success(text) => {
                    &&& r is None
                    &&& final(self).pos == j + 1
                    &&& final(self).entries@.len() == old(self).entries@.len()
                    &&& forall|m: int|
                        0 <= m < old(self).entries@.len() && m != j ==> final(self).entries@[m]
                            == old(self).entries@[m]
                    &&& final(self).entries@[j as int].body@ == spec_detail_body(text@)
                    &&& final(self).entries@[j as int].id == old(self).entries@[j as int].id
                    &&& final(self).entries@[j as int].kind == old(self).entries@[j as int].kind
                    &&& final(self).entries@[j as int].title == old(self).entries@[j as int].title
                    &&& final(self).entries@[j as int].due == old(self).entries@[j as int].due
                },
                FetchOutcome::DecodeError => r is None && final(self).entries == old(self).entries
                    && final(self).pos == j + 1,
                FetchOutcome::TransportError => r == Some(LoginError::RequestError) && *final(self)
                    == *old(self),
                FetchOutcome::HttpError => r == Some(LoginError::LaterRequestError) && *final(self)
                    == *old(self),
            },
    {
        let n = self.entries.len();
        proof {
            assert(j < n);
        }
        match outcome {
            FetchOutcome::Success(text) => {
                let old_entry = self.entries.remove(j);
                let body = body_from_detail(text.as_str());
                let new_entry = MaterialEntry {
                    id: old_entry.id,
                    kind: old_entry.kind,
                    title: old_entry.title,
                    body,
                    due: old_entry.due,
                };
                self.entries.insert(j, new_entry);
                self.pos = j + 1;
                proof {
                    assert forall|m: int|
                        0 <= m < old(self).entries@.len() && m != j implies self.entries@[m]
                            == old(self).entries@[m] by {
                        if m >= j {
                            assert(self.entries@[m] == old(self).entries@.remove(j as int)[m - 1]);
                        }
                    }
                }
                None
            },
            FetchOutcome::DecodeError => {
                self.pos = j + 1;
                None
            },
            FetchOutcome::TransportError => Some(LoginError::RequestError),
            FetchOutcome::HttpError => Some(LoginError::LaterRequestError),
        }
    }

    /// The encoded payload of the records as they stand.
    pub fn payload(&self) -> (r: String)
        ensures
            r@ == base64_of(enc_materials(material_models(self.entries@))),
    {
        crate::codec::materials_to_base64(&self.entries)
    }
}

/// The encoded payload of the logged-in flag.
pub fn bool_to_base64(b: bool) -> (r: String)
    ensures
        r@ == base64_of(enc_bool(b)),
{
    let mut out: Vec<u8> = Vec::new();
    let byte: u8 = if b {
        1
    } else {
        0
    };
    out.push(byte);
    proof {
        assert(out@ =~= enc_bool(b));
    }
    crate::b64::base64_encode(&out)
}

} // verus!
