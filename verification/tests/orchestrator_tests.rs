use bbs_core::cache::{BackendCache, CacheDataState};
use bbs_core::courses::{
    ActiveClasses, ActiveClassesBody, ActiveClassesCourse, ActiveClassesCourses,
    ActiveClassesPermissions, ActiveClassesSection, ActiveClassesThumbnails,
};
use bbs_core::errors::LoginError;
use bbs_core::orchestrator::{
    is_logged_in, listing_step, FetchOutcome, ListingAction, ListingEvent, ListingState,
    MaterialsFlow,
};
use bbs_core::session::{find_login_form, Credentials};

fn login_page() -> String {
    "<html><body><form id=\"s-user-login-form\" method=\"post\" action=\"/login\"><input name=\"mail\" value=\"\"><input name=\"pass\"></form></body></html>"
    .to_string()
}

fn section(nid: u64, title: &str, course_nid: u64) -> ActiveClassesSection {
    ActiveClassesSection {
        nid,
        section_title: title.to_string(),
        course_nid,
        logo_img_src: ActiveClassesThumbnails { card_thumbnail: None, card_thumbnail_2x: None },
    }
}

fn active_courses() -> ActiveClasses {
    ActiveClasses {
        response_code: 200,
        body: ActiveClassesBody {
            courses: ActiveClassesCourses {
                courses: vec![
                    ActiveClassesCourse { nid: 10, course_title: "Math".to_string() },
                    ActiveClassesCourse { nid: 20, course_title: "Bio".to_string() },
                ],
                sections: vec![section(1, "2(B)", 20), section(2, "1(A-C)", 10)],
            },
            permissions: ActiveClassesPermissions {
                is_verified: true,
                can_browse_courses: true,
                can_join_courses: false,
                can_create_courses: false,
                school_has_grading_periods: false,
            },
        },
    }
}

/// Drive one whole class-listing fetch, counting network actions.
fn run_full_fetch(cache: &mut BackendCache, creds: &Credentials, now: u64) -> (String, u32, u32) {
    let mut login_attempts = 0u32;
    let mut api_calls = 0u32;
    let (state, action) = listing_step(cache, creds, now, ListingState::Start, ListingEvent::Begin);
    match action {
        ListingAction::ReturnCached(p) => return (p, 0, 0),
        ListingAction::FetchLoginPage => {},
        other => panic!("unexpected action {:?}", other),
    }
    let (state, action) = listing_step(
        cache,
        creds,
        now,
        state,
        ListingEvent::LoginPageFetched(FetchOutcome::Success(login_page())),
    );
    match action {
        ListingAction::SubmitForm(_) => login_attempts += 1,
        other => panic!("unexpected action {:?}", other),
    }
    let (state, action) = listing_step(
        cache,
        creds,
        now,
        state,
        ListingEvent::LoginSubmitted(FetchOutcome::Success("<html>ok</html>".to_string())),
    );
    match action {
        ListingAction::FetchActiveCourses { persist_cookies } => {
            assert!(persist_cookies);
            api_calls += 1;
        },
        other => panic!("unexpected action {:?}", other),
    }
    let (state, action) = listing_step(
        cache,
        creds,
        now,
        state,
        ListingEvent::CoursesFetched(FetchOutcome::Success("{json}".to_string())),
    );
    match action {
        ListingAction::DecodeCourses(body) => assert_eq!(body, "{json}"),
        other => panic!("unexpected action {:?}", other),
    }
    let (state, action) = listing_step(
        cache,
        creds,
        now,
        state,
        ListingEvent::CoursesDecoded(Some(active_courses())),
    );
    assert_eq!(state, ListingState::Done);
    match action {
        ListingAction::ReturnFresh(p) => (p, login_attempts, api_calls),
        other => panic!("unexpected action {:?}", other),
    }
}

#[test]
fn empty_cache_fetches_once_then_serves_cached_bytes() {
    let mut cache = BackendCache::new();
    let creds = Credentials { username: "u".to_string(), password: "p".to_string() };
    let t = 10_000;

    let (payload1, logins, apis) = run_full_fetch(&mut cache, &creds, t);
    assert_eq!(logins, 1);
    assert_eq!(apis, 1);
    assert_eq!(cache.get_class_listing_state(t), CacheDataState::Fresh);

    // a second call within the time-to-live makes no network call and
    // returns byte-identical text
    let (state, action) = listing_step(
        &mut cache,
        &creds,
        t + 300,
        ListingState::Start,
        ListingEvent::Begin,
    );
    assert_eq!(state, ListingState::Done);
    match action {
        ListingAction::ReturnCached(payload2) => assert_eq!(payload2, payload1),
        other => panic!("expected the cached payload, got {:?}", other),
    }

    // the payload decodes to the joined, sorted listing: period 1 first
    let entries = bbs_core::codec::class_listing_from_base64(&payload1).unwrap();
    assert_eq!(entries.len(), 2);
    assert_eq!(entries[0].name, "Math");
    assert_eq!(entries[1].name, "Bio");
}

#[test]
fn stale_cache_triggers_a_refresh() {
    let mut cache = BackendCache::new();
    let creds = Credentials::default();
    let t = 50_000;
    let _ = run_full_fetch(&mut cache, &creds, t);
    // beyond the time-to-live the flow goes back to the network
    let (state, action) = listing_step(
        &mut cache,
        &creds,
        t + 600,
        ListingState::Start,
        ListingEvent::Begin,
    );
    assert_eq!(state, ListingState::AwaitLoginPage);
    assert_eq!(action, ListingAction::FetchLoginPage);
}

#[test]
fn rejected_credentials_fail_and_leave_the_cache_alone() {
    let mut cache = BackendCache::new();
    let creds = Credentials::default();
    let t = 777;
    let (state, _) = listing_step(&mut cache, &creds, t, ListingState::Start, ListingEvent::Begin);
    let (state, _) = listing_step(
        &mut cache,
        &creds,
        t,
        state,
        ListingEvent::LoginPageFetched(FetchOutcome::Success(login_page())),
    );
    let body = "<span aria-invalid=\"true\">unrecognized username or password</span>".to_string();
    let (state, action) = listing_step(
        &mut cache,
        &creds,
        t,
        state,
        ListingEvent::LoginSubmitted(FetchOutcome::Success(body)),
    );
    assert_eq!(state, ListingState::Failed(LoginError::InvalidCredsError));
    assert_eq!(action, ListingAction::Fail(LoginError::InvalidCredsError));
    assert_eq!(cache.get_class_listing_state(t), CacheDataState::Empty);
}

#[test]
fn form_absence_skips_login() {
    let mut cache = BackendCache::new();
    let creds = Credentials::default();
    let (state, _) = listing_step(&mut cache, &creds, 1, ListingState::Start, ListingEvent::Begin);
    let (state, action) = listing_step(
        &mut cache,
        &creds,
        1,
        state,
        ListingEvent::LoginPageFetched(FetchOutcome::Success("<html>no form</html>".to_string())),
    );
    assert_eq!(state, ListingState::AwaitCourses);
    assert_eq!(action, ListingAction::FetchActiveCourses { persist_cookies: false });
}

#[test]
fn transport_failures_surface_as_typed_errors() {
    let mut cache = BackendCache::new();
    let creds = Credentials::default();
    let (state, _) = listing_step(&mut cache, &creds, 1, ListingState::Start, ListingEvent::Begin);
    let (_, action) = listing_step(
        &mut cache,
        &creds,
        1,
        state,
        ListingEvent::LoginPageFetched(FetchOutcome::TransportError),
    );
    assert_eq!(action, ListingAction::Fail(LoginError::RequestError));

    let (_, action) = listing_step(
        &mut cache,
        &creds,
        1,
        ListingState::AwaitCourses,
        ListingEvent::CoursesFetched(FetchOutcome::HttpError),
    );
    assert_eq!(action, ListingAction::Fail(LoginError::LaterRequestError));

    let (_, action) = listing_step(
        &mut cache,
        &creds,
        1,
        ListingState::AwaitDecode,
        ListingEvent::CoursesDecoded(None),
    );
    assert_eq!(action, ListingAction::Fail(LoginError::JsonError));
}

#[test]
fn mismatched_event_does_nothing() {
    let mut cache = BackendCache::new();
    let creds = Credentials::default();
    let (state, action) = listing_step(
        &mut cache,
        &creds,
        1,
        ListingState::Start,
        ListingEvent::CoursesDecoded(None),
    );
    assert_eq!(state, ListingState::Aborted);
    assert_eq!(action, ListingAction::Nothing);
}

#[test]
fn logged_in_decision() {
    let ok_form = find_login_form(&login_page());
    assert_eq!(is_logged_in(true, &ok_form), Ok(true));
    assert_eq!(is_logged_in(false, &ok_form), Ok(false));
    assert_eq!(is_logged_in(false, &Err(LoginError::FindFormError)), Ok(true));
    assert_eq!(
        is_logged_in(false, &Err(LoginError::RequestError)),
        Err(LoginError::RequestError)
    );
}

#[test]
fn materials_flow_enriches_files_and_discussions_only() {
    let page = "<html><body><table><tr class=\"type-assignment\"><td class=\"item-info\"><span class=\"item-title\"><a href=\"/assignment/111\">HW</a></span></td></tr><tr class=\"type-document\" id=\"course-item-222\"><td><div class=\"attachments-file\"><span class=\"attachments-file-name\"><a>Sheet.pdf</a></span></div></td></tr><tr class=\"type-discussion\"><td class=\"item-info\"><span class=\"item-title\"><a href=\"/discussion/333\">Talk</a></span></td></tr></table></body></html>";
    let mut flow = MaterialsFlow::begin(page);
    assert_eq!(flow.entries.len(), 3);

    // the assignment is skipped; the file row is first to enrich
    let j = flow.next_enrichment().unwrap();
    assert_eq!(j, 1);
    let detail = "<div class=\"info-body\">Sheet text</div>".to_string();
    assert_eq!(flow.set_body(j, FetchOutcome::Success(detail)), None);
    assert_eq!(flow.entries[1].body, "Sheet text");

    let j = flow.next_enrichment().unwrap();
    assert_eq!(j, 2);
    // an unreadable detail body degrades to an empty body
    assert_eq!(flow.set_body(j, FetchOutcome::DecodeError), None);
    assert_eq!(flow.entries[2].body, "");
    assert_eq!(flow.next_enrichment(), None);

    let payload = flow.payload();
    let back = bbs_core::codec::materials_from_base64(&payload).unwrap();
    assert_eq!(back, flow.entries);
}

#[test]
fn materials_flow_transport_failure_aborts() {
    let page = "<html><body><table><tr class=\"type-discussion\"><td class=\"item-info\"><span class=\"item-title\"><a href=\"/discussion/1\">T</a></span></td></tr></table></body></html>";
    let mut flow = MaterialsFlow::begin(page);
    let j = flow.next_enrichment().unwrap();
    assert_eq!(flow.set_body(j, FetchOutcome::TransportError), Some(LoginError::RequestError));
    // the record is untouched and still pending
    assert_eq!(flow.next_enrichment(), Some(j));
}
