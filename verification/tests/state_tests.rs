use bbs_core::courses::{
    ActiveClassesCourse, ActiveClassesCourses, ActiveClassesSection, ActiveClassesThumbnails,
};
use bbs_core::data::{FrontendData, Keyed, MaterialEntry, MaterialKind};
use bbs_core::errors::LoginError;
use bbs_core::reducer_actions::{DataUpdateAction, StateUpdateAction};
use bbs_core::state::PageState;
use bbs_core::{ClassID, ClassItemID};

#[test]
fn login_state_accessors() {
    let s = PageState::Login { username: "u".to_string(), password: "p".to_string() };
    assert!(s.is_login());
    assert!(!s.is_main());
    assert_eq!(s.as_login_username().map(String::as_str), Some("u"));
    assert_eq!(s.as_login_password().map(String::as_str), Some("p"));

    let main = PageState::Main { day: None };
    assert!(main.is_main());
    assert!(!main.is_login());
    assert_eq!(main.as_login_username(), None);

    let failed = PageState::LoginFailed {
        username: "u".to_string(),
        password: "p".to_string(),
        reason: LoginError::InvalidCredsError,
    };
    assert!(failed.is_login());
}

#[test]
fn reduce_carries_credentials_between_login_states() {
    let s = PageState::Login { username: "u".to_string(), password: "p".to_string() };
    let s = s.reduce(StateUpdateAction::SetUname("alice".to_string()));
    let s = s.reduce(StateUpdateAction::SetPassw("pw".to_string()));
    match &s {
        PageState::Login { username, password } => {
            assert_eq!(username, "alice");
            assert_eq!(password, "pw");
        },
        other => panic!("unexpected state {:?}", other),
    }
    let failed = s.reduce(StateUpdateAction::FailLogin(LoginError::LaterRequestError));
    match &failed {
        PageState::LoginFailed { username, password, reason } => {
            assert_eq!(username, "alice");
            assert_eq!(password, "pw");
            assert_eq!(*reason, LoginError::LaterRequestError);
        },
        other => panic!("unexpected state {:?}", other),
    }
    // a state without login fields yields empty credentials
    let from_main = PageState::Main { day: None }.reduce(StateUpdateAction::LogIn);
    match &from_main {
        PageState::LoggingIn { username, password } => {
            assert_eq!(username, "");
            assert_eq!(password, "");
        },
        other => panic!("unexpected state {:?}", other),
    }
}

#[test]
fn reduce_navigation_actions() {
    let s = PageState::Main { day: None };
    assert_eq!(
        s.reduce(StateUpdateAction::SetDayFilter(3)),
        PageState::Main { day: Some(3) }
    );
    assert_eq!(
        s.reduce(StateUpdateAction::LoadClass(ClassID(5))),
        PageState::LoadingClass { class_id: ClassID(5) }
    );
    assert_eq!(
        s.reduce(StateUpdateAction::ToClass(ClassID(5))),
        PageState::ClassPage { id: ClassID(5), expanded_folders: Vec::new() }
    );
    assert_eq!(
        s.reduce(StateUpdateAction::ToClassItem(ClassItemID(9))),
        PageState::ClassItemPage { id: ClassItemID(9) }
    );
    assert_eq!(s.reduce(StateUpdateAction::ToMain), PageState::Main { day: None });
}

#[test]
fn keyed_values_bump_their_counter() {
    let k: Keyed<u32> = Keyed::new(7, 0);
    assert_eq!(k.key(), 0);
    let k2 = k.new_inc(8);
    assert_eq!(k2.key(), 1);
    let k3 = k2.new_inc_clone();
    assert_eq!(k3.key(), 2);
    assert_eq!(k3.value(), 8);
}

#[test]
fn frontend_data_reducers_touch_one_slot() {
    let data = FrontendData::empty();
    assert_eq!(data.classes.key(), 0);
    let material = MaterialEntry {
        id: "1".to_string(),
        kind: MaterialKind::Other,
        title: "t".to_string(),
        body: String::new(),
        due: "No Due Date Specified".to_string(),
    };
    let data = data.reduce(DataUpdateAction::SetClassListing(Vec::new()));
    assert_eq!(data.classes.key(), 1);
    assert_eq!(data.curr_class_data.key(), 0);
    let data = data.reduce(DataUpdateAction::SetClassPageInfo(vec![material]));
    assert_eq!(data.classes.key(), 1);
    assert_eq!(data.curr_class_data.key(), 1);
    let data = data.reduce(DataUpdateAction::ClearClassListing);
    assert_eq!(data.classes.key(), 2);
    let data = data.reduce(DataUpdateAction::ClearClassPageInfo);
    assert_eq!(data.curr_class_data.key(), 2);
}

fn section(nid: u64, course_nid: u64) -> ActiveClassesSection {
    ActiveClassesSection {
        nid,
        section_title: "1(A)".to_string(),
        course_nid,
        logo_img_src: ActiveClassesThumbnails { card_thumbnail: None, card_thumbnail_2x: None },
    }
}

#[test]
fn to_by_id_joins_each_course_once() {
    let courses = ActiveClassesCourses {
        courses: vec![
            ActiveClassesCourse { nid: 10, course_title: "Math".to_string() },
            ActiveClassesCourse { nid: 20, course_title: "Bio".to_string() },
        ],
        sections: vec![
            section(1, 10),
            section(2, 10),  // second section of the same course is dropped
            section(3, 99),  // unknown course is dropped
            section(4, 20),
        ],
    };
    let by_id = courses.to_by_id();
    assert_eq!(by_id.data.len(), 2);
    let (course, sec) = by_id.data.get(&10).unwrap();
    assert_eq!(course.course_title, "Math");
    assert_eq!(sec.nid, 1);
    assert_eq!(by_id.data.get(&20).unwrap().1.nid, 4);
    assert!(by_id.data.get(&99).is_none());
}
