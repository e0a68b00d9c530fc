use bbs_core::errors::LoginError;
use bbs_core::session::{
    build_login_form, find_login_form, invalid_creds_marker, plan_submission, Credentials,
    SubmitPlan,
};

fn login_page() -> &'static str {
    "<html><body><form id=\"s-user-login-form\" method=\"post\" action=\"/login\"><input name=\"mail\" value=\"\"><input name=\"pass\"><input name=\"op\" value=\"Log in\"><input name=\"form_build_id\" value=\"xyz\"></form></body></html>"
}

#[test]
fn finds_the_login_form() {
    let details = find_login_form(login_page()).unwrap();
    assert_eq!(details.method, "post");
    assert_eq!(details.action, "/login");
    assert_eq!(details.inputs.len(), 4);
    assert_eq!(details.inputs[0].name.as_deref(), Some("mail"));
}

#[test]
fn missing_form_is_the_recoverable_error() {
    let r = find_login_form("<html><body><p>welcome back</p></body></html>");
    assert_eq!(r.unwrap_err(), LoginError::FindFormError);
}

#[test]
fn submission_substitutes_credentials_and_drops_op() {
    let details = find_login_form(login_page()).unwrap();
    let fields = build_login_form(&details, "user@example.org", "hunter2");
    assert_eq!(
        fields,
        vec![
            ("mail".to_string(), "user@example.org".to_string()),
            ("pass".to_string(), "hunter2".to_string()),
            ("form_build_id".to_string(), "xyz".to_string()),
        ]
    );
}

#[test]
fn plan_uses_the_declared_method() {
    let details = find_login_form(login_page()).unwrap();
    match plan_submission(&details, "u", "p").unwrap() {
        SubmitPlan::Post { action, fields } => {
            assert_eq!(action, "/login");
            assert_eq!(fields.len(), 3);
        },
        other => panic!("expected a post plan, got {:?}", other),
    }
}

#[test]
fn unknown_method_yields_no_plan() {
    let page = "<html><body><form id=\"s-user-login-form\" method=\"POST\" action=\"/login\"></form></body></html>";
    // the method names are case-sensitive literals
    let details = find_login_form(page).unwrap();
    assert!(plan_submission(&details, "u", "p").is_none());
}

#[test]
fn invalid_creds_marker_is_found_within_window() {
    let body = format!(
        "<span aria-invalid=\"true\">{}unrecognized username or password</span>",
        "x".repeat(40)
    );
    assert!(invalid_creds_marker(&body));
}

#[test]
fn marker_too_far_away_does_not_count() {
    let body = format!("aria-invalid {} unrecognized", "x".repeat(200));
    assert!(!invalid_creds_marker(&body));
}

#[test]
fn no_marker_means_valid() {
    assert!(!invalid_creds_marker("<html>welcome</html>"));
    // the rejection word alone is not enough without the validity marker
    assert!(!invalid_creds_marker("unrecognized"));
}

#[test]
fn credentials_replace_wholesale() {
    let mut creds = Credentials::default();
    assert_eq!(creds.username, "");
    creds.set_credentials("alice".to_string(), "secret".to_string());
    assert_eq!(creds.username, "alice");
    assert_eq!(creds.password, "secret");
    creds.set_credentials("bob".to_string(), "other".to_string());
    assert_eq!(creds.username, "bob");
    assert_eq!(creds.password, "other");
}
