//! The session manager's logic: finding the login form, building the
//! submission from it, and classifying the submission response.
//!
//! The network calls themselves happen outside; everything here is a function
//! from page text and credentials to values.

use vstd::prelude::*;
use vstd::string::StringExecFns;
use crate::errors::LoginError;
use crate::extract::{first_match_index, lemma_first_match_index_unique, or_empty};
use crate::scrape::{login_form_of, scrape_login_form, view_opt};
use crate::strutil::{chars_vec, contains_seq, contains_sub, find_sub_from, subvec};

verus! {

/// The current username and password.
#[derive(Debug, Clone, PartialEq, Eq)]
pub struct Credentials {
    pub username: String,
    pub password: String,
}

impl Default for Credentials {
    /// Empty credentials.
    fn default() -> (r: Self)
        ensures
            r.username@ == Seq::<char>::empty(),
            r.password@ == Seq::<char>::empty(),
    {
        Credentials { username: String::new(), password: String::new() }
    }
}

impl Credentials {
    /// Replace both fields with the given pair.
    pub fn set_credentials(&mut self, username: String, password: String)
        ensures
            final(self).username == username,
            final(self).password == password,
    {
        self.username = username;
        self.password = password;
    }
}

/// One input of the login form: its name and literal value, where present.
#[derive(Debug, Clone, PartialEq, Eq)]
pub struct FormInput {
    pub name: Option<String>,
    pub value: Option<String>,
}

/// The login form as found on the login page: its declared method and action,
/// and its inputs in document order.
#[derive(Debug, Clone, PartialEq, Eq)]
pub struct LoginFormDetails {
    pub method: String,
    pub action: String,
    pub inputs: Vec<FormInput>,
}

/// Something looked for in a page was not there.
#[derive(Debug, Clone, PartialEq, Eq)]
pub struct NotFoundError {
    pub value: String,
}

impl NotFoundError {
    /// What was missing, for the outermost boundary.
    pub fn message(&self) -> (r: &String)
        ensures
            r == &self.value,
    {
        &self.value
    }
}

/// The inputs as plain pairs of name and value.
pub open spec fn inputs_model(inputs: Seq<FormInput>) -> Seq<
    (Option<Seq<char>>, Option<Seq<char>>),
> {
    inputs.map_values(|i: FormInput| (view_opt(i.name), view_opt(i.value)))
}

/// The CSS selector that identifies the login form.
pub open spec fn spec_form_selector() -> Seq<char> {
    "form#s-user-login-form"@
}

/// Find the login form in the login page. Its absence is the recoverable
/// `FindFormError`: it can mean "already authenticated" as well as "page
/// restructured", and callers treat it as non-fatal. A missing method or
/// action attribute is carried as an empty string.
pub fn find_login_form(page: &str) -> (r: Result<LoginFormDetails, LoginError>)
    ensures
        r is Ok <==> login_form_of(page@, spec_form_selector(), "input"@) is Some,
        r matches Err(e) ==> e == LoginError::FindFormError,
        r matches Ok(d) ==> (login_form_of(page@, spec_form_selector(), "input"@) matches Some(t)
            && d.method@ == or_empty(t.0) && d.action@ == or_empty(t.1) && inputs_model(d.inputs@)
            == t.2),
{
    let found = scrape_login_form(page, "form#s-user-login-form", "input");
    match found {
        None => Result::Err(LoginError::FindFormError),
        Some((method, action, raw_inputs)) => {
            let method = match method {
                Some(m) => m,
                None => String::new(),
            };
            let action = match action {
                Some(a) => a,
                None => String::new(),
            };
            let mut inputs: Vec<FormInput> = Vec::new();
            let mut i: usize = 0;
            while i < raw_inputs.len()
                invariant
                    i <= raw_inputs@.len(),
                    inputs@.len() == i,
                    forall|k: int|
                        0 <= k < i ==> (view_opt(#[trigger] inputs@[k].name), view_opt(
                            inputs@[k].value,
                        )) == (view_opt(raw_inputs@[k].0), view_opt(raw_inputs@[k].1)),
                decreases raw_inputs@.len() - i,
            {
                let raw = &raw_inputs[i];
                let name = match &raw.0 {
                    Some(n) => Some(n.clone()),
                    None => None,
                };
                let value = match &raw.1 {
                    Some(v) => Some(v.clone()),
                    None => None,
                };
                inputs.push(FormInput { name, value });
                i = i + 1;
            }
            proof {
                assert(inputs_model(inputs@) =~= raw_inputs@.map_values(
                    |p: (Option<String>, Option<String>)| (view_opt(p.0), view_opt(p.1)),
                ));
            }
            Result::Ok(LoginFormDetails { method, action, inputs })
        },
    }
}

/// What one input contributes to the submission: its literal value when
/// non-empty; else the password when its name hints at a password field, the
/// username when it hints at a mail field; nothing otherwise. The synthetic
/// `op` control field contributes nothing, and a nameless input nothing.
pub open spec fn spec_form_field(
    input: (Option<Seq<char>>, Option<Seq<char>>),
    user: Seq<char>,
    pass: Seq<char>,
) -> Option<(Seq<char>, Seq<char>)> {
    match input.0 {
        None => None,
        Some(name) => if name == "op"@ {
            None
        } else {
            match input.1 {
                Some(v) => if v.len() > 0 {
                    Some((name, v))
                } else {
                    spec_substituted(name, user, pass)
                },
                None => spec_substituted(name, user, pass),
            }
        },
    }
}

/// The credential substituted for an input without a usable literal value.
pub open spec fn spec_substituted(name: Seq<char>, user: Seq<char>, pass: Seq<char>) -> Option<
    (Seq<char>, Seq<char>),
> {
    if contains_seq(name, "pass"@) {
        Some((name, pass))
    } else if contains_seq(name, "mail"@) {
        Some((name, user))
    } else {
        None
    }
}

/// The whole submission, input by input in document order.
pub open spec fn spec_login_fields(
    inputs: Seq<(Option<Seq<char>>, Option<Seq<char>>)>,
    user: Seq<char>,
    pass: Seq<char>,
) -> Seq<(Seq<char>, Seq<char>)>
    decreases inputs.len(),
{
    if inputs.len() == 0 {
        Seq::empty()
    } else {
        match spec_form_field(inputs[0], user, pass) {
            None => spec_login_fields(inputs.drop_first(), user, pass),
            Some(f) => seq![f] + spec_login_fields(inputs.drop_first(), user, pass),
        }
    }
}

/// The field pairs as plain pairs of character sequences.
pub open spec fn fields_model(fields: Seq<(String, String)>) -> Seq<(Seq<char>, Seq<char>)> {
    fields.map_values(|f: (String, String)| (f.0@, f.1@))
}

/// Whether two strings hold the same characters.
pub fn str_eq(a: &str, b: &str) -> (r: bool)
    ensures
        r == (a@ == b@),
{
    let va = chars_vec(a);
    let vb = chars_vec(b);
    if va.len() != vb.len() {
        return false;
    }
    let mut i: usize = 0;
    while i < va.len()
        invariant
            va@ == a@,
            vb@ == b@,
            va@.len() == vb@.len(),
            i <= va@.len(),
            forall|j: int| 0 <= j < i ==> va@[j] == vb@[j],
        decreases va@.len() - i,
    {
        if va[i] != vb[i] {
            return false;
        }
        i = i + 1;
    }
    proof {
        assert(a@ =~= b@);
    }
    true
}

/// Build the form submission for the found login form, substituting the
/// current credentials as [`spec_form_field`] says.
pub fn build_login_form(details: &LoginFormDetails, user: &str, pass: &str) -> (r: Vec<
    (String, String),
>)
    ensures
        fields_model(r@) == spec_login_fields(inputs_model(details.inputs@), user@, pass@),
{
    let inputs = &details.inputs;
    let ghost im = inputs_model(inputs@);
    let mut out: Vec<(String, String)> = Vec::new();
    let mut i: usize = 0;
    proof {
        assert(im.skip(0) =~= im);
        assert(fields_model(out@) + spec_login_fields(im.skip(0), user@, pass@) =~= spec_login_fields(
            im,
            user@,
            pass@,
        ));
    }
    while i < inputs.len()
        invariant
            i <= inputs@.len(),
            im == inputs_model(inputs@),
            spec_login_fields(im, user@, pass@) == fields_model(out@) + spec_login_fields(
                im.skip(i as int),
                user@,
                pass@,
            ),
        decreases inputs@.len() - i,
    {
        let ghost rest = im.skip(i as int);
        proof {
            assert(rest[0] == im[i as int]);
            assert(im[i as int] == (view_opt(inputs@[i as int].name), view_opt(
                inputs@[i as int].value,
            )));
            assert(rest.drop_first() =~= im.skip(i + 1));
        }
        let input = &inputs[i];
        let field: Option<(String, String)> = match &input.name {
            None => None,
            Some(name) => {
                if str_eq(name.as_str(), "op") {
                    None
                } else {
                    let has_value = match &input.value {
                        Some(v) => !v.as_str().is_empty(),
                        None => false,
                    };
                    if has_value {
                        match &input.value {
                            Some(v) => Some((name.clone(), v.clone())),
                            None => None,
                        }
                    } else {
                        substituted(name, user, pass)
                    }
                }
            },
        };
        let ghost prev = fields_model(out@);
        match field {
            Some(f) => {
                let ghost fm = (f.0@, f.1@);
                out.push(f);
                proof {
                    assert(fields_model(out@) =~= prev.push(fm));
                    assert(prev.push(fm) + spec_login_fields(im.skip(i + 1), user@, pass@) =~= prev
                        + (seq![fm] + spec_login_fields(im.skip(i + 1), user@, pass@)));
                }
            },
            None => {},
        }
        i = i + 1;
    }
    proof {
        assert(im.skip(im.len() as int) =~= Seq::<(Option<Seq<char>>, Option<Seq<char>>)>::empty());
        assert(fields_model(out@) + spec_login_fields(
            Seq::<(Option<Seq<char>>, Option<Seq<char>>)>::empty(),
            user@,
            pass@,
        ) =~= fields_model(out@));
    }
    out
}

fn substituted(name: &String, user: &str, pass: &str) -> (r: Option<(String, String)>)
    ensures
        (match r {
            Some(f) => Some((f.0@, f.1@)),
            None => None,
        }) == spec_substituted(name@, user@, pass@),
{
    let nv = chars_vec(name.as_str());
    let pass_pat = chars_vec("pass");
    let mail_pat = chars_vec("mail");
    if contains_sub(&nv, &pass_pat) {
        Some((name.clone(), pass.to_owned()))
    } else if contains_sub(&nv, &mail_pat) {
        Some((name.clone(), user.to_owned()))
    } else {
        None
    }
}

/// An "invalid credentials" response: the body holds the validity marker and,
/// within the hundred characters that follow its first occurrence, the
/// rejection marker.
pub open spec fn spec_invalid_creds(body: Seq<char>) -> bool {
    contains_seq(body, "aria-invalid"@) && {
        let i = first_match_index(body, "aria-invalid"@);
        let hi = if i + 100 <= body.len() {
            i + 100
        } else {
            body.len() as int
        };
        contains_seq(body.subrange(i, hi), "unrecognized"@)
    }
}

/// Whether a successful login response body reports rejected credentials.
pub fn invalid_creds_marker(body: &str) -> (r: bool)
    ensures
        r == spec_invalid_creds(body@),
{
    let v = chars_vec(body);
    let aria = chars_vec("aria-invalid");
    let unrec = chars_vec("unrecognized");
    match find_sub_from(&v, &aria, 0) {
        None => false,
        Some(i) => {
            proof {
                lemma_first_match_index_unique(v@, aria@, i as int);
            }
            let hi = if v.len() - i >= 100 {
                i + 100
            } else {
                v.len()
            };
            let window = subvec(&v, i, hi);
            contains_sub(&window, &unrec)
        },
    }
}

/// How the submission is sent: by the form's declared method to its declared
/// action path, with the built fields on a post.
#[derive(Debug, Clone, PartialEq, Eq)]
pub enum SubmitPlan {
    Post { action: String, fields: Vec<(String, String)> },
    Get { action: String },
}

/// Turn the found form and the current credentials into a submission plan.
/// Only the literal lowercase method names are accepted; any other method is
/// an unrecoverable configuration fault and yields no plan.
pub fn plan_submission(details: &LoginFormDetails, user: &str, pass: &str) -> (r: Option<
    SubmitPlan,
>)
    ensures
        details.method@ == "post"@ ==> (r matches Some(SubmitPlan::Post { action, fields })
            && action@ == details.action@ && fields_model(fields@) == spec_login_fields(
            inputs_model(details.inputs@),
            user@,
            pass@,
        )),
        details.method@ == "get"@ ==> (r matches Some(SubmitPlan::Get { action }) && action@
            == details.action@),
        details.method@ != "post"@ && details.method@ != "get"@ ==> r is None,
{
    proof {
        reveal_strlit("post");
        reveal_strlit("get");
        assert("get"@.len() == 3);
        assert("post"@.len() == 4);
        assert("get"@ != "post"@);
    }
    if str_eq(details.method.as_str(), "post") {
        let fields = build_login_form(details, user, pass);
        Some(SubmitPlan::Post { action: details.action.clone(), fields })
    } else if str_eq(details.method.as_str(), "get") {
        Some(SubmitPlan::Get { action: details.action.clone() })
    } else {
        None
    }
}

} // verus!
