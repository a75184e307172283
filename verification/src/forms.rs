//! The account and administration forms: what each sends, and when a new
//! user may be created at all.

use vstd::prelude::*;
use vstd::utf8::encode_utf8;
use crate::client::opt_view;
use crate::text::{trim, trimmed};

verus! {

broadcast use vstd::string::group_string_axioms;

/// An empty field stands for no value.
pub open spec fn unless_empty(s: Seq<char>) -> Option<Seq<char>> {
    if s.len() == 0 {
        None
    } else {
        Some(s)
    }
}

fn none_if_empty(s: String) -> (r: Option<String>)
    ensures
        opt_view(r) == unless_empty(s@),
{
    if s.as_str().is_empty() {
        None
    } else {
        Some(s)
    }
}

/// The shortest password, in bytes, a new user may have.
pub const MIN_PASSWORD_BYTES: usize = 8;

/// A user to create.
#[derive(Clone, Debug, PartialEq, Eq)]
pub struct CreateUserReq {
    pub username: String,
    pub password: String,
    pub role: String,
    pub display_name: Option<String>,
}

/// A new user needs a name that is not blank and a password of at least
/// [`MIN_PASSWORD_BYTES`] bytes.
pub open spec fn user_form_valid(username: Seq<char>, password: Seq<char>) -> bool {
    trim(username).len() > 0 && encode_utf8(password).len() >= MIN_PASSWORD_BYTES
}

/// The request for a new user: the name and display name trimmed, a blank
/// display name left out; `None` when the form is not valid.
pub fn create_user_request(
    username: &str,
    password: String,
    role: String,
    display_name: &str,
) -> (r: Option<CreateUserReq>)
    ensures
        r is Some <==> user_form_valid(username@, password@),
        r matches Some(q) ==> {
            &&& q.username@ == trim(username@)
            &&& q.password@ == password@
            &&& q.role@ == role@
            &&& opt_view(q.display_name) == unless_empty(trim(display_name@))
        },
{
    let name = trimmed(username);
    if name.as_str().is_empty() || password.as_str().as_bytes().len() < MIN_PASSWORD_BYTES {
        return None;
    }
    Some(
        CreateUserReq {
            username: name,
            password,
            role,
            display_name: none_if_empty(trimmed(display_name)),
        },
    )
}

/// A change to a user: the role always, the password when one was typed.
#[derive(Clone, Debug, PartialEq, Eq)]
pub struct UpdateUserReq {
    pub role: Option<String>,
    pub password: Option<String>,
}

pub fn update_user_request(role: String, password: String) -> (r: UpdateUserReq)
    ensures
        opt_view(r.role) == Some(role@),
        opt_view(r.password) == unless_empty(password@),
{
    UpdateUserReq { role: Some(role), password: none_if_empty(password) }
}

/// A change to one's own profile: each field only when it was filled in.
#[derive(Clone, Debug, PartialEq, Eq)]
pub struct UpdateMeReq {
    pub display_name: Option<String>,
    pub avatar_data: Option<String>,
    pub password: Option<String>,
}

pub fn update_me_request(display_name: String, avatar_data: String, password: String) -> (r:
    UpdateMeReq)
    ensures
        opt_view(r.display_name) == unless_empty(display_name@),
        opt_view(r.avatar_data) == unless_empty(avatar_data@),
        opt_view(r.password) == unless_empty(password@),
{
    UpdateMeReq {
        display_name: none_if_empty(display_name),
        avatar_data: none_if_empty(avatar_data),
        password: none_if_empty(password),
    }
}

/// The client name of a new API key; an empty name is none.
pub fn key_client_name(name: String) -> (r: Option<String>)
    ensures
        opt_view(r) == unless_empty(name@),
{
    none_if_empty(name)
}

} // verus!
