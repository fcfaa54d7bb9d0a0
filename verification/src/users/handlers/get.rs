//! The pages and answers of the account routes that change nothing.

use vstd::prelude::*;
use crate::http::{redirect_to, Message, Reply, ReplyView};
use crate::users::handlers::{LoginTemplate, SignUpTemplate};
use crate::users::User;

verus! {

/// What `/api/profile` tells of the viewer.
#[derive(Debug)]
pub struct Profile {
    pub id: i64,
    pub email: String,
}

/// The login page, with the flash messages that wait for it.
pub fn login(messages: Vec<Message>) -> (page: LoginTemplate)
    ensures
        page.messages == messages,
{
    LoginTemplate { messages }
}

/// The signup page, with the flash messages that wait for it.
pub fn signup(messages: Vec<Message>) -> (page: SignUpTemplate)
    ensures
        page.messages == messages,
{
    SignUpTemplate { messages }
}

/// The profile of the viewer under `200`, or nothing under `404` for an
/// anonymous one.
pub fn profile(viewer: Option<&User>) -> (answer: (u16, Option<Profile>))
    ensures
        match viewer {
            Some(user) => {
                &&& answer.0 == 200
                &&& answer.1 is Some
                &&& answer.1.unwrap().id == user.id
                &&& answer.1.unwrap().email@ == user.email@
            },
            None => answer.0 == 404 && answer.1 is None,
        },
{
    match viewer {
        Some(user) => (200, Some(Profile { id: user.id, email: user.email.clone() })),
        None => (404, None),
    }
}

/// The answer to a logout, given whether the session could be ended: home
/// if it could, `500` if it could not.
pub fn logout(ended: bool) -> (reply: Reply)
    ensures
        reply@ == if ended {
            redirect_to("/"@)
        } else {
            ReplyView::Text { status: 500, body: Seq::empty() }
        },
{
    if ended {
        Reply::to("/".to_owned())
    } else {
        Reply::Text { status: 500, body: String::new() }
    }
}

} // verus!
