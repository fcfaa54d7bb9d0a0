//! Login and signup.

use vstd::prelude::*;
use crate::db::UserView;
use crate::db::store::Store;
use crate::http::{redirect_with, Level, Reply, ReplyView};
use crate::users::{
    hash_verdict, is_argon2id_phc, Credentials, SignupError, User, Verdict,
};

verus! {

/// What a login attempt comes to.
#[derive(Debug)]
pub enum LoginOutcome {
    /// The credentials hold: the session is to be opened for `user`, and
    /// `reply` sent once it is.
    Accepted { user: User, reply: Reply },
    /// The credentials do not hold.
    Rejected { reply: Reply },
}

/// Where a login leads that succeeded: where the form says, or home.
pub open spec fn after_login(next: Option<String>) -> Seq<char> {
    match next {
        Some(next) => next@,
        None => "/"@,
    }
}

/// Where a login leads that failed: back to the login page, which keeps
/// the place to go to afterwards.
pub open spec fn retry_login(next: Option<String>) -> Seq<char> {
    match next {
        Some(next) => "/login"@ + "?next="@ + next@,
        None => "/login"@,
    }
}

/// The greeting after a login.
pub open spec fn greeting(username: Seq<char>) -> Seq<char> {
    "Successfully logged in as "@ + username
}

/// Checks the credentials of a login form and says where to go.
pub fn login(store: &Store, creds: &Credentials) -> (outcome: LoginOutcome)
    requires
        store.wf(),
    ensures
        match outcome {
            LoginOutcome::Accepted { user, reply } => {
                &&& store@.login_accepted(creds.username@, creds.password@)
                &&& user@ == store@.user_named(creds.username@)
                &&& reply@ == redirect_with(
                    after_login(creds.next),
                    Level::Success,
                    greeting(creds.username@),
                )
            },
            LoginOutcome::Rejected { reply } => {
                &&& !store@.login_accepted(creds.username@, creds.password@)
                &&& reply@ == redirect_with(
                    retry_login(creds.next),
                    Level::Error,
                    "Invalid credentials"@,
                )
            },
        },
{
    match store.authenticate(creds.username.as_str(), creds.password.as_str()) {
        Some(user) => {
            let location = match &creds.next {
                Some(next) => next.clone(),
                None => "/".to_owned(),
            };
            let mut message = "Successfully logged in as ".to_owned();
            message.append(user.username.as_str());
            let reply = Reply::flash(location, Level::Success, message.as_str());
            LoginOutcome::Accepted { user, reply }
        },
        None => {
            let mut location = "/login".to_owned();
            if let Some(next) = &creds.next {
                location.append("?next=");
                location.append(next.as_str());
            }
            LoginOutcome::Rejected {
                reply: Reply::flash(location, Level::Error, "Invalid credentials"),
            }
        },
    }
}

/// The answer to a login whose session could not be opened.
pub fn session_failed() -> (reply: Reply)
    ensures
        reply@ == (ReplyView::Text { status: 500, body: Seq::empty() }),
{
    Reply::Text { status: 500, body: String::new() }
}

/// What the signup form is told after a refusal.
pub open spec fn refusal_notice(error: SignupError) -> Seq<char> {
    match error {
        SignupError::EmptyUsername => "Username cannot be empty."@,
        SignupError::WeakPassword => "Password must be at least 8 characters long."@,
        SignupError::UsernameTaken =>
            "Username or email already taken. Please choose another or login."@,
        SignupError::StorageError(_) =>
            "An error occurred while creating your account. Please try again."@,
    }
}

/// The answer to a signup that was refused: back to the form, with the
/// reason.
pub open spec fn signup_refused(error: SignupError) -> ReplyView {
    redirect_with("/signup"@, Level::Error, refusal_notice(error))
}

/// The answer to a signup that went through: on to the login page.
pub open spec fn signup_done() -> ReplyView {
    redirect_with("/login"@, Level::Info, "Account created successfully! You can now log in."@)
}

fn refuse(error: SignupError) -> (reply: Reply)
    ensures
        reply@ == signup_refused(error),
{
    let notice = match error {
        SignupError::EmptyUsername => "Username cannot be empty.",
        SignupError::WeakPassword => "Password must be at least 8 characters long.",
        SignupError::UsernameTaken =>
            "Username or email already taken. Please choose another or login.",
        SignupError::StorageError(_) =>
            "An error occurred while creating your account. Please try again.",
    };
    Reply::flash("/signup".to_owned(), Level::Error, notice)
}

/// Signs a user up from the submitted form and says where to go: on to
/// the login page if the account was created, back to the form with the
/// reason if it was not.
pub fn signup(store: &mut Store, username: &str, email: &str, password: &str) -> (reply: Reply)
    requires
        old(store).wf(),
    ensures
        final(store).wf(),
        match old(store)@.signup_refusal(username@, password@) {
            Some(error) => final(store)@ == old(store)@ && reply@ == signup_refused(error),
            None => {
                &&& reply@ == signup_done()
                &&& final(store)@.users.len() == old(store)@.users.len() + 1
                &&& final(store)@ == old(store)@.with_user(
                    UserView {
                        id: old(store)@.next_user_id() as i64,
                        username: username@,
                        email: email@,
                        password: final(store)@.users.last().password,
                    },
                )
                &&& is_argon2id_phc(final(store)@.users.last().password)
                &&& hash_verdict(password@, final(store)@.users.last().password)
                    == Verdict::Match
            },
        },
{
    match store.signup(username, email, password) {
        Ok(_) => Reply::flash(
            "/login".to_owned(),
            Level::Info,
            "Account created successfully! You can now log in.",
        ),
        Err(error) => refuse(error),
    }
}

} // verus!
