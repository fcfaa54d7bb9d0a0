//! Which routes ask for a login, and how each kind of failure is answered.

use vstd::prelude::*;
use crate::http::{login_location, redirect_to, Reply};

verus! {

/// The routes of the service.
#[derive(Clone, Copy, Debug, PartialEq, Eq, Structural)]
pub enum Route {
    /// `GET /`
    Feed,
    /// `GET /dashboard`
    Dashboard,
    /// `GET /prompt/{id}`
    Prompt,
    /// `GET /prompt/{id}/raw`
    PromptRaw,
    /// `GET /prompt/new`
    NewPromptForm,
    /// `POST /prompt/new`
    NewPrompt,
    /// `GET /prompt/{id}/tags/edit`
    TagEditor,
    /// `POST /prompt/{id}/tags`
    Tags,
    /// `POST` or `DELETE` on the star of a prompt
    Star,
    /// `GET` or `POST /signup`
    Signup,
    /// `GET` or `POST /login`
    Login,
    /// `GET /logout`
    Logout,
    /// `GET /api/prompts`
    ApiPrompts,
    /// `GET /api/profile`, which tells an anonymous viewer `404` itself
    ApiProfile,
    /// A bundled script or style sheet
    Asset,
}

/// Who may call a route.
#[derive(Clone, Copy, Debug, PartialEq, Eq, Structural)]
pub enum Access {
    /// Anyone.
    Public,
    /// Anyone who is logged in.
    LoginRequired,
    /// The author of the prompt that the route names, logged in.
    AuthorOnly,
}

/// Who may call `route`.
pub open spec fn access_of(route: Route) -> Access {
    match route {
        Route::Dashboard | Route::NewPromptForm | Route::NewPrompt | Route::TagEditor
        | Route::Star => Access::LoginRequired,
        Route::Tags => Access::AuthorOnly,
        Route::Feed | Route::Prompt | Route::PromptRaw | Route::Signup | Route::Login
        | Route::Logout | Route::ApiPrompts | Route::ApiProfile | Route::Asset => Access::Public,
    }
}

/// Who may call `route`.
pub fn access(route: Route) -> (access: Access)
    ensures
        access == access_of(route),
{
    match route {
        Route::Dashboard | Route::NewPromptForm | Route::NewPrompt | Route::TagEditor
        | Route::Star => Access::LoginRequired,
        Route::Tags => Access::AuthorOnly,
        Route::Feed | Route::Prompt | Route::PromptRaw | Route::Signup | Route::Login
        | Route::Logout | Route::ApiPrompts | Route::ApiProfile | Route::Asset => Access::Public,
    }
}

/// Whether a request is stopped before it reaches its handler: the route
/// is not public and the viewer is anonymous.
pub open spec fn stopped(route: Route, viewer: Option<i64>) -> bool {
    access_of(route) != Access::Public && viewer is None
}

/// Lets a request through to its handler, or sends an anonymous viewer of
/// a route that is not public to the login page, which leads back to
/// `path`.
pub fn guard(route: Route, viewer: Option<i64>, path: &str) -> (stop: Option<Reply>)
    ensures
        stop is Some == stopped(route, viewer),
        stop is Some ==> stop.unwrap()@ == redirect_to(login_location(path@)),
{
    match access(route) {
        Access::Public => None,
        _ => match viewer {
            Some(_) => None,
            None => Some(Reply::to_login(path)),
        },
    }
}

/// The kinds of failure that reach the HTTP layer.
#[derive(Clone, Copy, Debug, PartialEq, Eq, Structural)]
pub enum Failure {
    /// What was asked for does not exist.
    NotFound,
    /// An anonymous viewer on a route that asks for a login.
    Unauthorized,
    /// A viewer who is not the author.
    Forbidden,
    /// A form with an empty or short column.
    ValidationError,
    /// A signup under a name that is taken.
    UsernameTaken,
    /// The store failed.
    StorageError,
}

/// `303 See Other`, the status of every redirect.
pub const SEE_OTHER: u16 = 303;

/// The status code that answers a failure. Failures that send the viewer
/// elsewhere, to the login page or back to a form, are redirects.
pub open spec fn status_of(failure: Failure) -> u16 {
    match failure {
        Failure::NotFound => 404,
        Failure::Forbidden => 401,
        Failure::StorageError => 500,
        Failure::Unauthorized | Failure::ValidationError | Failure::UsernameTaken => SEE_OTHER,
    }
}

/// The status code that answers a failure.
pub fn status(failure: Failure) -> (code: u16)
    ensures
        code == status_of(failure),
{
    match failure {
        Failure::NotFound => 404,
        Failure::Forbidden => 401,
        Failure::StorageError => 500,
        Failure::Unauthorized | Failure::ValidationError | Failure::UsernameTaken => SEE_OTHER,
    }
}

/// The text under the key `error` that tells a JSON client of a failure of
/// the store.
pub const STORAGE_ERROR_TEXT: &'static str = "Database error";

} // verus!
