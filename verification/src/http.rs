//! What the handlers hand to the HTTP layer: redirects with flash messages
//! and short text bodies, and how each kind of failure is answered.

use vstd::prelude::*;
use vstd::string::StringExecFns;

verus! {

/// How loud a flash message is.
#[derive(Clone, Copy, Debug, PartialEq, Eq, Structural)]
pub enum Level {
    Debug,
    Info,
    Success,
    Warning,
    Error,
}

/// A flash message: shown once, on the page that follows a redirect.
#[derive(Debug)]
pub struct Message {
    pub level: Level,
    pub message: String,
}

/// A [`Message`], as the contracts see it.
pub struct MessageView {
    pub level: Level,
    pub message: Seq<char>,
}

impl View for Message {
    type V = MessageView;

    open spec fn view(&self) -> MessageView {
        MessageView { level: self.level, message: self.message@ }
    }
}

impl Clone for Message {
    fn clone(&self) -> (copy: Self)
        ensures
            copy == *self,
    {
        Message { level: self.level, message: self.message.clone() }
    }
}

/// An answer that needs no template.
#[derive(Debug)]
pub enum Reply {
    /// `303 See Other` to `location`, after leaving `flash` for the next page.
    Redirect { location: String, flash: Option<Message> },
    /// A `text/plain` body under a status code.
    Text { status: u16, body: String },
}

/// A [`Reply`], as the contracts see it.
pub enum ReplyView {
    Redirect { location: Seq<char>, flash: Option<MessageView> },
    Text { status: u16, body: Seq<char> },
}

impl View for Reply {
    type V = ReplyView;

    open spec fn view(&self) -> ReplyView {
        match self {
            Reply::Redirect { location, flash } => ReplyView::Redirect {
                location: location@,
                flash: match flash {
                    Some(message) => Some(message@),
                    None => None,
                },
            },
            Reply::Text { status, body } => ReplyView::Text { status: *status, body: body@ },
        }
    }
}

/// The redirect to `location` with a flash message.
pub open spec fn redirect_with(location: Seq<char>, level: Level, message: Seq<char>) -> ReplyView {
    ReplyView::Redirect { location, flash: Some(MessageView { level, message }) }
}

/// The redirect to `location` without a flash message.
pub open spec fn redirect_to(location: Seq<char>) -> ReplyView {
    ReplyView::Redirect { location, flash: None }
}

/// Where an anonymous visitor of `path` is sent: the login page, which
/// leads back to `path`.
pub open spec fn login_location(path: Seq<char>) -> Seq<char> {
    "/login?next="@ + path
}

/// The answer to a prompt that does not exist.
pub open spec fn not_found() -> ReplyView {
    ReplyView::Text { status: 404, body: "Not Found"@ }
}

/// The answer to someone who may not change what they tried to change.
pub open spec fn unauthorized() -> ReplyView {
    ReplyView::Text { status: 401, body: "Unauthorized"@ }
}

impl Reply {
    /// A redirect that leaves a flash message.
    pub fn flash(location: String, level: Level, message: &str) -> (reply: Reply)
        ensures
            reply@ == redirect_with(location@, level, message@),
    {
        Reply::Redirect {
            location,
            flash: Some(Message { level, message: message.to_owned() }),
        }
    }

    /// A redirect without a flash message.
    pub fn to(location: String) -> (reply: Reply)
        ensures
            reply@ == redirect_to(location@),
    {
        Reply::Redirect { location, flash: None }
    }

    /// Sends an anonymous visitor of `path` to the login page.
    pub fn to_login(path: &str) -> (reply: Reply)
        ensures
            reply@ == redirect_to(login_location(path@)),
    {
        let mut location = "/login?next=".to_owned();
        location.append(path);
        Reply::Redirect { location, flash: None }
    }

    /// The answer to a prompt that does not exist.
    pub fn not_found() -> (reply: Reply)
        ensures
            reply@ == not_found(),
    {
        Reply::Text { status: 404, body: "Not Found".to_owned() }
    }

    /// The answer to someone who may not change what they tried to change.
    pub fn unauthorized() -> (reply: Reply)
        ensures
            reply@ == unauthorized(),
    {
        Reply::Text { status: 401, body: "Unauthorized".to_owned() }
    }
}

} // verus!
