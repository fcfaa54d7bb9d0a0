//! What the account routes answer.

use vstd::prelude::*;
use crate::http::Message;

pub mod get;
pub mod post;

verus! {

/// What the signup page shows.
#[derive(Debug)]
pub struct SignUpTemplate {
    pub messages: Vec<Message>,
}

/// What the login page shows.
#[derive(Debug)]
pub struct LoginTemplate {
    pub messages: Vec<Message>,
}

} // verus!
