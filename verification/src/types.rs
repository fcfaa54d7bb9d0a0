//! Rows and forms of the schema with universally unique keys. Keys are the
//! 128 bits of the identifier; times count seconds since the Unix epoch.

use vstd::prelude::*;

verus! {

/// Who may see a prompt.
#[derive(Clone, Copy, Debug, PartialEq, Eq, Structural)]
pub enum PromptVisibility {
    Private,
    Public,
    Shareable,
}

/// A stored prompt.
#[derive(Debug)]
pub struct PromptRow {
    pub id: u128,
    pub created_by: u128,
    pub parent_id: Option<u128>,
    pub title: String,
    pub description: String,
    pub content: String,
    pub visibility: PromptVisibility,
    pub created_at: i64,
    pub updated_at: i64,
}

/// A prompt as a listing shows it.
#[derive(Debug)]
pub struct PromptSummary {
    pub id: u128,
    pub created_by: u128,
    pub created_by_name: String,
    pub title: String,
    pub description: String,
    pub upvotes: Option<i64>,
}

/// The columns of a new account.
#[derive(Debug)]
pub struct NewUser {
    pub email: String,
    pub name: String,
    pub password: String,
}

/// The form that creates a prompt, with its optional fields.
#[derive(Debug)]
pub struct NewPromptForm {
    pub title: String,
    pub content: String,
    pub tags: Option<String>,
    pub description: Option<String>,
}

} // verus!
