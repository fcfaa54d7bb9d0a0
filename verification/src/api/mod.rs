//! The JSON surface for the browser extension.

pub mod prompts;
