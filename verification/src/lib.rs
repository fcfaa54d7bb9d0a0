//! A prompt-sharing service core: users publish prompts, label them with
//! tags and star each other's work.

pub mod api;
pub mod backend;
pub mod cors;
pub mod db;
pub mod handler;
pub mod http;
pub mod prompts;
pub mod routes;
pub mod seqs;
pub mod text;
pub mod types;
pub mod users;
