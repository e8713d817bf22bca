use vstd::prelude::*;

pub mod chat_json;
pub mod chat_request;
pub mod chat_stream;
pub mod json;
pub mod models;
pub mod realtime;
pub mod text;
pub mod update_action;
