//! The decisions of a bot that relays chat messages to an assistant service.
//!
//! A chat service delivers messages to a webhook. Each message is put to an
//! assistant service, on the thread of the user who sent it, and the answer is
//! sent back paragraph by paragraph as it is streamed, with the names of the
//! cited files. Two further programs register the webhooks, and fetch the names
//! of the files that the assistants search.
//!
//! This library holds what these programs decide and compute. It performs no
//! input or output: where something has to be fetched, sent or stored, a stage
//! of a state machine says so, and an event reports what came of it.

pub mod citation;
pub mod config;
pub mod context;
pub mod conversation;
pub mod decimal;
pub mod details;
pub mod directory;
pub mod http;
pub mod json;
pub mod openai;
pub mod paragraph;
pub mod relay;
pub mod storage;
pub mod stream;
pub mod summary;
pub mod telegram;
pub mod text;
pub mod utf8;
pub mod webhook;
