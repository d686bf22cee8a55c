//! The rules of a chat server that relays prompts to a generation backend
//! and streams the answer back to the browser.
//!
//! The library holds what such a server decides, with each decision stated
//! as a contract and proved: how text is drawn out of a JSON document that
//! is still arriving ([`chunk_assembler`]), how the stream from the backend
//! is framed, read and passed on, with retries, a deadline and a budget of
//! words ([`sse`], [`events`], [`llm_stream`]), how sessions and their
//! tokens live, are refreshed and end ([`auth`], [`auth_ssr`], [`ssr`],
//! [`rate_limit`], [`store`]), how a stream is stopped ([`stop`]), and what
//! the chat window does with the records it receives ([`components`]).
//!
//! The library does no input or output and reads no clock: the program
//! around it hands in what it read and the time, and carries out what the
//! library answers.
//!
//! Outside crates do the parsing and writing of JSON, Base64, the MAC of
//! signed requests and the writing of addresses; reading the wire form of
//! typed events is left to the program. Each such call stands in a function
//! of a few lines whose contract is taken on trust; the doc comment of each
//! says what is claimed of it.

pub mod auth;
pub mod auth_ssr;
pub mod chunk_assembler;
pub mod components;
pub mod config;
pub mod error;
pub mod events;
pub mod hmac;
pub mod json;
pub mod llm_stream;
pub mod proxy_tree;
pub mod rate_limit;
pub mod rbac;
pub mod sse;
pub mod ssr;
pub mod stop;
pub mod store;
pub mod text;
