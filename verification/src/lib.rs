//! The logic of an HTTP gateway in front of an AWS Lambda function.
//!
//! A request becomes an event in the shape that an Application Load
//! Balancer sends to a Lambda target; the reply of the function becomes an
//! HTTP response, either in one piece or streamed. This crate holds the
//! rules of that exchange on plain values and proves them; sockets, the
//! Lambda client and the reading of JSON and YAML documents are left to
//! the program around it.
//!
//! - [`config`]: the configuration and its overrides from the environment.
//! - [`auth`]: the API key check.
//! - [`codec`]: the event for a request.
//! - [`payload`]: the event as JSON.
//! - [`handler`]: what to do with a request, and how failures are answered.
//! - [`buffered`]: the response for a reply that came in one piece.
//! - [`framing`]: where the metadata document of a streamed reply ends.
//! - [`streaming`]: the head of a streamed response.
//! - [`engine`]: the order of head and body of a streamed response.
//! - [`message`], [`string_map`], [`key_set`], [`text`], [`encoding`],
//!   [`error`]: the values all of this works on.

pub mod auth;
pub mod buffered;
pub mod codec;
pub mod config;
pub mod encoding;
pub mod engine;
pub mod error;
pub mod framing;
pub mod handler;
pub mod key_set;
pub mod message;
pub mod payload;
pub mod streaming;
pub mod string_map;
pub mod text;
