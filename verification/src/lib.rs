//! A message relay: text messages arriving from a chat platform are forwarded
//! as prompts to a text-completion service, the returned text is sanitized,
//! and the result is sent back to the originating chat.
//!
//! The crate holds the decision logic of that pipeline: building the
//! completion request body, interpreting the completion response, sanitizing
//! the reply text, and the per-update state machine that the surrounding
//! process drives. All I/O (the update feed, the HTTP call, the reply send)
//! stays outside and hands plain values in and out.

pub mod completion;
pub mod sanitize;
mod strutil;
pub mod update_loop;
