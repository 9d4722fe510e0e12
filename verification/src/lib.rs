//! Moderation filters for chat messages and reactions.
//!
//! A message is checked against configured rules (word lists, substrings,
//! regular expressions, zalgo text, attachment types, invites, links,
//! stickers and custom emoji) and against a per-user spam history. Every
//! rule's verdict is given by a specification function, and the executable
//! code is proved to compute exactly that verdict.

pub mod pattern;
pub mod text;
pub mod model;
pub mod config;
pub mod filter;
pub mod globals;
pub mod message;
pub mod reaction;
pub mod spam;
pub mod laws;
