//! What the filters read of a message and of a reaction.
//!
//! Identifiers (users, channels, roles, stickers, custom emoji) are their
//! numeric snowflake values.

use vstd::prelude::*;

verus! {

/// An attachment of a message; only its declared content type is read.
pub struct Attachment {
    pub content_type: Option<String>,
}

/// A sticker sent with a message.
pub struct MessageSticker {
    pub id: u64,
    pub name: String,
}

/// A message as the filters see it.
pub struct MessageInfo {
    pub author_is_bot: bool,
    pub id: u64,
    pub author_id: u64,
    pub channel_id: u64,
    pub author_roles: Vec<u64>,
    pub content: String,
    /// When the message was sent, in microseconds since the Unix epoch.
    pub timestamp: u64,
    pub attachments: Vec<Attachment>,
    pub stickers: Vec<MessageSticker>,
}

/// The emoji of a reaction: a custom emoji of a server, or a Unicode emoji.
#[allow(inconsistent_fields)]
pub enum ReactionType {
    Custom { animated: bool, id: u64, name: Option<String> },
    Unicode { name: String },
}

} // verus!
