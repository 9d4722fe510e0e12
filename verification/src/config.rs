//! Filter configuration: the rules that messages and reactions are held to.

use vstd::prelude::*;
use crate::pattern::Pattern;

verus! {

/// Whether a list names the only values allowed or the values denied.
#[derive(Clone, Copy, Debug, PartialEq, Eq, Structural)]
pub enum FilterMode {
    AllowList,
    DenyList,
}

/// Where a filter applies: channels it is limited to, channels it skips,
/// and roles whose holders it skips. `None` places no limit.
pub struct Scoping {
    pub include_channels: Option<Vec<u64>>,
    pub exclude_channels: Option<Vec<u64>>,
    pub exclude_roles: Option<Vec<u64>>,
}

/// One rule that a message is checked against.
#[allow(inconsistent_fields)]
pub enum MessageFilterRule {
    /// Reports group 1 of the first match; the pattern usually has the form
    /// `\b(word|word)\b`.
    Words { words: Pattern },
    /// Reports the whole first match.
    Substring { substrings: Pattern },
    /// Reports the first pattern that matches.
    Regex { regexes: Vec<Pattern> },
    /// Rejects text with combining marks used for "zalgo" text.
    Zalgo,
    /// Holds attachment content types to a list.
    MimeType { mode: FilterMode, types: Vec<String>, allow_unknown: bool },
    /// Holds the codes of server invites to a list.
    Invite { mode: FilterMode, invites: Vec<String> },
    /// Holds the domains of links to a list.
    Link { mode: FilterMode, domains: Vec<String> },
    /// Holds sticker identifiers to a list.
    StickerId { mode: FilterMode, stickers: Vec<u64> },
    /// Rejects stickers whose name the pattern matches.
    StickerName { stickers: Pattern },
    /// Rejects custom emoji in the text whose name the pattern matches.
    EmojiName { names: Pattern },
}

/// The rules that every message is held to, checked in order.
pub struct MessageFilter {
    pub rules: Vec<MessageFilterRule>,
}

/// One rule that a reaction is checked against.
#[allow(inconsistent_fields)]
pub enum ReactionFilterRule {
    /// Holds Unicode emoji to a list.
    Default { emoji: Vec<String>, mode: FilterMode },
    /// Holds custom emoji identifiers to a list.
    CustomId { emoji: Vec<u64>, mode: FilterMode },
    /// Rejects custom emoji whose name the pattern matches.
    CustomName { names: Pattern },
}

/// The rules that every reaction is held to, checked in order.
pub struct ReactionFilter {
    pub rules: Vec<ReactionFilterRule>,
}

/// Limits on what one user may send within `interval` seconds. Each limit
/// is exceeded when the total over the window is greater than it; `None`
/// places no limit.
pub struct SpamFilter {
    pub emoji: Option<u8>,
    pub duplicates: Option<u8>,
    pub links: Option<u8>,
    pub attachments: Option<u8>,
    pub spoilers: Option<u8>,
    pub mentions: Option<u8>,
    pub interval: u32,
    pub scoping: Option<Scoping>,
}

} // verus!
