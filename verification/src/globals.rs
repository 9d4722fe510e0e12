//! The built-in patterns that the filters search messages with.

use vstd::prelude::*;
use crate::pattern::{Pattern, regex_compiles};

verus! {

/// Combining marks typical of "zalgo" text.
pub const ZALGO_PATTERN: &'static str = "\\u0303|\\u035F|\\u034F|\\u0327|\\u031F|\\u0353|\\u032F|\\u0318|\\u0353|\\u0359|\\u0354";
/// A server invite; group 1 is the invite code.
pub const INVITE_PATTERN: &'static str = "discord.gg/(\\w+)";
/// A link; group 1 is the host.
pub const LINK_PATTERN: &'static str = "https?://([^/\\s]+)";
/// A spoiler section.
pub const SPOILER_PATTERN: &'static str = "\\|\\|[^\\|]*\\|\\|";
/// A Unicode emoji.
pub const EMOJI_PATTERN: &'static str = "\\p{Emoji_Presentation}|\\p{Emoji}\\uFE0F|\\p{Emoji_Modifier_Base}";
/// A custom emoji; group 1 is its name and group 2 its identifier.
pub const CUSTOM_EMOJI_PATTERN: &'static str = "<a?:([^:]+):(\\d+)>";
/// A mention of a user or a role.
pub const MENTION_PATTERN: &'static str = "<@[!&]?\\d+>";

/// The built-in patterns, compiled once and handed to the filters.
pub struct Globals {
    zalgo: Pattern,
    invite: Pattern,
    link: Pattern,
    spoiler: Pattern,
    emoji: Pattern,
    custom_emoji: Pattern,
    mention: Pattern,
}

/// Whether every built-in pattern compiles.
pub open spec fn builtin_patterns_compile() -> bool {
    &&& regex_compiles(ZALGO_PATTERN@)
    &&& regex_compiles(INVITE_PATTERN@)
    &&& regex_compiles(LINK_PATTERN@)
    &&& regex_compiles(SPOILER_PATTERN@)
    &&& regex_compiles(EMOJI_PATTERN@)
    &&& regex_compiles(CUSTOM_EMOJI_PATTERN@)
    &&& regex_compiles(MENTION_PATTERN@)
}

impl Globals {
    /// Each field holds the built-in pattern of its name.
    #[verifier::type_invariant]
    spec fn holds_builtin_patterns(self) -> bool {
        &&& self.zalgo@ == ZALGO_PATTERN@
        &&& self.invite@ == INVITE_PATTERN@
        &&& self.link@ == LINK_PATTERN@
        &&& self.spoiler@ == SPOILER_PATTERN@
        &&& self.emoji@ == EMOJI_PATTERN@
        &&& self.custom_emoji@ == CUSTOM_EMOJI_PATTERN@
        &&& self.mention@ == MENTION_PATTERN@
    }

    pub fn zalgo(&self) -> (p: &Pattern)
        ensures
            p@ == ZALGO_PATTERN@,
    {
        proof { use_type_invariant(self); }
        &self.zalgo
    }

    pub fn invite(&self) -> (p: &Pattern)
        ensures
            p@ == INVITE_PATTERN@,
    {
        proof { use_type_invariant(self); }
        &self.invite
    }

    pub fn link(&self) -> (p: &Pattern)
        ensures
            p@ == LINK_PATTERN@,
    {
        proof { use_type_invariant(self); }
        &self.link
    }

    pub fn spoiler(&self) -> (p: &Pattern)
        ensures
            p@ == SPOILER_PATTERN@,
    {
        proof { use_type_invariant(self); }
        &self.spoiler
    }

    pub fn emoji(&self) -> (p: &Pattern)
        ensures
            p@ == EMOJI_PATTERN@,
    {
        proof { use_type_invariant(self); }
        &self.emoji
    }

    pub fn custom_emoji(&self) -> (p: &Pattern)
        ensures
            p@ == CUSTOM_EMOJI_PATTERN@,
    {
        proof { use_type_invariant(self); }
        &self.custom_emoji
    }

    pub fn mention(&self) -> (p: &Pattern)
        ensures
            p@ == MENTION_PATTERN@,
    {
        proof { use_type_invariant(self); }
        &self.mention
    }
}

/// Compiles the built-in patterns. The result is `None` exactly when one of
/// them does not compile.
pub fn init_globals() -> (res: Option<Globals>)
    ensures
        res is Some <==> builtin_patterns_compile(),
{
    let zalgo = match Pattern::new(ZALGO_PATTERN) { Ok(p) => p, Err(_) => return None };
    let invite = match Pattern::new(INVITE_PATTERN) { Ok(p) => p, Err(_) => return None };
    let link = match Pattern::new(LINK_PATTERN) { Ok(p) => p, Err(_) => return None };
    let spoiler = match Pattern::new(SPOILER_PATTERN) { Ok(p) => p, Err(_) => return None };
    let emoji = match Pattern::new(EMOJI_PATTERN) { Ok(p) => p, Err(_) => return None };
    let custom_emoji = match Pattern::new(CUSTOM_EMOJI_PATTERN) { Ok(p) => p, Err(_) => return None };
    let mention = match Pattern::new(MENTION_PATTERN) { Ok(p) => p, Err(_) => return None };
    Some(Globals { zalgo, invite, link, spoiler, emoji, custom_emoji, mention })
}

} // verus!
