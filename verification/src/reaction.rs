//! Checking reactions against filter rules.

use vstd::prelude::*;
use crate::config::{FilterMode, ReactionFilter, ReactionFilterRule};
use crate::filter::{FilterResult, Verdict, verdict_of, contains_str, contains_id};
use crate::model::ReactionType;
use crate::pattern::regex_is_match;
use crate::text::{decimal, u64_to_decimal};

verus! {

/// The reason given for an emoji that breaks a list; `shown` is the emoji
/// as reported (its text, or its identifier in decimal).
pub open spec fn emoji_message(mode: FilterMode, shown: Seq<char>) -> Seq<char> {
    match mode {
        FilterMode::AllowList => "reacted with unallowed emoji "@ + shown,
        FilterMode::DenyList => "reacted with denied emoji "@ + shown,
    }
}

impl ReactionFilterRule {
    /// What the rule decides about a reaction. Each rule looks only at the
    /// kind of emoji it is about and passes the other kind.
    pub open spec fn reaction_verdict(&self, reaction: ReactionType) -> Verdict {
        match self {
            ReactionFilterRule::Default { emoji, mode } => match reaction {
                ReactionType::Unicode { name } =>
                    if (*mode == FilterMode::AllowList) != emoji.deep_view().contains(name@) {
                        Verdict::Reject(emoji_message(*mode, name@))
                    } else {
                        Verdict::Pass
                    },
                _ => Verdict::Pass,
            },
            ReactionFilterRule::CustomId { emoji, mode } => match reaction {
                ReactionType::Custom { id, .. } =>
                    if (*mode == FilterMode::AllowList) != emoji@.contains(id) {
                        Verdict::Reject(emoji_message(*mode, decimal(id as nat)))
                    } else {
                        Verdict::Pass
                    },
                _ => Verdict::Pass,
            },
            ReactionFilterRule::CustomName { names } => match reaction {
                ReactionType::Custom { name: Some(name), .. } =>
                    if regex_is_match(names@, name@) {
                        Verdict::Reject("reacted with denied emoji name "@ + name@)
                    } else {
                        Verdict::Pass
                    },
                _ => Verdict::Pass,
            },
        }
    }
}

fn emoji_error(mode: &FilterMode, shown: &str) -> (s: String)
    ensures
        s@ == emoji_message(*mode, shown@),
{
    let mut s = match mode {
        FilterMode::AllowList => String::from_str("reacted with unallowed emoji "),
        FilterMode::DenyList => String::from_str("reacted with denied emoji "),
    };
    s.append(shown);
    s
}

impl ReactionFilterRule {
    /// Checks a reaction against the rule: Unicode emoji against a list of
    /// emoji, custom emoji against a list of identifiers or a name pattern.
    pub fn filter_reaction(&self, reaction: &ReactionType) -> (res: FilterResult)
        ensures
            verdict_of(res) == self.reaction_verdict(*reaction),
    {
        match self {
            ReactionFilterRule::Default { emoji, mode } => {
                if let ReactionType::Unicode { name } = reaction {
                    let listed = contains_str(emoji, name.as_str());
                    match mode {
                        FilterMode::AllowList => {
                            if !listed { Err(emoji_error(mode, name.as_str())) } else { Ok(()) }
                        },
                        FilterMode::DenyList => {
                            if listed { Err(emoji_error(mode, name.as_str())) } else { Ok(()) }
                        },
                    }
                } else {
                    Ok(())
                }
            },
            ReactionFilterRule::CustomId { emoji, mode } => {
                if let ReactionType::Custom { id, .. } = reaction {
                    let listed = contains_id(emoji, *id);
                    let shown = u64_to_decimal(*id);
                    match mode {
                        FilterMode::AllowList => {
                            if !listed { Err(emoji_error(mode, shown.as_str())) } else { Ok(()) }
                        },
                        FilterMode::DenyList => {
                            if listed { Err(emoji_error(mode, shown.as_str())) } else { Ok(()) }
                        },
                    }
                } else {
                    Ok(())
                }
            },
            ReactionFilterRule::CustomName { names } => {
                if let ReactionType::Custom { name: Some(name), .. } = reaction {
                    if names.is_match(name.as_str()) {
                        let mut s = String::from_str("reacted with denied emoji name ");
                        s.append(name.as_str());
                        Err(s)
                    } else {
                        Ok(())
                    }
                } else {
                    Ok(())
                }
            },
        }
    }
}

/// Rules are checked in order; the first rule that does not pass decides.
pub open spec fn rules_reaction_verdict(rules: Seq<ReactionFilterRule>, reaction: ReactionType) -> Verdict
    decreases rules.len(),
{
    if rules.len() == 0 {
        Verdict::Pass
    } else {
        match rules[0].reaction_verdict(reaction) {
            Verdict::Pass => rules_reaction_verdict(rules.drop_first(), reaction),
            v => v,
        }
    }
}

impl ReactionFilter {
    pub open spec fn reaction_verdict(&self, reaction: ReactionType) -> Verdict {
        rules_reaction_verdict(self.rules@, reaction)
    }

    /// Checks a reaction against every rule in order and reports the first
    /// failure.
    pub fn filter_reaction(&self, reaction: &ReactionType) -> (res: FilterResult)
        ensures
            verdict_of(res) == self.reaction_verdict(*reaction),
    {
        let ghost rs = self.rules@;
        let mut i: usize = 0;
        assert(rs.skip(0) =~= rs);
        while i < self.rules.len()
            invariant
                i <= self.rules.len(),
                rs == self.rules@,
                rules_reaction_verdict(rs, *reaction) == rules_reaction_verdict(rs.skip(i as int), *reaction),
            decreases self.rules.len() - i,
        {
            assert(rs.skip(i as int).drop_first() =~= rs.skip(i + 1));
            assert(rs.skip(i as int)[0] == rs[i as int]);
            let r = self.rules[i].filter_reaction(reaction);
            if r.is_err() {
                return r;
            }
            i = i + 1;
        }
        assert(rs.skip(i as int).len() == 0);
        Ok(())
    }
}

} // verus!
