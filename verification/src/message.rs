//! Checking the text and the content of messages against filter rules.

use vstd::prelude::*;
use crate::config::{FilterMode, MessageFilter, MessageFilterRule};
use crate::filter::{
    FilterResult, Verdict, verdict_of, offends, listing_message, values_verdict,
    ids_verdict, contains_str, filter_values, filter_ids, listing_error,
};
use crate::globals::{Globals, ZALGO_PATTERN, INVITE_PATTERN, LINK_PATTERN, CUSTOM_EMOJI_PATTERN};
use crate::model::{Attachment, MessageInfo, MessageSticker};
use crate::pattern::{
    Pattern, confusable_skeleton, regex_captures_group, regex_captures_iter_group, regex_find,
    regex_is_match, skeletonize,
};
use crate::text::concat3;

verus! {

pub open spec fn word_message(w: Seq<char>) -> Seq<char> {
    "contains word `"@ + w + "`"@
}

pub open spec fn substring_message(s: Seq<char>) -> Seq<char> {
    "contains substring `"@ + s + "`"@
}

pub open spec fn regex_message(source: Seq<char>) -> Seq<char> {
    "matches regex `"@ + source + "`"@
}

pub open spec fn emoji_name_message(m: Seq<char>) -> Seq<char> {
    "contains emoji with denied name substring "@ + m
}

pub open spec fn sticker_name_message(m: Seq<char>) -> Seq<char> {
    "contains sticker with denied name substring `"@ + m + "`"@
}

/// A word rule reports group 1 of the first match, searched first in the
/// confusable skeleton of the text and then in the text itself.
pub open spec fn words_verdict(pattern: Seq<char>, text: Seq<char>) -> Verdict {
    match regex_captures_group(pattern, confusable_skeleton(text), 1) {
        Some(Some(w)) => Verdict::Reject(word_message(w)),
        Some(None) => Verdict::Stuck,
        None => match regex_captures_group(pattern, text, 1) {
            Some(Some(w)) => Verdict::Reject(word_message(w)),
            Some(None) => Verdict::Stuck,
            None => Verdict::Pass,
        },
    }
}

/// A substring rule reports the first match, searched first in the
/// confusable skeleton of the text and then in the text itself.
pub open spec fn substring_verdict(pattern: Seq<char>, text: Seq<char>) -> Verdict {
    match regex_find(pattern, confusable_skeleton(text)) {
        Some(s) => Verdict::Reject(substring_message(s)),
        None => match regex_find(pattern, text) {
            Some(s) => Verdict::Reject(substring_message(s)),
            None => Verdict::Pass,
        },
    }
}

/// A regex rule reports the first of its patterns that matches the
/// confusable skeleton of the text or the text itself.
pub open spec fn regexes_verdict(patterns: Seq<Seq<char>>, text: Seq<char>) -> Verdict
    decreases patterns.len(),
{
    if patterns.len() == 0 {
        Verdict::Pass
    } else if regex_is_match(patterns[0], confusable_skeleton(text)) || regex_is_match(patterns[0], text) {
        Verdict::Reject(regex_message(patterns[0]))
    } else {
        regexes_verdict(patterns.drop_first(), text)
    }
}

proof fn lemma_regexes_never_stuck(patterns: Seq<Seq<char>>, text: Seq<char>)
    ensures
        !(regexes_verdict(patterns, text) is Stuck),
    decreases patterns.len(),
{
    if patterns.len() > 0 {
        lemma_regexes_never_stuck(patterns.drop_first(), text);
    }
}

pub open spec fn zalgo_verdict(text: Seq<char>) -> Verdict {
    if regex_is_match(ZALGO_PATTERN@, text) {
        Verdict::Reject("contains zalgo"@)
    } else {
        Verdict::Pass
    }
}

/// Checking captured values against a list, in order; a value whose group
/// took no part in its match leaves the verdict undefined.
pub open spec fn scan_values(
    mode: FilterMode,
    context: Seq<char>,
    values: Seq<Option<Seq<char>>>,
    list: Seq<Seq<char>>,
) -> Verdict
    decreases values.len(),
{
    if values.len() == 0 {
        Verdict::Pass
    } else {
        match values[0] {
            None => Verdict::Stuck,
            Some(v) => if offends(mode, list, v) {
                Verdict::Reject(listing_message(mode, context, v))
            } else {
                scan_values(mode, context, values.drop_first(), list)
            },
        }
    }
}

/// An invite rule holds the invite codes found in the text to its list.
pub open spec fn invite_verdict(mode: FilterMode, invites: Seq<Seq<char>>, text: Seq<char>) -> Verdict {
    scan_values(mode, "invite"@, regex_captures_iter_group(INVITE_PATTERN@, text, 1), invites)
}

/// A host counts as listed when it is a listed domain or `www.` followed by one.
pub open spec fn domain_listed(list: Seq<Seq<char>>, host: Seq<char>) -> bool {
    exists|i: int| 0 <= i < list.len() && (list[i] == host || host == "www."@ + list[i])
}

pub open spec fn domain_offends(mode: FilterMode, list: Seq<Seq<char>>, host: Seq<char>) -> bool {
    match mode {
        FilterMode::AllowList => !domain_listed(list, host),
        FilterMode::DenyList => domain_listed(list, host),
    }
}

/// Checking link hosts in order; invite links (host `discord.gg`) are left
/// to the invite rule.
pub open spec fn hosts_verdict(mode: FilterMode, list: Seq<Seq<char>>, hosts: Seq<Option<Seq<char>>>) -> Verdict
    decreases hosts.len(),
{
    if hosts.len() == 0 {
        Verdict::Pass
    } else {
        match hosts[0] {
            None => Verdict::Stuck,
            Some(h) => if h != "discord.gg"@ && domain_offends(mode, list, h) {
                Verdict::Reject(listing_message(mode, "domain"@, h))
            } else {
                hosts_verdict(mode, list, hosts.drop_first())
            },
        }
    }
}

/// A link rule holds the hosts of the links in the text to its list.
pub open spec fn link_verdict(mode: FilterMode, domains: Seq<Seq<char>>, text: Seq<char>) -> Verdict {
    hosts_verdict(mode, domains, regex_captures_iter_group(LINK_PATTERN@, text, 1))
}

/// Checking custom emoji names in order against a pattern.
pub open spec fn emoji_names_verdict(pattern: Seq<char>, names: Seq<Option<Seq<char>>>) -> Verdict
    decreases names.len(),
{
    if names.len() == 0 {
        Verdict::Pass
    } else {
        match names[0] {
            None => Verdict::Stuck,
            Some(n) => match regex_find(pattern, n) {
                Some(m) => Verdict::Reject(emoji_name_message(m)),
                None => emoji_names_verdict(pattern, names.drop_first()),
            },
        }
    }
}

/// An emoji-name rule checks the names of the custom emoji in the text.
pub open spec fn emoji_name_verdict(pattern: Seq<char>, text: Seq<char>) -> Verdict {
    emoji_names_verdict(pattern, regex_captures_iter_group(CUSTOM_EMOJI_PATTERN@, text, 1))
}

pub open spec fn pattern_views(ps: Seq<Pattern>) -> Seq<Seq<char>> {
    ps.map_values(|p: Pattern| p@)
}

impl MessageFilterRule {
    /// What the rule decides about a text. Rules about attachments and
    /// stickers pass every text.
    pub open spec fn text_verdict(&self, text: Seq<char>) -> Verdict {
        match self {
            MessageFilterRule::Words { words } => words_verdict(words@, text),
            MessageFilterRule::Substring { substrings } => substring_verdict(substrings@, text),
            MessageFilterRule::Regex { regexes } => regexes_verdict(pattern_views(regexes@), text),
            MessageFilterRule::Zalgo => zalgo_verdict(text),
            MessageFilterRule::Invite { mode, invites } => invite_verdict(*mode, invites.deep_view(), text),
            MessageFilterRule::Link { mode, domains } => link_verdict(*mode, domains.deep_view(), text),
            MessageFilterRule::EmojiName { names } => emoji_name_verdict(names@, text),
            _ => Verdict::Pass,
        }
    }
}

fn filter_words(words: &Pattern, text: &str) -> (res: FilterResult)
    requires
        !(words_verdict(words@, text@) is Stuck),
    ensures
        verdict_of(res) == words_verdict(words@, text@),
{
    let skeleton = skeletonize(text);
    if let Some(captures) = words.captures_group(skeleton.as_str(), 1) {
        let w = captures.unwrap();
        Err(concat3("contains word `", w.as_str(), "`"))
    } else if let Some(captures) = words.captures_group(text, 1) {
        let w = captures.unwrap();
        Err(concat3("contains word `", w.as_str(), "`"))
    } else {
        Ok(())
    }
}

fn words_defined(words: &Pattern, text: &str) -> (res: bool)
    ensures
        res == !(words_verdict(words@, text@) is Stuck),
{
    let skeleton = skeletonize(text);
    match words.captures_group(skeleton.as_str(), 1) {
        Some(captures) => captures.is_some(),
        None => match words.captures_group(text, 1) {
            Some(captures) => captures.is_some(),
            None => true,
        },
    }
}

fn filter_substrings(substrings: &Pattern, text: &str) -> (res: FilterResult)
    ensures
        verdict_of(res) == substring_verdict(substrings@, text@),
{
    let skeleton = skeletonize(text);
    if let Some(s) = substrings.find(skeleton.as_str()) {
        Err(concat3("contains substring `", s.as_str(), "`"))
    } else if let Some(s) = substrings.find(text) {
        Err(concat3("contains substring `", s.as_str(), "`"))
    } else {
        Ok(())
    }
}

fn filter_regexes(regexes: &Vec<Pattern>, text: &str) -> (res: FilterResult)
    ensures
        verdict_of(res) == regexes_verdict(pattern_views(regexes@), text@),
{
    let skeleton = skeletonize(text);
    let ghost ps = pattern_views(regexes@);
    let mut i: usize = 0;
    assert(ps.skip(0) =~= ps);
    while i < regexes.len()
        invariant
            i <= regexes.len(),
            ps == pattern_views(regexes@),
            skeleton@ == confusable_skeleton(text@),
            regexes_verdict(ps, text@) == regexes_verdict(ps.skip(i as int), text@),
        decreases regexes.len() - i,
    {
        let r = &regexes[i];
        assert(ps.skip(i as int)[0] == r@);
        if r.is_match(skeleton.as_str()) || r.is_match(text) {
            return Err(concat3("matches regex `", r.as_str(), "`"));
        }
        assert(ps.skip(i as int).drop_first() =~= ps.skip(i + 1));
        i = i + 1;
    }
    assert(ps.skip(i as int).len() == 0);
    Ok(())
}

/// The values before the first one whose group took no part in its match.
pub open spec fn present_prefix(values: Seq<Option<Seq<char>>>) -> Seq<Seq<char>>
    decreases values.len(),
{
    if values.len() == 0 {
        seq![]
    } else {
        match values[0] {
            Some(v) => seq![v] + present_prefix(values.drop_first()),
            None => seq![],
        }
    }
}

proof fn lemma_option_step<A>(values: Seq<Option<A>>, i: int)
    requires
        0 <= i < values.len(),
    ensures
        values.skip(i).drop_first() == values.skip(i + 1),
        values.skip(i)[0] == values[i],
{
    assert(values.skip(i).drop_first() =~= values.skip(i + 1));
}

fn leading_present(values: &Vec<Option<String>>) -> (res: Vec<String>)
    ensures
        res.deep_view() == present_prefix(values.deep_view()),
{
    let ghost vs = values.deep_view();
    let mut res: Vec<String> = Vec::new();
    let mut i: usize = 0;
    assert(vs.skip(0) =~= vs);
    assert(res.deep_view() =~= Seq::<Seq<char>>::empty());
    while i < values.len()
        invariant
            i <= values.len(),
            vs == values.deep_view(),
            present_prefix(vs) == res.deep_view() + present_prefix(vs.skip(i as int)),
        decreases values.len() - i,
    {
        proof { lemma_option_step(vs, i as int); }
        assert(vs[i as int] == values@[i as int].deep_view());
        match &values[i] {
            Some(v) => {
                let ghost before = res.deep_view();
                res.push(v.clone());
                assert(res.deep_view() =~= before.push(v@));
                assert(before + present_prefix(vs.skip(i as int)) =~= res.deep_view() + present_prefix(vs.skip(i + 1)));
            },
            None => {
                assert(res.deep_view() + present_prefix(vs.skip(i as int)) =~= res.deep_view());
                return res;
            },
        }
        i = i + 1;
    }
    assert(res.deep_view() + present_prefix(vs.skip(i as int)) =~= res.deep_view());
    res
}

proof fn lemma_scan_is_prefix_check(
    mode: FilterMode,
    context: Seq<char>,
    values: Seq<Option<Seq<char>>>,
    list: Seq<Seq<char>>,
)
    requires
        !(scan_values(mode, context, values, list) is Stuck),
    ensures
        scan_values(mode, context, values, list) == values_verdict(mode, context, present_prefix(values), list),
    decreases values.len(),
{
    if values.len() > 0 {
        if let Some(v) = values[0] {
            let rest = present_prefix(values.drop_first());
            assert((seq![v] + rest).drop_first() =~= rest);
            assert((seq![v] + rest)[0] == v);
            if !offends(mode, list, v) {
                lemma_scan_is_prefix_check(mode, context, values.drop_first(), list);
            }
        }
    }
}

fn filter_invites(globals: &Globals, mode: &FilterMode, invites: &Vec<String>, text: &str) -> (res: FilterResult)
    requires
        !(invite_verdict(*mode, invites.deep_view(), text@) is Stuck),
    ensures
        verdict_of(res) == invite_verdict(*mode, invites.deep_view(), text@),
{
    let codes = globals.invite().captures_iter_group(text, 1);
    let invite_ids = leading_present(&codes);
    proof { lemma_scan_is_prefix_check(*mode, "invite"@, codes.deep_view(), invites.deep_view()); }
    filter_values(mode, "invite", &invite_ids, invites)
}

fn invites_defined(globals: &Globals, mode: &FilterMode, invites: &Vec<String>, text: &str) -> (res: bool)
    ensures
        res == !(invite_verdict(*mode, invites.deep_view(), text@) is Stuck),
{
    let codes = globals.invite().captures_iter_group(text, 1);
    let ghost vs = codes.deep_view();
    let ghost list = invites.deep_view();
    let mut i: usize = 0;
    assert(vs.skip(0) =~= vs);
    while i < codes.len()
        invariant
            i <= codes.len(),
            vs == codes.deep_view(),
            vs == regex_captures_iter_group(INVITE_PATTERN@, text@, 1),
            list == invites.deep_view(),
            scan_values(*mode, "invite"@, vs, list) == scan_values(*mode, "invite"@, vs.skip(i as int), list),
        decreases codes.len() - i,
    {
        proof { lemma_option_step(vs, i as int); }
        assert(vs[i as int] == codes@[i as int].deep_view());
        match &codes[i] {
            None => return false,
            Some(v) => {
                let listed = contains_str(invites, v.as_str());
                let bad = match mode {
                    FilterMode::AllowList => !listed,
                    FilterMode::DenyList => listed,
                };
                if bad {
                    return true;
                }
            },
        }
        i = i + 1;
    }
    assert(vs.skip(i as int).len() == 0);
    true
}


fn domain_listed_exec(list: &Vec<String>, host: &String) -> (res: bool)
    ensures
        res == domain_listed(list.deep_view(), host@),
{
    let ghost dv = list.deep_view();
    let mut k: usize = 0;
    while k < list.len()
        invariant
            k <= list.len(),
            dv == list.deep_view(),
            forall|j: int| 0 <= j < k ==> !(dv[j] == host@ || host@ == "www."@ + dv[j]),
        decreases list.len() - k,
    {
        assert(dv[k as int] == list@[k as int]@);
        let mut www = String::from_str("www.");
        www.append(list[k].as_str());
        if list[k] == *host || *host == www {
            return true;
        }
        k = k + 1;
    }
    proof {
        if domain_listed(dv, host@) {
            let j = choose|j: int| 0 <= j < dv.len() && (dv[j] == host@ || host@ == "www."@ + dv[j]);
            assert(!(dv[j] == host@ || host@ == "www."@ + dv[j]));
        }
    }
    false
}

fn filter_links(globals: &Globals, mode: &FilterMode, domains: &Vec<String>, text: &str) -> (res: FilterResult)
    requires
        !(link_verdict(*mode, domains.deep_view(), text@) is Stuck),
    ensures
        verdict_of(res) == link_verdict(*mode, domains.deep_view(), text@),
{
    let hosts = globals.link().captures_iter_group(text, 1);
    let ghost hs = hosts.deep_view();
    let ghost list = domains.deep_view();
    let invite_host = String::from_str("discord.gg");
    let mut i: usize = 0;
    assert(hs.skip(0) =~= hs);
    while i < hosts.len()
        invariant
            i <= hosts.len(),
            hs == hosts.deep_view(),
            hs == regex_captures_iter_group(LINK_PATTERN@, text@, 1),
            list == domains.deep_view(),
            invite_host@ == "discord.gg"@,
            hosts_verdict(*mode, list, hs) == hosts_verdict(*mode, list, hs.skip(i as int)),
            !(hosts_verdict(*mode, list, hs) is Stuck),
        decreases hosts.len() - i,
    {
        proof { lemma_option_step(hs, i as int); }
        assert(hs[i as int] == hosts@[i as int].deep_view());
        let host = hosts[i].as_ref().unwrap();
        if !(*host == invite_host) {
            let listed = domain_listed_exec(domains, host);
            let bad = match mode {
                FilterMode::AllowList => !listed,
                FilterMode::DenyList => listed,
            };
            if bad {
                return Err(listing_error(mode, "domain", host.as_str()));
            }
        }
        i = i + 1;
    }
    assert(hs.skip(i as int).len() == 0);
    Ok(())
}

fn links_defined(globals: &Globals, mode: &FilterMode, domains: &Vec<String>, text: &str) -> (res: bool)
    ensures
        res == !(link_verdict(*mode, domains.deep_view(), text@) is Stuck),
{
    let hosts = globals.link().captures_iter_group(text, 1);
    let ghost hs = hosts.deep_view();
    let ghost list = domains.deep_view();
    let invite_host = String::from_str("discord.gg");
    let mut i: usize = 0;
    assert(hs.skip(0) =~= hs);
    while i < hosts.len()
        invariant
            i <= hosts.len(),
            hs == hosts.deep_view(),
            hs == regex_captures_iter_group(LINK_PATTERN@, text@, 1),
            list == domains.deep_view(),
            invite_host@ == "discord.gg"@,
            hosts_verdict(*mode, list, hs) == hosts_verdict(*mode, list, hs.skip(i as int)),
        decreases hosts.len() - i,
    {
        proof { lemma_option_step(hs, i as int); }
        assert(hs[i as int] == hosts@[i as int].deep_view());
        match &hosts[i] {
            None => return false,
            Some(host) => {
                if !(*host == invite_host) {
                    let listed = domain_listed_exec(domains, host);
                    let bad = match mode {
                        FilterMode::AllowList => !listed,
                        FilterMode::DenyList => listed,
                    };
                    if bad {
                        return true;
                    }
                }
            },
        }
        i = i + 1;
    }
    assert(hs.skip(i as int).len() == 0);
    true
}

fn filter_emoji_names(globals: &Globals, names: &Pattern, text: &str) -> (res: FilterResult)
    requires
        !(emoji_name_verdict(names@, text@) is Stuck),
    ensures
        verdict_of(res) == emoji_name_verdict(names@, text@),
{
    let found = globals.custom_emoji().captures_iter_group(text, 1);
    let ghost ns = found.deep_view();
    let mut i: usize = 0;
    assert(ns.skip(0) =~= ns);
    while i < found.len()
        invariant
            i <= found.len(),
            ns == found.deep_view(),
            ns == regex_captures_iter_group(CUSTOM_EMOJI_PATTERN@, text@, 1),
            emoji_names_verdict(names@, ns) == emoji_names_verdict(names@, ns.skip(i as int)),
            !(emoji_names_verdict(names@, ns) is Stuck),
        decreases found.len() - i,
    {
        proof { lemma_option_step(ns, i as int); }
        assert(ns[i as int] == found@[i as int].deep_view());
        let name = found[i].as_ref().unwrap();
        if let Some(m) = names.find(name.as_str()) {
            let mut reason = String::from_str("contains emoji with denied name substring ");
            reason.append(m.as_str());
            return Err(reason);
        }
        i = i + 1;
    }
    assert(ns.skip(i as int).len() == 0);
    Ok(())
}

fn emoji_names_defined(globals: &Globals, names: &Pattern, text: &str) -> (res: bool)
    ensures
        res == !(emoji_name_verdict(names@, text@) is Stuck),
{
    let found = globals.custom_emoji().captures_iter_group(text, 1);
    let ghost ns = found.deep_view();
    let mut i: usize = 0;
    assert(ns.skip(0) =~= ns);
    while i < found.len()
        invariant
            i <= found.len(),
            ns == found.deep_view(),
            ns == regex_captures_iter_group(CUSTOM_EMOJI_PATTERN@, text@, 1),
            emoji_names_verdict(names@, ns) == emoji_names_verdict(names@, ns.skip(i as int)),
        decreases found.len() - i,
    {
        proof { lemma_option_step(ns, i as int); }
        assert(ns[i as int] == found@[i as int].deep_view());
        match &found[i] {
            None => return false,
            Some(name) => {
                if names.find(name.as_str()).is_some() {
                    return true;
                }
            },
        }
        i = i + 1;
    }
    assert(ns.skip(i as int).len() == 0);
    true
}

impl MessageFilterRule {
    /// Checks a text against the rule. Word, substring and regex rules also
    /// search the confusable skeleton of the text, so that look-alike
    /// characters do not slip past them.
    pub fn filter_text(&self, globals: &Globals, text: &str) -> (res: FilterResult)
        requires
            !(self.text_verdict(text@) is Stuck),
        ensures
            verdict_of(res) == self.text_verdict(text@),
    {
        match self {
            MessageFilterRule::Words { words } => filter_words(words, text),
            MessageFilterRule::Substring { substrings } => filter_substrings(substrings, text),
            MessageFilterRule::Regex { regexes } => filter_regexes(regexes, text),
            MessageFilterRule::Zalgo => {
                if globals.zalgo().is_match(text) {
                    Err(String::from_str("contains zalgo"))
                } else {
                    Ok(())
                }
            },
            MessageFilterRule::Invite { mode, invites } => filter_invites(globals, mode, invites, text),
            MessageFilterRule::Link { mode, domains } => filter_links(globals, mode, domains, text),
            MessageFilterRule::EmojiName { names } => filter_emoji_names(globals, names, text),
            _ => Ok(()),
        }
    }

    /// Whether the rule's verdict on `text` is defined, that is, whether
    /// every capture group that the rule reports took part in its match.
    pub fn can_filter_text(&self, globals: &Globals, text: &str) -> (res: bool)
        ensures
            res == !(self.text_verdict(text@) is Stuck),
    {
        match self {
            MessageFilterRule::Words { words } => words_defined(words, text),
            MessageFilterRule::Invite { mode, invites } => invites_defined(globals, mode, invites, text),
            MessageFilterRule::Link { mode, domains } => links_defined(globals, mode, domains, text),
            MessageFilterRule::EmojiName { names } => emoji_names_defined(globals, names, text),
            MessageFilterRule::Regex { regexes } => {
                proof { lemma_regexes_never_stuck(pattern_views(regexes@), text@); }
                true
            },
            _ => true,
        }
    }
}


/// The content types declared by the attachments, in order, skipping
/// attachments that declare none.
pub open spec fn declared_types(attachments: Seq<Attachment>) -> Seq<Seq<char>>
    decreases attachments.len(),
{
    if attachments.len() == 0 {
        seq![]
    } else {
        match attachments[0].content_type {
            Some(t) => seq![t@] + declared_types(attachments.drop_first()),
            None => declared_types(attachments.drop_first()),
        }
    }
}

/// Whether some attachment declares no content type.
pub open spec fn has_unknown_type(attachments: Seq<Attachment>) -> bool {
    exists|i: int| 0 <= i < attachments.len() && attachments[i].content_type is None
}

pub open spec fn sticker_ids(stickers: Seq<MessageSticker>) -> Seq<u64> {
    stickers.map_values(|s: MessageSticker| s.id)
}

/// Checking sticker names in order: the first match in a name is reported.
pub open spec fn sticker_names_verdict(pattern: Seq<char>, stickers: Seq<MessageSticker>) -> Verdict
    decreases stickers.len(),
{
    if stickers.len() == 0 {
        Verdict::Pass
    } else {
        match regex_find(pattern, stickers[0].name@) {
            Some(m) => Verdict::Reject(sticker_name_message(m)),
            None => sticker_names_verdict(pattern, stickers.drop_first()),
        }
    }
}

impl MessageFilterRule {
    /// What the rule decides about a message: attachment and sticker rules
    /// look at those, every other rule at the message's text.
    pub open spec fn message_verdict(&self, message: MessageInfo) -> Verdict {
        match self {
            MessageFilterRule::MimeType { mode, types, allow_unknown } =>
                if has_unknown_type(message.attachments@) && !*allow_unknown {
                    Verdict::Reject("unknown content type for attachment"@)
                } else {
                    values_verdict(*mode, "content type"@, declared_types(message.attachments@), types.deep_view())
                },
            MessageFilterRule::StickerId { mode, stickers } =>
                ids_verdict(*mode, "sticker"@, sticker_ids(message.stickers@), stickers@),
            MessageFilterRule::StickerName { stickers } =>
                sticker_names_verdict(stickers@, message.stickers@),
            _ => self.text_verdict(message.content@),
        }
    }
}

fn collect_declared_types(attachments: &Vec<Attachment>) -> (res: (bool, Vec<String>))
    ensures
        res.0 == has_unknown_type(attachments@),
        res.1.deep_view() == declared_types(attachments@),
{
    let ghost atts = attachments@;
    let mut unknown = false;
    let mut types: Vec<String> = Vec::new();
    let mut i: usize = 0;
    assert(atts.skip(0) =~= atts);
    assert(types.deep_view() =~= Seq::<Seq<char>>::empty());
    while i < attachments.len()
        invariant
            i <= attachments.len(),
            atts == attachments@,
            declared_types(atts) == types.deep_view() + declared_types(atts.skip(i as int)),
            unknown == exists|j: int| 0 <= j < i && atts[j].content_type is None,
        decreases attachments.len() - i,
    {
        assert(atts.skip(i as int).drop_first() =~= atts.skip(i + 1));
        assert(atts.skip(i as int)[0] == atts[i as int]);
        let ghost before = types.deep_view();
        match &attachments[i].content_type {
            Some(t) => {
                types.push(t.clone());
                assert(types.deep_view() =~= before.push(t@));
                assert(before + declared_types(atts.skip(i as int)) =~= types.deep_view() + declared_types(atts.skip(i + 1)));
            },
            None => {
                unknown = true;
            },
        }
        i = i + 1;
    }
    assert(types.deep_view() + declared_types(atts.skip(i as int)) =~= types.deep_view());
    (unknown, types)
}

fn collect_sticker_ids(stickers: &Vec<MessageSticker>) -> (res: Vec<u64>)
    ensures
        res@ == sticker_ids(stickers@),
{
    let mut ids: Vec<u64> = Vec::new();
    let mut i: usize = 0;
    while i < stickers.len()
        invariant
            i <= stickers.len(),
            ids@ == sticker_ids(stickers@).take(i as int),
        decreases stickers.len() - i,
    {
        ids.push(stickers[i].id);
        assert(sticker_ids(stickers@).take(i + 1) =~= sticker_ids(stickers@).take(i as int).push(stickers@[i as int].id));
        i = i + 1;
    }
    assert(sticker_ids(stickers@).take(i as int) =~= sticker_ids(stickers@));
    ids
}

fn filter_sticker_names(pattern: &Pattern, stickers: &Vec<MessageSticker>) -> (res: FilterResult)
    ensures
        verdict_of(res) == sticker_names_verdict(pattern@, stickers@),
{
    let ghost ss = stickers@;
    let mut i: usize = 0;
    assert(ss.skip(0) =~= ss);
    while i < stickers.len()
        invariant
            i <= stickers.len(),
            ss == stickers@,
            sticker_names_verdict(pattern@, ss) == sticker_names_verdict(pattern@, ss.skip(i as int)),
        decreases stickers.len() - i,
    {
        assert(ss.skip(i as int).drop_first() =~= ss.skip(i + 1));
        assert(ss.skip(i as int)[0] == ss[i as int]);
        if let Some(m) = pattern.find(stickers[i].name.as_str()) {
            return Err(concat3("contains sticker with denied name substring `", m.as_str(), "`"));
        }
        i = i + 1;
    }
    assert(ss.skip(i as int).len() == 0);
    Ok(())
}

impl MessageFilterRule {
    /// Checks a message against the rule.
    pub fn filter_message(&self, globals: &Globals, message: &MessageInfo) -> (res: FilterResult)
        requires
            !(self.message_verdict(*message) is Stuck),
        ensures
            verdict_of(res) == self.message_verdict(*message),
    {
        match self {
            MessageFilterRule::MimeType { mode, types, allow_unknown } => {
                let (unknown, attachment_types) = collect_declared_types(&message.attachments);
                if unknown && !*allow_unknown {
                    return Err(String::from_str("unknown content type for attachment"));
                }
                filter_values(mode, "content type", &attachment_types, types)
            },
            MessageFilterRule::StickerId { mode, stickers } => {
                let ids = collect_sticker_ids(&message.stickers);
                filter_ids(mode, "sticker", &ids, stickers)
            },
            MessageFilterRule::StickerName { stickers } => filter_sticker_names(stickers, &message.stickers),
            _ => self.filter_text(globals, message.content.as_str()),
        }
    }

    /// Whether the rule's verdict on `message` is defined.
    pub fn can_filter_message(&self, globals: &Globals, message: &MessageInfo) -> (res: bool)
        ensures
            res == !(self.message_verdict(*message) is Stuck),
    {
        match self {
            MessageFilterRule::MimeType { .. } => true,
            MessageFilterRule::StickerId { .. } => true,
            MessageFilterRule::StickerName { stickers } => {
                proof { lemma_sticker_names_never_stuck(stickers@, message.stickers@); }
                true
            },
            _ => self.can_filter_text(globals, message.content.as_str()),
        }
    }
}

proof fn lemma_sticker_names_never_stuck(pattern: Seq<char>, stickers: Seq<MessageSticker>)
    ensures
        !(sticker_names_verdict(pattern, stickers) is Stuck),
    decreases stickers.len(),
{
    if stickers.len() > 0 {
        lemma_sticker_names_never_stuck(pattern, stickers.drop_first());
    }
}


/// Rules are checked in order; the first rule that does not pass decides.
pub open spec fn rules_text_verdict(rules: Seq<MessageFilterRule>, text: Seq<char>) -> Verdict
    decreases rules.len(),
{
    if rules.len() == 0 {
        Verdict::Pass
    } else {
        match rules[0].text_verdict(text) {
            Verdict::Pass => rules_text_verdict(rules.drop_first(), text),
            v => v,
        }
    }
}

/// Rules are checked in order; the first rule that does not pass decides.
pub open spec fn rules_message_verdict(rules: Seq<MessageFilterRule>, message: MessageInfo) -> Verdict
    decreases rules.len(),
{
    if rules.len() == 0 {
        Verdict::Pass
    } else {
        match rules[0].message_verdict(message) {
            Verdict::Pass => rules_message_verdict(rules.drop_first(), message),
            v => v,
        }
    }
}

proof fn lemma_rule_step(rules: Seq<MessageFilterRule>, i: int)
    requires
        0 <= i < rules.len(),
    ensures
        rules.skip(i).drop_first() == rules.skip(i + 1),
        rules.skip(i)[0] == rules[i],
{
    assert(rules.skip(i).drop_first() =~= rules.skip(i + 1));
}

impl MessageFilter {
    pub open spec fn text_verdict(&self, text: Seq<char>) -> Verdict {
        rules_text_verdict(self.rules@, text)
    }

    pub open spec fn message_verdict(&self, message: MessageInfo) -> Verdict {
        rules_message_verdict(self.rules@, message)
    }

    /// Checks a text against every rule in order and reports the first
    /// failure.
    pub fn filter_text(&self, globals: &Globals, text: &str) -> (res: FilterResult)
        requires
            !(self.text_verdict(text@) is Stuck),
        ensures
            verdict_of(res) == self.text_verdict(text@),
    {
        let ghost rs = self.rules@;
        let mut i: usize = 0;
        assert(rs.skip(0) =~= rs);
        while i < self.rules.len()
            invariant
                i <= self.rules.len(),
                rs == self.rules@,
                rules_text_verdict(rs, text@) == rules_text_verdict(rs.skip(i as int), text@),
                !(rules_text_verdict(rs, text@) is Stuck),
            decreases self.rules.len() - i,
        {
            proof { lemma_rule_step(rs, i as int); }
            let r = self.rules[i].filter_text(globals, text);
            if r.is_err() {
                return r;
            }
            i = i + 1;
        }
        assert(rs.skip(i as int).len() == 0);
        Ok(())
    }

    /// Whether `filter_text` is defined on `text`: no rule reached before
    /// the deciding one has an undefined verdict.
    pub fn can_filter_text(&self, globals: &Globals, text: &str) -> (res: bool)
        ensures
            res == !(self.text_verdict(text@) is Stuck),
    {
        let ghost rs = self.rules@;
        let mut i: usize = 0;
        assert(rs.skip(0) =~= rs);
        while i < self.rules.len()
            invariant
                i <= self.rules.len(),
                rs == self.rules@,
                rules_text_verdict(rs, text@) == rules_text_verdict(rs.skip(i as int), text@),
            decreases self.rules.len() - i,
        {
            proof { lemma_rule_step(rs, i as int); }
            if !self.rules[i].can_filter_text(globals, text) {
                return false;
            }
            if self.rules[i].filter_text(globals, text).is_err() {
                return true;
            }
            i = i + 1;
        }
        assert(rs.skip(i as int).len() == 0);
        true
    }

    /// `filter_text` where it is defined, `None` where it is not.
    pub fn try_filter_text(&self, globals: &Globals, text: &str) -> (res: Option<FilterResult>)
        ensures
            res is None <==> self.text_verdict(text@) is Stuck,
            res matches Some(r) ==> verdict_of(r) == self.text_verdict(text@),
    {
        if self.can_filter_text(globals, text) {
            Some(self.filter_text(globals, text))
        } else {
            None
        }
    }

    /// Checks a message against every rule in order and reports the first
    /// failure.
    pub fn filter_message(&self, globals: &Globals, message: &MessageInfo) -> (res: FilterResult)
        requires
            !(self.message_verdict(*message) is Stuck),
        ensures
            verdict_of(res) == self.message_verdict(*message),
    {
        let ghost rs = self.rules@;
        let mut i: usize = 0;
        assert(rs.skip(0) =~= rs);
        while i < self.rules.len()
            invariant
                i <= self.rules.len(),
                rs == self.rules@,
                rules_message_verdict(rs, *message) == rules_message_verdict(rs.skip(i as int), *message),
                !(rules_message_verdict(rs, *message) is Stuck),
            decreases self.rules.len() - i,
        {
            proof { lemma_rule_step(rs, i as int); }
            let r = self.rules[i].filter_message(globals, message);
            if r.is_err() {
                return r;
            }
            i = i + 1;
        }
        assert(rs.skip(i as int).len() == 0);
        Ok(())
    }

    /// Whether `filter_message` is defined on `message`.
    pub fn can_filter_message(&self, globals: &Globals, message: &MessageInfo) -> (res: bool)
        ensures
            res == !(self.message_verdict(*message) is Stuck),
    {
        let ghost rs = self.rules@;
        let mut i: usize = 0;
        assert(rs.skip(0) =~= rs);
        while i < self.rules.len()
            invariant
                i <= self.rules.len(),
                rs == self.rules@,
                rules_message_verdict(rs, *message) == rules_message_verdict(rs.skip(i as int), *message),
            decreases self.rules.len() - i,
        {
            proof { lemma_rule_step(rs, i as int); }
            if !self.rules[i].can_filter_message(globals, message) {
                return false;
            }
            if self.rules[i].filter_message(globals, message).is_err() {
                return true;
            }
            i = i + 1;
        }
        assert(rs.skip(i as int).len() == 0);
        true
    }

    /// `filter_message` where it is defined, `None` where it is not.
    pub fn try_filter_message(&self, globals: &Globals, message: &MessageInfo) -> (res: Option<FilterResult>)
        ensures
            res is None <==> self.message_verdict(*message) is Stuck,
            res matches Some(r) ==> verdict_of(r) == self.message_verdict(*message),
    {
        if self.can_filter_message(globals, message) {
            Some(self.filter_message(globals, message))
        } else {
            None
        }
    }
}

} // verus!
