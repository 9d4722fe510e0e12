//! Properties that hold of the filters as a whole.

use vstd::prelude::*;
use crate::config::{FilterMode, MessageFilterRule, ReactionFilterRule, SpamFilter};
use crate::filter::{Verdict, offends, first_offending, values_verdict, ids_verdict, listing_message};
use crate::config::Scoping;
use crate::text::{decimal, digit_char};
use crate::message::{
    hosts_verdict, declared_types, scan_values, emoji_names_verdict, sticker_names_verdict,
    regex_message, sticker_name_message, word_message, substring_message, has_unknown_type, sticker_ids,
    rules_text_verdict, rules_message_verdict, words_verdict, substring_verdict, regexes_verdict,
    domain_listed,
};
use crate::model::{MessageInfo, MessageSticker, ReactionType};
use crate::reaction::rules_reaction_verdict;
use crate::pattern::{opt_view, confusable_skeleton, regex_captures_group, regex_find, regex_is_match};
use crate::spam::{
    Tally, tally, tally_sum, same_content_count, saturate,
    SpamRecord, threshold_verdict, window_duplicates, prune, age,
};

verus! {

/// A list check passes exactly when no value breaks the list: in allow mode
/// every value is listed, in deny mode no value is.
pub proof fn law_list_passes_iff_no_value_offends(
    mode: FilterMode,
    context: Seq<char>,
    values: Seq<Seq<char>>,
    list: Seq<Seq<char>>,
)
    ensures
        values_verdict(mode, context, values, list) is Pass
            <==> forall|i: int| 0 <= i < values.len() ==> !offends(mode, list, #[trigger] values[i]),
    decreases values.len(),
{
    if values.len() > 0 {
        law_list_passes_iff_no_value_offends(mode, context, values.drop_first(), list);
        if !offends(mode, list, values[0]) {
            assert forall|i: int| 0 <= i < values.len() && i != 0 && !offends(mode, list, values.drop_first()[i - 1])
                implies !offends(mode, list, values[i]) by {
                assert(values.drop_first()[i - 1] == values[i]);
            }
            assert forall|i: int| 0 <= i < values.drop_first().len() && (forall|j: int| 0 <= j < values.len() ==> !offends(mode, list, #[trigger] values[j]))
                implies !offends(mode, list, values.drop_first()[i]) by {
                assert(values.drop_first()[i] == values[i + 1]);
            }
        }
    }
}

/// For a single value, deny mode rejects it exactly when allow mode over
/// the same list accepts it.
pub proof fn law_allow_and_deny_are_dual(context: Seq<char>, v: Seq<char>, list: Seq<Seq<char>>)
    ensures
        values_verdict(FilterMode::AllowList, context, seq![v], list) is Pass
            <==> values_verdict(FilterMode::DenyList, context, seq![v], list) is Reject,
{
    assert(seq![v].drop_first() =~= Seq::<Seq<char>>::empty());
    assert(first_offending(FilterMode::AllowList, list, seq![v].drop_first()) is None);
    assert(first_offending(FilterMode::DenyList, list, seq![v].drop_first()) is None);
    assert(seq![v][0] == v);
}

/// No non-empty list of values passes both the allow check and the deny
/// check against the same list.
pub proof fn law_allow_and_deny_never_both_pass(
    context: Seq<char>,
    values: Seq<Seq<char>>,
    list: Seq<Seq<char>>,
)
    requires
        values.len() > 0,
    ensures
        !(values_verdict(FilterMode::AllowList, context, values, list) is Pass
            && values_verdict(FilterMode::DenyList, context, values, list) is Pass),
{
    law_list_passes_iff_no_value_offends(FilterMode::AllowList, context, values, list);
    law_list_passes_iff_no_value_offends(FilterMode::DenyList, context, values, list);
    assert(!offends(FilterMode::AllowList, list, values[0]) ==> offends(FilterMode::DenyList, list, values[0]));
}

/// A message filter lets a text through exactly when every one of its
/// rules does.
pub proof fn law_text_passes_iff_every_rule_passes(rules: Seq<MessageFilterRule>, text: Seq<char>)
    ensures
        rules_text_verdict(rules, text) is Pass
            <==> forall|i: int| 0 <= i < rules.len() ==> (#[trigger] rules[i]).text_verdict(text) is Pass,
    decreases rules.len(),
{
    if rules.len() > 0 {
        law_text_passes_iff_every_rule_passes(rules.drop_first(), text);
        assert forall|i: int| 1 <= i < rules.len() implies rules.drop_first()[i - 1] == rules[i] by {}
        if rules[0].text_verdict(text) is Pass {
            assert forall|i: int| 0 <= i < rules.drop_first().len() && (forall|j: int| 0 <= j < rules.len() ==> (#[trigger] rules[j]).text_verdict(text) is Pass)
                implies rules.drop_first()[i].text_verdict(text) is Pass by {
                assert(rules.drop_first()[i] == rules[i + 1]);
            }
        }
    }
}

/// A message filter lets a message through exactly when every one of its
/// rules does.
pub proof fn law_message_passes_iff_every_rule_passes(rules: Seq<MessageFilterRule>, message: MessageInfo)
    ensures
        rules_message_verdict(rules, message) is Pass
            <==> forall|i: int| 0 <= i < rules.len() ==> (#[trigger] rules[i]).message_verdict(message) is Pass,
    decreases rules.len(),
{
    if rules.len() > 0 {
        law_message_passes_iff_every_rule_passes(rules.drop_first(), message);
        assert forall|i: int| 1 <= i < rules.len() implies rules.drop_first()[i - 1] == rules[i] by {}
        if rules[0].message_verdict(message) is Pass {
            assert forall|i: int| 0 <= i < rules.drop_first().len() && (forall|j: int| 0 <= j < rules.len() ==> (#[trigger] rules[j]).message_verdict(message) is Pass)
                implies rules.drop_first()[i].message_verdict(message) is Pass by {
                assert(rules.drop_first()[i] == rules[i + 1]);
            }
        }
    }
}

/// A word rule never lets through a text in which its pattern matches,
/// either in the text itself or in the text's confusable skeleton (so
/// look-alike characters do not help).
pub proof fn law_words_catch_matches_and_lookalikes(pattern: Seq<char>, text: Seq<char>)
    requires
        regex_captures_group(pattern, text, 1) is Some
            || regex_captures_group(pattern, confusable_skeleton(text), 1) is Some,
    ensures
        !(words_verdict(pattern, text) is Pass),
{
}

/// A substring rule rejects every text in which its pattern matches, in
/// the text itself or in its confusable skeleton.
pub proof fn law_substrings_catch_matches_and_lookalikes(pattern: Seq<char>, text: Seq<char>)
    requires
        regex_find(pattern, text) is Some || regex_find(pattern, confusable_skeleton(text)) is Some,
    ensures
        substring_verdict(pattern, text) is Reject,
{
}

/// A regex rule rejects every text that one of its patterns matches, in the
/// text itself or in its confusable skeleton.
pub proof fn law_regexes_catch_matches_and_lookalikes(patterns: Seq<Seq<char>>, text: Seq<char>, k: int)
    requires
        0 <= k < patterns.len(),
        regex_is_match(patterns[k], text) || regex_is_match(patterns[k], confusable_skeleton(text)),
    ensures
        regexes_verdict(patterns, text) is Reject,
    decreases patterns.len(),
{
    if k > 0 && !(regex_is_match(patterns[0], confusable_skeleton(text)) || regex_is_match(patterns[0], text)) {
        assert(patterns.drop_first()[k - 1] == patterns[k]);
        law_regexes_catch_matches_and_lookalikes(patterns.drop_first(), text, k - 1);
    }
}

/// A link to `www.` followed by a listed domain counts as a link to that
/// domain.
pub proof fn law_www_prefix_counts_as_listed(list: Seq<Seq<char>>, domain: Seq<char>)
    requires
        list.contains(domain),
    ensures
        domain_listed(list, domain),
        domain_listed(list, "www."@ + domain),
{
    let i = choose|i: int| 0 <= i < list.len() && list[i] == domain;
    assert(list[i] == domain);
}

/// For a Unicode emoji, the deny-list rule rejects it exactly when the
/// allow-list rule over the same emoji accepts it; for an identifier of a
/// custom emoji the same holds.
pub proof fn law_reaction_allow_and_deny_are_dual(
    emoji: Vec<String>,
    ids: Vec<u64>,
    reaction: ReactionType,
)
    ensures
        (ReactionFilterRule::Default { emoji: emoji, mode: FilterMode::AllowList }).reaction_verdict(reaction) is Reject
            ==> (ReactionFilterRule::Default { emoji: emoji, mode: FilterMode::DenyList }).reaction_verdict(reaction) is Pass,
        reaction is Unicode ==> (
            (ReactionFilterRule::Default { emoji: emoji, mode: FilterMode::AllowList }).reaction_verdict(reaction) is Pass
                <==> (ReactionFilterRule::Default { emoji: emoji, mode: FilterMode::DenyList }).reaction_verdict(reaction) is Reject),
        reaction is Custom ==> (
            (ReactionFilterRule::CustomId { emoji: ids, mode: FilterMode::AllowList }).reaction_verdict(reaction) is Pass
                <==> (ReactionFilterRule::CustomId { emoji: ids, mode: FilterMode::DenyList }).reaction_verdict(reaction) is Reject),
{
}

/// A spam filter without limits never reports spam.
pub proof fn law_no_limits_no_spam(history: Seq<SpamRecord>, current: SpamRecord, config: SpamFilter)
    requires
        config.emoji is None,
        config.links is None,
        config.attachments is None,
        config.spoilers is None,
        config.mentions is None,
        config.duplicates is None,
    ensures
        threshold_verdict(history, current, config) is Pass,
{
}

/// Whether every limit of `looser` is absent or at least the matching limit
/// of `tighter` (which must then be present).
pub open spec fn limit_at_least(looser: Option<u8>, tighter: Option<u8>) -> bool {
    match looser {
        None => true,
        Some(l) => tighter matches Some(t) && t <= l,
    }
}

/// Loosening spam limits never turns an accepted message into spam.
pub proof fn law_looser_limits_keep_passing(
    history: Seq<SpamRecord>,
    current: SpamRecord,
    tighter: SpamFilter,
    looser: SpamFilter,
)
    requires
        limit_at_least(looser.emoji, tighter.emoji),
        limit_at_least(looser.links, tighter.links),
        limit_at_least(looser.attachments, tighter.attachments),
        limit_at_least(looser.spoilers, tighter.spoilers),
        limit_at_least(looser.mentions, tighter.mentions),
        limit_at_least(looser.duplicates, tighter.duplicates),
        threshold_verdict(history, current, tighter) is Pass,
    ensures
        threshold_verdict(history, current, looser) is Pass,
{
}

/// A message is only reported for a count that it adds to itself: one
/// without emoji is never reported for emoji, and so on.
pub proof fn law_spam_only_for_own_contribution(history: Seq<SpamRecord>, current: SpamRecord, config: SpamFilter)
    ensures
        threshold_verdict(history, current, config) == Verdict::Reject("sent too many emoji"@) ==> current.emoji > 0,
        threshold_verdict(history, current, config) == Verdict::Reject("sent too many links"@) ==> current.links > 0,
        threshold_verdict(history, current, config) == Verdict::Reject("sent too many attachments"@) ==> current.attachments > 0,
        threshold_verdict(history, current, config) == Verdict::Reject("sent too many spoilers"@) ==> current.spoilers > 0,
        threshold_verdict(history, current, config) == Verdict::Reject("sent too many mentions"@) ==> current.mentions > 0,
{
    reveal_strlit("sent too many emoji");
    reveal_strlit("sent too many links");
    reveal_strlit("sent too many attachments");
    reveal_strlit("sent too many spoilers");
    reveal_strlit("sent too many mentions");
    reveal_strlit("sent too many duplicate messages");
    assert("sent too many emoji"@.len() == 19 && "sent too many links"@.len() == 19);
    assert("sent too many attachments"@.len() == 25);
    assert("sent too many spoilers"@.len() == 22 && "sent too many mentions"@.len() == 22);
    assert("sent too many duplicate messages"@.len() == 32);
    assert("sent too many emoji"@[14] != "sent too many links"@[14]);
    assert("sent too many spoilers"@[14] != "sent too many mentions"@[14]);
}

/// The current message always counts as a duplicate of itself, so a
/// duplicate limit of zero reports every message that no earlier limit
/// reports.
pub proof fn law_message_duplicates_itself(history: Seq<SpamRecord>, current: SpamRecord)
    ensures
        window_duplicates(history, current) >= 1,
    decreases history.len(),
{
    if history.len() > 0 {
        law_message_duplicates_itself(history.drop_last(), current);
    }
}

/// Dropping old records keeps a suffix of the history, and whatever
/// remains starts with a record inside the window.
pub proof fn law_prune_keeps_recent_suffix(history: Seq<SpamRecord>, now: u64, window: int)
    ensures
        prune(history, now, window).len() <= history.len(),
        prune(history, now, window) == history.skip(history.len() - prune(history, now, window).len()),
        prune(history, now, window).len() > 0 ==> age(now, prune(history, now, window)[0].sent_at) <= window,
    decreases history.len(),
{
    if history.len() > 0 && age(now, history[0].sent_at) > window {
        law_prune_keeps_recent_suffix(history.drop_first(), now, window);
        let p = prune(history.drop_first(), now, window);
        assert(history.drop_first().skip(history.drop_first().len() - p.len()) =~= history.skip(history.len() - p.len()));
    } else {
        assert(history.skip(0) =~= history);
    }
}


/// Pruning drops only records older than the window, and only from the
/// front: what remains is the history from some position on, every record
/// before that position is older than the window, and no record inside the
/// window (nor anything after it) is dropped.
pub proof fn law_prune_drops_only_stale_front_records(history: Seq<SpamRecord>, now: u64, window: int)
    ensures
        exists|k: int|
            0 <= k <= history.len()
            && prune(history, now, window) == history.skip(k)
            && (forall|j: int| 0 <= j < k ==> age(now, #[trigger] history[j].sent_at) > window),
        forall|i: int| 0 <= i < history.len() && age(now, #[trigger] history[i].sent_at) <= window
            ==> prune(history, now, window).len() >= history.len() - i,
    decreases history.len(),
{
    if history.len() > 0 && age(now, history[0].sent_at) > window {
        let rest = history.drop_first();
        law_prune_drops_only_stale_front_records(rest, now, window);
        let k0 = choose|k: int|
            0 <= k <= rest.len()
            && prune(rest, now, window) == rest.skip(k)
            && (forall|j: int| 0 <= j < k ==> age(now, #[trigger] rest[j].sent_at) > window);
        assert(rest.skip(k0) =~= history.skip(k0 + 1));
        assert forall|j: int| 0 <= j < k0 + 1 implies age(now, #[trigger] history[j].sent_at) > window by {
            if j > 0 {
                assert(history[j] == rest[j - 1]);
            }
        }
        assert forall|i: int| 0 <= i < history.len() && age(now, #[trigger] history[i].sent_at) <= window
            implies prune(history, now, window).len() >= history.len() - i by {
            assert(i > 0);
            assert(rest[i - 1] == history[i]);
        }
    } else {
        assert(history.skip(0) =~= history);
    }
}

/// Totals add up over every record: the sum over two histories joined is
/// the sum of their sums.
pub proof fn law_tally_sum_adds_up(h1: Seq<SpamRecord>, h2: Seq<SpamRecord>, which: Tally)
    ensures
        tally_sum(h1 + h2, which) == tally_sum(h1, which) + tally_sum(h2, which),
    decreases h2.len(),
{
    if h2.len() == 0 {
        assert(h1 + h2 =~= h1);
    } else {
        law_tally_sum_adds_up(h1, h2.drop_last(), which);
        assert((h1 + h2).drop_last() =~= h1 + h2.drop_last());
        assert((h1 + h2).last() == h2.last());
    }
}

/// The sum over one record is that record's own count, for each count.
pub proof fn law_tally_of_one_record(r: SpamRecord)
    ensures
        tally_sum(seq![r], Tally::Emoji) == r.emoji,
        tally_sum(seq![r], Tally::Links) == r.links,
        tally_sum(seq![r], Tally::Attachments) == r.attachments,
        tally_sum(seq![r], Tally::Spoilers) == r.spoilers,
        tally_sum(seq![r], Tally::Mentions) == r.mentions,
{
    let e = Seq::<SpamRecord>::empty();
    assert(seq![r].drop_last() =~= e);
    assert(seq![r].last() == r);
    assert(tally_sum(e, Tally::Emoji) == 0);
    assert(tally_sum(e, Tally::Links) == 0);
    assert(tally_sum(e, Tally::Attachments) == 0);
    assert(tally_sum(e, Tally::Spoilers) == 0);
    assert(tally_sum(e, Tally::Mentions) == 0);
}

/// Duplicate counts add up over every record, and one record counts once
/// exactly when its text is the one looked for.
pub proof fn law_duplicates_add_up(h1: Seq<SpamRecord>, h2: Seq<SpamRecord>, content: Seq<char>, r: SpamRecord)
    ensures
        same_content_count(h1 + h2, content) == same_content_count(h1, content) + same_content_count(h2, content),
        same_content_count(seq![r], content) == if r.content@ == content { 1int } else { 0int },
    decreases h2.len(),
{
    assert(seq![r].drop_last() =~= Seq::<SpamRecord>::empty());
    assert(seq![r].last() == r);
    assert(same_content_count(Seq::<SpamRecord>::empty(), content) == 0);
    if h2.len() == 0 {
        assert(h1 + h2 =~= h1);
    } else {
        law_duplicates_add_up(h1, h2.drop_last(), content, r);
        assert((h1 + h2).drop_last() =~= h1 + h2.drop_last());
        assert((h1 + h2).last() == h2.last());
    }
}

/// Invite links are left to the invite rule: inserting a `discord.gg` host
/// anywhere among the hosts never changes a link rule's verdict.
pub proof fn law_invite_hosts_do_not_affect_link_rule(
    mode: FilterMode,
    list: Seq<Seq<char>>,
    before: Seq<Option<Seq<char>>>,
    after: Seq<Option<Seq<char>>>,
)
    ensures
        hosts_verdict(mode, list, before + seq![Some("discord.gg"@)] + after) == hosts_verdict(mode, list, before + after),
    decreases before.len(),
{
    let with = before + seq![Some("discord.gg"@)] + after;
    if before.len() == 0 {
        assert(before + after =~= after);
        assert(with.drop_first() =~= after);
        assert(with[0] == Some("discord.gg"@));
    } else {
        law_invite_hosts_do_not_affect_link_rule(mode, list, before.drop_first(), after);
        assert(with.drop_first() =~= before.drop_first() + seq![Some("discord.gg"@)] + after);
        assert((before + after).drop_first() =~= before.drop_first() + after);
        assert(with[0] == before[0]);
        assert((before + after)[0] == before[0]);
    }
}

/// A text whose only links are invite links passes every link rule.
pub proof fn law_only_invite_hosts_pass_link_rule(
    mode: FilterMode,
    list: Seq<Seq<char>>,
    hosts: Seq<Option<Seq<char>>>,
)
    requires
        forall|i: int| 0 <= i < hosts.len() ==> hosts[i] == Some("discord.gg"@),
    ensures
        hosts_verdict(mode, list, hosts) is Pass,
    decreases hosts.len(),
{
    if hosts.len() > 0 {
        assert forall|i: int| 0 <= i < hosts.drop_first().len() implies hosts.drop_first()[i] == Some("discord.gg"@) by {
            assert(hosts.drop_first()[i] == hosts[i + 1]);
        }
        law_only_invite_hosts_pass_link_rule(mode, list, hosts.drop_first());
    }
}

/// The custom-id rule consults the whole list: an emoji whose identifier
/// is listed at any position is rejected by the deny list and accepted by
/// the allow list.
pub proof fn law_custom_id_listed_anywhere(emoji: Vec<u64>, animated: bool, id: u64, name: Option<String>, i: int)
    requires
        0 <= i < emoji@.len(),
        emoji@[i] == id,
    ensures
        (ReactionFilterRule::CustomId { emoji: emoji, mode: FilterMode::DenyList })
            .reaction_verdict(ReactionType::Custom { animated, id, name }) is Reject,
        (ReactionFilterRule::CustomId { emoji: emoji, mode: FilterMode::AllowList })
            .reaction_verdict(ReactionType::Custom { animated, id, name }) is Pass,
{
    assert(emoji@.contains(id));
}

/// An emoji whose identifier is listed nowhere is accepted by the deny list
/// and rejected by the allow list.
pub proof fn law_custom_id_listed_nowhere(emoji: Vec<u64>, animated: bool, id: u64, name: Option<String>)
    requires
        forall|i: int| 0 <= i < emoji@.len() ==> emoji@[i] != id,
    ensures
        (ReactionFilterRule::CustomId { emoji: emoji, mode: FilterMode::DenyList })
            .reaction_verdict(ReactionType::Custom { animated, id, name }) is Pass,
        (ReactionFilterRule::CustomId { emoji: emoji, mode: FilterMode::AllowList })
            .reaction_verdict(ReactionType::Custom { animated, id, name }) is Reject,
{
}

/// The same for Unicode emoji: listed at any position means rejected by
/// the deny list and accepted by the allow list; listed nowhere means the
/// reverse.
pub proof fn law_unicode_emoji_list_consulted_whole(emoji: Vec<String>, name: String, i: int)
    requires
        0 <= i < emoji@.len(),
    ensures
        emoji@[i]@ == name@ ==> (ReactionFilterRule::Default { emoji: emoji, mode: FilterMode::DenyList })
            .reaction_verdict(ReactionType::Unicode { name }) is Reject,
        emoji@[i]@ == name@ ==> (ReactionFilterRule::Default { emoji: emoji, mode: FilterMode::AllowList })
            .reaction_verdict(ReactionType::Unicode { name }) is Pass,
        (forall|j: int| 0 <= j < emoji@.len() ==> emoji@[j]@ != name@) ==>
            (ReactionFilterRule::Default { emoji: emoji, mode: FilterMode::DenyList })
                .reaction_verdict(ReactionType::Unicode { name }) is Pass,
{
    assert(emoji.deep_view()[i] == emoji@[i]@);
    if (forall|j: int| 0 <= j < emoji@.len() ==> emoji@[j]@ != name@) {
        assert forall|j: int| 0 <= j < emoji.deep_view().len() implies emoji.deep_view()[j] != name@ by {
            assert(emoji.deep_view()[j] == emoji@[j]@);
        }
    }
}

/// Unless unknown types are allowed, a message with an attachment of no
/// declared content type, at any position, is rejected for it.
pub proof fn law_unknown_attachment_anywhere_rejected(mode: FilterMode, types: Vec<String>, message: MessageInfo, i: int)
    requires
        0 <= i < message.attachments@.len(),
        message.attachments@[i].content_type is None,
    ensures
        (MessageFilterRule::MimeType { mode, types, allow_unknown: false }).message_verdict(message)
            == Verdict::Reject("unknown content type for attachment"@),
{
}

/// The declared content types are gathered from every attachment, in
/// order: those of two lists joined are the two lists' types joined, and
/// one attachment contributes its type if it declares one.
pub proof fn law_declared_types_gathered_in_order(
    a: Seq<crate::model::Attachment>,
    b: Seq<crate::model::Attachment>,
    x: crate::model::Attachment,
)
    ensures
        declared_types(a + b) == declared_types(a) + declared_types(b),
        declared_types(seq![x]) == match x.content_type {
            Some(t) => seq![t@],
            None => Seq::<Seq<char>>::empty(),
        },
    decreases a.len(),
{
    let e = Seq::<crate::model::Attachment>::empty();
    assert(seq![x].drop_first() =~= e);
    assert(seq![x][0] == x);
    assert(declared_types(e) =~= Seq::<Seq<char>>::empty());
    if let Some(t) = x.content_type {
        assert(seq![t@] + declared_types(e) =~= seq![t@]);
    }
    if a.len() == 0 {
        assert(a + b =~= b);
        assert(declared_types(a) + declared_types(b) =~= declared_types(b));
    } else {
        law_declared_types_gathered_in_order(a.drop_first(), b, x);
        assert((a + b).drop_first() =~= a.drop_first() + b);
        assert((a + b)[0] == a[0]);
        match a[0].content_type {
            Some(t) => {
                assert(seq![t@] + (declared_types(a.drop_first()) + declared_types(b))
                    =~= (seq![t@] + declared_types(a.drop_first())) + declared_types(b));
            },
            None => {},
        }
    }
}


/// The first value that breaks a list is the one found: it is one of the
/// values, it breaks the list, and every value before it keeps the list.
pub proof fn law_first_offending_is_first<A>(mode: FilterMode, list: Seq<A>, values: Seq<A>)
    ensures
        first_offending(mode, list, values) is None
            ==> forall|j: int| 0 <= j < values.len() ==> !offends(mode, list, #[trigger] values[j]),
        first_offending(mode, list, values) matches Some(v) ==> exists|k: int|
            0 <= k < values.len() && values[k] == v && offends(mode, list, v)
            && (forall|j: int| 0 <= j < k ==> !offends(mode, list, #[trigger] values[j])),
    decreases values.len(),
{
    if values.len() > 0 && !offends(mode, list, values[0]) {
        let rest = values.drop_first();
        law_first_offending_is_first(mode, list, rest);
        if let Some(v) = first_offending(mode, list, rest) {
            let k = choose|k: int| 0 <= k < rest.len() && rest[k] == v && offends(mode, list, v)
                && (forall|j: int| 0 <= j < k ==> !offends(mode, list, #[trigger] rest[j]));
            assert(values[k + 1] == v);
            assert forall|j: int| 0 <= j < k + 1 implies !offends(mode, list, #[trigger] values[j]) by {
                if j > 0 { assert(values[j] == rest[j - 1]); }
            }
        } else {
            assert forall|j: int| 0 <= j < values.len() implies !offends(mode, list, #[trigger] values[j]) by {
                if j > 0 { assert(values[j] == rest[j - 1]); }
            }
        }
    } else if values.len() > 0 {
        assert(values[0] == values[0]);
    }
}

/// A rejected list check names the first value that breaks the list.
pub proof fn law_list_reports_first_offending_value(
    mode: FilterMode,
    context: Seq<char>,
    values: Seq<Seq<char>>,
    list: Seq<Seq<char>>,
)
    ensures
        values_verdict(mode, context, values, list) is Reject ==> exists|k: int|
            0 <= k < values.len() && offends(mode, list, values[k])
            && (forall|j: int| 0 <= j < k ==> !offends(mode, list, #[trigger] values[j]))
            && values_verdict(mode, context, values, list) == Verdict::Reject(listing_message(mode, context, values[k])),
{
    law_first_offending_is_first(mode, list, values);
}

/// A rejected identifier check names, in decimal, the first identifier that
/// breaks the list; it passes exactly when none does.
pub proof fn law_ids_report_first_offending_id(mode: FilterMode, context: Seq<char>, values: Seq<u64>, list: Seq<u64>)
    ensures
        ids_verdict(mode, context, values, list) is Pass
            <==> forall|j: int| 0 <= j < values.len() ==> !offends(mode, list, #[trigger] values[j]),
        ids_verdict(mode, context, values, list) is Reject ==> exists|k: int|
            0 <= k < values.len() && offends(mode, list, values[k])
            && (forall|j: int| 0 <= j < k ==> !offends(mode, list, #[trigger] values[j]))
            && ids_verdict(mode, context, values, list)
                == Verdict::Reject(listing_message(mode, context, decimal(values[k] as nat))),
{
    law_first_offending_is_first(mode, list, values);
    if first_offending(mode, list, values) is None {
    } else {
        let v = first_offending(mode, list, values)->0;
        let k = choose|k: int| 0 <= k < values.len() && values[k] == v && offends(mode, list, v)
            && (forall|j: int| 0 <= j < k ==> !offends(mode, list, #[trigger] values[j]));
        assert(offends(mode, list, values[k]));
    }
}

/// When rules are checked in order and one does not pass, the verdict is
/// that of the first such rule; every rule before it passes.
pub proof fn law_first_failing_text_rule_decides(rules: Seq<MessageFilterRule>, text: Seq<char>)
    ensures
        !(rules_text_verdict(rules, text) is Pass) ==> exists|k: int|
            0 <= k < rules.len()
            && (forall|j: int| 0 <= j < k ==> (#[trigger] rules[j]).text_verdict(text) is Pass)
            && rules_text_verdict(rules, text) == rules[k].text_verdict(text),
    decreases rules.len(),
{
    if rules.len() > 0 && rules[0].text_verdict(text) is Pass {
        let rest = rules.drop_first();
        law_first_failing_text_rule_decides(rest, text);
        if !(rules_text_verdict(rest, text) is Pass) {
            let k = choose|k: int| 0 <= k < rest.len()
                && (forall|j: int| 0 <= j < k ==> (#[trigger] rest[j]).text_verdict(text) is Pass)
                && rules_text_verdict(rest, text) == rest[k].text_verdict(text);
            assert(rules[k + 1] == rest[k]);
            assert forall|j: int| 0 <= j < k + 1 implies (#[trigger] rules[j]).text_verdict(text) is Pass by {
                if j > 0 { assert(rules[j] == rest[j - 1]); }
            }
        }
    }
}

/// The same for messages.
pub proof fn law_first_failing_message_rule_decides(rules: Seq<MessageFilterRule>, message: MessageInfo)
    ensures
        !(rules_message_verdict(rules, message) is Pass) ==> exists|k: int|
            0 <= k < rules.len()
            && (forall|j: int| 0 <= j < k ==> (#[trigger] rules[j]).message_verdict(message) is Pass)
            && rules_message_verdict(rules, message) == rules[k].message_verdict(message),
    decreases rules.len(),
{
    if rules.len() > 0 && rules[0].message_verdict(message) is Pass {
        let rest = rules.drop_first();
        law_first_failing_message_rule_decides(rest, message);
        if !(rules_message_verdict(rest, message) is Pass) {
            let k = choose|k: int| 0 <= k < rest.len()
                && (forall|j: int| 0 <= j < k ==> (#[trigger] rest[j]).message_verdict(message) is Pass)
                && rules_message_verdict(rest, message) == rest[k].message_verdict(message);
            assert(rules[k + 1] == rest[k]);
            assert forall|j: int| 0 <= j < k + 1 implies (#[trigger] rules[j]).message_verdict(message) is Pass by {
                if j > 0 { assert(rules[j] == rest[j - 1]); }
            }
        }
    }
}

/// The same for reactions, and a reaction passes exactly when every rule
/// passes it.
pub proof fn law_first_failing_reaction_rule_decides(rules: Seq<ReactionFilterRule>, reaction: ReactionType)
    ensures
        !(rules_reaction_verdict(rules, reaction) is Pass) ==> exists|k: int|
            0 <= k < rules.len()
            && (forall|j: int| 0 <= j < k ==> (#[trigger] rules[j]).reaction_verdict(reaction) is Pass)
            && rules_reaction_verdict(rules, reaction) == rules[k].reaction_verdict(reaction),
        rules_reaction_verdict(rules, reaction) is Pass
            <==> forall|j: int| 0 <= j < rules.len() ==> (#[trigger] rules[j]).reaction_verdict(reaction) is Pass,
    decreases rules.len(),
{
    if rules.len() > 0 {
        let rest = rules.drop_first();
        law_first_failing_reaction_rule_decides(rest, reaction);
        assert forall|j: int| 1 <= j < rules.len() implies rules[j] == rest[j - 1] by {}
        if rules[0].reaction_verdict(reaction) is Pass {
            if !(rules_reaction_verdict(rest, reaction) is Pass) {
                let k = choose|k: int| 0 <= k < rest.len()
                    && (forall|j: int| 0 <= j < k ==> (#[trigger] rest[j]).reaction_verdict(reaction) is Pass)
                    && rules_reaction_verdict(rest, reaction) == rest[k].reaction_verdict(reaction);
                assert(rules[k + 1] == rest[k]);
                assert forall|j: int| 0 <= j < k + 1 implies (#[trigger] rules[j]).reaction_verdict(reaction) is Pass by {
                    if j > 0 { assert(rules[j] == rest[j - 1]); }
                }
            }
            assert forall|i: int| 0 <= i < rest.len() && (forall|j: int| 0 <= j < rules.len() ==> (#[trigger] rules[j]).reaction_verdict(reaction) is Pass)
                implies rest[i].reaction_verdict(reaction) is Pass by {
                assert(rest[i] == rules[i + 1]);
            }
        }
    }
}

/// A word rule passes a text exactly when its pattern matches neither the
/// text nor its confusable skeleton.
pub proof fn law_words_pass_iff_no_match(pattern: Seq<char>, text: Seq<char>)
    ensures
        words_verdict(pattern, text) is Pass <==> (regex_captures_group(pattern, text, 1) is None
            && regex_captures_group(pattern, confusable_skeleton(text), 1) is None),
{
}

/// A substring rule passes a text exactly when its pattern matches neither
/// the text nor its confusable skeleton.
pub proof fn law_substrings_pass_iff_no_match(pattern: Seq<char>, text: Seq<char>)
    ensures
        substring_verdict(pattern, text) is Pass <==> (regex_find(pattern, text) is None
            && regex_find(pattern, confusable_skeleton(text)) is None),
{
}

/// A regex rule passes a text exactly when none of its patterns matches the
/// text or its confusable skeleton; when it rejects, it names one of its
/// patterns that matches.
pub proof fn law_regexes_pass_iff_no_pattern_matches(patterns: Seq<Seq<char>>, text: Seq<char>)
    ensures
        regexes_verdict(patterns, text) is Pass <==> forall|k: int| 0 <= k < patterns.len() ==>
            !regex_is_match(#[trigger] patterns[k], text) && !regex_is_match(patterns[k], confusable_skeleton(text)),
        regexes_verdict(patterns, text) is Reject ==> exists|k: int| 0 <= k < patterns.len()
            && (regex_is_match(patterns[k], text) || regex_is_match(patterns[k], confusable_skeleton(text)))
            && regexes_verdict(patterns, text) == Verdict::Reject(regex_message(patterns[k])),
    decreases patterns.len(),
{
    if patterns.len() > 0 {
        let rest = patterns.drop_first();
        law_regexes_pass_iff_no_pattern_matches(rest, text);
        assert forall|k: int| 1 <= k < patterns.len() implies patterns[k] == rest[k - 1] by {}
        if !(regex_is_match(patterns[0], confusable_skeleton(text)) || regex_is_match(patterns[0], text)) {
            if regexes_verdict(rest, text) is Reject {
                let k = choose|k: int| 0 <= k < rest.len()
                    && (regex_is_match(rest[k], text) || regex_is_match(rest[k], confusable_skeleton(text)))
                    && regexes_verdict(rest, text) == Verdict::Reject(regex_message(rest[k]));
                assert(patterns[k + 1] == rest[k]);
            }
            assert forall|k: int| 0 <= k < rest.len() && (forall|k2: int| 0 <= k2 < patterns.len() ==>
                !regex_is_match(#[trigger] patterns[k2], text) && !regex_is_match(patterns[k2], confusable_skeleton(text)))
                implies !regex_is_match(#[trigger] rest[k], text) && !regex_is_match(rest[k], confusable_skeleton(text)) by {
                assert(rest[k] == patterns[k + 1]);
            }
        }
    }
}

/// A sticker-name rule passes exactly when its pattern matches no sticker's
/// name; when it rejects, it reports the match in the first sticker whose
/// name matches.
pub proof fn law_sticker_names_checked_in_order(pattern: Seq<char>, stickers: Seq<MessageSticker>)
    ensures
        sticker_names_verdict(pattern, stickers) is Pass
            <==> forall|i: int| 0 <= i < stickers.len() ==> regex_find(pattern, (#[trigger] stickers[i]).name@) is None,
        sticker_names_verdict(pattern, stickers) is Reject ==> exists|k: int| 0 <= k < stickers.len()
            && (forall|j: int| 0 <= j < k ==> regex_find(pattern, (#[trigger] stickers[j]).name@) is None)
            && regex_find(pattern, stickers[k].name@) is Some
            && sticker_names_verdict(pattern, stickers)
                == Verdict::Reject(sticker_name_message(regex_find(pattern, stickers[k].name@)->0)),
    decreases stickers.len(),
{
    if stickers.len() > 0 {
        let rest = stickers.drop_first();
        law_sticker_names_checked_in_order(pattern, rest);
        assert forall|i: int| 1 <= i < stickers.len() implies stickers[i] == rest[i - 1] by {}
        if regex_find(pattern, stickers[0].name@) is None {
            if sticker_names_verdict(pattern, rest) is Reject {
                let k = choose|k: int| 0 <= k < rest.len()
                    && (forall|j: int| 0 <= j < k ==> regex_find(pattern, (#[trigger] rest[j]).name@) is None)
                    && regex_find(pattern, rest[k].name@) is Some
                    && sticker_names_verdict(pattern, rest)
                        == Verdict::Reject(sticker_name_message(regex_find(pattern, rest[k].name@)->0));
                assert(stickers[k + 1] == rest[k]);
                assert forall|j: int| 0 <= j < k + 1 implies regex_find(pattern, (#[trigger] stickers[j]).name@) is None by {
                    if j > 0 { assert(stickers[j] == rest[j - 1]); }
                }
            }
            assert forall|i: int| 0 <= i < rest.len() && (forall|i2: int| 0 <= i2 < stickers.len() ==> regex_find(pattern, (#[trigger] stickers[i2]).name@) is None)
                implies regex_find(pattern, (#[trigger] rest[i]).name@) is None by {
                assert(rest[i] == stickers[i + 1]);
            }
        }
    }
}

/// When every captured code is present, checking codes against a list
/// is the plain list check on those codes.
pub proof fn law_captured_values_checked_as_list(
    mode: FilterMode,
    context: Seq<char>,
    values: Seq<Option<Seq<char>>>,
    list: Seq<Seq<char>>,
)
    requires
        forall|i: int| 0 <= i < values.len() ==> (#[trigger] values[i]) is Some,
    ensures
        scan_values(mode, context, values, list)
            == values_verdict(mode, context, values.map_values(|o: Option<Seq<char>>| o->0), list),
    decreases values.len(),
{
    let plain = values.map_values(|o: Option<Seq<char>>| o->0);
    if values.len() > 0 {
        let rest = values.drop_first();
        assert forall|i: int| 0 <= i < rest.len() implies (#[trigger] rest[i]) is Some by {
            assert(rest[i] == values[i + 1]);
        }
        law_captured_values_checked_as_list(mode, context, rest, list);
        assert(plain.drop_first() =~= rest.map_values(|o: Option<Seq<char>>| o->0));
        assert(values[0] is Some);
        assert(plain[0] == values[0]->0);
    } else {
        assert(plain.len() == 0);
    }
}

/// Custom-emoji names are checked in order: when every name is present, the
/// rule passes exactly when its pattern matches none of them.
pub proof fn law_emoji_names_pass_iff_no_match(pattern: Seq<char>, names: Seq<Option<Seq<char>>>)
    requires
        forall|i: int| 0 <= i < names.len() ==> (#[trigger] names[i]) is Some,
    ensures
        emoji_names_verdict(pattern, names) is Pass
            <==> forall|i: int| 0 <= i < names.len() ==> regex_find(pattern, (#[trigger] names[i])->0) is None,
    decreases names.len(),
{
    if names.len() > 0 {
        let rest = names.drop_first();
        assert forall|i: int| 0 <= i < rest.len() implies (#[trigger] rest[i]) is Some by {
            assert(rest[i] == names[i + 1]);
        }
        law_emoji_names_pass_iff_no_match(pattern, rest);
        assert forall|i: int| 1 <= i < names.len() implies names[i] == rest[i - 1] by {}
        assert(names[0] is Some);
        if regex_find(pattern, names[0]->0) is None {
            assert forall|i: int| 0 <= i < rest.len() && (forall|i2: int| 0 <= i2 < names.len() ==> regex_find(pattern, (#[trigger] names[i2])->0) is None)
                implies regex_find(pattern, (#[trigger] rest[i])->0) is None by {
                assert(rest[i] == names[i + 1]);
            }
        }
    }
}

/// The spam verdict passes exactly when no limit is broken: for each count,
/// its window total is within the limit or the message adds nothing to
/// it, and the duplicates, the message included, are within their limit.
pub proof fn law_spam_passes_iff_no_limit_broken(history: Seq<SpamRecord>, current: SpamRecord, config: SpamFilter)
    ensures
        threshold_verdict(history, current, config) is Pass <==> {
            &&& (config.emoji matches Some(t) ==> current.emoji > 0 ==> saturate(current.emoji + tally_sum(history, Tally::Emoji)) <= t)
            &&& (config.links matches Some(t) ==> current.links > 0 ==> saturate(current.links + tally_sum(history, Tally::Links)) <= t)
            &&& (config.attachments matches Some(t) ==> current.attachments > 0 ==> saturate(current.attachments + tally_sum(history, Tally::Attachments)) <= t)
            &&& (config.spoilers matches Some(t) ==> current.spoilers > 0 ==> saturate(current.spoilers + tally_sum(history, Tally::Spoilers)) <= t)
            &&& (config.mentions matches Some(t) ==> current.mentions > 0 ==> saturate(current.mentions + tally_sum(history, Tally::Mentions)) <= t)
            &&& (config.duplicates matches Some(t) ==> saturate(1 + same_content_count(history, current.content@)) <= t)
        },
{
}

/// Scoping: a channel outside the included channels, a channel among the
/// excluded ones, or an author holding any excluded role, at any position
/// of the lists, keeps a filter from applying; otherwise it applies.
pub proof fn law_scoping_consults_whole_lists(scoping: Scoping, channel: u64, author_roles: Seq<u64>)
    ensures
        (scoping.include_channels matches Some(c)
            && forall|i: int| 0 <= i < c@.len() ==> c@[i] != channel) ==> !scoping.includes(channel, author_roles),
        (scoping.exclude_channels matches Some(c)
            && exists|i: int| 0 <= i < c@.len() && c@[i] == channel) ==> !scoping.includes(channel, author_roles),
        (scoping.exclude_roles matches Some(r)
            && exists|i: int, j: int| 0 <= i < r@.len() && 0 <= j < author_roles.len() && r@[i] == author_roles[j])
            ==> !scoping.includes(channel, author_roles),
        ((scoping.include_channels matches Some(c) ==> exists|i: int| 0 <= i < c@.len() && c@[i] == channel)
            && (scoping.exclude_channels matches Some(c) ==> forall|i: int| 0 <= i < c@.len() ==> c@[i] != channel)
            && (scoping.exclude_roles matches Some(r) ==> forall|i: int, j: int|
                0 <= i < r@.len() && 0 <= j < author_roles.len() ==> r@[i] != author_roles[j]))
            ==> scoping.includes(channel, author_roles),
{
    if let Some(r) = scoping.exclude_roles {
        if exists|i: int, j: int| 0 <= i < r@.len() && 0 <= j < author_roles.len() && r@[i] == author_roles[j] {
            let (i, j) = choose|i: int, j: int| 0 <= i < r@.len() && 0 <= j < author_roles.len() && r@[i] == author_roles[j];
            assert(author_roles.contains(r@[i]));
        }
    }
}

/// The value that a string of decimal digits denotes.
pub open spec fn digits_value(s: Seq<char>) -> int
    decreases s.len(),
{
    if s.len() == 0 {
        0
    } else {
        digits_value(s.drop_last()) * 10 + (s.last() as int - '0' as int)
    }
}

/// Decimal formatting is faithful: the digits denote the number, every
/// character is a digit, and there is no leading zero except for zero.
pub proof fn law_decimal_denotes_number(n: nat)
    ensures
        digits_value(decimal(n)) == n,
        decimal(n).len() >= 1,
        forall|i: int| 0 <= i < decimal(n).len() ==> '0' <= #[trigger] decimal(n)[i] <= '9',
        decimal(n)[0] == '0' ==> n == 0,
    decreases n,
{
    assert(digit_char(n % 10) as int - '0' as int == n % 10);
    if n >= 10 {
        law_decimal_denotes_number(n / 10);
        let s = decimal(n / 10);
        assert(decimal(n).drop_last() =~= s);
        assert(decimal(n).last() == digit_char(n % 10));
        assert(decimal(n)[0] == s[0]);
        assert(n == (n / 10) * 10 + n % 10);
        assert forall|i: int| 0 <= i < decimal(n).len() implies '0' <= #[trigger] decimal(n)[i] <= '9' by {
            if i < s.len() { assert(decimal(n)[i] == s[i]); }
        }
    } else {
        assert(seq![digit_char(n)].drop_last() =~= Seq::<char>::empty());
        assert(digits_value(Seq::<char>::empty()) == 0);
        assert(seq![digit_char(n)].last() == digit_char(n));
        assert(n % 10 == n);
    }
}


/// A value breaks a deny list exactly when it occurs in the list at some
/// position, and an allow list exactly when it occurs at none.
pub proof fn law_offends_means_membership<A>(list: Seq<A>, v: A)
    ensures
        offends(FilterMode::DenyList, list, v) <==> exists|i: int| 0 <= i < list.len() && list[i] == v,
        offends(FilterMode::AllowList, list, v) <==> forall|i: int| 0 <= i < list.len() ==> list[i] != v,
{
}

/// A host counts as a listed domain exactly when some listed domain is the
/// host or the host is `www.` followed by that domain.
pub proof fn law_domain_listed_means_some_entry(list: Seq<Seq<char>>, host: Seq<char>)
    ensures
        domain_listed(list, host)
            <==> exists|i: int| 0 <= i < list.len() && (list[i] == host || host == "www."@ + list[i]),
{
}

/// Word and substring rules report what they find in the confusable
/// skeleton before looking at the raw text.
pub proof fn law_skeleton_match_reported_first(pattern: Seq<char>, text: Seq<char>)
    ensures
        regex_captures_group(pattern, confusable_skeleton(text), 1) matches Some(Some(w))
            ==> words_verdict(pattern, text) == Verdict::Reject(word_message(w)),
        regex_find(pattern, confusable_skeleton(text)) matches Some(m)
            ==> substring_verdict(pattern, text) == Verdict::Reject(substring_message(m)),
        regex_captures_group(pattern, confusable_skeleton(text), 1) is None
            ==> (regex_captures_group(pattern, text, 1) matches Some(Some(w))
                ==> words_verdict(pattern, text) == Verdict::Reject(word_message(w))),
        regex_find(pattern, confusable_skeleton(text)) is None
            ==> (regex_find(pattern, text) matches Some(m)
                ==> substring_verdict(pattern, text) == Verdict::Reject(substring_message(m))),
{
}

/// A regex rule names the first of its patterns that matches.
pub proof fn law_regexes_report_first_matching_pattern(patterns: Seq<Seq<char>>, text: Seq<char>, k: int)
    requires
        0 <= k < patterns.len(),
        regex_is_match(patterns[k], text) || regex_is_match(patterns[k], confusable_skeleton(text)),
        forall|j: int| 0 <= j < k ==>
            !regex_is_match(#[trigger] patterns[j], text) && !regex_is_match(patterns[j], confusable_skeleton(text)),
    ensures
        regexes_verdict(patterns, text) == Verdict::Reject(regex_message(patterns[k])),
    decreases k,
{
    if k > 0 {
        let rest = patterns.drop_first();
        assert(!regex_is_match(patterns[0], text));
        assert(rest[k - 1] == patterns[k]);
        assert forall|j: int| 0 <= j < k - 1 implies
            !regex_is_match(#[trigger] rest[j], text) && !regex_is_match(rest[j], confusable_skeleton(text)) by {
            assert(rest[j] == patterns[j + 1]);
        }
        law_regexes_report_first_matching_pattern(rest, text, k - 1);
    }
}

/// Spam limits are tried in a fixed order and the first broken one is
/// reported: emoji, then links, attachments, spoilers, mentions, and
/// duplicates last.
pub proof fn law_first_broken_limit_reported(history: Seq<SpamRecord>, current: SpamRecord, config: SpamFilter)
    ensures
        ({
            let emoji = config.emoji matches Some(t) && current.emoji > 0
                && saturate(current.emoji + tally_sum(history, Tally::Emoji)) > t;
            let links = config.links matches Some(t) && current.links > 0
                && saturate(current.links + tally_sum(history, Tally::Links)) > t;
            let attachments = config.attachments matches Some(t) && current.attachments > 0
                && saturate(current.attachments + tally_sum(history, Tally::Attachments)) > t;
            let spoilers = config.spoilers matches Some(t) && current.spoilers > 0
                && saturate(current.spoilers + tally_sum(history, Tally::Spoilers)) > t;
            let mentions = config.mentions matches Some(t) && current.mentions > 0
                && saturate(current.mentions + tally_sum(history, Tally::Mentions)) > t;
            let duplicates = config.duplicates matches Some(t)
                && saturate(1 + same_content_count(history, current.content@)) > t;
            let v = threshold_verdict(history, current, config);
            &&& emoji ==> v == Verdict::Reject("sent too many emoji"@)
            &&& !emoji && links ==> v == Verdict::Reject("sent too many links"@)
            &&& !emoji && !links && attachments ==> v == Verdict::Reject("sent too many attachments"@)
            &&& !emoji && !links && !attachments && spoilers ==> v == Verdict::Reject("sent too many spoilers"@)
            &&& !emoji && !links && !attachments && !spoilers && mentions
                ==> v == Verdict::Reject("sent too many mentions"@)
            &&& !emoji && !links && !attachments && !spoilers && !mentions && duplicates
                ==> v == Verdict::Reject("sent too many duplicate messages"@)
        }),
{
}

/// With every attachment declaring a content type (or unknown types
/// allowed), the attachment rule is the list check over the declared types,
/// which are the attachments' types in order.
pub proof fn law_known_attachments_checked_as_list(
    mode: FilterMode,
    types: Vec<String>,
    allow_unknown: bool,
    message: MessageInfo,
)
    requires
        allow_unknown || forall|i: int| 0 <= i < message.attachments@.len()
            ==> (#[trigger] message.attachments@[i]).content_type is Some,
    ensures
        (MessageFilterRule::MimeType { mode, types, allow_unknown }).message_verdict(message)
            == values_verdict(mode, "content type"@, declared_types(message.attachments@), types.deep_view()),
        (forall|i: int| 0 <= i < message.attachments@.len()
            ==> (#[trigger] message.attachments@[i]).content_type is Some) ==> (
            declared_types(message.attachments@).len() == message.attachments@.len()
            && forall|i: int| 0 <= i < message.attachments@.len()
                ==> Some(declared_types(message.attachments@)[i]) == opt_view((#[trigger] message.attachments@[i]).content_type)),
{
    if !allow_unknown {
        assert(!has_unknown_type(message.attachments@));
    }
    lemma_declared_types_all_known(message.attachments@);
}

proof fn lemma_declared_types_all_known(atts: Seq<crate::model::Attachment>)
    ensures
        (forall|i: int| 0 <= i < atts.len() ==> (#[trigger] atts[i]).content_type is Some) ==> (
            declared_types(atts).len() == atts.len()
            && forall|i: int| 0 <= i < atts.len() ==> Some(declared_types(atts)[i]) == opt_view((#[trigger] atts[i]).content_type)),
    decreases atts.len(),
{
    if atts.len() > 0 && (forall|i: int| 0 <= i < atts.len() ==> (#[trigger] atts[i]).content_type is Some) {
        let rest = atts.drop_first();
        assert forall|i: int| 0 <= i < rest.len() implies (#[trigger] rest[i]).content_type is Some by {
            assert(rest[i] == atts[i + 1]);
        }
        lemma_declared_types_all_known(rest);
        let t = atts[0].content_type->0;
        assert(atts[0].content_type is Some);
        assert forall|i: int| 0 <= i < atts.len() implies Some(declared_types(atts)[i]) == opt_view((#[trigger] atts[i]).content_type) by {
            if i > 0 { assert(atts[i] == rest[i - 1]); }
        }
    }
}

/// The sticker identifiers checked are those of every sticker, in order.
pub proof fn law_sticker_ids_are_every_sticker(stickers: Seq<MessageSticker>)
    ensures
        sticker_ids(stickers).len() == stickers.len(),
        forall|i: int| 0 <= i < stickers.len() ==> sticker_ids(stickers)[i] == (#[trigger] stickers[i]).id,
{
}

/// A custom-name rule rejects a custom emoji exactly when its pattern
/// matches the emoji's name; Unicode emoji and nameless custom emoji pass.
pub proof fn law_custom_name_rule(names: crate::pattern::Pattern, reaction: ReactionType)
    ensures
        (ReactionFilterRule::CustomName { names }).reaction_verdict(reaction) is Reject <==> (
            reaction matches ReactionType::Custom { name: Some(n), .. } && regex_is_match(names@, n@)),
{
}

} // verus!
