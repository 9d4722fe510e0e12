//! Spam detection over a user's recent messages.

use vstd::prelude::*;
use std::collections::VecDeque;
use crate::config::SpamFilter;
use crate::filter::{FilterResult, Verdict, verdict_of};
use crate::globals::{Globals, SPOILER_PATTERN, EMOJI_PATTERN, LINK_PATTERN, MENTION_PATTERN};
use crate::model::MessageInfo;
use crate::pattern::regex_match_count;

verus! {

/// What is remembered of one message: its text, how many emoji, links,
/// attachments, spoilers and mentions it held (each capped at 255), and
/// when it was sent (microseconds since the Unix epoch).
pub struct SpamRecord {
    pub content: String,
    pub emoji: u8,
    pub links: u8,
    pub attachments: u8,
    pub spoilers: u8,
    pub mentions: u8,
    pub sent_at: u64,
}

/// `n` capped at 255.
pub open spec fn saturate(n: int) -> int {
    if n > 255 { 255 } else { n }
}

impl SpamRecord {
    /// Whether the record is the one made from `message`.
    pub open spec fn describes(&self, message: MessageInfo) -> bool {
        &&& self.content@ == message.content@
        &&& self.emoji == saturate(regex_match_count(EMOJI_PATTERN@, message.content@) as int)
        &&& self.links == saturate(regex_match_count(LINK_PATTERN@, message.content@) as int)
        &&& self.attachments == saturate(message.attachments@.len() as int)
        &&& self.spoilers == saturate(regex_match_count(SPOILER_PATTERN@, message.content@) as int)
        &&& self.mentions == saturate(regex_match_count(MENTION_PATTERN@, message.content@) as int)
        &&& self.sent_at == message.timestamp
    }
}

fn saturating_count(n: usize) -> (res: u8)
    ensures
        res == saturate(n as int),
{
    if n > 255 {
        255
    } else {
        n as u8
    }
}

impl SpamRecord {
    /// Records a message: counts its spoilers, emoji, links and mentions
    /// with the built-in patterns, and its attachments; each count is capped
    /// at 255.
    pub fn from_message(globals: &Globals, message: &MessageInfo) -> (record: SpamRecord)
        ensures
            record.describes(*message),
    {
        let spoilers = globals.spoiler().match_count(message.content.as_str());
        let emoji = globals.emoji().match_count(message.content.as_str());
        let links = globals.link().match_count(message.content.as_str());
        let mentions = globals.mention().match_count(message.content.as_str());
        SpamRecord {
            content: message.content.clone(),
            emoji: saturating_count(emoji),
            links: saturating_count(links),
            attachments: saturating_count(message.attachments.len()),
            spoilers: saturating_count(spoilers),
            mentions: saturating_count(mentions),
            sent_at: message.timestamp,
        }
    }
}

/// The counts that spam limits apply to.
pub enum Tally {
    Emoji,
    Links,
    Attachments,
    Spoilers,
    Mentions,
}

pub open spec fn tally(r: SpamRecord, which: Tally) -> int {
    match which {
        Tally::Emoji => r.emoji as int,
        Tally::Links => r.links as int,
        Tally::Attachments => r.attachments as int,
        Tally::Spoilers => r.spoilers as int,
        Tally::Mentions => r.mentions as int,
    }
}

/// The sum of one count over the records.
pub open spec fn tally_sum(history: Seq<SpamRecord>, which: Tally) -> int
    decreases history.len(),
{
    if history.len() == 0 {
        0
    } else {
        tally_sum(history.drop_last(), which) + tally(history.last(), which)
    }
}

/// How many records have the given text.
pub open spec fn same_content_count(history: Seq<SpamRecord>, content: Seq<char>) -> int
    decreases history.len(),
{
    if history.len() == 0 {
        0
    } else {
        same_content_count(history.drop_last(), content) + if history.last().content@ == content { 1int } else { 0int }
    }
}

/// A count over the window: the current record's plus the history's, capped at 255.
pub open spec fn window_total(history: Seq<SpamRecord>, current: SpamRecord, which: Tally) -> int {
    saturate(tally(current, which) + tally_sum(history, which))
}

/// Messages with the current record's text over the window, the current one
/// included, capped at 255.
pub open spec fn window_duplicates(history: Seq<SpamRecord>, current: SpamRecord) -> int {
    saturate(1 + same_content_count(history, current.content@))
}

pub open spec fn over_limit(limit: Option<u8>, total: int) -> bool {
    limit matches Some(t) && total > t
}

/// The spam decision: the limits are tried in a fixed order (emoji, links,
/// attachments, spoilers, mentions, duplicates). A count limit is broken
/// only when its total is over the limit and the current message itself
/// adds to that count.
pub open spec fn threshold_verdict(history: Seq<SpamRecord>, current: SpamRecord, config: SpamFilter) -> Verdict {
    if over_limit(config.emoji, window_total(history, current, Tally::Emoji)) && current.emoji > 0 {
        Verdict::Reject("sent too many emoji"@)
    } else if over_limit(config.links, window_total(history, current, Tally::Links)) && current.links > 0 {
        Verdict::Reject("sent too many links"@)
    } else if over_limit(config.attachments, window_total(history, current, Tally::Attachments)) && current.attachments > 0 {
        Verdict::Reject("sent too many attachments"@)
    } else if over_limit(config.spoilers, window_total(history, current, Tally::Spoilers)) && current.spoilers > 0 {
        Verdict::Reject("sent too many spoilers"@)
    } else if over_limit(config.mentions, window_total(history, current, Tally::Mentions)) && current.mentions > 0 {
        Verdict::Reject("sent too many mentions"@)
    } else if over_limit(config.duplicates, window_duplicates(history, current)) {
        Verdict::Reject("sent too many duplicate messages"@)
    } else {
        Verdict::Pass
    }
}

proof fn lemma_take_step(history: Seq<SpamRecord>, i: int)
    requires
        0 <= i < history.len(),
    ensures
        history.take(i + 1).drop_last() == history.take(i),
        history.take(i + 1).last() == history[i],
{
    assert(history.take(i + 1).drop_last() =~= history.take(i));
}

fn over(limit: Option<u8>, total: u8) -> (res: bool)
    ensures
        res == over_limit(limit, total as int),
{
    match limit {
        Some(t) => total > t,
        None => false,
    }
}

/// Decides whether `current_record`, on top of `history`, breaks a limit of
/// `config`.
pub fn exceeds_spam_thresholds(
    history: &VecDeque<SpamRecord>,
    current_record: &SpamRecord,
    config: &SpamFilter,
) -> (res: FilterResult)
    ensures
        verdict_of(res) == threshold_verdict(history@, *current_record, *config),
{
    let ghost h = history@;
    let ghost cur = *current_record;
    let mut emoji_sum: u8 = current_record.emoji;
    let mut link_sum: u8 = current_record.links;
    let mut attachment_sum: u8 = current_record.attachments;
    let mut spoiler_sum: u8 = current_record.spoilers;
    let mut mention_sum: u8 = current_record.mentions;
    // The current record is always a duplicate of itself.
    let mut matching_duplicates: u8 = 1;
    let mut i: usize = 0;
    assert(h.take(0) =~= Seq::<SpamRecord>::empty());
    while i < history.len()
        invariant
            i <= history.len(),
            h == history@,
            emoji_sum == window_total(h.take(i as int), cur, Tally::Emoji),
            link_sum == window_total(h.take(i as int), cur, Tally::Links),
            attachment_sum == window_total(h.take(i as int), cur, Tally::Attachments),
            spoiler_sum == window_total(h.take(i as int), cur, Tally::Spoilers),
            mention_sum == window_total(h.take(i as int), cur, Tally::Mentions),
            matching_duplicates == window_duplicates(h.take(i as int), cur),
            cur == *current_record,
        decreases history.len() - i,
    {
        proof { lemma_take_step(h, i as int); }
        let record = &history[i];
        emoji_sum = emoji_sum.saturating_add(record.emoji);
        link_sum = link_sum.saturating_add(record.links);
        attachment_sum = attachment_sum.saturating_add(record.attachments);
        spoiler_sum = spoiler_sum.saturating_add(record.spoilers);
        mention_sum = mention_sum.saturating_add(record.mentions);
        let same: u8 = if record.content == current_record.content { 1 } else { 0 };
        matching_duplicates = matching_duplicates.saturating_add(same);
        i = i + 1;
    }
    assert(h.take(i as int) =~= h);
    if over(config.emoji, emoji_sum) && current_record.emoji > 0 {
        Err(String::from_str("sent too many emoji"))
    } else if over(config.links, link_sum) && current_record.links > 0 {
        Err(String::from_str("sent too many links"))
    } else if over(config.attachments, attachment_sum) && current_record.attachments > 0 {
        Err(String::from_str("sent too many attachments"))
    } else if over(config.spoilers, spoiler_sum) && current_record.spoilers > 0 {
        Err(String::from_str("sent too many spoilers"))
    } else if over(config.mentions, mention_sum) && current_record.mentions > 0 {
        Err(String::from_str("sent too many mentions"))
    } else if over(config.duplicates, matching_duplicates) {
        Err(String::from_str("sent too many duplicate messages"))
    } else {
        Ok(())
    }
}

/// The length of the spam window in microseconds.
pub open spec fn window_micros(config: SpamFilter) -> int {
    config.interval as int * 1_000_000
}

/// How long before `now` a message sent at `sent_at` was, or zero if it
/// lies in the future.
pub open spec fn age(now: u64, sent_at: u64) -> int {
    if now >= sent_at { now - sent_at } else { 0 }
}

/// The history with its oldest records dropped from the front for as long
/// as they are older than the window.
pub open spec fn prune(history: Seq<SpamRecord>, now: u64, window: int) -> Seq<SpamRecord>
    decreases history.len(),
{
    if history.len() > 0 && age(now, history[0].sent_at) > window {
        prune(history.drop_first(), now, window)
    } else {
        history
    }
}

/// Checks a new message of a user against the spam limits, given the
/// user's history: records older than the window are first dropped from
/// the front of the history, the message is judged against what remains,
/// and its record is then added to the history.
pub fn check_spam_record(
    globals: &Globals,
    message: &MessageInfo,
    config: &SpamFilter,
    history: &mut VecDeque<SpamRecord>,
    now: u64,
) -> (res: FilterResult)
    ensures
        final(history)@.len() > 0,
        final(history)@.drop_last() == prune(old(history)@, now, window_micros(*config)),
        final(history)@.last().describes(*message),
        verdict_of(res) == threshold_verdict(
            prune(old(history)@, now, window_micros(*config)),
            final(history)@.last(),
            *config,
        ),
{
    let new_spam_record = SpamRecord::from_message(globals, message);
    let window: u64 = (config.interval as u64) * 1_000_000;
    let ghost start = history@;
    while history.len() > 0 && now.saturating_sub(history[0].sent_at) > window
        invariant
            window == window_micros(*config),
            prune(start, now, window_micros(*config)) == prune(history@, now, window_micros(*config)),
        decreases history@.len(),
    {
        let _ = history.pop_front();
    }
    let ghost kept = history@;
    let result = exceeds_spam_thresholds(history, &new_spam_record, config);
    history.push_back(new_spam_record);
    assert(history@.drop_last() =~= kept);
    result
}

} // verus!
