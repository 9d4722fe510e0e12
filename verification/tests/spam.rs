use std::collections::VecDeque;

use chrysanthemum::config::SpamFilter;
use chrysanthemum::globals::init_globals;
use chrysanthemum::model::{Attachment, MessageInfo};
use chrysanthemum::spam::{check_spam_record, exceeds_spam_thresholds, SpamRecord};

const GOOD_CONTENT: &str = "this is fine https://discord.gg/roblox";
const USER_ID: u64 = 1;

fn message_at_time(content: &str, secs: u64) -> MessageInfo {
    MessageInfo {
        author_is_bot: false,
        id: 1,
        author_id: USER_ID,
        channel_id: 1,
        author_roles: vec![],
        content: content.to_owned(),
        timestamp: secs * 1_000_000,
        attachments: vec![],
        stickers: vec![],
    }
}

fn record(content: &str, emoji: u8, links: u8, attachments: u8, spoilers: u8, mentions: u8) -> SpamRecord {
    SpamRecord { content: content.to_owned(), spoilers, emoji, links, mentions, attachments, sent_at: 10 }
}

#[test]
fn spam_record_creation() {
    let g = init_globals().unwrap();

    let info = MessageInfo {
        author_is_bot: false,
        id: 1,
        author_id: 1,
        channel_id: 1,
        author_roles: vec![],
        content: "test message https://discord.gg/ ||spoiler|| \u{1f49f} <@123>".to_owned(),
        timestamp: 100_000_000,
        attachments: vec![Attachment { content_type: Some("image/jpg".to_owned()) }],
        stickers: vec![],
    };

    let record = SpamRecord::from_message(&g, &info);
    assert_eq!(record.content, info.content);
    assert_eq!(record.spoilers, 1);
    assert_eq!(record.emoji, 1);
    assert_eq!(record.links, 1);
    assert_eq!(record.mentions, 1);
    assert_eq!(record.attachments, 1);
    assert_eq!(record.sent_at, 100_000_000);
}

fn setup_for_testing() -> (VecDeque<SpamRecord>, SpamFilter) {
    let mut history = VecDeque::new();
    let config = SpamFilter {
        emoji: Some(2),
        duplicates: Some(1),
        links: Some(2),
        attachments: Some(2),
        spoilers: Some(2),
        mentions: Some(2),
        interval: 30,
        scoping: None,
    };

    let initial_record = SpamRecord {
        content: "asdf".to_owned(),
        spoilers: 1,
        emoji: 1,
        links: 1,
        mentions: 1,
        attachments: 1,
        sent_at: 0,
    };

    history.push_back(initial_record);

    (history, config)
}

#[test]
fn spam_checker_noop() {
    let (history, config) = setup_for_testing();
    let succeeding_record = record("not asdf", 0, 0, 0, 0, 0);
    let result = exceeds_spam_thresholds(&history, &succeeding_record, &config);
    assert_eq!(result, Ok(()))
}

#[test]
fn content_spam_checker() {
    let (history, config) = setup_for_testing();
    let failing_record = record("asdf", 0, 0, 0, 0, 0);
    let result = exceeds_spam_thresholds(&history, &failing_record, &config);
    assert_eq!(result, Err("sent too many duplicate messages".to_owned()));
}

#[test]
fn emoji_spam_checker() {
    let (history, config) = setup_for_testing();
    let failing_record = record("foo", 2, 0, 0, 0, 0);
    let result = exceeds_spam_thresholds(&history, &failing_record, &config);
    assert_eq!(result, Err("sent too many emoji".to_owned()));
}

#[test]
fn link_spam_checker() {
    let (history, config) = setup_for_testing();
    let failing_record = record("foo", 0, 2, 0, 0, 0);
    let result = exceeds_spam_thresholds(&history, &failing_record, &config);
    assert_eq!(result, Err("sent too many links".to_owned()));
}

#[test]
fn mention_spam_checker() {
    let (history, config) = setup_for_testing();
    let failing_record = record("foo", 0, 0, 0, 0, 2);
    let result = exceeds_spam_thresholds(&history, &failing_record, &config);
    assert_eq!(result, Err("sent too many mentions".to_owned()));
}

#[test]
fn attachment_spam_checker() {
    let (history, config) = setup_for_testing();
    let failing_record = record("foo", 0, 0, 2, 0, 0);
    let result = exceeds_spam_thresholds(&history, &failing_record, &config);
    assert_eq!(result, Err("sent too many attachments".to_owned()));
}

#[test]
fn spoiler_spam_checker() {
    let (history, config) = setup_for_testing();
    let failing_record = record("foo", 0, 0, 0, 2, 0);
    let result = exceeds_spam_thresholds(&history, &failing_record, &config);
    assert_eq!(result, Err("sent too many spoilers".to_owned()));
}

#[test]
fn remove_old_records() {
    let g = init_globals().unwrap();
    let mut history: VecDeque<SpamRecord> = VecDeque::new();

    let config = SpamFilter {
        emoji: None,
        duplicates: Some(1),
        links: None,
        attachments: None,
        spoilers: None,
        mentions: None,
        interval: 30,
        scoping: None,
    };

    let first_message = message_at_time(GOOD_CONTENT, 5);
    let result = check_spam_record(&g, &first_message, &config, &mut history, 10 * 1_000_000);
    assert_eq!(result, Ok(()));

    let second_message = message_at_time(GOOD_CONTENT, 15);
    let result = check_spam_record(&g, &second_message, &config, &mut history, 20 * 1_000_000);
    assert_eq!(result, Err("sent too many duplicate messages".to_owned()));

    let third_message = message_at_time(GOOD_CONTENT, 45);
    let result = check_spam_record(&g, &third_message, &config, &mut history, 60 * 1_000_000);
    assert_eq!(result, Ok(()));

    assert_eq!(history.len(), 1);
}

#[test]
fn no_limits_never_spam() {
    let (history, _) = setup_for_testing();
    let config = SpamFilter {
        emoji: None,
        duplicates: None,
        links: None,
        attachments: None,
        spoilers: None,
        mentions: None,
        interval: 30,
        scoping: None,
    };
    assert_eq!(exceeds_spam_thresholds(&history, &record("asdf", 200, 200, 200, 200, 200), &config), Ok(()));
}

#[test]
fn looser_limits_keep_passing() {
    let (history, mut config) = setup_for_testing();
    let r = record("foo", 1, 1, 1, 1, 1);
    assert_eq!(exceeds_spam_thresholds(&history, &r, &config), Ok(()));
    config.emoji = Some(200);
    config.links = None;
    assert_eq!(exceeds_spam_thresholds(&history, &r, &config), Ok(()));
}

#[test]
fn no_own_contribution_no_report() {
    let (mut history, config) = setup_for_testing();
    history.push_back(record("x", 9, 9, 9, 9, 9));
    assert_eq!(exceeds_spam_thresholds(&history, &record("y", 0, 0, 0, 0, 0), &config), Ok(()));
    assert_eq!(
        exceeds_spam_thresholds(&history, &record("y", 0, 0, 0, 0, 1), &config),
        Err("sent too many mentions".to_owned())
    );
}

#[test]
fn duplicate_limit_zero_reports_every_message() {
    let history = VecDeque::new();
    let config = SpamFilter {
        emoji: None,
        duplicates: Some(0),
        links: None,
        attachments: None,
        spoilers: None,
        mentions: None,
        interval: 30,
        scoping: None,
    };
    assert_eq!(
        exceeds_spam_thresholds(&history, &record("unique", 0, 0, 0, 0, 0), &config),
        Err("sent too many duplicate messages".to_owned())
    );
}

#[test]
fn counts_saturate() {
    let mut history = VecDeque::new();
    for _ in 0..3 {
        history.push_back(record("x", 200, 0, 0, 0, 0));
    }
    let config = SpamFilter {
        emoji: Some(254),
        duplicates: None,
        links: None,
        attachments: None,
        spoilers: None,
        mentions: None,
        interval: 30,
        scoping: None,
    };
    assert_eq!(exceeds_spam_thresholds(&history, &record("y", 200, 0, 0, 0, 0), &config), Err("sent too many emoji".to_owned()));
    let config = SpamFilter { emoji: Some(255), ..config };
    assert_eq!(exceeds_spam_thresholds(&history, &record("y", 200, 0, 0, 0, 0), &config), Ok(()));
}

#[test]
fn attachment_count_is_capped() {
    let g = init_globals().unwrap();
    let mut m = message_at_time("plain", 1);
    m.attachments = (0..300).map(|_| Attachment { content_type: None }).collect();
    let r = SpamRecord::from_message(&g, &m);
    assert_eq!(r.attachments, 255);
    assert_eq!(r.emoji, 0);
    assert_eq!(r.sent_at, 1_000_000);
}

#[test]
fn pruning_keeps_recent_records() {
    let g = init_globals().unwrap();
    let mut history: VecDeque<SpamRecord> = VecDeque::new();
    let config = SpamFilter {
        emoji: None,
        duplicates: None,
        links: None,
        attachments: None,
        spoilers: None,
        mentions: None,
        interval: 10,
        scoping: None,
    };
    for t in [1u64, 2, 50, 55] {
        assert_eq!(check_spam_record(&g, &message_at_time("a", t), &config, &mut history, t * 1_000_000), Ok(()));
    }
    let kept: Vec<u64> = history.iter().map(|r| r.sent_at).collect();
    assert_eq!(kept, vec![50_000_000, 55_000_000]);
}
