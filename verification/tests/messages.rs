use chrysanthemum::config::{FilterMode, MessageFilter, MessageFilterRule};
use chrysanthemum::globals::{init_globals, Globals};
use chrysanthemum::model::{Attachment, MessageInfo, MessageSticker};
use chrysanthemum::pattern::Pattern;

const GOOD_CONTENT: &str = "this is fine https://discord.gg/roblox";
const BAD_CONTENT: &str =
    "asdf bad message z\u{0303}algo https://example.com https://discord.gg/evilserver";

fn message(content: &str) -> MessageInfo {
    MessageInfo {
        author_is_bot: false,
        id: 1,
        author_id: 1,
        channel_id: 1,
        author_roles: vec![],
        content: content.to_owned(),
        timestamp: 0,
        attachments: vec![],
        stickers: vec![],
    }
}

fn globals() -> Globals {
    init_globals().unwrap()
}

fn attachment(content_type: Option<&str>) -> Attachment {
    Attachment { content_type: content_type.map(|t| t.to_owned()) }
}

fn sticker(id: u64, name: &str) -> MessageSticker {
    MessageSticker { id, name: name.to_owned() }
}

#[test]
fn filter_words() {
    let g = globals();
    let rule = MessageFilterRule::Words { words: Pattern::new("\\b(bad|asdf)\\b").unwrap() };

    assert_eq!(rule.filter_message(&g, &message(GOOD_CONTENT)), Ok(()));
    assert_eq!(rule.filter_message(&g, &message(BAD_CONTENT)), Err("contains word `asdf`".to_owned()));
}

#[test]
fn filter_substrings() {
    let g = globals();
    let rule = MessageFilterRule::Substring { substrings: Pattern::new("(bad|asdf)").unwrap() };

    assert_eq!(rule.filter_message(&g, &message(GOOD_CONTENT)), Ok(()));
    assert_eq!(rule.filter_message(&g, &message(BAD_CONTENT)), Err("contains substring `asdf`".to_owned()));
}

#[test]
fn filter_regex() {
    let g = globals();
    let rule = MessageFilterRule::Regex { regexes: vec![Pattern::new("sd").unwrap()] };

    assert_eq!(rule.filter_message(&g, &message(GOOD_CONTENT)), Ok(()));
    assert_eq!(rule.filter_message(&g, &message(BAD_CONTENT)), Err("matches regex `sd`".to_owned()));
}

#[test]
fn filter_zalgo() {
    let g = globals();
    let rule = MessageFilterRule::Zalgo;

    assert_eq!(rule.filter_message(&g, &message(GOOD_CONTENT)), Ok(()));
    assert_eq!(rule.filter_message(&g, &message(BAD_CONTENT)), Err("contains zalgo".to_owned()));
}

#[test]
fn filter_mimetype_deny() {
    let g = globals();
    let rule = MessageFilterRule::MimeType {
        mode: FilterMode::DenyList,
        types: vec!["image/png".to_owned()],
        allow_unknown: false,
    };

    let mut ok_message = message(GOOD_CONTENT);
    ok_message.attachments = vec![attachment(Some("image/jpg"))];

    let mut wrong_message = message(BAD_CONTENT);
    wrong_message.attachments = vec![attachment(Some("image/png"))];

    let mut missing_content_type_message = message(BAD_CONTENT);
    missing_content_type_message.attachments = vec![attachment(None)];

    assert_eq!(rule.filter_message(&g, &ok_message), Ok(()));
    assert_eq!(rule.filter_message(&g, &wrong_message), Err("contains denied content type `image/png`".to_owned()));
    assert_eq!(
        rule.filter_message(&g, &missing_content_type_message),
        Err("unknown content type for attachment".to_owned())
    );
}

#[test]
fn filter_mimetype_allow() {
    let g = globals();
    let rule = MessageFilterRule::MimeType {
        mode: FilterMode::AllowList,
        types: vec!["image/png".to_owned()],
        allow_unknown: false,
    };

    let mut ok_message = message(GOOD_CONTENT);
    ok_message.attachments = vec![attachment(Some("image/png"))];

    let mut wrong_message = message(BAD_CONTENT);
    wrong_message.attachments = vec![attachment(Some("image/jpg"))];

    let mut missing_content_type_message = message(BAD_CONTENT);
    missing_content_type_message.attachments = vec![attachment(None)];

    assert_eq!(rule.filter_message(&g, &ok_message), Ok(()));
    assert_eq!(rule.filter_message(&g, &wrong_message), Err("contains unallowed content type `image/jpg`".to_owned()));
    assert_eq!(
        rule.filter_message(&g, &missing_content_type_message),
        Err("unknown content type for attachment".to_owned())
    );
}

#[test]
fn filter_domain_deny() {
    let g = globals();
    let rule = MessageFilterRule::Link { mode: FilterMode::DenyList, domains: vec!["example.com".to_owned()] };

    assert_eq!(rule.filter_message(&g, &message(GOOD_CONTENT)), Ok(()));
    assert_eq!(rule.filter_message(&g, &message(BAD_CONTENT)), Err("contains denied domain `example.com`".to_owned()));
}

#[test]
fn filter_domain_allow() {
    let g = globals();
    let rule = MessageFilterRule::Link { mode: FilterMode::AllowList, domains: vec!["discord.gg".to_owned()] };

    assert_eq!(rule.filter_message(&g, &message(GOOD_CONTENT)), Ok(()));
    assert_eq!(rule.filter_message(&g, &message(BAD_CONTENT)), Err("contains unallowed domain `example.com`".to_owned()));
}

#[test]
fn filter_invite_deny() {
    let g = globals();
    let rule = MessageFilterRule::Invite { mode: FilterMode::DenyList, invites: vec!["evilserver".to_owned()] };

    assert_eq!(rule.filter_message(&g, &message(GOOD_CONTENT)), Ok(()));
    assert_eq!(rule.filter_message(&g, &message(BAD_CONTENT)), Err("contains denied invite `evilserver`".to_owned()));
}

#[test]
fn filter_invite_allow() {
    let g = globals();
    let rule = MessageFilterRule::Invite { mode: FilterMode::AllowList, invites: vec!["roblox".to_owned()] };

    assert_eq!(rule.filter_message(&g, &message(GOOD_CONTENT)), Ok(()));
    assert_eq!(rule.filter_message(&g, &message(BAD_CONTENT)), Err("contains unallowed invite `evilserver`".to_owned()));
}

#[test]
fn filter_sticker_name() {
    let g = globals();
    let rule = MessageFilterRule::StickerName { stickers: Pattern::new("(badsticker)").unwrap() };

    let mut good_message = message(GOOD_CONTENT);
    good_message.stickers = vec![sticker(1, "goodsticker")];

    let mut bad_message = message(BAD_CONTENT);
    bad_message.stickers = vec![sticker(1, "badsticker")];

    assert_eq!(rule.filter_message(&g, &good_message), Ok(()));
    assert_eq!(
        rule.filter_message(&g, &bad_message),
        Err("contains sticker with denied name substring `badsticker`".to_owned())
    );
}

#[test]
fn filter_sticker_id_allow() {
    let g = globals();
    let rule = MessageFilterRule::StickerId { mode: FilterMode::AllowList, stickers: vec![1] };

    let mut good_message = message(GOOD_CONTENT);
    good_message.stickers = vec![sticker(1, "goodsticker")];

    let mut bad_message = message(BAD_CONTENT);
    bad_message.stickers = vec![sticker(2, "badsticker")];

    assert_eq!(rule.filter_message(&g, &good_message), Ok(()));
    assert_eq!(rule.filter_message(&g, &bad_message), Err("contains unallowed sticker `2`".to_owned()));
}

#[test]
fn filter_sticker_id_deny() {
    let g = globals();
    let rule = MessageFilterRule::StickerId { mode: FilterMode::DenyList, stickers: vec![2] };

    let mut good_message = message(GOOD_CONTENT);
    good_message.stickers = vec![sticker(1, "goodsticker")];

    let mut bad_message = message(BAD_CONTENT);
    bad_message.stickers = vec![sticker(2, "badsticker")];

    assert_eq!(rule.filter_message(&g, &good_message), Ok(()));
    assert_eq!(rule.filter_message(&g, &bad_message), Err("contains denied sticker `2`".to_owned()));
}

#[test]
fn filter_words_with_skeletonization() {
    let g = globals();
    let rule = MessageFilterRule::Words { words: Pattern::new("\\b(bad)\\b").unwrap() };

    assert_eq!(rule.filter_message(&g, &message("b\u{237a}d message")), Err("contains word `bad`".to_owned()));
}

#[test]
fn filter_substrings_with_skeletonization() {
    let g = globals();
    let rule = MessageFilterRule::Substring { substrings: Pattern::new("(bad)").unwrap() };

    assert_eq!(rule.filter_message(&g, &message("b\u{237a}dmessage")), Err("contains substring `bad`".to_owned()));
}

#[test]
fn filter_regex_with_skeletonization() {
    let g = globals();
    let rule = MessageFilterRule::Regex { regexes: vec![Pattern::new("bad").unwrap()] };

    assert_eq!(rule.filter_message(&g, &message("b\u{237a}dmessage")), Err("matches regex `bad`".to_owned()));
}

#[test]
fn filter_emoji_name() {
    let g = globals();
    let rule = MessageFilterRule::EmojiName { names: Pattern::new("pog").unwrap() };

    assert_eq!(rule.filter_text(&g, "nice <:smile:123> <a:dance:456>"), Ok(()));
    assert_eq!(
        rule.filter_text(&g, "nice <:smile:123> <a:poggers:456>"),
        Err("contains emoji with denied name substring pog".to_owned())
    );
}

#[test]
fn link_allow_list_accepts_www_prefix() {
    let g = globals();
    let rule = MessageFilterRule::Link { mode: FilterMode::AllowList, domains: vec!["example.com".to_owned()] };
    assert_eq!(rule.filter_text(&g, "see https://www.example.com/page"), Ok(()));
    assert_eq!(
        rule.filter_text(&g, "see https://www.example.org/page"),
        Err("contains unallowed domain `www.example.org`".to_owned())
    );
}

#[test]
fn link_deny_list_catches_www_prefix() {
    let g = globals();
    let rule = MessageFilterRule::Link { mode: FilterMode::DenyList, domains: vec!["example.com".to_owned()] };
    assert_eq!(
        rule.filter_text(&g, "http://www.example.com"),
        Err("contains denied domain `www.example.com`".to_owned())
    );
}

#[test]
fn mimetype_unknown_allowed() {
    let g = globals();
    let rule = MessageFilterRule::MimeType {
        mode: FilterMode::AllowList,
        types: vec!["image/png".to_owned()],
        allow_unknown: true,
    };
    let mut m = message(GOOD_CONTENT);
    m.attachments = vec![attachment(None), attachment(Some("image/png"))];
    assert_eq!(rule.filter_message(&g, &m), Ok(()));
    m.attachments = vec![attachment(None), attachment(Some("text/plain"))];
    assert_eq!(rule.filter_message(&g, &m), Err("contains unallowed content type `text/plain`".to_owned()));
}

#[test]
fn message_filter_reports_first_failing_rule() {
    let g = globals();
    let filter = MessageFilter {
        rules: vec![
            MessageFilterRule::Zalgo,
            MessageFilterRule::Regex { regexes: vec![Pattern::new("nothing here").unwrap(), Pattern::new("bad").unwrap()] },
            MessageFilterRule::Words { words: Pattern::new("\\b(asdf)\\b").unwrap() },
        ],
    };
    assert_eq!(filter.filter_text(&g, "asdf bad"), Err("matches regex `bad`".to_owned()));
    assert_eq!(filter.filter_text(&g, "all good"), Ok(()));
    assert_eq!(filter.filter_message(&g, &message("asdf only")), Err("contains word `asdf`".to_owned()));
    assert_eq!(filter.try_filter_text(&g, "asdf bad"), Some(Err("matches regex `bad`".to_owned())));
    assert_eq!(filter.try_filter_message(&g, &message("fine")), Some(Ok(())));
}

#[test]
fn empty_message_filter_accepts_everything() {
    let g = globals();
    let filter = MessageFilter { rules: vec![] };
    assert_eq!(filter.filter_text(&g, BAD_CONTENT), Ok(()));
    assert_eq!(filter.filter_message(&g, &message(BAD_CONTENT)), Ok(()));
}

#[test]
fn word_rule_without_group_is_undefined() {
    let g = globals();
    let rule = MessageFilterRule::Words { words: Pattern::new("bad").unwrap() };
    assert!(!rule.can_filter_text(&g, "bad words"));
    assert!(rule.can_filter_text(&g, "good words"));
    let filter = MessageFilter { rules: vec![rule] };
    assert_eq!(filter.try_filter_text(&g, "bad words"), None);
    assert_eq!(filter.try_filter_text(&g, "good words"), Some(Ok(())));
    let filter = MessageFilter {
        rules: vec![MessageFilterRule::Zalgo, MessageFilterRule::Words { words: Pattern::new("bad").unwrap() }],
    };
    assert_eq!(filter.try_filter_text(&g, "z\u{0303} bad"), Some(Err("contains zalgo".to_owned())));
}

#[test]
fn invalid_pattern_is_refused() {
    assert!(Pattern::new("(unclosed").is_err());
    assert_eq!(Pattern::new("a+b").unwrap().as_str(), "a+b");
}

#[test]
fn attachment_and_sticker_rules_pass_any_text() {
    let g = globals();
    let rule = MessageFilterRule::StickerId { mode: FilterMode::AllowList, stickers: vec![] };
    assert_eq!(rule.filter_text(&g, BAD_CONTENT), Ok(()));
}
