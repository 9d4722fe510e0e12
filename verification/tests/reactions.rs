use chrysanthemum::config::{FilterMode, ReactionFilter, ReactionFilterRule};
use chrysanthemum::model::ReactionType;
use chrysanthemum::pattern::Pattern;
use chrysanthemum::text::u64_to_decimal;

fn unicode(name: &str) -> ReactionType {
    ReactionType::Unicode { name: name.to_owned() }
}

fn custom(id: u64, name: Option<&str>) -> ReactionType {
    ReactionType::Custom { animated: false, id, name: name.map(|n| n.to_owned()) }
}

#[test]
fn unicode_allow_list() {
    let rule = ReactionFilterRule::Default { emoji: vec!["👍".to_owned()], mode: FilterMode::AllowList };
    assert_eq!(rule.filter_reaction(&unicode("👍")), Ok(()));
    assert_eq!(rule.filter_reaction(&unicode("👎")), Err("reacted with unallowed emoji 👎".to_owned()));
    assert_eq!(rule.filter_reaction(&custom(5, Some("x"))), Ok(()));
}

#[test]
fn unicode_deny_list() {
    let rule = ReactionFilterRule::Default { emoji: vec!["👎".to_owned()], mode: FilterMode::DenyList };
    assert_eq!(rule.filter_reaction(&unicode("👍")), Ok(()));
    assert_eq!(rule.filter_reaction(&unicode("👎")), Err("reacted with denied emoji 👎".to_owned()));
}

#[test]
fn custom_id_lists() {
    let allow = ReactionFilterRule::CustomId { emoji: vec![10], mode: FilterMode::AllowList };
    let deny = ReactionFilterRule::CustomId { emoji: vec![10], mode: FilterMode::DenyList };
    assert_eq!(allow.filter_reaction(&custom(10, None)), Ok(()));
    assert_eq!(allow.filter_reaction(&custom(12345, None)), Err("reacted with unallowed emoji 12345".to_owned()));
    assert_eq!(deny.filter_reaction(&custom(10, None)), Err("reacted with denied emoji 10".to_owned()));
    assert_eq!(deny.filter_reaction(&custom(11, None)), Ok(()));
    assert_eq!(deny.filter_reaction(&unicode("x")), Ok(()));
}

#[test]
fn custom_name_pattern() {
    let rule = ReactionFilterRule::CustomName { names: Pattern::new("^bad").unwrap() };
    assert_eq!(rule.filter_reaction(&custom(1, Some("badge"))), Err("reacted with denied emoji name badge".to_owned()));
    assert_eq!(rule.filter_reaction(&custom(1, Some("goodbad"))), Ok(()));
    assert_eq!(rule.filter_reaction(&custom(1, None)), Ok(()));
    assert_eq!(rule.filter_reaction(&unicode("bad")), Ok(()));
}

#[test]
fn reaction_filter_first_failure() {
    let filter = ReactionFilter {
        rules: vec![
            ReactionFilterRule::CustomId { emoji: vec![1], mode: FilterMode::DenyList },
            ReactionFilterRule::CustomName { names: Pattern::new("x").unwrap() },
        ],
    };
    assert_eq!(filter.filter_reaction(&custom(1, Some("x"))), Err("reacted with denied emoji 1".to_owned()));
    assert_eq!(filter.filter_reaction(&custom(2, Some("x"))), Err("reacted with denied emoji name x".to_owned()));
    assert_eq!(filter.filter_reaction(&custom(2, Some("y"))), Ok(()));
    assert_eq!(ReactionFilter { rules: vec![] }.filter_reaction(&unicode("x")), Ok(()));
}

#[test]
fn decimal_formatting() {
    assert_eq!(u64_to_decimal(0), "0");
    assert_eq!(u64_to_decimal(7), "7");
    assert_eq!(u64_to_decimal(10), "10");
    assert_eq!(u64_to_decimal(18446744073709551615), "18446744073709551615");
}
