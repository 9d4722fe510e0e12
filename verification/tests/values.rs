use chrysanthemum::config::FilterMode;
use chrysanthemum::filter::{filter_ids, filter_values};

fn strings(v: &[&str]) -> Vec<String> {
    v.iter().map(|s| s.to_string()).collect()
}

#[test]
fn allow_list_reports_first_unlisted() {
    let list = strings(&["a", "b"]);
    assert_eq!(filter_values(&FilterMode::AllowList, "thing", &strings(&["a", "b", "a"]), &list), Ok(()));
    assert_eq!(
        filter_values(&FilterMode::AllowList, "thing", &strings(&["a", "c", "d"]), &list),
        Err("contains unallowed thing `c`".to_owned())
    );
}

#[test]
fn deny_list_reports_first_listed() {
    let list = strings(&["x", "y"]);
    assert_eq!(filter_values(&FilterMode::DenyList, "thing", &strings(&["a", "b"]), &list), Ok(()));
    assert_eq!(
        filter_values(&FilterMode::DenyList, "thing", &strings(&["a", "y", "x"]), &list),
        Err("contains denied thing `y`".to_owned())
    );
}

#[test]
fn no_values_pass_both_modes() {
    let list = strings(&["x"]);
    assert_eq!(filter_values(&FilterMode::DenyList, "t", &vec![], &list), Ok(()));
    assert_eq!(filter_values(&FilterMode::AllowList, "t", &vec![], &list), Ok(()));
}

#[test]
fn single_value_allow_deny_duality() {
    let list = strings(&["x"]);
    for v in ["x", "z"] {
        let values = strings(&[v]);
        let allow = filter_values(&FilterMode::AllowList, "t", &values, &list);
        let deny = filter_values(&FilterMode::DenyList, "t", &values, &list);
        assert_eq!(allow.is_ok(), deny.is_err());
    }
}

#[test]
fn ids_are_reported_in_decimal() {
    assert_eq!(filter_ids(&FilterMode::DenyList, "sticker", &vec![3, 42], &vec![42]), Err("contains denied sticker `42`".to_owned()));
    assert_eq!(filter_ids(&FilterMode::AllowList, "sticker", &vec![3, 42], &vec![3, 42]), Ok(()));
}
