use chrysanthemum::config::Scoping;

const EMPTY_ROLES: &[u64] = &[];

#[test]
fn include_channels() {
    let scoping = Scoping {
        exclude_channels: None,
        exclude_roles: None,
        include_channels: Some(vec![1]),
    };

    assert_eq!(scoping.is_included(2, EMPTY_ROLES), false);
    assert_eq!(scoping.is_included(1, EMPTY_ROLES), true);
}

#[test]
fn exclude_channels() {
    let scoping = Scoping {
        include_channels: None,
        exclude_roles: None,
        exclude_channels: Some(vec![1]),
    };

    assert_eq!(scoping.is_included(2, EMPTY_ROLES), true);
    assert_eq!(scoping.is_included(1, EMPTY_ROLES), false);
}

#[test]
fn exclude_roles() {
    let scoping = Scoping {
        include_channels: None,
        exclude_roles: Some(vec![1]),
        exclude_channels: None,
    };

    assert_eq!(scoping.is_included(1, EMPTY_ROLES), true);
    assert_eq!(scoping.is_included(1, &[1]), false);
    assert_eq!(scoping.is_included(1, &[2]), true);
}

#[test]
fn complex_scoping() {
    let scoping = Scoping {
        include_channels: Some(vec![1]),
        exclude_channels: None,
        exclude_roles: Some(vec![1]),
    };

    assert_eq!(scoping.is_included(1, EMPTY_ROLES), true);
    assert_eq!(scoping.is_included(2, EMPTY_ROLES), false);
    assert_eq!(scoping.is_included(1, &[1]), false);
    assert_eq!(scoping.is_included(2, &[1]), false);
    assert_eq!(scoping.is_included(1, &[2]), true);
    assert_eq!(scoping.is_included(2, &[2]), false);
}

#[test]
fn unscoped_filter_applies_everywhere() {
    let scoping = Scoping { include_channels: None, exclude_channels: None, exclude_roles: None };
    assert!(scoping.is_included(7, &[1, 2, 3]));
    assert!(scoping.is_included(0, EMPTY_ROLES));
}

#[test]
fn excluded_channel_wins_over_included_channel() {
    let scoping = Scoping {
        include_channels: Some(vec![1, 2]),
        exclude_channels: Some(vec![2]),
        exclude_roles: None,
    };
    assert!(scoping.is_included(1, EMPTY_ROLES));
    assert!(!scoping.is_included(2, EMPTY_ROLES));
    assert!(!scoping.is_included(3, EMPTY_ROLES));
}

#[test]
fn any_excluded_role_excludes() {
    let scoping = Scoping {
        include_channels: None,
        exclude_channels: None,
        exclude_roles: Some(vec![5, 6]),
    };
    assert!(!scoping.is_included(1, &[1, 2, 6]));
    assert!(scoping.is_included(1, &[1, 2, 3]));
}
