use userservice::models::{Group, GroupPermission, UserPermission};
use userservice::permissions::{
    find_group_permission, find_user_permission, group_verdict, user_has_permission,
};

fn group(group_id: i32, group_sorting: i32) -> Group {
    Group { group_id, group_name: format!("G{}", group_id), bonus_payout: 0, group_sorting }
}

fn says(group_id: i32, permission: &str, granted: bool) -> GroupPermission {
    GroupPermission { group_id, permission: permission.to_string(), granted }
}

fn own(channel_id: &str, permission: &str, granted: bool) -> UserPermission {
    UserPermission {
        channel_id: channel_id.to_string(),
        permission: permission.to_string(),
        granted,
    }
}

fn resolve(
    permission: &str,
    granted_default: bool,
    groups: &Vec<Group>,
    group_permissions: &Vec<GroupPermission>,
    user_permissions: &Vec<UserPermission>,
) -> bool {
    user_has_permission(
        &"user".to_string(),
        &permission.to_string(),
        granted_default,
        groups,
        group_permissions,
        user_permissions,
    )
}

#[test]
fn the_higher_group_overrides_the_lower() {
    let groups = vec![group(1, 1), group(2, 2)];
    let records = vec![says(1, "p", false), says(2, "p", true)];
    assert!(resolve("p", false, &groups, &records, &vec![]));
}

#[test]
fn the_users_own_record_overrides_the_groups() {
    let groups = vec![group(1, 1), group(2, 2)];
    let records = vec![says(1, "p", false), says(2, "p", true)];
    assert!(!resolve("p", false, &groups, &records, &vec![own("user", "p", false)]));
    assert!(!resolve("p", true, &groups, &records, &vec![own("user", "p", false)]));
    let denied = vec![says(1, "p", false), says(2, "p", false)];
    assert!(resolve("p", false, &groups, &denied, &vec![own("user", "p", true)]));
}

#[test]
fn the_order_of_the_groups_does_not_matter_when_sortings_differ() {
    let records = vec![says(1, "p", false), says(2, "p", true)];
    assert!(resolve("p", false, &vec![group(2, 2), group(1, 1)], &records, &vec![]));
    assert!(resolve("p", false, &vec![group(1, 1), group(2, 2)], &records, &vec![]));
    let records = vec![says(1, "p", true), says(2, "p", false)];
    assert!(!resolve("p", true, &vec![group(2, 2), group(1, 1)], &records, &vec![]));
    assert!(!resolve("p", true, &vec![group(1, 1), group(2, 2)], &records, &vec![]));
}

#[test]
fn the_default_stands_where_nobody_has_a_say() {
    let groups = vec![group(1, 1), group(2, 2)];
    assert!(resolve("p", true, &groups, &vec![], &vec![]));
    assert!(!resolve("p", false, &groups, &vec![], &vec![]));
    assert!(resolve("p", true, &vec![], &vec![], &vec![]));
    // records of other names, other groups and other users have no say
    let records = vec![says(1, "q", false), says(3, "p", false)];
    assert!(resolve("p", true, &groups, &records, &vec![own("user", "q", false)]));
    assert!(resolve("p", true, &groups, &records, &vec![own("other", "p", false)]));
}

#[test]
fn a_silent_high_group_leaves_the_word_to_a_lower_one() {
    let groups = vec![group(1, 1), group(2, 2), group(3, 3)];
    let records = vec![says(1, "p", true), says(2, "p", false), says(3, "q", true)];
    assert!(!resolve("p", true, &groups, &records, &vec![]));
}

#[test]
fn among_equal_sortings_the_later_group_decides() {
    let records = vec![says(1, "p", true), says(2, "p", false)];
    assert!(!resolve("p", true, &vec![group(1, 5), group(2, 5)], &records, &vec![]));
    assert!(resolve("p", false, &vec![group(2, 5), group(1, 5)], &records, &vec![]));
}

#[test]
fn negative_sortings_are_ordered_like_any_other() {
    let groups = vec![group(1, -1), group(2, -2)];
    let records = vec![says(1, "p", true), says(2, "p", false)];
    assert!(resolve("p", false, &groups, &records, &vec![]));
}

#[test]
fn the_first_record_of_a_pair_is_the_one_found() {
    let records = vec![says(1, "q", true), says(1, "p", false), says(1, "p", true)];
    assert_eq!(find_group_permission(&records, 1, &"p".to_string()), Some(false));
    assert_eq!(find_group_permission(&records, 1, &"q".to_string()), Some(true));
    assert_eq!(find_group_permission(&records, 2, &"p".to_string()), None);
    assert_eq!(find_group_permission(&vec![], 1, &"p".to_string()), None);
    let records = vec![own("a", "p", true), own("b", "p", false)];
    assert_eq!(find_user_permission(&records, &"b".to_string(), &"p".to_string()), Some(false));
    assert_eq!(find_user_permission(&records, &"a".to_string(), &"p".to_string()), Some(true));
    assert_eq!(find_user_permission(&records, &"a".to_string(), &"q".to_string()), None);
}

#[test]
fn the_groups_say_nothing_together_where_none_has_a_say() {
    let groups = vec![group(1, 1), group(2, 2)];
    let p = "p".to_string();
    assert_eq!(group_verdict(&groups, &vec![], &p), None);
    assert_eq!(group_verdict(&groups, &vec![says(1, "p", true)], &p), Some(true));
    assert_eq!(
        group_verdict(&groups, &vec![says(1, "p", true), says(2, "p", false)], &p),
        Some(false)
    );
}

#[test]
fn resolution_is_the_fold_over_groups_in_ascending_order() {
    let groups = vec![group(4, 7), group(1, 3), group(3, 7), group(2, 1), group(5, 3)];
    let records = vec![
        says(1, "p", true),
        says(2, "p", false),
        says(3, "p", false),
        says(4, "p", true),
        says(5, "q", true),
    ];
    for permission in ["p", "q", "r"] {
        for granted_default in [false, true] {
            let mut sorted: Vec<&Group> = groups.iter().collect();
            sorted.sort_by(|a, b| a.group_sorting.cmp(&b.group_sorting));
            let mut folded = granted_default;
            for g in sorted {
                if let Some(granted) =
                    find_group_permission(&records, g.group_id, &permission.to_string())
                {
                    folded = granted;
                }
            }
            assert_eq!(resolve(permission, granted_default, &groups, &records, &vec![]), folded);
        }
    }
}
