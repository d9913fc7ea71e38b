use userservice::error::ErrorKind;
use userservice::messages::{
    BppGroup, BppRank, BppUser, CreateBppGroup, CreateBppRank, Permission,
};
use userservice::models::{
    Group, GroupPermission, InsertGroup, InsertRank, Rank, User, UserPermission,
};
use userservice::service::{
    create_group, create_rank, get_groups, get_ranks, get_user_by_id, group_grant_permission,
    group_revoke_permission, permissions_of_group, permissions_of_user, show_groups,
    user_grant_permission, user_revoke_permission,
};
use userservice::time::{Duration, Timestamp};

fn group(group_id: i32, name: &str, bonus_payout: i32, group_sorting: i32) -> Group {
    Group { group_id, group_name: name.to_string(), bonus_payout, group_sorting }
}

fn rank(rank_id: i32, name: &str, rank_sorting: i32, seconds: i64) -> Rank {
    Rank {
        rank_id,
        rank_name: name.to_string(),
        rank_sorting,
        hour_requirement_seconds: seconds,
        hour_requirement_nanos: 0,
    }
}

fn says(group_id: i32, permission: &str, granted: bool) -> GroupPermission {
    GroupPermission { group_id, permission: permission.to_string(), granted }
}

fn own(channel_id: &str, permission: &str, granted: bool) -> UserPermission {
    UserPermission {
        channel_id: channel_id.to_string(),
        permission: permission.to_string(),
        granted,
    }
}

fn permission(name: &str, granted: bool) -> Permission {
    Permission { permission: name.to_string(), granted }
}

fn viewer() -> User {
    User::new(
        "abc".to_string(),
        "Abc".to_string(),
        7200,
        5,
        90,
        Timestamp::new(1000, 1),
        Timestamp::new(2000, 2),
    )
}

fn shown_viewer() -> BppUser {
    BppUser {
        channel_id: "abc".to_string(),
        display_name: "Abc".to_string(),
        hours: Some(Duration::new(7200, 5)),
        money: 90,
        first_seen_at: Some(Timestamp::new(1000, 1)),
        last_seen_at: Some(Timestamp::new(2000, 2)),
        groups: vec![
            BppGroup {
                group_id: 1,
                group_name: "mods".to_string(),
                permissions: vec![permission("ban", true), permission("post", false)],
                bonus_payout: 5,
                group_sorting: 10,
            },
            BppGroup {
                group_id: 2,
                group_name: "subs".to_string(),
                permissions: vec![],
                bonus_payout: 1,
                group_sorting: 20,
            },
        ],
        permissions: vec![permission("post", true)],
        rank: "regular".to_string(),
    }
}

fn records() -> Vec<GroupPermission> {
    vec![says(1, "ban", true), says(3, "ban", false), says(1, "post", false)]
}

#[test]
fn a_user_is_shown_with_groups_permissions_and_rank() {
    let groups = vec![group(1, "mods", 5, 10), group(2, "subs", 1, 20)];
    let user_records = vec![own("xyz", "ban", true), own("abc", "post", true)];
    let ranks = vec![rank(1, "regular", 1, 3600), rank(2, "veteran", 2, 360_000)];
    let shown = viewer().to_userservice_user(&groups, &records(), &user_records, &ranks);
    assert_eq!(shown, shown_viewer());
}

#[test]
fn a_user_without_rank_is_shown_with_the_default_label() {
    let shown = viewer().to_userservice_user(&vec![], &vec![], &vec![], &vec![]);
    assert_eq!(shown.rank, "default");
    assert_eq!(shown.groups, vec![]);
    assert_eq!(shown.permissions, vec![]);
}

#[test]
fn a_user_that_is_not_there_is_not_found() {
    assert_eq!(get_user_by_id(None, &vec![], &vec![], &vec![], &vec![]), Err(ErrorKind::NotFound));
    let found = get_user_by_id(Some(viewer()), &vec![], &vec![], &vec![], &vec![]);
    assert_eq!(found.unwrap().channel_id, "abc");
}

#[test]
fn permissions_are_shown_for_their_owner_only() {
    assert_eq!(
        permissions_of_group(&records(), 1),
        vec![permission("ban", true), permission("post", false)]
    );
    assert_eq!(permissions_of_group(&records(), 3), vec![permission("ban", false)]);
    assert_eq!(permissions_of_group(&records(), 2), vec![]);
    let user_records = vec![own("a", "p", true), own("b", "q", false), own("a", "r", false)];
    assert_eq!(
        permissions_of_user(&user_records, &"a".to_string()),
        vec![permission("p", true), permission("r", false)]
    );
    assert_eq!(permissions_of_user(&user_records, &"c".to_string()), vec![]);
}

#[test]
fn groups_are_listed_by_descending_sorting() {
    let groups = vec![
        group(1, "low", 0, 1),
        group(2, "high", 0, 30),
        group(3, "mid", 0, 20),
        group(4, "mid too", 0, 20),
    ];
    let listing = get_groups(&groups, &records());
    let ids: Vec<i32> = listing.groups.iter().map(|g| g.group_id).collect();
    assert_eq!(ids, vec![2, 3, 4, 1]);
    assert_eq!(listing.count, 4);
    assert_eq!(
        listing.groups[3],
        BppGroup {
            group_id: 1,
            group_name: "low".to_string(),
            permissions: vec![permission("ban", true), permission("post", false)],
            bonus_payout: 0,
            group_sorting: 1,
        }
    );
    let empty = get_groups(&vec![], &records());
    assert_eq!((empty.groups.len(), empty.count), (0, 0));
    // as given, where no order is asked for
    let ids: Vec<i32> = show_groups(&groups, &vec![]).iter().map(|g| g.group_id).collect();
    assert_eq!(ids, vec![1, 2, 3, 4]);
}

#[test]
fn ranks_are_listed_by_descending_sorting() {
    let ranks = vec![rank(1, "a", 2, 10), rank(2, "b", 3, 20), rank(3, "c", 1, 30), rank(4, "d", 3, 5)];
    let listing = get_ranks(&ranks);
    let ids: Vec<i32> = listing.ranks.iter().map(|r| r.rank_id).collect();
    assert_eq!(ids, vec![2, 4, 1, 3]);
    assert_eq!(listing.count, 4);
    assert_eq!(
        listing.ranks[0],
        BppRank {
            rank_id: 2,
            rank_name: "b".to_string(),
            rank_sorting: 3,
            hour_requirement: Some(Duration::new(20, 0)),
        }
    );
}

#[test]
fn a_created_group_is_shown_and_a_failed_insert_is_reported() {
    let request = CreateBppGroup { group_name: "new".to_string(), bonus_payout: 3, group_sorting: 4 };
    assert_eq!(
        InsertGroup::from(request),
        InsertGroup { group_name: "new".to_string(), bonus_payout: 3, group_sorting: 4 }
    );
    let reply = create_group(Some(group(9, "new", 3, 4)), &vec![says(9, "p", true)]);
    assert_eq!(
        reply,
        Ok(BppGroup {
            group_id: 9,
            group_name: "new".to_string(),
            permissions: vec![permission("p", true)],
            bonus_payout: 3,
            group_sorting: 4,
        })
    );
    assert_eq!(create_group(None, &vec![]), Err(ErrorKind::StoreUnavailable));
}

#[test]
fn a_created_rank_is_shown_and_a_failed_insert_is_reported() {
    let request = CreateBppRank {
        rank_name: "new".to_string(),
        rank_sorting: 2,
        hour_requirement: Some(Duration::new(60, 7)),
    };
    assert_eq!(
        InsertRank::from(request),
        InsertRank {
            rank_name: "new".to_string(),
            rank_sorting: 2,
            hour_requirement_seconds: 60,
            hour_requirement_nanos: 7,
        }
    );
    let bare = CreateBppRank { rank_name: "new".to_string(), rank_sorting: 2, hour_requirement: None };
    let inserted = InsertRank::from(bare);
    assert_eq!((inserted.hour_requirement_seconds, inserted.hour_requirement_nanos), (0, 0));
    assert_eq!(create_rank(Some(rank(5, "new", 2, 60))).unwrap().rank_id, 5);
    assert_eq!(create_rank(None), Err(ErrorKind::StoreUnavailable));
}

#[test]
fn shown_values_convert_back_to_records() {
    let shown = shown_viewer();
    assert_eq!(User::from_userservice_user(&shown), viewer());
    let mut bare = shown_viewer();
    bare.hours = None;
    let aggregate = User::from_userservice_user(&bare);
    assert_eq!((aggregate.hours_seconds, aggregate.hours_nanos), (0, 0));
    assert_eq!(Group::from(shown.groups[0].clone()), group(1, "mods", 5, 10));
    let shown_rank = rank(3, "r", 4, 50).to_userservice_rank();
    assert_eq!(Rank::from(shown_rank), rank(3, "r", 4, 50));
    let no_requirement =
        BppRank { rank_id: 1, rank_name: "r".to_string(), rank_sorting: 0, hour_requirement: None };
    assert_eq!(Rank::from(no_requirement), rank(1, "r", 0, 0));
}

#[test]
fn grants_and_revocations_become_records() {
    assert_eq!(user_grant_permission("abc".to_string(), "p".to_string()), own("abc", "p", true));
    assert_eq!(user_revoke_permission("abc".to_string(), "p".to_string()), own("abc", "p", false));
    assert_eq!(group_grant_permission(4, "p".to_string()), says(4, "p", true));
    assert_eq!(group_revoke_permission(4, "p".to_string()), says(4, "p", false));
}
