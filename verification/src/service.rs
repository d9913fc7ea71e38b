//! The request API: what each operation answers, given what the entity
//! store holds.
//!
//! Nothing here reads or writes the store. An operation takes the records
//! that the driver has read and returns the answer, or the record to write.

use vstd::prelude::*;
use crate::error::ErrorKind;
use crate::messages::{
    group_views, permission_views, rank_views, reported_count, BppGroup, BppGroupView, BppGroups,
    BppRank, BppRankView, BppRanks, BppUser, BppUserView, CreateBppGroup, CreateBppRank,
    Permission, PermissionView,
};
use crate::models::{
    group_sortings, rank_sorting_keys, rank_sortings, sorting_keys, Group, GroupPermission,
    InsertGroup, InsertRank, Rank, User, UserPermission,
};
use crate::order::{arranged, lemma_stable_order_exists, precedes, sorted_positions, stable_order};
use crate::ranks::rank_label;
use crate::time::Duration;

verus! {

/// What the records say of group `group_id`, record by record.
pub open spec fn group_permissions_shown(
    records: Seq<GroupPermission>,
    group_id: i32,
) -> Seq<PermissionView>
    decreases records.len(),
{
    if records.len() == 0 {
        Seq::empty()
    } else {
        let rest = group_permissions_shown(records.drop_last(), group_id);
        if records.last().group_id == group_id {
            rest.push(
                PermissionView {
                    permission: records.last().permission@,
                    granted: records.last().granted,
                },
            )
        } else {
            rest
        }
    }
}

/// What the records say of user `channel_id`, record by record.
pub open spec fn user_permissions_shown(
    records: Seq<UserPermission>,
    channel_id: Seq<char>,
) -> Seq<PermissionView>
    decreases records.len(),
{
    if records.len() == 0 {
        Seq::empty()
    } else {
        let rest = user_permissions_shown(records.drop_last(), channel_id);
        if records.last().channel_id@ == channel_id {
            rest.push(
                PermissionView {
                    permission: records.last().permission@,
                    granted: records.last().granted,
                },
            )
        } else {
            rest
        }
    }
}

/// A group as it is shown: its own fields and its permissions.
pub open spec fn group_shown(group: Group, records: Seq<GroupPermission>) -> BppGroupView {
    BppGroupView {
        group_id: group.group_id,
        group_name: group.group_name@,
        permissions: group_permissions_shown(records, group.group_id),
        bonus_payout: group.bonus_payout,
        group_sorting: group.group_sorting,
    }
}

/// Groups as they are shown, in the order given.
pub open spec fn groups_shown(
    groups: Seq<Group>,
    records: Seq<GroupPermission>,
) -> Seq<BppGroupView> {
    Seq::new(groups.len(), |i: int| group_shown(groups[i], records))
}

/// A rank as it is shown.
pub open spec fn rank_shown(rank: Rank) -> BppRankView {
    BppRankView {
        rank_id: rank.rank_id,
        rank_name: rank.rank_name@,
        rank_sorting: rank.rank_sorting,
        hour_requirement: Some(
            Duration { seconds: rank.hour_requirement_seconds, nanos: rank.hour_requirement_nanos },
        ),
    }
}

/// A user as it is shown: the aggregate, the user's groups with their
/// permissions, the user's own permissions and the rank label.
pub open spec fn user_shown(
    user: User,
    user_groups: Seq<Group>,
    group_permissions: Seq<GroupPermission>,
    user_permissions: Seq<UserPermission>,
    ranks: Seq<Rank>,
) -> BppUserView {
    BppUserView {
        channel_id: user.channel_id@,
        display_name: user.display_name@,
        hours: Some(Duration { seconds: user.hours_seconds, nanos: user.hours_nanos }),
        money: user.money,
        first_seen_at: Some(user.first_seen_at),
        last_seen_at: Some(user.last_seen_at),
        groups: groups_shown(user_groups, group_permissions),
        permissions: user_permissions_shown(user_permissions, user.channel_id@),
        rank: rank_label(ranks, user@.watch_nanos),
    }
}

/// The permissions of group `group_id`, in the order of the records.
pub fn permissions_of_group(records: &Vec<GroupPermission>, group_id: i32) -> (shown: Vec<
    Permission,
>)
    ensures
        permission_views(shown@) == group_permissions_shown(records@, group_id),
{
    let mut shown: Vec<Permission> = Vec::new();
    let mut k: usize = 0;
    while k < records.len()
        invariant
            k <= records.len(),
            permission_views(shown@) == group_permissions_shown(records@.take(k as int), group_id),
        decreases records.len() - k,
    {
        proof {
            assert(records@.take(k + 1).drop_last() =~= records@.take(k as int));
        }
        if records[k].group_id == group_id {
            let ghost before = shown@;
            shown.push(
                Permission { permission: records[k].permission.clone(), granted: records[k].granted },
            );
            proof {
                assert(permission_views(shown@) =~= permission_views(before).push(
                    shown@.last()@,
                ));
            }
        }
        k += 1;
    }
    proof {
        assert(records@.take(k as int) =~= records@);
    }
    shown
}

/// The permissions of user `channel_id`, in the order of the records.
pub fn permissions_of_user(records: &Vec<UserPermission>, channel_id: &String) -> (shown: Vec<
    Permission,
>)
    ensures
        permission_views(shown@) == user_permissions_shown(records@, channel_id@),
{
    let mut shown: Vec<Permission> = Vec::new();
    let mut k: usize = 0;
    while k < records.len()
        invariant
            k <= records.len(),
            permission_views(shown@) == user_permissions_shown(
                records@.take(k as int),
                channel_id@,
            ),
        decreases records.len() - k,
    {
        proof {
            assert(records@.take(k + 1).drop_last() =~= records@.take(k as int));
        }
        if records[k].channel_id == *channel_id {
            let ghost before = shown@;
            shown.push(
                Permission { permission: records[k].permission.clone(), granted: records[k].granted },
            );
            proof {
                assert(permission_views(shown@) =~= permission_views(before).push(
                    shown@.last()@,
                ));
            }
        }
        k += 1;
    }
    proof {
        assert(records@.take(k as int) =~= records@);
    }
    shown
}

impl Group {
    /// The group as it is shown, with what `group_permissions` say of it.
    pub fn to_userservice_group(&self, group_permissions: &Vec<GroupPermission>) -> (shown:
        BppGroup)
        ensures
            shown@ == group_shown(*self, group_permissions@),
    {
        BppGroup {
            group_id: self.group_id,
            group_name: self.group_name.clone(),
            permissions: permissions_of_group(group_permissions, self.group_id),
            bonus_payout: self.bonus_payout,
            group_sorting: self.group_sorting,
        }
    }
}

impl Rank {
    /// The rank as it is shown.
    pub fn to_userservice_rank(&self) -> (shown: BppRank)
        ensures
            shown@ == rank_shown(*self),
    {
        BppRank {
            rank_id: self.rank_id,
            rank_name: self.rank_name.clone(),
            rank_sorting: self.rank_sorting,
            hour_requirement: Some(
                Duration {
                    seconds: self.hour_requirement_seconds,
                    nanos: self.hour_requirement_nanos,
                },
            ),
        }
    }
}

/// The groups as they are shown, in the order given.
pub fn show_groups(groups: &Vec<Group>, group_permissions: &Vec<GroupPermission>) -> (shown: Vec<
    BppGroup,
>)
    ensures
        shown@.len() == groups@.len(),
        group_views(shown@) == groups_shown(groups@, group_permissions@),
{
    let mut shown: Vec<BppGroup> = Vec::new();
    let mut k: usize = 0;
    while k < groups.len()
        invariant
            k <= groups.len(),
            shown@.len() == k,
            forall|i: int|
                0 <= i < k ==> (#[trigger] shown@[i])@ == group_shown(
                    groups@[i],
                    group_permissions@,
                ),
        decreases groups.len() - k,
    {
        shown.push(groups[k].to_userservice_group(group_permissions));
        k += 1;
    }
    proof {
        assert(group_views(shown@) =~= groups_shown(groups@, group_permissions@));
    }
    shown
}

impl User {
    /// The user as it is shown: `user_groups` are the groups the user
    /// belongs to, `group_permissions` the records of those groups,
    /// `user_permissions` the records of users and `ranks` all ranks.
    pub fn to_userservice_user(
        self,
        user_groups: &Vec<Group>,
        group_permissions: &Vec<GroupPermission>,
        user_permissions: &Vec<UserPermission>,
        ranks: &Vec<Rank>,
    ) -> (shown: BppUser)
        ensures
            shown@ == user_shown(
                self,
                user_groups@,
                group_permissions@,
                user_permissions@,
                ranks@,
            ),
    {
        let rank = self.rank_label(ranks);
        let groups = show_groups(user_groups, group_permissions);
        let permissions = permissions_of_user(user_permissions, &self.channel_id);
        BppUser {
            channel_id: self.channel_id,
            display_name: self.display_name,
            hours: Some(Duration { seconds: self.hours_seconds, nanos: self.hours_nanos }),
            money: self.money,
            first_seen_at: Some(self.first_seen_at),
            last_seen_at: Some(self.last_seen_at),
            groups,
            permissions,
            rank,
        }
    }
}

/// The groups in the order of a listing: descending by sorting value,
/// groups of equal value in the order they came in.
pub open spec fn groups_listed(groups: Seq<Group>) -> Seq<Group> {
    arranged(groups, stable_order(sorting_keys(groups), true))
}

/// The ranks in the order of a listing: descending by sorting value, ranks
/// of equal value in the order they came in.
pub open spec fn ranks_listed(ranks: Seq<Rank>) -> Seq<Rank> {
    arranged(ranks, stable_order(rank_sorting_keys(ranks), true))
}

/// Ranks as they are shown, in the order given.
pub open spec fn ranks_shown(ranks: Seq<Rank>) -> Seq<BppRankView> {
    Seq::new(ranks.len(), |i: int| rank_shown(ranks[i]))
}

/// The listing of all groups, highest sorting value first, each group with
/// its permissions.
pub fn get_groups(groups: &Vec<Group>, group_permissions: &Vec<GroupPermission>) -> (listing:
    BppGroups)
    ensures
        listing.groups@.len() == groups@.len(),
        group_views(listing.groups@) == groups_shown(groups_listed(groups@), group_permissions@),
        listing.count == reported_count(groups@.len()),
{
    let keys = group_sortings(groups);
    let order = sorted_positions(&keys, true);
    let mut shown: Vec<BppGroup> = Vec::new();
    let mut k: usize = 0;
    while k < order.len()
        invariant
            k <= order.len(),
            order@.len() == groups@.len(),
            forall|i: int| 0 <= i < order@.len() ==> (#[trigger] order@[i]) < groups@.len(),
            shown@.len() == k,
            forall|i: int|
                0 <= i < k ==> (#[trigger] shown@[i])@ == group_shown(
                    groups@[order@[i] as int],
                    group_permissions@,
                ),
        decreases order.len() - k,
    {
        shown.push(groups[order[k]].to_userservice_group(group_permissions));
        k += 1;
    }
    proof {
        assert(group_views(shown@) =~= groups_shown(groups_listed(groups@), group_permissions@));
    }
    BppGroups { groups: shown, count: #[verifier::truncate] (groups.len() as i32) }
}

/// The listing of all ranks, highest sorting value first.
pub fn get_ranks(ranks: &Vec<Rank>) -> (listing: BppRanks)
    ensures
        listing.ranks@.len() == ranks@.len(),
        rank_views(listing.ranks@) == ranks_shown(ranks_listed(ranks@)),
        listing.count == reported_count(ranks@.len()),
{
    let keys = rank_sortings(ranks);
    let order = sorted_positions(&keys, true);
    let mut shown: Vec<BppRank> = Vec::new();
    let mut k: usize = 0;
    while k < order.len()
        invariant
            k <= order.len(),
            order@.len() == ranks@.len(),
            forall|i: int| 0 <= i < order@.len() ==> (#[trigger] order@[i]) < ranks@.len(),
            shown@.len() == k,
            forall|i: int|
                0 <= i < k ==> (#[trigger] shown@[i])@ == rank_shown(ranks@[order@[i] as int]),
        decreases order.len() - k,
    {
        shown.push(ranks[order[k]].to_userservice_rank());
        k += 1;
    }
    proof {
        assert(rank_views(shown@) =~= ranks_shown(ranks_listed(ranks@)));
    }
    BppRanks { ranks: shown, count: #[verifier::truncate] (ranks.len() as i32) }
}

/// A listing of groups shows every group once and no group before one of
/// higher sorting value.
pub proof fn lemma_groups_listed_by_priority(groups: Seq<Group>)
    requires
        groups.len() <= usize::MAX,
    ensures
        groups_listed(groups).len() == groups.len(),
        forall|i: int, j: int|
            0 <= i <= j < groups.len() ==> (#[trigger] groups_listed(groups)[i]).group_sorting >= (
            #[trigger] groups_listed(groups)[j]).group_sorting,
        forall|p: int| 0 <= p < groups.len() ==> groups_listed(groups).contains(#[trigger] groups[p]),
{
    let keys = sorting_keys(groups);
    let order = stable_order(keys, true);
    let listed = groups_listed(groups);
    lemma_stable_order_exists(keys, true);
    assert forall|i: int, j: int| 0 <= i <= j < groups.len() implies (#[trigger] listed[i]).group_sorting
        >= (#[trigger] listed[j]).group_sorting by {
        if i < j {
            assert(precedes(keys, true, order[i] as int, order[j] as int));
        }
    }
    assert forall|p: int| 0 <= p < groups.len() implies listed.contains(#[trigger] groups[p]) by {
        assert(order.contains(p as usize));
        let i = choose|i: int| 0 <= i < order.len() && order[i] == p as usize;
        assert(listed[i] == groups[p]);
    }
}

/// A listing of ranks shows every rank once and no rank before one of
/// higher sorting value.
pub proof fn lemma_ranks_listed_by_priority(ranks: Seq<Rank>)
    requires
        ranks.len() <= usize::MAX,
    ensures
        ranks_listed(ranks).len() == ranks.len(),
        forall|i: int, j: int|
            0 <= i <= j < ranks.len() ==> (#[trigger] ranks_listed(ranks)[i]).rank_sorting >= (
            #[trigger] ranks_listed(ranks)[j]).rank_sorting,
        forall|p: int| 0 <= p < ranks.len() ==> ranks_listed(ranks).contains(#[trigger] ranks[p]),
{
    let keys = rank_sorting_keys(ranks);
    let order = stable_order(keys, true);
    let listed = ranks_listed(ranks);
    lemma_stable_order_exists(keys, true);
    assert forall|i: int, j: int| 0 <= i <= j < ranks.len() implies (#[trigger] listed[i]).rank_sorting
        >= (#[trigger] listed[j]).rank_sorting by {
        if i < j {
            assert(precedes(keys, true, order[i] as int, order[j] as int));
        }
    }
    assert forall|p: int| 0 <= p < ranks.len() implies listed.contains(#[trigger] ranks[p]) by {
        assert(order.contains(p as usize));
        let i = choose|i: int| 0 <= i < order.len() && order[i] == p as usize;
        assert(listed[i] == ranks[p]);
    }
}

/// Answers a request for one user: the user as it is shown, or `NotFound`
/// where the store holds no such user.
pub fn get_user_by_id(
    found: Option<User>,
    user_groups: &Vec<Group>,
    group_permissions: &Vec<GroupPermission>,
    user_permissions: &Vec<UserPermission>,
    ranks: &Vec<Rank>,
) -> (reply: Result<BppUser, ErrorKind>)
    ensures
        match found {
            Some(user) => reply matches Ok(shown) && shown@ == user_shown(
                user,
                user_groups@,
                group_permissions@,
                user_permissions@,
                ranks@,
            ),
            None => reply == Err::<BppUser, ErrorKind>(ErrorKind::NotFound),
        },
{
    match found {
        Some(user) => Ok(
            user.to_userservice_user(user_groups, group_permissions, user_permissions, ranks),
        ),
        None => Err(ErrorKind::NotFound),
    }
}

/// Answers a request for a new group once the store has been asked to
/// insert it: the group as it is shown, or `StoreUnavailable` where the
/// store did not hand the new group back.
pub fn create_group(created: Option<Group>, group_permissions: &Vec<GroupPermission>) -> (reply:
    Result<BppGroup, ErrorKind>)
    ensures
        match created {
            Some(group) => reply matches Ok(shown) && shown@ == group_shown(
                group,
                group_permissions@,
            ),
            None => reply == Err::<BppGroup, ErrorKind>(ErrorKind::StoreUnavailable),
        },
{
    match created {
        Some(group) => Ok(group.to_userservice_group(group_permissions)),
        None => Err(ErrorKind::StoreUnavailable),
    }
}

/// Answers a request for a new rank once the store has been asked to
/// insert it: the rank as it is shown, or `StoreUnavailable` where the
/// store did not hand the new rank back.
pub fn create_rank(created: Option<Rank>) -> (reply: Result<BppRank, ErrorKind>)
    ensures
        match created {
            Some(rank) => reply matches Ok(shown) && shown@ == rank_shown(rank),
            None => reply == Err::<BppRank, ErrorKind>(ErrorKind::StoreUnavailable),
        },
{
    match created {
        Some(rank) => Ok(rank.to_userservice_rank()),
        None => Err(ErrorKind::StoreUnavailable),
    }
}

impl From<BppGroup> for Group {
    fn from(bpp_group: BppGroup) -> (group: Group) {
        Group {
            group_id: bpp_group.group_id,
            group_name: bpp_group.group_name,
            bonus_payout: bpp_group.bonus_payout,
            group_sorting: bpp_group.group_sorting,
        }
    }
}

impl vstd::std_specs::convert::FromSpecImpl<BppGroup> for Group {
    open spec fn obeys_from_spec() -> bool {
        true
    }

    /// The group that a shown group stands for: its own fields, without
    /// the permissions.
    open spec fn from_spec(bpp_group: BppGroup) -> Group {
        Group {
            group_id: bpp_group.group_id,
            group_name: bpp_group.group_name,
            bonus_payout: bpp_group.bonus_payout,
            group_sorting: bpp_group.group_sorting,
        }
    }
}

impl From<CreateBppGroup> for InsertGroup {
    fn from(request: CreateBppGroup) -> (group: InsertGroup) {
        InsertGroup {
            group_name: request.group_name,
            bonus_payout: request.bonus_payout,
            group_sorting: request.group_sorting,
        }
    }
}

impl vstd::std_specs::convert::FromSpecImpl<CreateBppGroup> for InsertGroup {
    open spec fn obeys_from_spec() -> bool {
        true
    }

    /// The group to insert for a request.
    open spec fn from_spec(request: CreateBppGroup) -> InsertGroup {
        InsertGroup {
            group_name: request.group_name,
            bonus_payout: request.bonus_payout,
            group_sorting: request.group_sorting,
        }
    }
}

/// The span that a message carries, or no time at all where it carries
/// none.
pub open spec fn span_or_zero(span: Option<Duration>) -> Duration {
    match span {
        Some(span) => span,
        None => Duration { seconds: 0, nanos: 0 },
    }
}

impl From<CreateBppRank> for InsertRank {
    fn from(request: CreateBppRank) -> (rank: InsertRank) {
        let requirement = match request.hour_requirement {
            Some(span) => span,
            None => Duration { seconds: 0, nanos: 0 },
        };
        InsertRank {
            rank_name: request.rank_name,
            rank_sorting: request.rank_sorting,
            hour_requirement_seconds: requirement.seconds,
            hour_requirement_nanos: requirement.nanos,
        }
    }
}

impl vstd::std_specs::convert::FromSpecImpl<CreateBppRank> for InsertRank {
    open spec fn obeys_from_spec() -> bool {
        true
    }

    /// The rank to insert for a request: without a requirement in the
    /// request the rank asks for no watch-time.
    open spec fn from_spec(request: CreateBppRank) -> InsertRank {
        InsertRank {
            rank_name: request.rank_name,
            rank_sorting: request.rank_sorting,
            hour_requirement_seconds: span_or_zero(request.hour_requirement).seconds,
            hour_requirement_nanos: span_or_zero(request.hour_requirement).nanos,
        }
    }
}

impl From<BppRank> for Rank {
    fn from(bpp_rank: BppRank) -> (rank: Rank) {
        let requirement = match bpp_rank.hour_requirement {
            Some(span) => span,
            None => Duration { seconds: 0, nanos: 0 },
        };
        Rank {
            rank_id: bpp_rank.rank_id,
            rank_name: bpp_rank.rank_name,
            rank_sorting: bpp_rank.rank_sorting,
            hour_requirement_seconds: requirement.seconds,
            hour_requirement_nanos: requirement.nanos,
        }
    }
}

impl vstd::std_specs::convert::FromSpecImpl<BppRank> for Rank {
    open spec fn obeys_from_spec() -> bool {
        true
    }

    /// The rank that a shown rank stands for: without a requirement it
    /// asks for no watch-time.
    open spec fn from_spec(bpp_rank: BppRank) -> Rank {
        Rank {
            rank_id: bpp_rank.rank_id,
            rank_name: bpp_rank.rank_name,
            rank_sorting: bpp_rank.rank_sorting,
            hour_requirement_seconds: span_or_zero(bpp_rank.hour_requirement).seconds,
            hour_requirement_nanos: span_or_zero(bpp_rank.hour_requirement).nanos,
        }
    }
}

impl User {
    /// The aggregate that a shown user stands for: the user's own fields,
    /// without groups, permissions and rank. Without a watch-time in the
    /// message the user has none. The message must say when the user was
    /// first and last seen.
    pub fn from_userservice_user(user: &BppUser) -> (aggregate: User)
        requires
            user.first_seen_at is Some,
            user.last_seen_at is Some,
        ensures
            aggregate.channel_id == user.channel_id,
            aggregate.display_name == user.display_name,
            aggregate.hours_seconds == span_or_zero(user.hours).seconds,
            aggregate.hours_nanos == span_or_zero(user.hours).nanos,
            aggregate.money == user.money,
            Some(aggregate.first_seen_at) == user.first_seen_at,
            Some(aggregate.last_seen_at) == user.last_seen_at,
    {
        let hours = match user.hours {
            Some(span) => span,
            None => Duration { seconds: 0, nanos: 0 },
        };
        User {
            channel_id: user.channel_id.clone(),
            display_name: user.display_name.clone(),
            hours_seconds: hours.seconds,
            hours_nanos: hours.nanos,
            money: user.money,
            first_seen_at: user.first_seen_at.unwrap(),
            last_seen_at: user.last_seen_at.unwrap(),
        }
    }
}

/// The record that grants a permission to a user.
pub fn user_grant_permission(channel_id: String, permission: String) -> (record: UserPermission)
    ensures
        record == (UserPermission { channel_id, permission, granted: true }),
{
    UserPermission { channel_id, permission, granted: true }
}

/// The record that denies a permission to a user.
pub fn user_revoke_permission(channel_id: String, permission: String) -> (record: UserPermission)
    ensures
        record == (UserPermission { channel_id, permission, granted: false }),
{
    UserPermission { channel_id, permission, granted: false }
}

/// The record that grants a permission to a group.
pub fn group_grant_permission(group_id: i32, permission: String) -> (record: GroupPermission)
    ensures
        record == (GroupPermission { group_id, permission, granted: true }),
{
    GroupPermission { group_id, permission, granted: true }
}

/// The record that denies a permission to a group.
pub fn group_revoke_permission(group_id: i32, permission: String) -> (record: GroupPermission)
    ensures
        record == (GroupPermission { group_id, permission, granted: false }),
{
    GroupPermission { group_id, permission, granted: false }
}

} // verus!
