//! The shapes in which users, groups and ranks are shown to callers of the
//! request API, and in which callers hand them in.

use vstd::prelude::*;
use crate::time::{Duration, Timestamp};

verus! {

/// A permission by name, granted or denied.
#[derive(Clone, Debug, PartialEq, Eq)]
pub struct Permission {
    pub permission: String,
    pub granted: bool,
}

/// A group together with what it says of each permission.
#[derive(Clone, Debug, PartialEq, Eq)]
pub struct BppGroup {
    pub group_id: i32,
    pub group_name: String,
    pub permissions: Vec<Permission>,
    pub bonus_payout: i32,
    pub group_sorting: i32,
}

/// A rank with its requirement as a span of time.
#[derive(Clone, Debug, PartialEq, Eq)]
pub struct BppRank {
    pub rank_id: i32,
    pub rank_name: String,
    pub rank_sorting: i32,
    pub hour_requirement: Option<Duration>,
}

/// A user together with the user's groups, own permissions and rank label.
#[derive(Clone, Debug, PartialEq, Eq)]
pub struct BppUser {
    pub channel_id: String,
    pub display_name: String,
    pub hours: Option<Duration>,
    /// Balance in sixtieths of a currency unit.
    pub money: i64,
    pub first_seen_at: Option<Timestamp>,
    pub last_seen_at: Option<Timestamp>,
    pub groups: Vec<BppGroup>,
    pub permissions: Vec<Permission>,
    pub rank: String,
}

/// A listing of users with its length.
#[derive(Clone, Debug, PartialEq, Eq)]
pub struct BppUsers {
    pub users: Vec<BppUser>,
    pub count: i32,
}

/// A listing of groups with its length.
#[derive(Clone, Debug, PartialEq, Eq)]
pub struct BppGroups {
    pub groups: Vec<BppGroup>,
    pub count: i32,
}

/// A listing of ranks with its length.
#[derive(Clone, Debug, PartialEq, Eq)]
pub struct BppRanks {
    pub ranks: Vec<BppRank>,
    pub count: i32,
}

/// A request for a new group.
#[derive(Clone, Debug, PartialEq, Eq)]
pub struct CreateBppGroup {
    pub group_name: String,
    pub bonus_payout: i32,
    pub group_sorting: i32,
}

/// A request for a new rank.
#[derive(Clone, Debug, PartialEq, Eq)]
pub struct CreateBppRank {
    pub rank_name: String,
    pub rank_sorting: i32,
    pub hour_requirement: Option<Duration>,
}

/// What a `Permission` stands for.
pub struct PermissionView {
    pub permission: Seq<char>,
    pub granted: bool,
}

/// What a `BppGroup` stands for.
pub struct BppGroupView {
    pub group_id: i32,
    pub group_name: Seq<char>,
    pub permissions: Seq<PermissionView>,
    pub bonus_payout: i32,
    pub group_sorting: i32,
}

/// What a `BppRank` stands for.
pub struct BppRankView {
    pub rank_id: i32,
    pub rank_name: Seq<char>,
    pub rank_sorting: i32,
    pub hour_requirement: Option<Duration>,
}

/// What a `BppUser` stands for.
pub struct BppUserView {
    pub channel_id: Seq<char>,
    pub display_name: Seq<char>,
    pub hours: Option<Duration>,
    pub money: i64,
    pub first_seen_at: Option<Timestamp>,
    pub last_seen_at: Option<Timestamp>,
    pub groups: Seq<BppGroupView>,
    pub permissions: Seq<PermissionView>,
    pub rank: Seq<char>,
}

impl View for Permission {
    type V = PermissionView;

    open spec fn view(&self) -> PermissionView {
        PermissionView { permission: self.permission@, granted: self.granted }
    }
}

/// The views of a sequence of permissions.
pub open spec fn permission_views(permissions: Seq<Permission>) -> Seq<PermissionView> {
    Seq::new(permissions.len(), |i: int| permissions[i]@)
}

impl View for BppGroup {
    type V = BppGroupView;

    open spec fn view(&self) -> BppGroupView {
        BppGroupView {
            group_id: self.group_id,
            group_name: self.group_name@,
            permissions: permission_views(self.permissions@),
            bonus_payout: self.bonus_payout,
            group_sorting: self.group_sorting,
        }
    }
}

/// The views of a sequence of groups.
pub open spec fn group_views(groups: Seq<BppGroup>) -> Seq<BppGroupView> {
    Seq::new(groups.len(), |i: int| groups[i]@)
}

impl View for BppRank {
    type V = BppRankView;

    open spec fn view(&self) -> BppRankView {
        BppRankView {
            rank_id: self.rank_id,
            rank_name: self.rank_name@,
            rank_sorting: self.rank_sorting,
            hour_requirement: self.hour_requirement,
        }
    }
}

/// The views of a sequence of ranks.
pub open spec fn rank_views(ranks: Seq<BppRank>) -> Seq<BppRankView> {
    Seq::new(ranks.len(), |i: int| ranks[i]@)
}

impl View for BppUser {
    type V = BppUserView;

    open spec fn view(&self) -> BppUserView {
        BppUserView {
            channel_id: self.channel_id@,
            display_name: self.display_name@,
            hours: self.hours,
            money: self.money,
            first_seen_at: self.first_seen_at,
            last_seen_at: self.last_seen_at,
            groups: group_views(self.groups@),
            permissions: permission_views(self.permissions@),
            rank: self.rank@,
        }
    }
}

/// The length of a listing as it is reported: the low 32 bits of the true
/// length, read as a signed number.
pub open spec fn reported_count(len: nat) -> i32 {
    len as i32
}

} // verus!
