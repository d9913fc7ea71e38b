//! The records the entity store keeps: users, groups, ranks, permission
//! grants and group memberships.

use vstd::prelude::*;
use crate::time::{
    lemma_split_total, lemma_split_unique, subsec_nanos, total_nanos, whole_seconds, Timestamp,
};

verus! {

/// A rank label earned by watch-time.
#[derive(Clone, Debug, PartialEq, Eq)]
pub struct Rank {
    pub rank_id: i32,
    pub rank_name: String,
    /// Higher values take precedence.
    pub rank_sorting: i32,
    pub hour_requirement_seconds: i64,
    pub hour_requirement_nanos: i32,
}

/// A rank that the store has not yet given a key.
#[derive(Clone, Debug, PartialEq, Eq)]
pub struct InsertRank {
    pub rank_name: String,
    pub rank_sorting: i32,
    pub hour_requirement_seconds: i64,
    pub hour_requirement_nanos: i32,
}

/// A group of users with a bonus payout and a precedence.
#[derive(Clone, Debug, PartialEq, Eq)]
pub struct Group {
    pub group_id: i32,
    pub group_name: String,
    /// Currency units per minute, added to the base payout of each member.
    pub bonus_payout: i32,
    /// Higher values take precedence.
    pub group_sorting: i32,
}

/// A group that the store has not yet given a key.
#[derive(Clone, Debug, PartialEq, Eq)]
pub struct InsertGroup {
    pub group_name: String,
    pub bonus_payout: i32,
    pub group_sorting: i32,
}

/// The current aggregate of one viewer.
#[derive(Clone, Debug, PartialEq, Eq)]
pub struct User {
    pub channel_id: String,
    pub display_name: String,
    /// Whole seconds of accrued watch-time.
    pub hours_seconds: i64,
    /// Nanoseconds of accrued watch-time beyond the whole seconds.
    pub hours_nanos: i32,
    /// Accrued balance in sixtieths of a currency unit: payout rates are per
    /// minute and time is paid by the whole second, so that every accrual is
    /// a whole number of sixtieths.
    pub money: i64,
    pub first_seen_at: Timestamp,
    pub last_seen_at: Timestamp,
}

/// Whether a group holds a permission.
#[derive(Clone, Debug, PartialEq, Eq)]
pub struct GroupPermission {
    pub group_id: i32,
    pub permission: String,
    pub granted: bool,
}

/// Membership of a user in a group.
#[derive(Clone, Debug, PartialEq, Eq)]
pub struct GroupUser {
    pub group_id: i32,
    pub channel_id: String,
}

/// Whether a user holds a permission, whatever the user's groups say.
#[derive(Clone, Debug, PartialEq, Eq)]
pub struct UserPermission {
    pub channel_id: String,
    pub permission: String,
    pub granted: bool,
}

/// The names of permissions, without what is said of them.
#[derive(Clone, Debug, PartialEq, Eq)]
pub struct PermissionStrings(Vec<String>);

/// What a user aggregate stands for.
pub struct UserView {
    pub channel_id: Seq<char>,
    pub display_name: Seq<char>,
    /// Accrued watch-time in nanoseconds.
    pub watch_nanos: int,
    /// Accrued balance in sixtieths of a currency unit.
    pub money: int,
    /// Nanoseconds since the Unix epoch.
    pub first_seen: int,
    /// Nanoseconds since the Unix epoch.
    pub last_seen: int,
}

impl View for User {
    type V = UserView;

    open spec fn view(&self) -> UserView {
        UserView {
            channel_id: self.channel_id@,
            display_name: self.display_name@,
            watch_nanos: total_nanos(self.hours_seconds as int, self.hours_nanos as int),
            money: self.money as int,
            first_seen: self.first_seen_at@,
            last_seen: self.last_seen_at@,
        }
    }
}

impl UserView {
    /// Watch-time and balance are not negative and the user was not last
    /// seen before being first seen.
    pub open spec fn well_formed(self) -> bool {
        &&& 0 <= self.watch_nanos
        &&& 0 <= self.money
        &&& self.first_seen <= self.last_seen
    }
}

impl Rank {
    /// The watch-time this rank asks for, in nanoseconds.
    pub open spec fn requirement_nanos(&self) -> int {
        total_nanos(self.hour_requirement_seconds as int, self.hour_requirement_nanos as int)
    }
}

impl User {
    /// The watch-time is split into seconds and nanoseconds in the one
    /// canonical way.
    pub open spec fn normalized(&self) -> bool {
        0 <= self.hours_nanos < 1_000_000_000
    }

    /// The aggregate is canonical and its view is well formed.
    pub open spec fn well_formed(&self) -> bool {
        &&& self.normalized()
        &&& self.first_seen_at.well_formed()
        &&& self.last_seen_at.well_formed()
        &&& self@.well_formed()
    }

    pub fn new(
        channel_id: String,
        display_name: String,
        hours_seconds: i64,
        hours_nanos: i32,
        money: i64,
        first_seen_at: Timestamp,
        last_seen_at: Timestamp,
    ) -> (user: User)
        ensures
            user.channel_id == channel_id,
            user.display_name == display_name,
            user.hours_seconds == hours_seconds,
            user.hours_nanos == hours_nanos,
            user.money == money,
            user.first_seen_at == first_seen_at,
            user.last_seen_at == last_seen_at,
    {
        User {
            channel_id,
            display_name,
            hours_seconds,
            hours_nanos,
            money,
            first_seen_at,
            last_seen_at,
        }
    }

    /// Accrued watch-time in nanoseconds, as a machine integer.
    pub fn watch_nanos(&self) -> (n: i128)
        ensures
            n == self@.watch_nanos,
    {
        self.hours_seconds as i128 * 1_000_000_000 + self.hours_nanos as i128
    }

    /// Decides `well_formed`.
    pub fn is_well_formed(&self) -> (b: bool)
        ensures
            b == self.well_formed(),
    {
        0 <= self.hours_nanos && self.hours_nanos < 1_000_000_000
            && 0 <= self.first_seen_at.nanos && self.first_seen_at.nanos < 1_000_000_000
            && 0 <= self.last_seen_at.nanos && self.last_seen_at.nanos < 1_000_000_000
            && 0 <= self.hours_seconds
            && 0 <= self.money
            && !self.last_seen_at.is_before(&self.first_seen_at)
    }
}

/// A canonical watch-time is the split of its nanoseconds into whole
/// seconds and what is left: what a user stands for names the two fields in
/// one way only.
pub proof fn lemma_canonical_watch_time(user: User)
    requires
        user.normalized(),
    ensures
        user.hours_seconds == whole_seconds(user@.watch_nanos),
        user.hours_nanos == subsec_nanos(user@.watch_nanos),
{
    lemma_split_total(user@.watch_nanos);
    lemma_split_unique(
        user.hours_seconds as int,
        user.hours_nanos as int,
        whole_seconds(user@.watch_nanos),
        subsec_nanos(user@.watch_nanos),
    );
}

/// The sorting values of the groups, as keys to order them by.
pub open spec fn sorting_keys(groups: Seq<Group>) -> Seq<i128> {
    Seq::new(groups.len(), |i: int| groups[i].group_sorting as i128)
}

/// The sorting values of the ranks, as keys to order them by.
pub open spec fn rank_sorting_keys(ranks: Seq<Rank>) -> Seq<i128> {
    Seq::new(ranks.len(), |i: int| ranks[i].rank_sorting as i128)
}

/// The sorting values of the groups.
pub fn group_sortings(groups: &Vec<Group>) -> (keys: Vec<i128>)
    ensures
        keys@ == sorting_keys(groups@),
{
    let mut keys: Vec<i128> = Vec::new();
    let mut k: usize = 0;
    while k < groups.len()
        invariant
            k <= groups.len(),
            keys@.len() == k,
            forall|i: int| 0 <= i < k ==> keys@[i] == groups@[i].group_sorting as i128,
        decreases groups.len() - k,
    {
        keys.push(groups[k].group_sorting as i128);
        k += 1;
    }
    proof {
        assert(keys@ =~= sorting_keys(groups@));
    }
    keys
}

/// The sorting values of the ranks.
pub fn rank_sortings(ranks: &Vec<Rank>) -> (keys: Vec<i128>)
    ensures
        keys@ == rank_sorting_keys(ranks@),
{
    let mut keys: Vec<i128> = Vec::new();
    let mut k: usize = 0;
    while k < ranks.len()
        invariant
            k <= ranks.len(),
            keys@.len() == k,
            forall|i: int| 0 <= i < k ==> keys@[i] == ranks@[i].rank_sorting as i128,
        decreases ranks.len() - k,
    {
        keys.push(ranks[k].rank_sorting as i128);
        k += 1;
    }
    proof {
        assert(keys@ =~= rank_sorting_keys(ranks@));
    }
    keys
}

/// The names that the records of groups speak of, record by record.
pub open spec fn group_permission_names(permissions: Seq<GroupPermission>) -> Seq<Seq<char>> {
    Seq::new(permissions.len(), |i: int| permissions[i].permission@)
}

/// The names that the records of users speak of, record by record.
pub open spec fn user_permission_names(permissions: Seq<UserPermission>) -> Seq<Seq<char>> {
    Seq::new(permissions.len(), |i: int| permissions[i].permission@)
}

impl View for PermissionStrings {
    type V = Seq<Seq<char>>;

    /// The names, in order.
    closed spec fn view(&self) -> Seq<Seq<char>> {
        Seq::new(self.0@.len(), |i: int| self.0@[i]@)
    }
}

impl PermissionStrings {
    /// The names that the records of groups speak of.
    pub fn from_group_permissions(permissions: &Vec<GroupPermission>) -> (names:
        PermissionStrings)
        ensures
            names@ == group_permission_names(permissions@),
    {
        let mut names: Vec<String> = Vec::new();
        let mut k: usize = 0;
        while k < permissions.len()
            invariant
                k <= permissions.len(),
                names@.len() == k,
                forall|i: int| 0 <= i < k ==> (#[trigger] names@[i])@ == permissions@[i].permission@,
            decreases permissions.len() - k,
        {
            names.push(permissions[k].permission.clone());
            k += 1;
        }
        let names = PermissionStrings(names);
        proof {
            assert(names@ =~= group_permission_names(permissions@));
        }
        names
    }

    /// The names that the records of users speak of.
    pub fn from_user_permissions(permissions: &Vec<UserPermission>) -> (names: PermissionStrings)
        ensures
            names@ == user_permission_names(permissions@),
    {
        let mut names: Vec<String> = Vec::new();
        let mut k: usize = 0;
        while k < permissions.len()
            invariant
                k <= permissions.len(),
                names@.len() == k,
                forall|i: int| 0 <= i < k ==> (#[trigger] names@[i])@ == permissions@[i].permission@,
            decreases permissions.len() - k,
        {
            names.push(permissions[k].permission.clone());
            k += 1;
        }
        let names = PermissionStrings(names);
        proof {
            assert(names@ =~= user_permission_names(permissions@));
        }
        names
    }

    /// How many names there are.
    pub fn len(&self) -> (len: usize)
        ensures
            len == self@.len(),
    {
        self.0.len()
    }

    /// The name at position `i`.
    pub fn get(&self, i: usize) -> (name: &String)
        requires
            i < self@.len(),
        ensures
            name@ == self@[i as int],
    {
        &self.0[i]
    }

    /// Whether `permission` is among the names.
    pub fn contains(&self, permission: &String) -> (found: bool)
        ensures
            found == self@.contains(permission@),
    {
        let mut k: usize = 0;
        while k < self.0.len()
            invariant
                k <= self.0.len(),
                forall|i: int| 0 <= i < k ==> (#[trigger] self@[i]) != permission@,
            decreases self.0.len() - k,
        {
            if self.0[k] == *permission {
                assert(self@[k as int] == permission@);
                return true;
            }
            k += 1;
        }
        false
    }
}

} // verus!
