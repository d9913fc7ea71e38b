//! Listing users by filter and sort order.
//!
//! A filter admits the users whose field equals the value it carries. A
//! query admits the users that all its filters admit, and lists them by
//! watch-time or balance, ascending or descending, or in the order in which
//! they were handed in. Users with equal keys keep that order.

use vstd::prelude::*;
use crate::error::ErrorKind;
use crate::messages::{reported_count, BppUser, BppUsers};
use crate::models::User;
use crate::order::{arranged, sorted_positions, stable_order};

verus! {

/// A condition on one field of a user.
#[derive(Clone, Debug, PartialEq, Eq)]
pub enum UserFilter {
    /// The identity key is this.
    ChannelId(String),
    /// The display name is this.
    Name(String),
    /// The whole seconds of watch-time are this many.
    Hours(i64),
    /// The balance is this many sixtieths of a currency unit.
    Money(i64),
}

/// The order of a listing of users.
#[derive(Clone, Copy, Debug, PartialEq, Eq, Structural)]
pub enum SortingFields {
    /// As handed in.
    Default,
    /// Least watch-time first.
    HoursAsc,
    /// Most watch-time first.
    HoursDesc,
    /// Lowest balance first.
    MoneyAsc,
    /// Highest balance first.
    MoneyDesc,
}

/// A request for a listing of users, checked.
#[derive(Clone, Debug, PartialEq, Eq)]
pub struct UserQuery {
    pub filters: Vec<UserFilter>,
    pub sorting: SortingFields,
}

impl UserFilter {
    /// Whether the filter admits the user.
    pub open spec fn admits(self, user: User) -> bool {
        match self {
            UserFilter::ChannelId(channel_id) => user.channel_id@ == channel_id@,
            UserFilter::Name(display_name) => user.display_name@ == display_name@,
            UserFilter::Hours(seconds) => user.hours_seconds == seconds,
            UserFilter::Money(money) => user.money == money,
        }
    }

    /// Decides `admits`.
    pub fn matches(&self, user: &User) -> (admitted: bool)
        ensures
            admitted == self.admits(*user),
    {
        match self {
            UserFilter::ChannelId(channel_id) => user.channel_id == *channel_id,
            UserFilter::Name(display_name) => user.display_name == *display_name,
            UserFilter::Hours(seconds) => user.hours_seconds == *seconds,
            UserFilter::Money(money) => user.money == *money,
        }
    }

    /// A filter equal to this one.
    fn duplicate(&self) -> (copy: UserFilter)
        ensures
            copy == *self,
    {
        match self {
            UserFilter::ChannelId(channel_id) => UserFilter::ChannelId(channel_id.clone()),
            UserFilter::Name(display_name) => UserFilter::Name(display_name.clone()),
            UserFilter::Hours(seconds) => UserFilter::Hours(*seconds),
            UserFilter::Money(money) => UserFilter::Money(*money),
        }
    }
}

/// Whether every filter admits the user.
pub open spec fn admits_all(filters: Seq<UserFilter>, user: User) -> bool {
    forall|i: int| 0 <= i < filters.len() ==> (#[trigger] filters[i]).admits(user)
}

/// The positions of the users that every filter admits, in ascending order.
pub open spec fn admitted(users: Seq<User>, filters: Seq<UserFilter>) -> Seq<usize>
    decreases users.len(),
{
    if users.len() == 0 {
        Seq::empty()
    } else {
        let rest = admitted(users.drop_last(), filters);
        if admits_all(filters, users.last()) {
            rest.push((users.len() - 1) as usize)
        } else {
            rest
        }
    }
}

/// The key by which a user is sorted: watch-time in nanoseconds or balance
/// in sixtieths of a currency unit.
pub open spec fn sort_key(user: User, sorting: SortingFields) -> int {
    match sorting {
        SortingFields::HoursAsc | SortingFields::HoursDesc => user@.watch_nanos,
        _ => user@.money,
    }
}

/// The sort keys of the users at the given positions.
pub open spec fn sort_keys(users: Seq<User>, positions: Seq<usize>, sorting: SortingFields) -> Seq<
    i128,
> {
    Seq::new(positions.len(), |i: int| sort_key(users[positions[i] as int], sorting) as i128)
}

/// Whether the order is a descending one.
pub open spec fn is_descending(sorting: SortingFields) -> bool {
    sorting is HoursDesc || sorting is MoneyDesc
}

/// The positions of the users that a query lists, in the order in which it
/// lists them.
pub open spec fn selected(users: Seq<User>, filters: Seq<UserFilter>, sorting: SortingFields) -> Seq<
    usize,
> {
    let positions = admitted(users, filters);
    if sorting is Default {
        positions
    } else {
        arranged(
            positions,
            stable_order(sort_keys(users, positions, sorting), is_descending(sorting)),
        )
    }
}

/// Whether a request for a listing is well formed: no filter is missing its
/// condition and the sort order is one that is known.
pub open spec fn well_formed_request(
    filters: Seq<Option<UserFilter>>,
    sorting: Option<SortingFields>,
) -> bool {
    sorting is Some && forall|i: int| 0 <= i < filters.len() ==> (#[trigger] filters[i]) is Some
}

impl UserQuery {
    /// Checks a request for a listing of users: `filters` holds `None`
    /// where a filter came without a condition, and `sorting` is `None`
    /// where the sort order asked for is not a known one. A request with
    /// either is refused with `ValidationFailure`.
    pub fn new(filters: &Vec<Option<UserFilter>>, sorting: Option<SortingFields>) -> (checked:
        Result<UserQuery, ErrorKind>)
        ensures
            match checked {
                Ok(query) => {
                    &&& well_formed_request(filters@, sorting)
                    &&& Some(query.sorting) == sorting
                    &&& query.filters@.len() == filters@.len()
                    &&& forall|i: int|
                        0 <= i < filters@.len() ==> Some(#[trigger] query.filters@[i])
                            == filters@[i]
                },
                Err(kind) => !well_formed_request(filters@, sorting) && kind
                    == ErrorKind::ValidationFailure,
            },
    {
        let order = match sorting {
            Some(order) => order,
            None => { return Err(ErrorKind::ValidationFailure); },
        };
        let mut conditions: Vec<UserFilter> = Vec::new();
        let mut k: usize = 0;
        while k < filters.len()
            invariant
                k <= filters.len(),
                conditions@.len() == k,
                forall|i: int| 0 <= i < k ==> Some(#[trigger] conditions@[i]) == filters@[i],
                forall|i: int| 0 <= i < k ==> (#[trigger] filters@[i]) is Some,
            decreases filters.len() - k,
        {
            match &filters[k] {
                Some(filter) => {
                    conditions.push(filter.duplicate());
                },
                None => {
                    return Err(ErrorKind::ValidationFailure);
                },
            }
            k += 1;
        }
        Ok(UserQuery { filters: conditions, sorting: order })
    }

    /// Whether every filter of the query admits the user.
    pub fn matches(&self, user: &User) -> (admitted: bool)
        ensures
            admitted == admits_all(self.filters@, *user),
    {
        let mut k: usize = 0;
        while k < self.filters.len()
            invariant
                k <= self.filters.len(),
                forall|i: int| 0 <= i < k ==> (#[trigger] self.filters@[i]).admits(*user),
            decreases self.filters.len() - k,
        {
            if !self.filters[k].matches(user) {
                return false;
            }
            k += 1;
        }
        true
    }

    /// The key by which the query sorts a user.
    fn key_of(&self, user: &User) -> (key: i128)
        ensures
            key == sort_key(*user, self.sorting),
    {
        match self.sorting {
            SortingFields::HoursAsc | SortingFields::HoursDesc => user.watch_nanos(),
            _ => user.money as i128,
        }
    }
}

/// The positions in `users` of the users that the query lists, in the order
/// in which it lists them.
pub fn filter_users(users: &Vec<User>, query: &UserQuery) -> (listed: Vec<usize>)
    ensures
        listed@ == selected(users@, query.filters@, query.sorting),
        forall|i: int| 0 <= i < listed@.len() ==> (#[trigger] listed@[i]) < users@.len(),
{
    let mut positions: Vec<usize> = Vec::new();
    let mut keys: Vec<i128> = Vec::new();
    let mut k: usize = 0;
    while k < users.len()
        invariant
            k <= users.len(),
            positions@ == admitted(users@.take(k as int), query.filters@),
            forall|i: int| 0 <= i < positions@.len() ==> (#[trigger] positions@[i]) < k,
            keys@.len() == positions@.len(),
            forall|i: int|
                0 <= i < keys@.len() ==> (#[trigger] keys@[i]) == sort_key(
                    users@[positions@[i] as int],
                    query.sorting,
                ),
        decreases users.len() - k,
    {
        proof {
            assert(users@.take(k + 1).drop_last() =~= users@.take(k as int));
        }
        if query.matches(&users[k]) {
            positions.push(k);
            keys.push(query.key_of(&users[k]));
        }
        k += 1;
    }
    proof {
        assert(users@.take(k as int) =~= users@);
        assert(keys@ =~= sort_keys(users@, positions@, query.sorting));
    }
    let descending = match query.sorting {
        SortingFields::Default => { return positions; },
        SortingFields::HoursDesc | SortingFields::MoneyDesc => true,
        _ => false,
    };
    let order = sorted_positions(&keys, descending);
    let mut listed: Vec<usize> = Vec::new();
    let mut i: usize = 0;
    while i < order.len()
        invariant
            i <= order.len(),
            order@.len() == positions@.len(),
            forall|j: int| 0 <= j < order@.len() ==> (#[trigger] order@[j]) < positions@.len(),
            forall|j: int| 0 <= j < positions@.len() ==> (#[trigger] positions@[j]) < users@.len(),
            listed@.len() == i,
            forall|j: int| 0 <= j < i ==> (#[trigger] listed@[j]) == positions@[order@[j] as int],
        decreases order.len() - i,
    {
        listed.push(positions[order[i]]);
        i += 1;
    }
    proof {
        assert(listed@ =~= arranged(positions@, order@));
    }
    listed
}

/// A listing of users with its length.
pub fn users_listing(users: Vec<BppUser>) -> (listing: BppUsers)
    ensures
        listing.users == users,
        listing.count == reported_count(users@.len()),
{
    let count = #[verifier::truncate] (users.len() as i32);
    BppUsers { users, count }
}

} // verus!
