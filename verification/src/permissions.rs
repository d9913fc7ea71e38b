//! Permission resolution: whether a user holds a permission, given what the
//! user's groups and the user's own records say.
//!
//! The default stands where nobody has a say. A group with a record for the
//! permission overrides the default and every group of lower sorting value;
//! among groups of equal sorting value the one that stands later in the
//! list of the user's groups overrides the other. A record of the user's
//! own overrides all groups.

use vstd::prelude::*;
use crate::models::{sorting_keys, Group, GroupPermission, UserPermission};
use crate::order::{arranged, is_stable_order, lemma_stable_order_exists, precedes, stable_order};

verus! {

/// Whether a record speaks of this group and this permission.
pub open spec fn group_record_matches(
    record: GroupPermission,
    group_id: i32,
    permission: Seq<char>,
) -> bool {
    record.group_id == group_id && record.permission@ == permission
}

/// Whether a record speaks of this user and this permission.
pub open spec fn user_record_matches(
    record: UserPermission,
    channel_id: Seq<char>,
    permission: Seq<char>,
) -> bool {
    record.channel_id@ == channel_id && record.permission@ == permission
}

/// What the first record from position `from` on says that speaks of this
/// group and this permission.
pub open spec fn group_record_from(
    records: Seq<GroupPermission>,
    group_id: i32,
    permission: Seq<char>,
    from: int,
) -> Option<bool>
    decreases records.len() - from,
{
    if from < 0 || from >= records.len() {
        None
    } else if group_record_matches(records[from], group_id, permission) {
        Some(records[from].granted)
    } else {
        group_record_from(records, group_id, permission, from + 1)
    }
}

/// What the records say of this group and this permission: the first
/// record that speaks of both, if there is one.
pub open spec fn group_record(
    records: Seq<GroupPermission>,
    group_id: i32,
    permission: Seq<char>,
) -> Option<bool> {
    group_record_from(records, group_id, permission, 0)
}

/// What the first record from position `from` on says that speaks of this
/// user and this permission.
pub open spec fn user_record_from(
    records: Seq<UserPermission>,
    channel_id: Seq<char>,
    permission: Seq<char>,
    from: int,
) -> Option<bool>
    decreases records.len() - from,
{
    if from < 0 || from >= records.len() {
        None
    } else if user_record_matches(records[from], channel_id, permission) {
        Some(records[from].granted)
    } else {
        user_record_from(records, channel_id, permission, from + 1)
    }
}

/// What the records say of this user and this permission: the first record
/// that speaks of both, if there is one.
pub open spec fn user_record(
    records: Seq<UserPermission>,
    channel_id: Seq<char>,
    permission: Seq<char>,
) -> Option<bool> {
    user_record_from(records, channel_id, permission, 0)
}

/// Whether the records hold at most one record for each user and
/// permission.
pub open spec fn one_record_per_user(records: Seq<UserPermission>) -> bool {
    forall|i: int, j: int|
        0 <= i < j < records.len() ==> !user_record_matches(
            #[trigger] records[j],
            (#[trigger] records[i]).channel_id@,
            records[i].permission@,
        )
}

/// Whether the records hold at most one record for each group and
/// permission.
pub open spec fn one_record_per_group(records: Seq<GroupPermission>) -> bool {
    forall|i: int, j: int|
        0 <= i < j < records.len() ==> !group_record_matches(
            #[trigger] records[j],
            (#[trigger] records[i]).group_id,
            records[i].permission@,
        )
}

/// What group `i` of the user's groups says of the permission.
pub open spec fn group_says(
    groups: Seq<Group>,
    records: Seq<GroupPermission>,
    permission: Seq<char>,
    i: int,
) -> Option<bool> {
    group_record(records, groups[i].group_id, permission)
}

/// Whether group `i` has the last word among the first `n` groups: it has a
/// say, no group with a say has a higher sorting value, and every group with
/// a say that stands after it has a lower one.
pub open spec fn decides_among(
    groups: Seq<Group>,
    records: Seq<GroupPermission>,
    permission: Seq<char>,
    n: int,
    i: int,
) -> bool {
    &&& 0 <= i < n <= groups.len()
    &&& group_says(groups, records, permission, i) is Some
    &&& forall|j: int|
        0 <= j < n && (#[trigger] group_says(groups, records, permission, j)) is Some
            ==> groups[j].group_sorting <= groups[i].group_sorting
    &&& forall|j: int|
        i < j < n && (#[trigger] group_says(groups, records, permission, j)) is Some
            ==> groups[j].group_sorting < groups[i].group_sorting
}

/// Whether group `i` has the last word among all the user's groups.
pub open spec fn decides(
    groups: Seq<Group>,
    records: Seq<GroupPermission>,
    permission: Seq<char>,
    i: int,
) -> bool {
    decides_among(groups, records, permission, groups.len() as int, i)
}

/// Whether none of the first `n` groups has a say.
pub open spec fn silent_among(
    groups: Seq<Group>,
    records: Seq<GroupPermission>,
    permission: Seq<char>,
    n: int,
) -> bool {
    forall|j: int| 0 <= j < n ==> (#[trigger] group_says(groups, records, permission, j)) is None
}

/// The position of the group that has the last word, or `None` where no
/// group has a say.
pub open spec fn deciding_group(
    groups: Seq<Group>,
    records: Seq<GroupPermission>,
    permission: Seq<char>,
) -> Option<int> {
    if exists|i: int| decides(groups, records, permission, i) {
        Some(choose|i: int| decides(groups, records, permission, i))
    } else {
        None
    }
}

/// What the user's groups say together: the word of the deciding group.
pub open spec fn groups_say(
    groups: Seq<Group>,
    records: Seq<GroupPermission>,
    permission: Seq<char>,
) -> Option<bool> {
    match deciding_group(groups, records, permission) {
        Some(i) => group_says(groups, records, permission, i),
        None => None,
    }
}

/// Whether the user holds the permission.
pub open spec fn resolve(
    channel_id: Seq<char>,
    permission: Seq<char>,
    granted_default: bool,
    groups: Seq<Group>,
    group_records: Seq<GroupPermission>,
    user_records: Seq<UserPermission>,
) -> bool {
    match user_record(user_records, channel_id, permission) {
        Some(granted) => granted,
        None => match groups_say(groups, group_records, permission) {
            Some(granted) => granted,
            None => granted_default,
        },
    }
}

/// Whether the groups stand in ascending order of their sorting values.
pub open spec fn ascending(groups: Seq<Group>) -> bool {
    forall|i: int, j: int|
        0 <= i <= j < groups.len() ==> (#[trigger] groups[i]).group_sorting <= (
        #[trigger] groups[j]).group_sorting
}

/// The word that stands after the first `n` groups have spoken in turn,
/// each group with a say overwriting what stood before.
pub open spec fn last_word(
    groups: Seq<Group>,
    records: Seq<GroupPermission>,
    permission: Seq<char>,
    start: bool,
    n: int,
) -> bool
    decreases n,
{
    if n <= 0 {
        start
    } else {
        match group_says(groups, records, permission, n - 1) {
            Some(granted) => granted,
            None => last_word(groups, records, permission, start, n - 1),
        }
    }
}

/// The groups in ascending order of sorting value, groups of equal value in
/// the order they came in.
pub open spec fn by_priority(groups: Seq<Group>) -> Seq<Group> {
    arranged(groups, stable_order(sorting_keys(groups), false))
}

/// Looks up what the records say of a group and a permission.
pub fn find_group_permission(
    records: &Vec<GroupPermission>,
    group_id: i32,
    permission: &String,
) -> (found: Option<bool>)
    ensures
        found == group_record(records@, group_id, permission@),
{
    let mut k: usize = 0;
    while k < records.len()
        invariant
            k <= records.len(),
            group_record(records@, group_id, permission@) == group_record_from(
                records@,
                group_id,
                permission@,
                k as int,
            ),
        decreases records.len() - k,
    {
        if records[k].group_id == group_id && records[k].permission == *permission {
            return Some(records[k].granted);
        }
        k += 1;
    }
    None
}

/// Looks up what the records say of a user and a permission.
pub fn find_user_permission(
    records: &Vec<UserPermission>,
    channel_id: &String,
    permission: &String,
) -> (found: Option<bool>)
    ensures
        found == user_record(records@, channel_id@, permission@),
{
    let mut k: usize = 0;
    while k < records.len()
        invariant
            k <= records.len(),
            user_record(records@, channel_id@, permission@) == user_record_from(
                records@,
                channel_id@,
                permission@,
                k as int,
            ),
        decreases records.len() - k,
    {
        if records[k].channel_id == *channel_id && records[k].permission == *permission {
            return Some(records[k].granted);
        }
        k += 1;
    }
    None
}

/// What the user's groups say together of a permission.
pub fn group_verdict(
    user_groups: &Vec<Group>,
    group_permissions: &Vec<GroupPermission>,
    permission: &String,
) -> (verdict: Option<bool>)
    ensures
        verdict == groups_say(user_groups@, group_permissions@, permission@),
{
    let mut best: Option<usize> = None;
    let mut verdict: Option<bool> = None;
    let mut k: usize = 0;
    while k < user_groups.len()
        invariant
            k <= user_groups.len(),
            match best {
                Some(i) => decides_among(
                    user_groups@,
                    group_permissions@,
                    permission@,
                    k as int,
                    i as int,
                ) && verdict == group_says(
                    user_groups@,
                    group_permissions@,
                    permission@,
                    i as int,
                ),
                None => verdict is None && silent_among(
                    user_groups@,
                    group_permissions@,
                    permission@,
                    k as int,
                ),
            },
        decreases user_groups.len() - k,
    {
        let said = find_group_permission(group_permissions, user_groups[k].group_id, permission);
        assert(said == group_says(user_groups@, group_permissions@, permission@, k as int));
        if said.is_some() {
            let overrides = match best {
                Some(i) => user_groups[k].group_sorting >= user_groups[i].group_sorting,
                None => true,
            };
            if overrides {
                best = Some(k);
                verdict = said;
            }
        }
        k += 1;
    }
    proof {
        match best {
            Some(i) => {
                lemma_deciding_group_characterized(
                    user_groups@,
                    group_permissions@,
                    permission@,
                    i as int,
                );
            },
            None => {
                lemma_silent_groups(user_groups@, group_permissions@, permission@);
            },
        }
    }
    verdict
}

/// Whether the user `channel_id` holds `permission`: the user's own record
/// where there is one, else the word of the deciding group, else the
/// default.
pub fn user_has_permission(
    channel_id: &String,
    permission: &String,
    granted_default: bool,
    user_groups: &Vec<Group>,
    group_permissions: &Vec<GroupPermission>,
    user_permissions: &Vec<UserPermission>,
) -> (has_permission: bool)
    ensures
        has_permission == resolve(
            channel_id@,
            permission@,
            granted_default,
            user_groups@,
            group_permissions@,
            user_permissions@,
        ),
{
    let mut has_permission = granted_default;
    match group_verdict(user_groups, group_permissions, permission) {
        Some(granted) => {
            has_permission = granted;
        },
        None => {},
    }
    match find_user_permission(user_permissions, channel_id, permission) {
        Some(granted) => {
            has_permission = granted;
        },
        None => {},
    }
    has_permission
}

/// At most one group has the last word.
pub proof fn lemma_deciding_group_unique(
    groups: Seq<Group>,
    records: Seq<GroupPermission>,
    permission: Seq<char>,
    i: int,
    j: int,
)
    requires
        decides(groups, records, permission, i),
        decides(groups, records, permission, j),
    ensures
        i == j,
{
    if i < j {
        assert(group_says(groups, records, permission, j) is Some);
        assert(groups[j].group_sorting < groups[i].group_sorting);
        assert(group_says(groups, records, permission, i) is Some);
        assert(groups[i].group_sorting <= groups[j].group_sorting);
    } else if j < i {
        assert(group_says(groups, records, permission, i) is Some);
        assert(groups[i].group_sorting < groups[j].group_sorting);
        assert(group_says(groups, records, permission, j) is Some);
        assert(groups[j].group_sorting <= groups[i].group_sorting);
    }
}

/// The group that meets the description of the deciding group is the one
/// that `deciding_group` names.
pub proof fn lemma_deciding_group_characterized(
    groups: Seq<Group>,
    records: Seq<GroupPermission>,
    permission: Seq<char>,
    i: int,
)
    requires
        decides(groups, records, permission, i),
    ensures
        deciding_group(groups, records, permission) == Some(i),
        groups_say(groups, records, permission) == group_says(groups, records, permission, i),
{
    let j = choose|j: int| decides(groups, records, permission, j);
    lemma_deciding_group_unique(groups, records, permission, i, j);
}

/// Where no group has a say, the groups say nothing together.
pub proof fn lemma_silent_groups(
    groups: Seq<Group>,
    records: Seq<GroupPermission>,
    permission: Seq<char>,
)
    requires
        silent_among(groups, records, permission, groups.len() as int),
    ensures
        deciding_group(groups, records, permission) is None,
        groups_say(groups, records, permission) is None,
{
    assert forall|i: int| !decides(groups, records, permission, i) by {
        if decides(groups, records, permission, i) {
            assert(group_says(groups, records, permission, i) is Some);
        }
    }
}

/// A record of the user's own overrides every group, whatever the groups'
/// sorting values and records are.
pub proof fn lemma_user_record_overrides_groups(
    channel_id: Seq<char>,
    permission: Seq<char>,
    granted_default: bool,
    groups: Seq<Group>,
    group_records: Seq<GroupPermission>,
    user_records: Seq<UserPermission>,
    granted: bool,
)
    requires
        user_record(user_records, channel_id, permission) == Some(granted),
    ensures
        resolve(channel_id, permission, granted_default, groups, group_records, user_records)
            == granted,
{
}

/// Without a record of the user's own, a group with a record overrides
/// every group of lower sorting value: where all other groups that have a
/// say sort below group `i`, the word of group `i` is the result.
pub proof fn lemma_higher_group_overrides_lower(
    channel_id: Seq<char>,
    permission: Seq<char>,
    granted_default: bool,
    groups: Seq<Group>,
    group_records: Seq<GroupPermission>,
    user_records: Seq<UserPermission>,
    i: int,
)
    requires
        user_record(user_records, channel_id, permission) is None,
        0 <= i < groups.len(),
        group_says(groups, group_records, permission, i) is Some,
        forall|j: int|
            0 <= j < groups.len() && j != i && (#[trigger] group_says(
                groups,
                group_records,
                permission,
                j,
            )) is Some ==> groups[j].group_sorting < groups[i].group_sorting,
    ensures
        Some(
            resolve(channel_id, permission, granted_default, groups, group_records, user_records),
        ) == group_says(groups, group_records, permission, i),
{
    assert(decides(groups, group_records, permission, i));
    lemma_deciding_group_characterized(groups, group_records, permission, i);
}

/// Where neither the user nor any group has a say, the default stands.
pub proof fn lemma_default_stands(
    channel_id: Seq<char>,
    permission: Seq<char>,
    granted_default: bool,
    groups: Seq<Group>,
    group_records: Seq<GroupPermission>,
    user_records: Seq<UserPermission>,
)
    requires
        user_record(user_records, channel_id, permission) is None,
        silent_among(groups, group_records, permission, groups.len() as int),
    ensures
        resolve(channel_id, permission, granted_default, groups, group_records, user_records)
            == granted_default,
{
    lemma_silent_groups(groups, group_records, permission);
}

/// On groups in ascending order the word of the groups is what stands
/// after each has spoken in turn.
proof fn lemma_last_word_among(
    groups: Seq<Group>,
    records: Seq<GroupPermission>,
    permission: Seq<char>,
    start: bool,
    n: int,
)
    requires
        ascending(groups),
        0 <= n <= groups.len(),
    ensures
        silent_among(groups, records, permission, n) ==> last_word(
            groups,
            records,
            permission,
            start,
            n,
        ) == start,
        forall|i: int| #[trigger]
            decides_among(groups, records, permission, n, i) ==> Some(
                last_word(groups, records, permission, start, n),
            ) == group_says(groups, records, permission, i),
    decreases n,
{
    if n > 0 {
        lemma_last_word_among(groups, records, permission, start, n - 1);
        assert forall|i: int| #[trigger]
            decides_among(groups, records, permission, n, i) implies Some(
            last_word(groups, records, permission, start, n),
        ) == group_says(groups, records, permission, i) by {
            if group_says(groups, records, permission, n - 1) is Some {
                if i < n - 1 {
                    assert(groups[n - 1].group_sorting < groups[i].group_sorting);
                    assert(groups[i].group_sorting <= groups[n - 1].group_sorting);
                }
            } else {
                assert(decides_among(groups, records, permission, n - 1, i));
            }
        }
    }
}

/// On groups in ascending order of sorting value, resolution is a fold in
/// which the last writer wins: start from the default, let each group with
/// a record overwrite the result in turn, then let the user's own record
/// overwrite it.
pub proof fn lemma_resolve_is_last_writer_wins(
    channel_id: Seq<char>,
    permission: Seq<char>,
    granted_default: bool,
    groups: Seq<Group>,
    group_records: Seq<GroupPermission>,
    user_records: Seq<UserPermission>,
)
    requires
        ascending(groups),
    ensures
        resolve(channel_id, permission, granted_default, groups, group_records, user_records)
            == match user_record(user_records, channel_id, permission) {
            Some(granted) => granted,
            None => last_word(
                groups,
                group_records,
                permission,
                granted_default,
                groups.len() as int,
            ),
        },
{
    let n = groups.len() as int;
    lemma_last_word_among(groups, group_records, permission, granted_default, n);
    lemma_groups_say_something(groups, group_records, permission);
    if !silent_among(groups, group_records, permission, n) {
        let i = choose|i: int| decides(groups, group_records, permission, i);
        assert(decides_among(groups, group_records, permission, n, i));
    }
}

/// Among the first `n` groups one has the last word unless all are silent.
proof fn lemma_some_group_decides(
    groups: Seq<Group>,
    records: Seq<GroupPermission>,
    permission: Seq<char>,
    n: int,
)
    requires
        0 <= n <= groups.len(),
    ensures
        silent_among(groups, records, permission, n) || exists|i: int|
            decides_among(groups, records, permission, n, i),
    decreases n,
{
    if n > 0 {
        lemma_some_group_decides(groups, records, permission, n - 1);
        let k = n - 1;
        if group_says(groups, records, permission, k) is Some {
            if silent_among(groups, records, permission, k) {
                assert(decides_among(groups, records, permission, n, k));
            } else {
                let i = choose|i: int| decides_among(groups, records, permission, k, i);
                if groups[k].group_sorting >= groups[i].group_sorting {
                    assert(decides_among(groups, records, permission, n, k));
                } else {
                    assert(decides_among(groups, records, permission, n, i));
                }
            }
        } else {
            if !silent_among(groups, records, permission, k) {
                let i = choose|i: int| decides_among(groups, records, permission, k, i);
                assert(decides_among(groups, records, permission, n, i));
            }
        }
    }
}

/// The groups say nothing together exactly where no group has a say.
pub proof fn lemma_groups_say_something(
    groups: Seq<Group>,
    records: Seq<GroupPermission>,
    permission: Seq<char>,
)
    ensures
        groups_say(groups, records, permission) is None <==> silent_among(
            groups,
            records,
            permission,
            groups.len() as int,
        ),
{
    lemma_some_group_decides(groups, records, permission, groups.len() as int);
    if silent_among(groups, records, permission, groups.len() as int) {
        lemma_silent_groups(groups, records, permission);
    } else {
        let n = groups.len() as int;
        let i = choose|i: int| decides_among(groups, records, permission, n, i);
        assert(decides(groups, records, permission, i));
        lemma_deciding_group_characterized(groups, records, permission, i);
    }
}

/// Putting the groups in ascending order of sorting value, groups of equal
/// value in the order they came in, does not change what they say together.
pub proof fn lemma_arranging_keeps_the_word(
    groups: Seq<Group>,
    records: Seq<GroupPermission>,
    permission: Seq<char>,
    order: Seq<usize>,
)
    requires
        is_stable_order(sorting_keys(groups), false, order),
    ensures
        ascending(arranged(groups, order)),
        groups_say(arranged(groups, order), records, permission) == groups_say(
            groups,
            records,
            permission,
        ),
{
    let keys = sorting_keys(groups);
    let sorted = arranged(groups, order);
    let n = groups.len() as int;
    assert forall|i: int, j: int| 0 <= i <= j < sorted.len() implies (#[trigger] sorted[i]).group_sorting
        <= (#[trigger] sorted[j]).group_sorting by {
        if i < j {
            assert(precedes(keys, false, order[i] as int, order[j] as int));
        }
    }
    assert forall|j: int| 0 <= j < n implies group_says(sorted, records, permission, j)
        == group_says(groups, records, permission, order[j] as int) by {}
    lemma_groups_say_something(groups, records, permission);
    if silent_among(groups, records, permission, n) {
        assert forall|j: int| 0 <= j < n implies (#[trigger] group_says(
            sorted,
            records,
            permission,
            j,
        )) is None by {
            assert(group_says(groups, records, permission, order[j] as int) is None);
        }
        lemma_silent_groups(sorted, records, permission);
    } else {
        let i = choose|i: int| decides(groups, records, permission, i);
        assert(order.contains(i as usize));
        let pos = choose|pos: int| 0 <= pos < order.len() && order[pos] == i as usize;
        assert forall|j: int|
            0 <= j < n && (#[trigger] group_says(sorted, records, permission, j)) is Some implies {
            &&& sorted[j].group_sorting <= sorted[pos].group_sorting
            &&& pos < j ==> sorted[j].group_sorting < sorted[pos].group_sorting
        } by {
            let q = order[j] as int;
            assert(0 <= q < n);
            assert(sorted[j] == groups[q] && sorted[pos] == groups[i]);
            assert(group_says(groups, records, permission, q) is Some);
            assert(groups[q].group_sorting <= groups[i].group_sorting);
            assert(keys[q] == groups[q].group_sorting && keys[i] == groups[i].group_sorting);
            if pos < j {
                assert(precedes(keys, false, order[pos] as int, order[j] as int));
                assert(i < q);
                assert(groups[q].group_sorting < groups[i].group_sorting);
            }
        }
        assert(decides(sorted, records, permission, pos));
        lemma_deciding_group_characterized(sorted, records, permission, pos);
        lemma_deciding_group_characterized(groups, records, permission, i);
    }
}

/// Resolution is the fold that it is described as: put the user's groups
/// in ascending order of sorting value, start from the default, let each
/// group with a record overwrite the result in turn, then let the user's
/// own record overwrite it.
pub proof fn lemma_resolve_folds_in_priority_order(
    channel_id: Seq<char>,
    permission: Seq<char>,
    granted_default: bool,
    groups: Seq<Group>,
    group_records: Seq<GroupPermission>,
    user_records: Seq<UserPermission>,
)
    requires
        groups.len() <= usize::MAX,
    ensures
        ascending(by_priority(groups)),
        resolve(channel_id, permission, granted_default, groups, group_records, user_records)
            == match user_record(user_records, channel_id, permission) {
            Some(granted) => granted,
            None => last_word(
                by_priority(groups),
                group_records,
                permission,
                granted_default,
                groups.len() as int,
            ),
        },
{
    lemma_stable_order_exists(sorting_keys(groups), false);
    lemma_arranging_keeps_the_word(
        groups,
        group_records,
        permission,
        stable_order(sorting_keys(groups), false),
    );
    lemma_resolve_is_last_writer_wins(
        channel_id,
        permission,
        granted_default,
        by_priority(groups),
        group_records,
        user_records,
    );
}

/// Where the records hold at most one record for each user and permission,
/// every record is the one that is found for its user and permission.
pub proof fn lemma_the_record_of_a_user_is_found(records: Seq<UserPermission>, i: int)
    requires
        one_record_per_user(records),
        0 <= i < records.len(),
    ensures
        user_record(records, records[i].channel_id@, records[i].permission@) == Some(
            records[i].granted,
        ),
{
    lemma_user_record_found_from(records, i, 0);
}

proof fn lemma_user_record_found_from(records: Seq<UserPermission>, i: int, from: int)
    requires
        one_record_per_user(records),
        0 <= from <= i < records.len(),
    ensures
        user_record_from(records, records[i].channel_id@, records[i].permission@, from) == Some(
            records[i].granted,
        ),
    decreases i - from,
{
    if from < i {
        lemma_user_record_found_from(records, i, from + 1);
        assert(!user_record_matches(records[i], records[from].channel_id@, records[from].permission@));
    }
}

/// Where the records hold at most one record for each group and
/// permission, every record is the one that is found for its group and
/// permission.
pub proof fn lemma_the_record_of_a_group_is_found(records: Seq<GroupPermission>, i: int)
    requires
        one_record_per_group(records),
        0 <= i < records.len(),
    ensures
        group_record(records, records[i].group_id, records[i].permission@) == Some(
            records[i].granted,
        ),
{
    lemma_group_record_found_from(records, i, 0);
}

proof fn lemma_group_record_found_from(records: Seq<GroupPermission>, i: int, from: int)
    requires
        one_record_per_group(records),
        0 <= from <= i < records.len(),
    ensures
        group_record_from(records, records[i].group_id, records[i].permission@, from) == Some(
            records[i].granted,
        ),
    decreases i - from,
{
    if from < i {
        lemma_group_record_found_from(records, i, from + 1);
        assert(!group_record_matches(records[i], records[from].group_id, records[from].permission@));
    }
}

} // verus!
