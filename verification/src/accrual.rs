//! Accrual: how one chat event changes the aggregate of its author.
//!
//! A user who writes again within the active window has been present since
//! the last message: the time between the two is added to the watch-time,
//! and its whole seconds are paid out at the user's rate. A longer gap is an
//! absence and earns nothing. An event that is not newer than the last one
//! seen changes neither watch-time nor balance and never moves the time of
//! the last sighting back.

use vstd::prelude::*;
use crate::feed::ChatMessage;
use crate::models::{Group, User, UserView};
use crate::settings::Settings;
use crate::time::{subsec_nanos, whole_seconds, Timestamp};

verus! {

/// The sum of the bonus payouts of the groups.
pub open spec fn bonus_sum(groups: Seq<Group>) -> int
    decreases groups.len(),
{
    if groups.len() == 0 {
        0
    } else {
        bonus_sum(groups.drop_last()) + groups.last().bonus_payout
    }
}

/// The payout rate of a member of these groups, in currency units per
/// minute: the base rate and every group's bonus.
pub open spec fn payout_rate(settings: Settings, groups: Seq<Group>) -> int {
    settings.default_payout + bonus_sum(groups)
}

/// What a span of presence earns at `rate` units per minute, in sixtieths
/// of a unit: the rate for each whole second.
pub open spec fn payout(rate: int, elapsed_nanos: int) -> int {
    rate * whole_seconds(elapsed_nanos)
}

/// Whether a message at `now` from a user last seen at `last_seen` counts
/// as continued presence.
pub open spec fn accrues(last_seen: int, now: int, window_nanos: int) -> bool {
    0 < now - last_seen < window_nanos
}

/// The aggregate after `elapsed_nanos` of presence were added to it.
pub open spec fn credited(user: UserView, elapsed_nanos: int, rate: int) -> UserView {
    UserView {
        watch_nanos: user.watch_nanos + elapsed_nanos,
        money: user.money + payout(rate, elapsed_nanos),
        ..user
    }
}

/// The aggregate of a user after a message at `now`.
///
/// A user without an aggregate gets a fresh one, first and last seen at
/// `now`. Otherwise the display name is replaced by the one the message
/// carries, the time of the last sighting moves to `now` unless it is later
/// already, and the time since the last sighting is credited if it counts
/// as presence.
pub open spec fn accrued(
    prior: Option<UserView>,
    channel_id: Seq<char>,
    display_name: Seq<char>,
    now: int,
    window_nanos: int,
    rate: int,
) -> UserView {
    match prior {
        None => UserView {
            channel_id,
            display_name,
            watch_nanos: 0,
            money: 0,
            first_seen: now,
            last_seen: now,
        },
        Some(user) => {
            let paid = if accrues(user.last_seen, now, window_nanos) {
                credited(user, now - user.last_seen, rate)
            } else {
                user
            };
            UserView {
                display_name,
                last_seen: if now < user.last_seen {
                    user.last_seen
                } else {
                    now
                },
                ..paid
            }
        },
    }
}

/// Whether an aggregate can be held in 64-bit seconds and a 64-bit balance.
pub open spec fn representable(user: UserView) -> bool {
    &&& i64::MIN <= whole_seconds(user.watch_nanos) <= i64::MAX
    &&& i64::MIN <= user.money <= i64::MAX
}

/// Whether the aggregate that `accrue` is to return can be held: always,
/// unless presence is credited and the sum leaves the 64-bit range.
pub open spec fn accrual_fits(
    prior: Option<UserView>,
    now: int,
    window_nanos: int,
    rate: int,
) -> bool {
    match prior {
        None => true,
        Some(user) => accrues(user.last_seen, now, window_nanos) ==> representable(
            credited(user, now - user.last_seen, rate),
        ),
    }
}

/// The view of the aggregate that may be there.
pub open spec fn view_of(prior: Option<User>) -> Option<UserView> {
    match prior {
        None => None,
        Some(user) => Some(user@),
    }
}

/// The payout rate of a member of these groups, in currency units per
/// minute.
pub fn money_per_minute(settings: &Settings, user_groups: &Vec<Group>) -> (rate: i128)
    ensures
        rate == payout_rate(*settings, user_groups@),
{
    let mut bonus: i128 = 0;
    let mut k: usize = 0;
    while k < user_groups.len()
        invariant
            k <= user_groups.len(),
            bonus == bonus_sum(user_groups@.take(k as int)),
            -0x8000_0000 * k <= bonus <= 0x7fff_ffff * k,
        decreases user_groups.len() - k,
    {
        proof {
            assert(user_groups@.take(k + 1).drop_last() =~= user_groups@.take(k as int));
        }
        bonus = bonus + user_groups[k].bonus_payout as i128;
        k += 1;
    }
    proof {
        assert(user_groups@.take(k as int) =~= user_groups@);
    }
    settings.default_payout as i128 + bonus
}

/// Splits a span into whole seconds and the nanoseconds beyond them.
fn split_nanos(span_nanos: i128) -> (parts: (i128, i32))
    ensures
        parts.0 == whole_seconds(span_nanos as int),
        parts.1 == subsec_nanos(span_nanos as int),
        0 <= parts.1 < 1_000_000_000,
{
    if span_nanos >= 0 {
        (span_nanos / 1_000_000_000, (span_nanos % 1_000_000_000) as i32)
    } else {
        let back: i128 = -(span_nanos + 1);
        let seconds: i128 = -(back / 1_000_000_000) - 1;
        let nanos: i128 = 999_999_999 - back % 1_000_000_000;
        (seconds, nanos as i32)
    }
}

/// The watch-time and balance after `elapsed_nanos` of presence, where the
/// aggregate can hold them.
fn credit(user: &User, elapsed_nanos: i128, rate: i128) -> (sums: Option<(i64, i32, i64)>)
    requires
        0 < elapsed_nanos,
    ensures
        sums is Some <==> representable(credited(user@, elapsed_nanos as int, rate as int)),
        sums matches Some(s) ==> {
            &&& s.0 == whole_seconds(user@.watch_nanos + elapsed_nanos)
            &&& s.1 == subsec_nanos(user@.watch_nanos + elapsed_nanos)
            &&& s.2 == user@.money + payout(rate as int, elapsed_nanos as int)
        },
{
    let paid_seconds: i128 = elapsed_nanos / 1_000_000_000;
    let watched = match user.watch_nanos().checked_add(elapsed_nanos) {
        Some(watched) => watched,
        None => { return None; },
    };
    let earned = match rate.checked_mul(paid_seconds) {
        Some(earned) => earned,
        None => { return None; },
    };
    let money = match earned.checked_add(user.money as i128) {
        Some(money) => money,
        None => { return None; },
    };
    let (seconds, nanos) = split_nanos(watched);
    if seconds < i64::MIN as i128 || seconds > i64::MAX as i128 || money < i64::MIN as i128
        || money > i64::MAX as i128 {
        None
    } else {
        Some((seconds as i64, nanos, money as i64))
    }
}

/// Decides `accrual_fits`: whether `accrue` may be called on these
/// arguments.
pub fn can_accrue(
    prior: &Option<User>,
    now: &Timestamp,
    settings: &Settings,
    user_groups: &Vec<Group>,
) -> (fits: bool)
    ensures
        fits == accrual_fits(
            view_of(*prior),
            now@,
            settings.window_nanos(),
            payout_rate(*settings, user_groups@),
        ),
{
    match prior {
        None => true,
        Some(user) => {
            let elapsed = now.nanos_since(&user.last_seen_at);
            let window = settings.active_time as i128 * 1_000_000_000;
            if 0 < elapsed && elapsed < window {
                let rate = money_per_minute(settings, user_groups);
                credit(user, elapsed, rate).is_some()
            } else {
                true
            }
        },
    }
}

/// Adds the time since the user was last seen to the watch-time and pays
/// it out at the user's rate. Nothing is added where `now` is not later
/// than the last sighting. The time of the last sighting stays as it is.
pub fn calculate_hours_and_money(
    user: &mut User,
    now: &Timestamp,
    settings: &Settings,
    user_groups: &Vec<Group>,
)
    requires
        0 < now@ - old(user)@.last_seen ==> representable(
            credited(
                old(user)@,
                now@ - old(user)@.last_seen,
                payout_rate(*settings, user_groups@),
            ),
        ),
    ensures
        0 < now@ - old(user)@.last_seen ==> final(user)@ == credited(
            old(user)@,
            now@ - old(user)@.last_seen,
            payout_rate(*settings, user_groups@),
        ) && final(user).normalized(),
        now@ - old(user)@.last_seen <= 0 ==> *final(user) == *old(user),
        final(user).channel_id == old(user).channel_id,
        final(user).display_name == old(user).display_name,
        final(user).first_seen_at == old(user).first_seen_at,
        final(user).last_seen_at == old(user).last_seen_at,
{
    let elapsed = now.nanos_since(&user.last_seen_at);
    if elapsed > 0 {
        let rate = money_per_minute(settings, user_groups);
        match credit(user, elapsed, rate) {
            Some((seconds, nanos, money)) => {
                user.hours_seconds = seconds;
                user.hours_nanos = nanos;
                user.money = money;
            },
            None => {},
        }
    }
}

/// Whether `user` is the aggregate of the author of `message` after that
/// message, written at `now`: it stands for what `accrued` says, the
/// watch-time is split in the canonical way wherever presence was credited
/// and left as it was elsewhere, and the times are those of `prior` or
/// `now` themselves.
pub open spec fn is_accrual(
    user: User,
    prior: Option<User>,
    message: ChatMessage,
    now: Timestamp,
    settings: Settings,
    user_groups: Seq<Group>,
) -> bool {
    &&& user@ == accrued(
        view_of(prior),
        message.channel_id@,
        message.display_name@,
        now@,
        settings.window_nanos(),
        payout_rate(settings, user_groups),
    )
    &&& match prior {
        None => {
            &&& user.hours_seconds == 0
            &&& user.hours_nanos == 0
            &&& user.first_seen_at == now
            &&& user.last_seen_at == now
        },
        Some(before) => {
            &&& user.first_seen_at == before.first_seen_at
            &&& user.last_seen_at == if now@ < before@.last_seen {
                before.last_seen_at
            } else {
                now
            }
            &&& accrues(before@.last_seen, now@, settings.window_nanos()) ==> user.normalized()
            &&& !accrues(before@.last_seen, now@, settings.window_nanos()) ==> user.hours_seconds
                == before.hours_seconds && user.hours_nanos == before.hours_nanos
        },
    }
}

/// The aggregate of the author of `message` after that message, written at
/// `now`: `prior` is the aggregate the store holds for the author, if any,
/// and `user_groups` are the groups the author belongs to.
pub fn accrue(
    prior: Option<User>,
    message: &ChatMessage,
    now: Timestamp,
    settings: &Settings,
    user_groups: &Vec<Group>,
) -> (user: User)
    requires
        accrual_fits(
            view_of(prior),
            now@,
            settings.window_nanos(),
            payout_rate(*settings, user_groups@),
        ),
    ensures
        is_accrual(user, prior, *message, now, *settings, user_groups@),
{
    match prior {
        None => User {
            channel_id: message.channel_id.clone(),
            display_name: message.display_name.clone(),
            hours_seconds: 0,
            hours_nanos: 0,
            money: 0,
            first_seen_at: now,
            last_seen_at: now,
        },
        Some(before) => {
            let mut user = before;
            user.display_name = message.display_name.clone();
            let elapsed = now.nanos_since(&user.last_seen_at);
            let window = settings.active_time as i128 * 1_000_000_000;
            if elapsed < window {
                calculate_hours_and_money(&mut user, &now, settings, user_groups);
            }
            if elapsed >= 0 {
                user.last_seen_at = now;
            }
            user
        },
    }
}

/// Presence is credited exactly: a message within the active window, not
/// earlier than the last sighting, adds the time since that sighting to the
/// watch-time, to the nanosecond.
pub proof fn lemma_presence_is_credited_exactly(
    prior: UserView,
    channel_id: Seq<char>,
    display_name: Seq<char>,
    now: int,
    window_nanos: int,
    rate: int,
)
    requires
        0 <= now - prior.last_seen < window_nanos,
    ensures
        accrued(Some(prior), channel_id, display_name, now, window_nanos, rate).watch_nanos
            == prior.watch_nanos + (now - prior.last_seen),
        accrued(Some(prior), channel_id, display_name, now, window_nanos, rate).money
            == prior.money + payout(rate, now - prior.last_seen),
        accrued(Some(prior), channel_id, display_name, now, window_nanos, rate).last_seen == now,
{
    assert(rate * 0 == 0) by (nonlinear_arith);
}

/// An absence earns nothing: after a gap of at least the active window,
/// watch-time and balance are as before and the time of the last sighting
/// is `now`.
pub proof fn lemma_absence_earns_nothing(
    prior: UserView,
    channel_id: Seq<char>,
    display_name: Seq<char>,
    now: int,
    window_nanos: int,
    rate: int,
)
    requires
        now - prior.last_seen >= window_nanos,
        now >= prior.last_seen,
    ensures
        accrued(Some(prior), channel_id, display_name, now, window_nanos, rate).watch_nanos
            == prior.watch_nanos,
        accrued(Some(prior), channel_id, display_name, now, window_nanos, rate).money
            == prior.money,
        accrued(Some(prior), channel_id, display_name, now, window_nanos, rate).last_seen == now,
{
}

/// A message that is older than the last sighting changes nothing but the
/// display name.
pub proof fn lemma_stale_message_is_clamped(
    prior: UserView,
    channel_id: Seq<char>,
    display_name: Seq<char>,
    now: int,
    window_nanos: int,
    rate: int,
)
    requires
        now < prior.last_seen,
    ensures
        accrued(Some(prior), channel_id, display_name, now, window_nanos, rate) == (UserView {
            display_name,
            ..prior
        }),
{
}

/// Replay changes nothing: once a message at `now` has been applied,
/// applying the same message again at the same or an earlier time, under
/// any settings, returns the aggregate as it is.
pub proof fn lemma_replay_changes_nothing(
    prior: Option<UserView>,
    channel_id: Seq<char>,
    display_name: Seq<char>,
    now: int,
    window_nanos: int,
    rate: int,
    replayed_at: int,
    replay_window_nanos: int,
    replay_rate: int,
)
    requires
        replayed_at <= now,
    ensures
        accrued(
            Some(accrued(prior, channel_id, display_name, now, window_nanos, rate)),
            channel_id,
            display_name,
            replayed_at,
            replay_window_nanos,
            replay_rate,
        ) == accrued(prior, channel_id, display_name, now, window_nanos, rate),
{
}

/// Accrual never takes away: the watch-time does not decrease and the time
/// of the last sighting does not move back; under a payout rate that is not
/// negative the balance does not decrease either.
pub proof fn lemma_accrual_never_decreases(
    prior: UserView,
    channel_id: Seq<char>,
    display_name: Seq<char>,
    now: int,
    window_nanos: int,
    rate: int,
)
    ensures
        accrued(Some(prior), channel_id, display_name, now, window_nanos, rate).watch_nanos
            >= prior.watch_nanos,
        accrued(Some(prior), channel_id, display_name, now, window_nanos, rate).last_seen
            >= prior.last_seen,
        accrued(Some(prior), channel_id, display_name, now, window_nanos, rate).first_seen
            == prior.first_seen,
        accrued(Some(prior), channel_id, display_name, now, window_nanos, rate).channel_id
            == prior.channel_id,
        rate >= 0 ==> accrued(
            Some(prior),
            channel_id,
            display_name,
            now,
            window_nanos,
            rate,
        ).money >= prior.money,
{
    if accrues(prior.last_seen, now, window_nanos) && rate >= 0 {
        let seconds = whole_seconds(now - prior.last_seen);
        assert(rate * seconds >= 0) by (nonlinear_arith)
            requires
                rate >= 0,
                seconds >= 0,
        ;
    }
}

/// Accrual keeps aggregates well formed under a payout rate that is not
/// negative, and a fresh aggregate is well formed.
pub proof fn lemma_accrual_keeps_well_formed(
    prior: Option<UserView>,
    channel_id: Seq<char>,
    display_name: Seq<char>,
    now: int,
    window_nanos: int,
    rate: int,
)
    requires
        prior matches Some(user) ==> user.well_formed() && rate >= 0,
    ensures
        accrued(prior, channel_id, display_name, now, window_nanos, rate).well_formed(),
{
    if let Some(user) = prior {
        lemma_accrual_never_decreases(user, channel_id, display_name, now, window_nanos, rate);
    }
}

/// The payout is linear in the rate.
pub proof fn lemma_payout_linear_in_rate(rate: int, bonus: int, factor: int, elapsed_nanos: int)
    ensures
        payout(rate + bonus, elapsed_nanos) == payout(rate, elapsed_nanos) + payout(
            bonus,
            elapsed_nanos,
        ),
        payout(factor * rate, elapsed_nanos) == factor * payout(rate, elapsed_nanos),
{
    let seconds = whole_seconds(elapsed_nanos);
    assert((rate + bonus) * seconds == rate * seconds + bonus * seconds) by (nonlinear_arith);
    assert((factor * rate) * seconds == factor * (rate * seconds)) by (nonlinear_arith);
}

/// The payout is linear in time counted by the whole second: spans add up
/// where one of them is a whole number of seconds, and a multiple of a
/// whole number of seconds earns that multiple.
pub proof fn lemma_payout_linear_in_time(rate: int, whole_nanos: int, other_nanos: int, factor: int)
    requires
        subsec_nanos(whole_nanos) == 0,
    ensures
        payout(rate, whole_nanos + other_nanos) == payout(rate, whole_nanos) + payout(
            rate,
            other_nanos,
        ),
        payout(rate, factor * whole_nanos) == factor * payout(rate, whole_nanos),
{
    let a = whole_seconds(whole_nanos);
    let b = whole_seconds(other_nanos);
    assert(whole_seconds(whole_nanos + other_nanos) == a + b);
    assert(rate * (a + b) == rate * a + rate * b) by (nonlinear_arith);
    assert(whole_nanos == a * 1_000_000_000);
    assert(factor * whole_nanos == (factor * a) * 1_000_000_000) by (nonlinear_arith)
        requires
            whole_nanos == a * 1_000_000_000,
    ;
    assert(whole_seconds(factor * whole_nanos) == factor * a);
    assert(rate * (factor * a) == factor * (rate * a)) by (nonlinear_arith);
}

/// Twice the time earns twice the payout, unless the half second that the
/// shorter span leaves unpaid becomes a paid second of the longer one.
pub proof fn lemma_double_time_double_payout(rate: int, elapsed_nanos: int)
    requires
        2 * subsec_nanos(elapsed_nanos) < 1_000_000_000 || rate == 0,
    ensures
        payout(rate, 2 * elapsed_nanos) == 2 * payout(rate, elapsed_nanos),
{
    let seconds = whole_seconds(elapsed_nanos);
    if rate != 0 {
        assert(whole_seconds(2 * elapsed_nanos) == 2 * seconds);
    }
    assert(rate * (2 * seconds) == 2 * (rate * seconds)) by (nonlinear_arith);
    assert(rate == 0 ==> rate * whole_seconds(2 * elapsed_nanos) == 0 && rate * seconds == 0)
        by (nonlinear_arith);
}

/// Within one call, a message after twice the time adds twice as much to
/// the balance, under the condition of `lemma_double_time_double_payout`.
pub proof fn lemma_double_time_double_accrual(
    prior: UserView,
    channel_id: Seq<char>,
    display_name: Seq<char>,
    elapsed_nanos: int,
    window_nanos: int,
    rate: int,
)
    requires
        0 <= elapsed_nanos,
        2 * elapsed_nanos < window_nanos,
        2 * subsec_nanos(elapsed_nanos) < 1_000_000_000 || rate == 0,
    ensures
        accrued(
            Some(prior),
            channel_id,
            display_name,
            prior.last_seen + 2 * elapsed_nanos,
            window_nanos,
            rate,
        ).money - prior.money == 2 * (accrued(
            Some(prior),
            channel_id,
            display_name,
            prior.last_seen + elapsed_nanos,
            window_nanos,
            rate,
        ).money - prior.money),
{
    lemma_double_time_double_payout(rate, elapsed_nanos);
    assert(rate * 0 == 0) by (nonlinear_arith);
}

} // verus!
