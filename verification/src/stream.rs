//! Accrual of token streams.
//!
//! A stream pays its recipient at a fixed rate per second from its start, either
//! without end or up to an end time, and can be paused. Cancellation is enforced by
//! the contract: the functions here do not look at it.

use crate::account::Account;
use crate::ledger::ledger_timestamp;
use soroban_sdk::Env;
use vstd::prelude::*;

verus! {

use crate::ledger::close_time;

/// The bit of [`StreamInfo::flags`] that marks a paused stream.
pub const FLAG_PAUSED: u32 = 1;

/// The bit of [`StreamInfo::flags`] that marks a cancelled stream.
pub const FLAG_CANCELLED: u32 = 2;

/// Errors of the accrual functions.
#[derive(Copy, Clone, Debug, PartialEq, Eq)]
pub enum Error {
    /// The amount does not fit in 128 bits.
    ArithmeticOverflow,
}

/// A stream as the contract keeps it.
#[derive(Copy, Clone, Debug, PartialEq, Eq)]
pub struct StreamInfo {
    /// Who pays.
    pub sender: Account,
    /// Who is paid.
    pub recipient: Account,
    /// The token that is paid.
    pub token: Account,
    /// Amount that accrues per second.
    pub rate_per_second: i128,
    /// When accrual starts, in seconds.
    pub start_time: u64,
    /// When accrual ends, in seconds; 0 for a stream without end.
    pub end_time: u64,
    /// Amount that the recipient has withdrawn so far.
    pub withdrawn: i128,
    /// When the stream was paused, in seconds.
    pub paused_at: u64,
    /// [`FLAG_PAUSED`] and [`FLAG_CANCELLED`].
    pub flags: u32,
    /// Number of the stream's last event.
    pub event_sequence: u64,
}

impl StreamInfo {
    /// Whether the stream is marked as paused.
    pub open spec fn paused(self) -> bool {
        self.flags & FLAG_PAUSED != 0
    }

    /// Whether the stream is marked as cancelled.
    pub open spec fn cancelled(self) -> bool {
        self.flags & FLAG_CANCELLED != 0
    }

    /// The moment up to which the stream has accrued when it is read at `now`: the end
    /// once that is past, else the pause for a paused stream.
    pub open spec fn accrues_to(self, now: u64) -> u64 {
        if self.end_time > 0 && now > self.end_time {
            self.end_time
        } else if self.paused() {
            self.paused_at
        } else {
            now
        }
    }

    /// The seconds over which the stream has accrued when it is read at `now`.
    pub open spec fn elapsed(self, now: u64) -> int {
        if now < self.start_time || self.accrues_to(now) < self.start_time {
            0
        } else {
            self.accrues_to(now) - self.start_time
        }
    }

    /// The amount that has accrued when the stream is read at `now`.
    pub open spec fn accrued(self, now: u64) -> int {
        self.rate_per_second * self.elapsed(now)
    }

    /// Whether the stream is paused.
    pub fn is_paused(&self) -> (paused: bool)
        ensures
            paused == self.paused(),
    {
        self.flags & FLAG_PAUSED != 0
    }

    /// Whether the stream is cancelled.
    pub fn is_cancelled(&self) -> (cancelled: bool)
        ensures
            cancelled == self.cancelled(),
    {
        self.flags & FLAG_CANCELLED != 0
    }
}

/// The integer nearest to `n` that fits in 128 bits.
pub open spec fn saturated(n: int) -> int {
    if n > i128::MAX {
        i128::MAX as int
    } else if n < i128::MIN {
        i128::MIN as int
    } else {
        n
    }
}

/// What remains of `streamed` once `withdrawn` is taken off, never negative.
pub open spec fn remainder(streamed: int, withdrawn: int) -> int {
    if saturated(streamed - withdrawn) < 0 {
        0
    } else {
        saturated(streamed - withdrawn)
    }
}

/// What a stream's accrual amounts to: the accrued amount, or the error when that
/// does not fit in 128 bits.
pub open spec fn streamed(info: StreamInfo, now: u64) -> Result<i128, Error> {
    if i128::MIN <= info.accrued(now) <= i128::MAX {
        Ok(info.accrued(now) as i128)
    } else {
        Err(Error::ArithmeticOverflow)
    }
}

/// What a recipient can withdraw: the remainder of the accrued amount, or the error
/// when that does not fit in 128 bits.
pub open spec fn available(info: StreamInfo, now: u64) -> Result<i128, Error> {
    match streamed(info, now) {
        Ok(amount) => Ok(remainder(amount as int, info.withdrawn as int) as i128),
        Err(error) => Err(error),
    }
}

/// The total amount that has streamed when the stream is read at `now`.
pub fn streamed_at(now: u64, info: &StreamInfo) -> (result: Result<i128, Error>)
    ensures
        result == streamed(*info, now),
{
    if now < info.start_time {
        assert(info.rate_per_second * 0 == 0) by (nonlinear_arith);
        return Ok(0);
    }
    let effective_now: u64 = if info.end_time > 0 && now > info.end_time {
        info.end_time
    } else if info.is_paused() {
        info.paused_at
    } else {
        now
    };
    let elapsed: u64 = effective_now.saturating_sub(info.start_time);
    match info.rate_per_second.checked_mul(elapsed as i128) {
        Some(amount) => Ok(amount),
        None => Err(Error::ArithmeticOverflow),
    }
}

/// The amount that the recipient can withdraw when the stream is read at `now`: what
/// has streamed less what was withdrawn, never negative.
pub fn withdrawable_at(now: u64, info: &StreamInfo) -> (result: Result<i128, Error>)
    ensures
        result == available(*info, now),
{
    let streamed = match streamed_at(now, info) {
        Ok(streamed) => streamed,
        Err(error) => return Err(error),
    };
    if streamed <= info.withdrawn {
        return Ok(0);
    }
    match streamed.checked_sub(info.withdrawn) {
        Some(amount) => Ok(amount),
        None => Ok(i128::MAX),
    }
}

/// The total amount that has streamed by the close time of the current ledger.
pub fn streamed_amount(env: &Env, info: &StreamInfo) -> (result: Result<i128, Error>)
    requires
        close_time(*env) is Some,
    ensures
        result == streamed(*info, close_time(*env)->0),
{
    streamed_at(ledger_timestamp(env), info)
}

/// The amount that the recipient can withdraw at the close time of the current ledger.
pub fn withdrawable(env: &Env, info: &StreamInfo) -> (result: Result<i128, Error>)
    requires
        close_time(*env) is Some,
    ensures
        result == available(*info, close_time(*env)->0),
{
    withdrawable_at(ledger_timestamp(env), info)
}

/// Nothing has streamed before the start, whatever the end.
pub proof fn law_nothing_before_start(info: StreamInfo, now: u64)
    requires
        now < info.start_time,
    ensures
        streamed(info, now) == Ok::<i128, Error>(0),
{
    assert(info.rate_per_second * 0 == 0) by (nonlinear_arith);
}

/// A stream that ends when it starts never streams anything once the end has come.
pub proof fn law_empty_span_streams_nothing(info: StreamInfo, now: u64)
    requires
        info.flags & FLAG_PAUSED == 0,
        info.end_time == info.start_time,
        info.end_time > 0,
        now >= info.end_time,
    ensures
        streamed(info, now) == Ok::<i128, Error>(0),
{
    assert(info.rate_per_second * 0 == 0) by (nonlinear_arith);
}

/// A stream without end has accrued its rate over all the time since its start.
pub proof fn law_open_ended_accrues_without_bound(info: StreamInfo, now: u64)
    requires
        info.flags & FLAG_PAUSED == 0,
        info.end_time == 0,
        now >= info.start_time,
    ensures
        info.accrued(now) == info.rate_per_second * (now - info.start_time),
{
}

/// From its end on, a bounded stream has accrued its rate over its whole span, and
/// not more.
pub proof fn law_bounded_stops_at_end(info: StreamInfo, now: u64)
    requires
        info.flags & FLAG_PAUSED == 0,
        info.end_time > 0,
        info.end_time >= info.start_time,
        now >= info.end_time,
    ensures
        info.accrued(now) == info.rate_per_second * (info.end_time - info.start_time),
{
}

/// A paused stream stays at what it had accrued when it was paused, as long as it is
/// read within its lifetime.
pub proof fn law_pause_freezes(info: StreamInfo, now: u64)
    requires
        info.flags & FLAG_PAUSED != 0,
        info.start_time <= info.paused_at <= now,
        info.end_time == 0 || now <= info.end_time,
    ensures
        info.accrued(now) == info.rate_per_second * (info.paused_at - info.start_time),
        info.accrued(now) == info.accrued(info.paused_at),
        streamed(info, now) == streamed(info, info.paused_at),
        available(info, now) == available(info, info.paused_at),
{
}

/// Once the end is past, a pause no longer matters: the stream has accrued its rate
/// over its whole span.
pub proof fn law_end_outweighs_pause(info: StreamInfo, now: u64)
    requires
        info.end_time >= info.start_time,
        info.end_time > 0,
        now > info.end_time,
    ensures
        info.accrued(now) == info.rate_per_second * (info.end_time - info.start_time),
{
}

/// What has streamed never shrinks as time passes, for a stream that is not paused.
pub proof fn law_streamed_is_monotonic(info: StreamInfo, earlier: u64, later: u64)
    requires
        info.flags & FLAG_PAUSED == 0,
        info.rate_per_second >= 0,
        earlier <= later,
    ensures
        info.accrued(earlier) <= info.accrued(later),
        streamed(info, later) is Ok ==> streamed(info, earlier) is Ok && streamed(
            info,
            earlier,
        )->Ok_0 <= streamed(info, later)->Ok_0,
{
    let rate = info.rate_per_second;
    let short = info.elapsed(earlier);
    let long = info.elapsed(later);
    assert(0 <= rate * short <= rate * long) by (nonlinear_arith)
        requires
            rate >= 0,
            0 <= short <= long,
    ;
}

/// Accrual does not depend on the cancellation mark, nor on any other bit than the
/// pause mark.
pub proof fn law_cancellation_is_ignored(info: StreamInfo, flags: u32, now: u64)
    requires
        flags & FLAG_PAUSED == info.flags & FLAG_PAUSED,
    ensures
        streamed((StreamInfo { flags, ..info }), now) == streamed(info, now),
        available((StreamInfo { flags, ..info }), now) == available(info, now),
{
}

/// Pause and cancellation are marked apart: setting one leaves the other as it is.
pub proof fn law_marks_are_apart(flags: u32)
    ensures
        (flags | FLAG_PAUSED) & FLAG_PAUSED != 0,
        (flags | FLAG_CANCELLED) & FLAG_CANCELLED != 0,
        (flags | FLAG_PAUSED) & FLAG_CANCELLED == flags & FLAG_CANCELLED,
        (flags | FLAG_CANCELLED) & FLAG_PAUSED == flags & FLAG_PAUSED,
{
    assert((flags | 1u32) & 1u32 != 0 && (flags | 2u32) & 2u32 != 0 && (flags | 1u32) & 2u32
        == flags & 2u32 && (flags | 2u32) & 1u32 == flags & 1u32) by (bit_vector);
}

/// What can be withdrawn is never negative, however much was withdrawn, and for
/// non-negative rate and withdrawals never more than what has streamed.
pub proof fn law_withdrawable_is_bounded(info: StreamInfo, now: u64)
    requires
        available(info, now) is Ok,
    ensures
        available(info, now)->Ok_0 >= 0,
        info.rate_per_second >= 0 && info.withdrawn >= 0 ==> available(info, now)->Ok_0
            <= streamed(info, now)->Ok_0,
{
    let rate = info.rate_per_second;
    let elapsed = info.elapsed(now);
    if rate >= 0 {
        assert(rate * elapsed >= 0) by (nonlinear_arith)
            requires
                rate >= 0,
                elapsed >= 0,
        ;
    }
}

/// A stream's marks are read off its flags, whatever else it holds.
pub proof fn law_marks_are_read_off_the_flags(info: &StreamInfo, paused: bool, cancelled: bool)
    requires
        call_ensures(StreamInfo::is_paused, (info,), paused),
        call_ensures(StreamInfo::is_cancelled, (info,), cancelled),
    ensures
        paused == (info.flags & FLAG_PAUSED != 0),
        cancelled == (info.flags & FLAG_CANCELLED != 0),
        info.paused() == paused,
        info.cancelled() == cancelled,
{
}

/// Read before its start, any stream has streamed nothing.
pub proof fn law_reads_before_start(now: u64, info: &StreamInfo, result: Result<i128, Error>)
    requires
        call_ensures(streamed_at, (now, info), result),
        now < info.start_time,
    ensures
        result == Ok::<i128, Error>(0),
{
    law_nothing_before_start(*info, now);
}

/// Read between its start and its end, if it has one, a stream that is not paused has
/// streamed its rate over the time since its start. Only an amount that does not fit in
/// 128 bits is an error.
pub proof fn law_reads_while_running(now: u64, info: &StreamInfo, result: Result<i128, Error>)
    requires
        call_ensures(streamed_at, (now, info), result),
        info.flags & FLAG_PAUSED == 0,
        info.start_time <= now,
        info.end_time == 0 || now <= info.end_time,
    ensures
        info.accrued(now) == info.rate_per_second * (now - info.start_time),
        match result {
            Ok(amount) => amount == info.rate_per_second * (now - info.start_time),
            Err(error) => error == Error::ArithmeticOverflow && !(i128::MIN <= info.rate_per_second
                * (now - info.start_time) <= i128::MAX),
        },
{
}

/// Read past its end, a stream has streamed its rate over its whole span, paused or
/// not, and nothing if the end lies before the start.
pub proof fn law_reads_past_end(now: u64, info: &StreamInfo, result: Result<i128, Error>)
    requires
        call_ensures(streamed_at, (now, info), result),
        0 < info.end_time < now,
    ensures
        info.end_time <= info.start_time ==> result == Ok::<i128, Error>(0),
        info.end_time >= info.start_time ==> info.accrued(now) == info.rate_per_second * (
        info.end_time - info.start_time),
        info.end_time >= info.start_time ==> match result {
            Ok(amount) => amount == info.rate_per_second * (info.end_time - info.start_time),
            Err(error) => error == Error::ArithmeticOverflow && !(i128::MIN <= info.rate_per_second
                * (info.end_time - info.start_time) <= i128::MAX),
        },
{
    assert(info.rate_per_second * 0 == 0) by (nonlinear_arith);
}

/// Read between its start and its end, if it has one, a paused stream has streamed its
/// rate over the time from its start to the pause, whatever was withdrawn and however
/// late it is read; nothing if it was paused before its start.
pub proof fn law_reads_while_paused(now: u64, info: &StreamInfo, result: Result<i128, Error>)
    requires
        call_ensures(streamed_at, (now, info), result),
        info.flags & FLAG_PAUSED != 0,
        info.start_time <= now,
        info.end_time == 0 || now <= info.end_time,
    ensures
        info.paused_at <= info.start_time ==> result == Ok::<i128, Error>(0),
        info.paused_at >= info.start_time ==> info.accrued(now) == info.rate_per_second * (
        info.paused_at - info.start_time),
        info.paused_at >= info.start_time ==> match result {
            Ok(amount) => amount == info.rate_per_second * (info.paused_at - info.start_time),
            Err(error) => error == Error::ArithmeticOverflow && !(i128::MIN <= info.rate_per_second
                * (info.paused_at - info.start_time) <= i128::MAX),
        },
{
    assert(info.rate_per_second * 0 == 0) by (nonlinear_arith);
}

/// Between two reads of a running stream that is not paused it streams its rate over
/// the time between them.
pub proof fn law_streams_at_its_rate(
    info: &StreamInfo,
    earlier: u64,
    later: u64,
    before: i128,
    after: i128,
)
    requires
        call_ensures(streamed_at, (earlier, info), Ok::<i128, Error>(before)),
        call_ensures(streamed_at, (later, info), Ok::<i128, Error>(after)),
        info.flags & FLAG_PAUSED == 0,
        info.start_time <= earlier <= later,
        info.end_time == 0 || later <= info.end_time,
    ensures
        after - before == info.rate_per_second * (later - earlier),
{
    let (rate, start) = (info.rate_per_second as int, info.start_time as int);
    assert(rate * (later - start) - rate * (earlier - start) == rate * (later - earlier))
        by (nonlinear_arith);
}

/// Streams that agree in rate, start, end, time of pause and pause mark stream alike,
/// whoever pays whom in which token and whatever was withdrawn.
pub proof fn law_only_rate_and_times_count(
    now: u64,
    info: &StreamInfo,
    other: &StreamInfo,
    result: Result<i128, Error>,
    other_result: Result<i128, Error>,
)
    requires
        call_ensures(streamed_at, (now, info), result),
        call_ensures(streamed_at, (now, other), other_result),
        info.rate_per_second == other.rate_per_second,
        info.start_time == other.start_time,
        info.end_time == other.end_time,
        info.paused_at == other.paused_at,
        info.flags & FLAG_PAUSED == other.flags & FLAG_PAUSED,
    ensures
        result == other_result,
{
}

/// What can be withdrawn is what has streamed less what was withdrawn, for every stream
/// alike: nothing when as much or more was withdrawn, and the widest amount where the
/// difference is wider still. It is an error exactly when what has streamed is one.
pub proof fn law_withdrawable_is_what_remains(
    now: u64,
    info: &StreamInfo,
    total: Result<i128, Error>,
    result: Result<i128, Error>,
)
    requires
        call_ensures(streamed_at, (now, info), total),
        call_ensures(withdrawable_at, (now, info), result),
    ensures
        match total {
            Ok(amount) => {
                &&& result is Ok
                &&& amount <= info.withdrawn ==> result->Ok_0 == 0
                &&& 0 < amount - info.withdrawn <= i128::MAX ==> result->Ok_0 == amount
                    - info.withdrawn
                &&& amount - info.withdrawn > i128::MAX ==> result->Ok_0 == i128::MAX
            },
            Err(error) => result == Err::<i128, Error>(error),
        },
{
}

/// What can be withdrawn and what was withdrawn together make up what has streamed, as
/// long as no more than that was withdrawn.
pub proof fn law_nothing_is_lost(now: u64, info: &StreamInfo, total: i128, result: i128)
    requires
        call_ensures(streamed_at, (now, info), Ok::<i128, Error>(total)),
        call_ensures(withdrawable_at, (now, info), Ok::<i128, Error>(result)),
        0 <= info.withdrawn <= total,
    ensures
        result + info.withdrawn == total,
{
}

/// Once everything that can be withdrawn is, nothing more can be at that moment.
pub proof fn law_withdrawing_leaves_nothing(
    now: u64,
    info: &StreamInfo,
    result: i128,
    rest: &StreamInfo,
    again: Result<i128, Error>,
)
    requires
        call_ensures(withdrawable_at, (now, info), Ok::<i128, Error>(result)),
        call_ensures(withdrawable_at, (now, rest), again),
        info.withdrawn >= 0,
        info.withdrawn + result <= i128::MAX,
        *rest == (StreamInfo { withdrawn: (info.withdrawn + result) as i128, ..*info }),
    ensures
        again == Ok::<i128, Error>(0),
{
}

/// Every stream can be read at every moment, and, where the ledger has a close time, by
/// the ledger: that gives what a read at its close time gives.
pub proof fn law_ledger_reads(
    env: &Env,
    info: &StreamInfo,
    now: u64,
    total: Result<i128, Error>,
    total_at: Result<i128, Error>,
    result: Result<i128, Error>,
    result_at: Result<i128, Error>,
)
    requires
        close_time(*env) == Some(now),
        call_ensures(streamed_amount, (env, info), total),
        call_ensures(streamed_at, (now, info), total_at),
        call_ensures(withdrawable, (env, info), result),
        call_ensures(withdrawable_at, (now, info), result_at),
    ensures
        call_requires(streamed_at, (now, info)),
        call_requires(withdrawable_at, (now, info)),
        call_requires(streamed_amount, (env, info)),
        call_requires(withdrawable, (env, info)),
        total == total_at,
        result == result_at,
{
}

} // verus!
