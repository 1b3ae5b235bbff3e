use drip::account::Account;
use drip::stream::{
    streamed_amount, streamed_at, withdrawable, withdrawable_at, Error, StreamInfo, FLAG_CANCELLED,
    FLAG_PAUSED,
};
use soroban_sdk::testutils::{EnvTestConfig, Ledger};
use soroban_sdk::Env;

/// A stream with the given timing and sensible values for the rest.
fn make_info(
    rate_per_second: i128,
    start_time: u64,
    end_time: u64,
    withdrawn: i128,
    paused_at: u64,
    flags: u32,
) -> StreamInfo {
    StreamInfo {
        sender: Account::Key([1; 32]),
        recipient: Account::Key([2; 32]),
        token: Account::Contract([3; 32]),
        rate_per_second,
        start_time,
        end_time,
        withdrawn,
        paused_at,
        flags,
        event_sequence: 0,
    }
}

fn ledger() -> Env {
    Env::new_with_config(EnvTestConfig { capture_snapshot_at_drop: false })
}

/// What has streamed, read through the environment at a close time.
fn streamed(now: u64, info: &StreamInfo) -> Result<i128, Error> {
    let env = ledger();
    env.ledger().set_timestamp(now);
    let result = streamed_amount(&env, info);
    assert_eq!(result, streamed_at(now, info));
    result
}

/// What can be withdrawn, read through the environment at a close time.
fn available(now: u64, info: &StreamInfo) -> Result<i128, Error> {
    let env = ledger();
    env.ledger().set_timestamp(now);
    let result = withdrawable(&env, info);
    assert_eq!(result, withdrawable_at(now, info));
    result
}

const RATES: [i128; 3] = [1, 317, 999_999];
const STARTS: [u64; 3] = [1_000, 5_003, 999_999];
const SPANS: [u64; 3] = [1, 77, 999_999];

#[test]
fn streamed_zero_when_end_equals_start() {
    for rate in RATES {
        for start in STARTS {
            for elapsed in [0, 1, 999_999] {
                let info = make_info(rate, start, start, 0, 0, 0);
                assert_eq!(streamed(start + elapsed, &info), Ok(0));
            }
        }
    }
}

#[test]
fn streamed_zero_before_start() {
    for rate in RATES {
        for start in [5_000, 999_999_999] {
            for end_time in [0, start + 1, start + 999_999] {
                for deficit in [1, 3_999] {
                    let info = make_info(rate, start, end_time, 0, 0, 0);
                    assert_eq!(streamed(start - deficit, &info), Ok(0));
                }
            }
        }
    }
}

#[test]
fn streamed_open_ended_is_rate_times_elapsed() {
    for rate in RATES {
        for start in STARTS {
            for elapsed in SPANS {
                let info = make_info(rate, start, 0, 0, 0, 0);
                assert_eq!(streamed(start + elapsed, &info), Ok(rate * elapsed as i128));
            }
        }
    }
    assert_eq!(streamed(1_060, &make_info(7, 1_000, 0, 0, 0, 0)), Ok(420));
}

#[test]
fn streamed_bounded_clamps_at_end_time() {
    for rate in RATES {
        for start in STARTS {
            for duration in SPANS {
                for extra in [0, 1, 999_999] {
                    let end_time = start + duration;
                    let info = make_info(rate, start, end_time, 0, 0, 0);
                    assert_eq!(streamed(end_time + extra, &info), Ok(rate * duration as i128));
                }
            }
        }
    }
}

#[test]
fn streamed_at_end_time_is_full_amount() {
    for rate in RATES {
        for duration in SPANS {
            let end_time = 1_000 + duration;
            let info = make_info(rate, 1_000, end_time, 0, 0, 0);
            assert_eq!(streamed(end_time, &info), Ok(rate * duration as i128));
        }
    }
}

#[test]
fn streamed_overflow_returns_error() {
    for base in [i128::MAX / 2 - 1, i128::MAX / 3, 1i128 << 64] {
        let elapsed = (i128::MAX as u128 / base as u128 + 1) as u64;
        let info = make_info(base, 1, 0, 0, 0, 0);
        if let Some(now) = 1u64.checked_add(elapsed) {
            assert_eq!(streamed(now, &info), Err(Error::ArithmeticOverflow));
            assert_eq!(available(now, &info), Err(Error::ArithmeticOverflow));
            assert_eq!(streamed(now - 1, &info), Ok(base * (elapsed - 1) as i128));
        }
    }
}

#[test]
fn streamed_monotonic_in_now() {
    for rate in RATES {
        for end_time in [0, 1_000 + 1, 1_000 + 999_999] {
            let info = make_info(rate, 1_000, end_time, 0, 0, 0);
            let times = [0, 999, 1_000, 1_001, 500_000, 1_000_999, 1_001_000, 3_000_000];
            for pair in times.windows(2) {
                assert!(streamed(pair[0], &info).unwrap() <= streamed(pair[1], &info).unwrap());
            }
        }
    }
}

#[test]
fn pause_freezes_accrual() {
    for rate in RATES {
        for pause_elapsed in [1, 499_999] {
            for further in [0, 1, 499_999] {
                let paused_at = 1_000 + pause_elapsed;
                for end_time in [0, paused_at + 2 * further + 1, paused_at + 10 * further + 1_000] {
                    let info = make_info(rate, 1_000, end_time, 0, paused_at, FLAG_PAUSED);
                    let frozen = rate * pause_elapsed as i128;
                    assert_eq!(streamed(paused_at, &info), Ok(frozen));
                    assert_eq!(streamed(paused_at + further, &info), Ok(frozen));
                }
            }
        }
    }
}

#[test]
fn pause_clamps_to_end_time_when_paused_beyond_end() {
    for rate in RATES {
        for duration in SPANS {
            for pause_after_end in [1, 999_999] {
                let end_time = 1_000 + duration;
                let paused_at = end_time + pause_after_end;
                let info = make_info(rate, 1_000, end_time, 0, paused_at, FLAG_PAUSED);
                assert_eq!(streamed(paused_at + 1_000, &info), Ok(rate * duration as i128));
            }
        }
    }
}

#[test]
fn a_past_end_outweighs_an_earlier_pause() {
    let info = make_info(3, 1_000, 1_100, 0, 1_040, FLAG_PAUSED);
    assert_eq!(streamed(1_100, &info), Ok(120));
    assert_eq!(streamed(1_101, &info), Ok(300));
}

#[test]
fn math_ignores_cancelled_flag() {
    for rate in RATES {
        for elapsed in SPANS {
            let info = make_info(rate, 1_000, 0, 0, 0, FLAG_CANCELLED);
            assert_eq!(streamed(1_000 + elapsed, &info), Ok(rate * elapsed as i128));
        }
    }
}

#[test]
fn withdrawable_never_exceeds_streamed() {
    for rate in RATES {
        for elapsed in [0, 1, 999_999] {
            for withdrawn in [0, 1, 999_999_999] {
                let info = make_info(rate, 1_000, 0, withdrawn, 0, 0);
                let now = 1_000 + elapsed;
                let streamed = streamed(now, &info).unwrap();
                let w = available(now, &info).unwrap();
                assert!(w <= streamed);
                assert_eq!(w, streamed.saturating_sub(withdrawn).max(0));
            }
        }
    }
}

#[test]
fn withdrawable_never_negative() {
    for rate in RATES {
        for withdrawn in [0, 1_999_999_999, i128::MAX] {
            let info = make_info(rate, 1_000, 0, withdrawn, 0, 0);
            assert!(available(1_001, &info).unwrap() >= 0);
        }
    }
    assert_eq!(available(1_001, &make_info(5, 1_000, 0, 7, 0, 0)), Ok(0));
}

#[test]
fn withdrawable_saturates() {
    let info = make_info(1, 0, 0, i128::MIN, 0, 0);
    assert_eq!(available(10, &info), Ok(i128::MAX));
    let info = make_info(-1, 0, 0, i128::MAX, 0, 0);
    assert_eq!(available(10, &info), Ok(0));
}

#[test]
fn withdrawable_freezes_when_paused() {
    for rate in RATES {
        for pause_elapsed in SPANS {
            for further in [0, 1, 999_999] {
                let paused_at = 1_000 + pause_elapsed;
                let info = make_info(rate, 1_000, 0, 0, paused_at, FLAG_PAUSED);
                let expected = rate * pause_elapsed as i128;
                assert_eq!(available(paused_at, &info), Ok(expected));
                assert_eq!(available(paused_at + further, &info), Ok(expected));
            }
        }
    }
}

#[test]
fn marks_are_read_apart() {
    let paused = make_info(1, 0, 0, 0, 0, FLAG_PAUSED);
    assert!(paused.is_paused() && !paused.is_cancelled());
    let cancelled = make_info(1, 0, 0, 0, 0, FLAG_CANCELLED);
    assert!(!cancelled.is_paused() && cancelled.is_cancelled());
    let both = make_info(1, 0, 0, 0, 0, FLAG_PAUSED | FLAG_CANCELLED);
    assert!(both.is_paused() && both.is_cancelled());
    let neither = make_info(1, 0, 0, 0, 0, 0);
    assert!(!neither.is_paused() && !neither.is_cancelled());
}
