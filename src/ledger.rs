use vstd::prelude::*;

verus! {

/// A player's line of the score table.
#[derive(Clone, Copy, PartialEq, Eq, Debug, Structural)]
pub struct Record {
    pub score: i64,
    /// The digit the player gambles on.
    pub option: i64,
    /// When the score was last brought up to date, in seconds.
    pub last_time: i64,
}

/// Integer division rounding toward zero, as Rust's `/` does; `b` is positive.
pub open spec fn tdiv(a: int, b: int) -> int {
    if a >= 0 {
        a / b
    } else {
        -((-a) / b)
    }
}

/// The remainder that goes with `tdiv`, as Rust's `%` gives it; `b` is positive.
pub open spec fn trem(a: int, b: int) -> int {
    if a >= 0 {
        a % b
    } else {
        -((-a) % b)
    }
}

/// Three when `digit` is the option gambled on, else one.
pub open spec fn factor(digit: int, option: int) -> int {
    if digit == option {
        3
    } else {
        1
    }
}

/// How fast a score grows: three to the number of the last three decimal
/// digits of `last_time` that equal `option`.
pub open spec fn multiplier(last_time: int, option: int) -> int {
    let seed = trem(last_time, 1000);
    factor(tdiv(seed, 100), option) * factor(trem(tdiv(seed, 10), 10), option) * factor(
        trem(seed, 10),
        option,
    )
}

/// The score after bringing `stored` up to date at time `now`: a quarter of
/// the old score (rounded toward zero) is lost, and each second since the
/// last update earns the multiplier. A player without a line starts at zero.
pub open spec fn score_at(stored: Option<Record>, now: int) -> int {
    match stored {
        None => 0,
        Some(r) => r.score - tdiv(r.score as int, 4) + (now - r.last_time) * multiplier(
            r.last_time as int,
            r.option as int,
        ),
    }
}

/// The line to store after bringing `stored` up to date at time `now`, or
/// `None` when the new score does not fit in an `i64`.
pub fn score_update(stored: Option<Record>, now: i64) -> (r: Option<Record>)
    ensures
        r is Some <==> (i64::MIN <= score_at(stored, now as int) <= i64::MAX),
        r matches Some(n) ==> n == (Record {
            score: score_at(stored, now as int) as i64,
            option: match stored {
                None => 0,
                Some(s) => s.option,
            },
            last_time: now,
        }),
{
    match stored {
        None => Some(Record { score: 0, option: 0, last_time: now }),
        Some(s) => {
            let seed = s.last_time % 1000;
            let first = seed / 100;
            let second = (seed / 10) % 10;
            let third = seed % 10;
            let mut amount: i64 = 1;
            if first == s.option {
                amount = amount * 3;
            }
            if second == s.option {
                amount = amount * 3;
            }
            if third == s.option {
                amount = amount * 3;
            }
            assert(amount == multiplier(s.last_time as int, s.option as int));
            let kept = s.score - s.score / 4;
            let elapsed = now as i128 - s.last_time as i128;
            assert(-0x1_0000_0000_0000_0000 * 27 < elapsed * amount < 0x1_0000_0000_0000_0000 * 27)
                by (nonlinear_arith)
                requires
                    1 <= amount <= 27,
                    -0x1_0000_0000_0000_0000 < elapsed < 0x1_0000_0000_0000_0000,
            ;
            let total = kept as i128 + elapsed * amount as i128;
            if total < i64::MIN as i128 || total > i64::MAX as i128 {
                None
            } else {
                Some(Record { score: total as i64, option: s.option, last_time: now })
            }
        },
    }
}

/// The line to store when a player gambles on `option` at time `now`: the
/// score and the time of the last update are kept, the option is replaced.
/// A player without a line starts at zero, updated now.
pub fn gamble_update(stored: Option<Record>, option: i64, now: i64) -> (r: Record)
    ensures
        r == (match stored {
            None => Record { score: 0, option, last_time: now },
            Some(s) => Record { score: s.score, option, last_time: s.last_time },
        }),
{
    match stored {
        None => Record { score: 0, option, last_time: now },
        Some(s) => Record { score: s.score, option, last_time: s.last_time },
    }
}

} // verus!
