//! The earnings journal's records and its day-bucketed aggregation. Storage itself is
//! the caller's; here are the values it stores and what is computed from them.
use vstd::prelude::*;

verus! {

/// One round's outcome as the journal stores it. Amounts are in grains; the two
/// percentages are kept as the bit patterns of the coordinator's `f64` values, since
/// they are stored and never computed with.
#[derive(Clone, Copy, Debug, PartialEq, Eq, Structural)]
pub struct PoolSubmissionResult {
    pub pool_difficulty: u32,
    pub pool_earned_coal: u64,
    pub pool_earned_ore: u64,
    pub miner_percentage_coal_bits: u64,
    pub miner_percentage_ore_bits: u64,
    pub miner_difficulty: u32,
    pub miner_earned_coal: u64,
    pub miner_earned_ore: u64,
}

impl PoolSubmissionResult {
    pub fn new(
        pool_difficulty: u32,
        pool_earned_coal: u64,
        pool_earned_ore: u64,
        miner_percentage_coal_bits: u64,
        miner_percentage_ore_bits: u64,
        miner_difficulty: u32,
        miner_earned_coal: u64,
        miner_earned_ore: u64,
    ) -> (r: PoolSubmissionResult)
        ensures
            r == (PoolSubmissionResult {
                pool_difficulty,
                pool_earned_coal,
                pool_earned_ore,
                miner_percentage_coal_bits,
                miner_percentage_ore_bits,
                miner_difficulty,
                miner_earned_coal,
                miner_earned_ore,
            }),
    {
        PoolSubmissionResult {
            pool_difficulty,
            pool_earned_coal,
            pool_earned_ore,
            miner_percentage_coal_bits,
            miner_percentage_ore_bits,
            miner_difficulty,
            miner_earned_coal,
            miner_earned_ore,
        }
    }
}

/// The reward tokens that the journal sums.
#[derive(Clone, Copy, Debug, PartialEq, Eq, Structural)]
pub enum Resource {
    Coal,
    Ore,
}

/// What the aggregation reads of a stored row: the calendar day it was written on, as
/// a day number, and the miner's earnings.
#[derive(Clone, Copy, Debug, PartialEq, Eq, Structural)]
pub struct EarningsRow {
    pub day: u64,
    pub miner_earned_coal: u64,
    pub miner_earned_ore: u64,
}

pub open spec fn earned(r: EarningsRow, res: Resource) -> int {
    match res {
        Resource::Coal => r.miner_earned_coal as int,
        Resource::Ore => r.miner_earned_ore as int,
    }
}

/// The sum of `res` earned over the rows of `day`.
pub open spec fn day_sum(rows: Seq<EarningsRow>, res: Resource, day: u64) -> int
    decreases rows.len(),
{
    if rows.len() == 0 {
        0
    } else {
        day_sum(rows.drop_last(), res, day) + if rows.last().day == day {
            earned(rows.last(), res)
        } else {
            0
        }
    }
}

/// Whether some row was written on `day`.
pub open spec fn has_day(rows: Seq<EarningsRow>, day: u64) -> bool {
    exists|i: int| 0 <= i < rows.len() && (#[trigger] rows[i]).day == day
}

pub open spec fn clamp_u64(v: int) -> int {
    if v > u64::MAX {
        u64::MAX as int
    } else {
        v
    }
}

/// The days `first .. first + n` that have rows, ascending, each with its sum.
pub open spec fn daily_spec(rows: Seq<EarningsRow>, res: Resource, first: u64, n: nat) -> Seq<
    (u64, int),
>
    decreases n,
{
    if n == 0 {
        Seq::empty()
    } else {
        let day = (first + n - 1) as u64;
        daily_spec(rows, res, first, (n - 1) as nat) + if has_day(rows, day) {
            seq![(day, clamp_u64(day_sum(rows, res, day)))]
        } else {
            Seq::empty()
        }
    }
}

/// The sum of `res` earned on `day`, saturating at `u64::MAX`; zero when there are no
/// rows of that day.
pub fn sum_for_day(rows: &Vec<EarningsRow>, res: Resource, day: u64) -> (r: u64)
    ensures
        r == clamp_u64(day_sum(rows@, res, day)),
{
    let mut total: u64 = 0;
    let mut i: usize = 0;
    while i < rows.len()
        invariant
            i <= rows@.len(),
            total == clamp_u64(day_sum(rows@.subrange(0, i as int), res, day)),
            day_sum(rows@.subrange(0, i as int), res, day) >= 0,
        decreases rows@.len() - i,
    {
        proof {
            let next = rows@.subrange(0, i + 1);
            assert(next.drop_last() =~= rows@.subrange(0, i as int));
            assert(next.last() == rows@[i as int]);
        }
        let row = rows[i];
        if row.day == day {
            let v: u64 = match res {
                Resource::Coal => row.miner_earned_coal,
                Resource::Ore => row.miner_earned_ore,
            };
            total = total.saturating_add(v);
        }
        i = i + 1;
    }
    assert(rows@.subrange(0, i as int) =~= rows@);
    total
}

/// Whether some row was written on `day`.
fn any_on_day(rows: &Vec<EarningsRow>, day: u64) -> (r: bool)
    ensures
        r == has_day(rows@, day),
{
    let mut i: usize = 0;
    while i < rows.len()
        invariant
            i <= rows@.len(),
            forall|k: int| 0 <= k < i ==> (#[trigger] rows@[k]).day != day,
        decreases rows@.len() - i,
    {
        if rows[i].day == day {
            return true;
        }
        i = i + 1;
    }
    false
}

/// For each of the `days` days that end with `today`, ascending, the day and the sum of
/// `res` earned on it; days without rows are left out.
pub fn daily(rows: &Vec<EarningsRow>, res: Resource, today: u64, days: u64) -> (r: Vec<(u64, u64)>)
    requires
        days <= today + 1,
    ensures
        r@.len() == daily_spec(rows@, res, (today + 1 - days) as u64, days as nat).len(),
        forall|i: int|
            0 <= i < r@.len() ==> (#[trigger] r@[i]).0 == daily_spec(
                rows@,
                res,
                (today + 1 - days) as u64,
                days as nat,
            )[i].0 && r@[i].1 == daily_spec(rows@, res, (today + 1 - days) as u64, days as nat)[i].1,
{
    if days == 0 {
        return Vec::new();
    }
    let first: u64 = today - (days - 1);
    assert(first == (today + 1 - days) as u64);
    let mut out: Vec<(u64, u64)> = Vec::new();
    let mut n: u64 = 0;
    while n < days
        invariant
            n <= days,
            first + days == today + 1,
            out@.len() == daily_spec(rows@, res, first, n as nat).len(),
            forall|i: int|
                0 <= i < out@.len() ==> (#[trigger] out@[i]).0 == daily_spec(rows@, res, first, n as nat)[i].0
                    && out@[i].1 == daily_spec(rows@, res, first, n as nat)[i].1,
        decreases days - n,
    {
        let day: u64 = first + n;
        let ghost before = out@;
        if any_on_day(rows, day) {
            let s: u64 = sum_for_day(rows, res, day);
            out.push((day, s));
        }
        n = n + 1;
        proof {
            let prev = daily_spec(rows@, res, first, (n - 1) as nat);
            assert(daily_spec(rows@, res, first, n as nat) == prev + if has_day(rows@, day) {
                seq![(day, clamp_u64(day_sum(rows@, res, day)))]
            } else {
                Seq::<(u64, int)>::empty()
            });
            assert forall|i: int| 0 <= i < out@.len() implies (#[trigger] out@[i]).0 == daily_spec(
                rows@,
                res,
                first,
                n as nat,
            )[i].0 && out@[i].1 == daily_spec(rows@, res, first, n as nat)[i].1 by {
                if i < before.len() {
                    assert(out@[i] == before[i]);
                }
            }
        }
    }
    out
}

/// The day sums that `daily` reports are ascending in the day, with no day twice.
pub proof fn lemma_daily_ascending(rows: Seq<EarningsRow>, res: Resource, first: u64, n: nat, i: int, j: int)
    requires
        first + n <= u64::MAX + 1,
        0 <= i < j < daily_spec(rows, res, first, n).len(),
    ensures
        daily_spec(rows, res, first, n)[i].0 < daily_spec(rows, res, first, n)[j].0,
    decreases n,
{
    lemma_daily_days_in_range(rows, res, first, n);
    if n > 0 {
        let prev = daily_spec(rows, res, first, (n - 1) as nat);
        lemma_daily_days_in_range(rows, res, first, (n - 1) as nat);
        if j < prev.len() {
            lemma_daily_ascending(rows, res, first, (n - 1) as nat, i, j);
        } else {
            assert(daily_spec(rows, res, first, n)[i] == prev[i]);
        }
    }
}

proof fn lemma_daily_days_in_range(rows: Seq<EarningsRow>, res: Resource, first: u64, n: nat)
    requires
        first + n <= u64::MAX + 1,
    ensures
        forall|i: int|
            0 <= i < daily_spec(rows, res, first, n).len() ==> first <= (#[trigger] daily_spec(
                rows,
                res,
                first,
                n,
            )[i]).0 < first + n,
        n > 0 && has_day(rows, (first + n - 1) as u64) ==> daily_spec(rows, res, first, n).last().0
            == first + n - 1,
    decreases n,
{
    if n > 0 {
        lemma_daily_days_in_range(rows, res, first, (n - 1) as nat);
        let prev = daily_spec(rows, res, first, (n - 1) as nat);
        assert forall|i: int|
            0 <= i < daily_spec(rows, res, first, n).len() implies first <= (#[trigger] daily_spec(
            rows,
            res,
            first,
            n,
        )[i]).0 < first + n by {
            if i < prev.len() {
                assert(daily_spec(rows, res, first, n)[i] == prev[i]);
            }
        }
    }
}

} // verus!
