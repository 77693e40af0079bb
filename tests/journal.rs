use excalivator::journal::{daily, sum_for_day, EarningsRow, PoolSubmissionResult, Resource};

fn row(day: u64, coal: u64, ore: u64) -> EarningsRow {
    EarningsRow { day, miner_earned_coal: coal, miner_earned_ore: ore }
}

#[test]
fn record_keeps_every_field() {
    let r = PoolSubmissionResult::new(20, 1, 2, 3, 4, 15, 5, 6);
    assert_eq!(r.pool_difficulty, 20);
    assert_eq!(r.pool_earned_coal, 1);
    assert_eq!(r.pool_earned_ore, 2);
    assert_eq!(r.miner_percentage_coal_bits, 3);
    assert_eq!(r.miner_percentage_ore_bits, 4);
    assert_eq!(r.miner_difficulty, 15);
    assert_eq!(r.miner_earned_coal, 5);
    assert_eq!(r.miner_earned_ore, 6);
}

#[test]
fn today_sums_only_todays_rows() {
    let rows = vec![row(10, 5, 1), row(11, 7, 2), row(11, 8, 3), row(12, 100, 100)];
    assert_eq!(sum_for_day(&rows, Resource::Coal, 11), 15);
    assert_eq!(sum_for_day(&rows, Resource::Ore, 11), 5);
    assert_eq!(sum_for_day(&rows, Resource::Coal, 9), 0);
    assert_eq!(sum_for_day(&vec![], Resource::Ore, 9), 0);
    assert_eq!(sum_for_day(&vec![row(1, u64::MAX, 0), row(1, 1, 0)], Resource::Coal, 1), u64::MAX);
}

#[test]
fn daily_groups_by_day_ascending() {
    let rows = vec![row(20, 5, 1), row(14, 1, 1), row(18, 7, 2), row(20, 8, 3), row(13, 50, 50)];
    assert_eq!(daily(&rows, Resource::Coal, 20, 7), vec![(14, 1), (18, 7), (20, 13)]);
    assert_eq!(daily(&rows, Resource::Ore, 20, 7), vec![(14, 1), (18, 2), (20, 4)]);
    assert_eq!(daily(&rows, Resource::Ore, 20, 0), vec![]);
    assert_eq!(daily(&rows, Resource::Coal, 20, 8), vec![(13, 50), (14, 1), (18, 7), (20, 13)]);
}
