use adder_collator::weights::{saturating_mul, RuntimeDbWeight, WeightInfo};

fn info() -> WeightInfo {
    WeightInfo::new(RuntimeDbWeight { read: 25_000_000, write: 100_000_000 })
}

#[test]
fn weights_without_locks_or_schedules() {
    let info = info();
    assert_eq!(info.vest_locked(0, 0), 34_970_000 + 2 * 25_000_000 + 2 * 100_000_000);
    assert_eq!(info.vest_unlocked(0, 0), 34_437_000 + 2 * 25_000_000 + 2 * 100_000_000);
    assert_eq!(info.vest_other_locked(0, 0), 34_661_000 + 3 * 25_000_000 + 3 * 100_000_000);
    assert_eq!(info.vest_other_unlocked(0, 0), 34_451_000 + 3 * 25_000_000 + 3 * 100_000_000);
    assert_eq!(info.vested_transfer(0, 0), 55_652_000 + 3 * 25_000_000 + 3 * 100_000_000);
    assert_eq!(info.force_vested_transfer(0, 0), 55_457_000 + 4 * 25_000_000 + 4 * 100_000_000);
    assert_eq!(
        info.not_unlocking_merge_schedules(0, 0),
        35_746_000 + 3 * 25_000_000 + 3 * 100_000_000
    );
    assert_eq!(
        info.unlocking_merge_schedules(0, 0),
        35_357_000 + 3 * 25_000_000 + 3 * 100_000_000
    );
}

#[test]
fn weights_grow_with_locks_and_schedules() {
    let info = WeightInfo::new(RuntimeDbWeight { read: 0, write: 0 });
    assert_eq!(info.vest_locked(3, 2), 34_970_000 + 3 * 108_000 + 2 * 174_000);
    assert_eq!(info.vest_unlocked(1, 0), 34_437_000 + 108_000);
    assert_eq!(info.vest_unlocked(0, 1), 34_437_000 + 136_000);
    assert_eq!(info.vest_other_locked(10, 10), 34_661_000 + 1_100_000 + 1_710_000);
    assert_eq!(info.vest_other_unlocked(2, 5), 34_451_000 + 218_000 + 660_000);
    assert_eq!(info.vested_transfer(49, 27), 55_652_000 + 49 * 106_000 + 27 * 135_000);
    assert_eq!(info.force_vested_transfer(49, 27), 55_457_000 + 49 * 106_000 + 27 * 138_000);
    assert_eq!(info.not_unlocking_merge_schedules(4, 4), 35_746_000 + 480_000 + 692_000);
    assert_eq!(info.unlocking_merge_schedules(4, 4), 35_357_000 + 492_000 + 692_000);
    assert_eq!(
        info.vest_locked(u32::MAX, u32::MAX),
        34_970_000 + 4_294_967_295 * 108_000 + 4_294_967_295 * 174_000
    );
}

#[test]
fn weights_saturate() {
    let info = WeightInfo::new(RuntimeDbWeight { read: u64::MAX, write: 1 });
    assert_eq!(info.vest_locked(0, 0), u64::MAX);
    let info = WeightInfo::new(RuntimeDbWeight { read: 1, write: u64::MAX / 2 });
    assert_eq!(info.vest_locked(0, 0), u64::MAX);
    assert_eq!(info.force_vested_transfer(7, 7), u64::MAX);
}

#[test]
fn database_weights_multiply_and_saturate() {
    let db = RuntimeDbWeight { read: 25, write: 100 };
    assert_eq!(db.reads(3), 75);
    assert_eq!(db.writes(3), 300);
    assert_eq!(db.reads(0), 0);
    assert_eq!(db.writes(u64::MAX), u64::MAX);
    assert_eq!(saturating_mul(1 << 32, 1 << 32), u64::MAX);
    assert_eq!(saturating_mul((1 << 32) - 1, 1 << 32), 0xffff_ffff_0000_0000);
}
