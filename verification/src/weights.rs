//! Weights of the vesting calls: what each call costs, as a linear function
//! of the number of locks on the account and of its vesting schedules, plus
//! the cost of the database reads and writes that the call makes.
//!
//! The coefficients were measured on reference hardware. Every sum and
//! product saturates at the largest weight.

use vstd::prelude::*;

verus! {

/// A weight: an abstract amount of computation.
pub type Weight = u64;

/// The mathematical value capped at the largest weight.
pub open spec fn saturate(value: int) -> Weight {
    if value > u64::MAX {
        u64::MAX
    } else if value < 0 {
        0
    } else {
        value as u64
    }
}

/// The product of two weights, capped at the largest weight.
pub fn saturating_mul(a: Weight, b: Weight) -> (product: Weight)
    ensures
        product == saturate(a * b),
{
    assert(a * b >= 0) by (nonlinear_arith)
        requires
            a >= 0,
            b >= 0,
    ;
    match a.checked_mul(b) {
        Some(product) => product,
        None => u64::MAX,
    }
}

/// What one read and one write of the runtime's database cost.
#[derive(Clone, Copy, Debug, PartialEq, Eq, Structural)]
pub struct RuntimeDbWeight {
    pub read: Weight,
    pub write: Weight,
}

impl RuntimeDbWeight {
    /// The weight of `count` reads.
    pub fn reads(&self, count: Weight) -> (weight: Weight)
        ensures
            weight == saturate(self.read * count),
    {
        saturating_mul(self.read, count)
    }

    /// The weight of `count` writes.
    pub fn writes(&self, count: Weight) -> (weight: Weight)
        ensures
            weight == saturate(self.write * count),
    {
        saturating_mul(self.write, count)
    }
}

/// The weight of a call: a base, a part for each of the `l` locks and each of
/// the `s` schedules, and the database accesses, capped at the largest
/// weight.
pub open spec fn call_weight(
    base: int,
    per_lock: int,
    per_schedule: int,
    l: u32,
    s: u32,
    reads: int,
    writes: int,
    db: RuntimeDbWeight,
) -> Weight {
    saturate(base + per_lock * l + per_schedule * s + db.read * reads + db.write * writes)
}

/// Weight functions of the vesting calls, for a runtime whose database
/// accesses cost `db_weight`.
#[derive(Clone, Copy, Debug, PartialEq, Eq, Structural)]
pub struct WeightInfo {
    pub db_weight: RuntimeDbWeight,
}

impl WeightInfo {
    /// The weight functions for the given database costs.
    pub fn new(db_weight: RuntimeDbWeight) -> (info: WeightInfo)
        ensures
            info.db_weight == db_weight,
    {
        WeightInfo { db_weight }
    }

    /// Adds up the parts of a call's weight, saturating at every step.
    fn compose(
        &self,
        base: Weight,
        per_lock: Weight,
        per_schedule: Weight,
        l: u32,
        s: u32,
        reads: Weight,
        writes: Weight,
    ) -> (weight: Weight)
        ensures
            weight == call_weight(
                base as int,
                per_lock as int,
                per_schedule as int,
                l,
                s,
                reads as int,
                writes as int,
                self.db_weight,
            ),
    {
        let locks = saturating_mul(per_lock, l as Weight);
        let schedules = saturating_mul(per_schedule, s as Weight);
        let read = self.db_weight.reads(reads);
        let write = self.db_weight.writes(writes);
        proof {
            assert(per_lock * l >= 0 && per_schedule * s >= 0 && self.db_weight.read * reads >= 0
                && self.db_weight.write * writes >= 0) by (nonlinear_arith)
                requires
                    per_lock >= 0,
                    l >= 0,
                    per_schedule >= 0,
                    s >= 0,
                    self.db_weight.read >= 0,
                    reads >= 0,
                    self.db_weight.write >= 0,
                    writes >= 0,
            ;
        }
        base.saturating_add(locks).saturating_add(schedules).saturating_add(read).saturating_add(
            write,
        )
    }

    /// Unlocking funds of the caller while some stay locked.
    pub fn vest_locked(&self, l: u32, s: u32) -> (weight: Weight)
        ensures
            weight == call_weight(34_970_000, 108_000, 174_000, l, s, 2, 2, self.db_weight),
    {
        self.compose(34_970_000, 108_000, 174_000, l, s, 2, 2)
    }

    /// Unlocking the last funds of the caller.
    pub fn vest_unlocked(&self, l: u32, s: u32) -> (weight: Weight)
        ensures
            weight == call_weight(34_437_000, 108_000, 136_000, l, s, 2, 2, self.db_weight),
    {
        self.compose(34_437_000, 108_000, 136_000, l, s, 2, 2)
    }

    /// Unlocking funds of another account while some stay locked.
    pub fn vest_other_locked(&self, l: u32, s: u32) -> (weight: Weight)
        ensures
            weight == call_weight(34_661_000, 110_000, 171_000, l, s, 3, 3, self.db_weight),
    {
        self.compose(34_661_000, 110_000, 171_000, l, s, 3, 3)
    }

    /// Unlocking the last funds of another account.
    pub fn vest_other_unlocked(&self, l: u32, s: u32) -> (weight: Weight)
        ensures
            weight == call_weight(34_451_000, 109_000, 132_000, l, s, 3, 3, self.db_weight),
    {
        self.compose(34_451_000, 109_000, 132_000, l, s, 3, 3)
    }

    /// A transfer that creates a vesting schedule.
    pub fn vested_transfer(&self, l: u32, s: u32) -> (weight: Weight)
        ensures
            weight == call_weight(55_652_000, 106_000, 135_000, l, s, 3, 3, self.db_weight),
    {
        self.compose(55_652_000, 106_000, 135_000, l, s, 3, 3)
    }

    /// A vested transfer forced on behalf of another account.
    pub fn force_vested_transfer(&self, l: u32, s: u32) -> (weight: Weight)
        ensures
            weight == call_weight(55_457_000, 106_000, 138_000, l, s, 4, 4, self.db_weight),
    {
        self.compose(55_457_000, 106_000, 138_000, l, s, 4, 4)
    }

    /// Merging two schedules without unlocking funds.
    pub fn not_unlocking_merge_schedules(&self, l: u32, s: u32) -> (weight: Weight)
        ensures
            weight == call_weight(35_746_000, 120_000, 173_000, l, s, 3, 3, self.db_weight),
    {
        self.compose(35_746_000, 120_000, 173_000, l, s, 3, 3)
    }

    /// Merging two schedules and unlocking funds.
    pub fn unlocking_merge_schedules(&self, l: u32, s: u32) -> (weight: Weight)
        ensures
            weight == call_weight(35_357_000, 123_000, 173_000, l, s, 3, 3, self.db_weight),
    {
        self.compose(35_357_000, 123_000, 173_000, l, s, 3, 3)
    }
}

} // verus!
