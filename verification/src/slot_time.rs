//! Converting between wall-clock time and slots, from measured slot times.

use vstd::prelude::*;

verus! {

/// Milliseconds that a slot takes by default.
pub const DEFAULT_MS_PER_SLOT: u64 = 400;

/// One measurement of the cluster's speed: so many slots in so many seconds.
#[derive(Copy, Clone, Debug)]
pub struct PerformanceSample {
    /// Length of the sample in seconds
    pub sample_period_secs: u16,
    /// Slots that passed in the sample
    pub num_slots: u64,
}

/// Milliseconds per slot in one sample, rounded down.
pub open spec fn sample_slot_time(sample: PerformanceSample) -> int
    recommends
        sample.num_slots > 0,
{
    sample.sample_period_secs * 1000 / (sample.num_slots as int)
}

/// Sum of the slot times of the first `n` samples.
pub open spec fn slot_time_sum(samples: Seq<PerformanceSample>, n: int) -> int
    decreases n,
{
    if n <= 0 {
        0
    } else {
        slot_time_sum(samples, n - 1) + sample_slot_time(samples[n - 1])
    }
}

/// The slot time that a list of samples gives: the mean of their slot times,
/// and the default where there is no sample or the mean is below half or
/// above twice the default.
pub open spec fn mean_slot_time(samples: Seq<PerformanceSample>) -> int {
    if samples.len() == 0 {
        DEFAULT_MS_PER_SLOT as int
    } else {
        let mean = slot_time_sum(samples, samples.len() as int) / (samples.len() as int);
        if mean < DEFAULT_MS_PER_SLOT / 2 || mean > DEFAULT_MS_PER_SLOT * 2 {
            DEFAULT_MS_PER_SLOT as int
        } else {
            mean
        }
    }
}

/// Whether every sample saw at least one slot.
pub open spec fn all_have_slots(samples: Seq<PerformanceSample>) -> bool {
    forall|i: int| 0 <= i < samples.len() ==> (#[trigger] samples[i]).num_slots > 0
}

/// The average time of a slot in milliseconds over the given samples, or
/// the default where the samples give no plausible value. There is no
/// average where a sample saw no slot.
pub fn get_average_slot_time(samples: &Vec<PerformanceSample>) -> (r: Option<u64>)
    ensures
        match r {
            Some(ms) => all_have_slots(samples@) && ms == mean_slot_time(samples@),
            None => !all_have_slots(samples@),
        },
{
    let num_samples = samples.len();
    if num_samples == 0 {
        return Some(DEFAULT_MS_PER_SLOT);
    }
    let mut total_time: u128 = 0;
    let mut i: usize = 0;
    while i < num_samples
        invariant
            num_samples == samples@.len(),
            i <= num_samples,
            total_time == slot_time_sum(samples@, i as int),
            total_time <= i * 65_535_000,
            forall|j: int| 0 <= j < i ==> (#[trigger] samples@[j]).num_slots > 0,
        decreases num_samples - i,
    {
        let sample = &samples[i];
        if sample.num_slots == 0 {
            return None;
        }
        let period_ms: u64 = sample.sample_period_secs as u64 * 1000;
        let per_slot: u64 = period_ms / sample.num_slots;
        assert(per_slot <= period_ms) by (nonlinear_arith)
            requires
                per_slot == period_ms / sample.num_slots,
                sample.num_slots >= 1,
        ;
        total_time = total_time + per_slot as u128;
        i += 1;
    }
    let average_time: u128 = total_time / (num_samples as u128);
    if average_time < (DEFAULT_MS_PER_SLOT / 2) as u128 || average_time > (DEFAULT_MS_PER_SLOT
        * 2) as u128 {
        return Some(DEFAULT_MS_PER_SLOT);
    }
    Some(average_time as u64)
}

/// The slot that falls on `target_time`, reckoned from the current slot and
/// time with the given slot time in milliseconds.
pub open spec fn slot_at_time(
    target_time: u64,
    current_time: u64,
    current_slot: u64,
    slot_time_ms: u64,
) -> int
    recommends
        slot_time_ms > 0,
{
    if target_time > current_time {
        current_slot + (target_time - current_time) * 1000 / (slot_time_ms as int)
    } else {
        current_slot - (current_time - target_time) * 1000 / (slot_time_ms as int)
    }
}

/// The slot that falls on `target_time` (in seconds), reckoned from the
/// current slot and time. There is none where the slot time is 0 or the
/// slot lies outside the 64-bit range.
pub fn slot_for_time(target_time: u64, current_time: u64, current_slot: u64, slot_time_ms: u64) -> (r:
    Option<u64>)
    ensures
        match r {
            Some(slot) => slot_time_ms > 0 && slot == slot_at_time(
                target_time,
                current_time,
                current_slot,
                slot_time_ms,
            ),
            None => slot_time_ms == 0 || !(0 <= slot_at_time(
                target_time,
                current_time,
                current_slot,
                slot_time_ms,
            ) <= u64::MAX),
        },
{
    if slot_time_ms == 0 {
        return None;
    }
    if target_time > current_time {
        let ahead: u128 = (target_time - current_time) as u128 * 1000 / (slot_time_ms as u128);
        if ahead > (u64::MAX - current_slot) as u128 {
            None
        } else {
            Some(current_slot + ahead as u64)
        }
    } else {
        let behind: u128 = (current_time - target_time) as u128 * 1000 / (slot_time_ms as u128);
        if behind > current_slot as u128 {
            None
        } else {
            Some(current_slot - behind as u64)
        }
    }
}

/// The number of slots that pass in `duration_secs` seconds. There is none
/// where the slot time is 0 or the number does not fit in 64 bits.
pub fn slots_for_duration(duration_secs: u64, slot_time_ms: u64) -> (r: Option<u64>)
    ensures
        match r {
            Some(slots) => slot_time_ms > 0 && duration_secs * 1000 <= u64::MAX && slots
                == duration_secs * 1000 / (slot_time_ms as int),
            None => slot_time_ms == 0 || duration_secs * 1000 > u64::MAX,
        },
{
    if slot_time_ms == 0 || duration_secs > u64::MAX / 1000 {
        return None;
    }
    Some(duration_secs * 1000 / slot_time_ms)
}

/// The bonus pool of a distributor: its total claim times the multiplier.
/// There is none where the product does not fit in 64 bits.
pub fn total_bonus(max_total_claim: u64, bonus_multiplier: u64) -> (r: Option<u64>)
    ensures
        match r {
            Some(bonus) => bonus == max_total_claim * bonus_multiplier,
            None => max_total_claim * bonus_multiplier > u64::MAX,
        },
{
    assert(max_total_claim * bonus_multiplier <= 0xffff_ffff_ffff_ffff * 0xffff_ffff_ffff_ffff)
        by (nonlinear_arith)
        requires
            max_total_claim <= 0xffff_ffff_ffff_ffff,
            bonus_multiplier <= 0xffff_ffff_ffff_ffff,
    ;
    let wide: u128 = max_total_claim as u128 * bonus_multiplier as u128;
    if wide > u64::MAX as u128 {
        None
    } else {
        Some(wide as u64)
    }
}

} // verus!
