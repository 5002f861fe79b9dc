use merkle_distributor::slot_time::{
    get_average_slot_time, slot_for_time, slots_for_duration, total_bonus, PerformanceSample,
    DEFAULT_MS_PER_SLOT,
};

fn sample(secs: u16, slots: u64) -> PerformanceSample {
    PerformanceSample { sample_period_secs: secs, num_slots: slots }
}

#[test]
fn average_slot_time_is_the_mean_within_bounds() {
    assert_eq!(DEFAULT_MS_PER_SLOT, 400);
    assert_eq!(get_average_slot_time(&Vec::new()), Some(400));
    // 60000 / 120 = 500 and 60000 / 150 = 400
    assert_eq!(get_average_slot_time(&vec![sample(60, 120), sample(60, 150)]), Some(450));
    assert_eq!(get_average_slot_time(&vec![sample(60, 75)]), Some(800));
    assert_eq!(get_average_slot_time(&vec![sample(60, 300)]), Some(200));
    // too fast and too slow fall back to the default
    assert_eq!(get_average_slot_time(&vec![sample(60, 301)]), Some(400));
    assert_eq!(get_average_slot_time(&vec![sample(60, 74)]), Some(400));
    assert_eq!(get_average_slot_time(&vec![sample(60, 120), sample(60, 0)]), None);
}

#[test]
fn slots_are_reckoned_from_time() {
    assert_eq!(slot_for_time(1100, 1000, 5000, 400), Some(5250));
    assert_eq!(slot_for_time(900, 1000, 5000, 400), Some(4750));
    assert_eq!(slot_for_time(1000, 1000, 5000, 400), Some(5000));
    assert_eq!(slot_for_time(1001, 1000, 5000, 3000), Some(5000));
    assert_eq!(slot_for_time(0, 1000, 5, 400), None);
    assert_eq!(slot_for_time(u64::MAX, 0, 5, 1), None);
    assert_eq!(slot_for_time(1100, 1000, 5000, 0), None);
    assert_eq!(slots_for_duration(3600, 400), Some(9000));
    assert_eq!(slots_for_duration(1, 3), Some(333));
    assert_eq!(slots_for_duration(1, 0), None);
    assert_eq!(slots_for_duration(u64::MAX, 400), None);
    assert_eq!(total_bonus(450, 2), Some(900));
    assert_eq!(total_bonus(0, u64::MAX), Some(0));
    assert_eq!(total_bonus(u64::MAX, 2), None);
}
