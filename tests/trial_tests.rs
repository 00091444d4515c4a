use army_bench::{run_trials, unit_trial, value_army, Dwarf, Elf, Man};

fn empty_buffers() -> (Vec<Man>, Vec<Elf>, Vec<Dwarf>) {
    (Vec::new(), Vec::new(), Vec::new())
}

#[test]
fn trial_of_size_zero_is_zero() {
    let (mut men, mut elves, mut dwarves) = empty_buffers();
    assert_eq!(value_army(&mut men, &mut elves, &mut dwarves, 0), 0);
    for m in [0usize, 1, 7, 100] {
        assert_eq!(run_trials(0, m), Some(0));
    }
}

#[test]
fn trial_of_size_three_sums_men() {
    let (mut men, mut elves, mut dwarves) = empty_buffers();
    assert_eq!(value_army(&mut men, &mut elves, &mut dwarves, 3), 3);
    for m in [0usize, 1, 2, 10] {
        assert_eq!(run_trials(3, m), Some(3 * m as u32));
    }
}

#[test]
fn trial_of_size_four_sums_elves() {
    let (mut men, mut elves, mut dwarves) = empty_buffers();
    assert_eq!(value_army(&mut men, &mut elves, &mut dwarves, 4), 8);
    for m in [0usize, 1, 2, 10] {
        assert_eq!(run_trials(4, m), Some(8 * m as u32));
    }
}

#[test]
fn trial_of_size_five_sums_dwarves() {
    let (mut men, mut elves, mut dwarves) = empty_buffers();
    assert_eq!(value_army(&mut men, &mut elves, &mut dwarves, 5), 50);
    for m in [0usize, 1, 2, 10] {
        assert_eq!(run_trials(5, m), Some(50 * m as u32));
    }
}

#[test]
fn buffers_are_empty_after_each_trial() {
    let (mut men, mut elves, mut dwarves) = empty_buffers();
    for n in [0usize, 3, 4, 5, 9, 1] {
        value_army(&mut men, &mut elves, &mut dwarves, n);
        assert!(men.is_empty());
        assert!(elves.is_empty());
        assert!(dwarves.is_empty());
    }
}

#[test]
fn resize_keeps_existing_records() {
    let mut men = vec![Man { strength: 2, stamina: 3 }];
    let mut elves = Vec::new();
    let mut dwarves = Vec::new();
    // 2*3 + 1 + 1
    assert_eq!(value_army(&mut men, &mut elves, &mut dwarves, 3), 8);
    assert!(men.is_empty());
}

#[test]
fn resize_truncates_longer_buffers() {
    let mut men = Vec::new();
    let mut elves = Vec::new();
    let mut dwarves = vec![Dwarf { will: 2 }, Dwarf { will: 3 }, Dwarf { will: 100 }];
    // only the first two dwarves are read: 2*10 + 3*10
    assert_eq!(value_army(&mut men, &mut elves, &mut dwarves, 2), 50);
    assert!(dwarves.is_empty());
}

#[test]
fn unit_trial_values() {
    assert_eq!(unit_trial(0), Some(0));
    assert_eq!(unit_trial(6), Some(6));
    assert_eq!(unit_trial(7), Some(14));
    assert_eq!(unit_trial(8), Some(80));
    assert_eq!(unit_trial(429_496_729), Some(858_993_458));
    assert_eq!(unit_trial(429_496_730), None);
}

#[test]
fn run_trials_reports_overflow() {
    assert_eq!(run_trials(429_496_730, 1), None);
    assert_eq!(run_trials(usize::MAX, 0), Some(0));
}
