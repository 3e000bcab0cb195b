use msp_bridge::scheduler::{Schedule, ScheduleError};

#[derive(Clone, Copy, Debug, PartialEq)]
pub struct Task {
    id: u32,
}

/// The slots that are taken.
fn taken(schedule: &Schedule<u32>) -> Vec<usize> {
    let mut found = Vec::new();
    for (j, mark) in schedule.display().chars().enumerate() {
        if mark == '#' {
            found.push(j);
        }
    }
    found
}

/// The slots in order.
fn one_round(schedule: &mut Schedule<u32>) -> Vec<Option<u32>> {
    (0..schedule.size()).map(|index| schedule.slot(index)).collect()
}

#[test]
fn simple() {
    let mut s = Schedule::new(200);
    let range = 3..10;
    for i in range.clone() {
        let t = Task { id: i };
        s.insert(i, t).unwrap();
    }
    for i in range {
        let count = s.count(&Task { id: i });
        assert_eq!(count, i as usize);
    }
}

#[test]
fn multiple_identical_frequencies() {
    let freq = 7;
    let mut s = Schedule::new(200);
    let range = 0..20;
    for i in range.clone() {
        let t = Task { id: i };
        s.insert(freq, t).unwrap();
    }
    for i in range {
        let count = s.count(&Task { id: i });
        assert_eq!(count, freq as usize);
    }
}

#[test]
fn multiple_similar_frequencies() {
    let mut s = Schedule::new(200);
    for i in 3..14 {
        let t = Task { id: i };
        s.insert(i % 5 + 1, t).unwrap();
    }
}

#[test]
fn timing_behaviour() {
    let mut s = Schedule::new(10);
    let t = Task { id: 1 };
    s.insert(3, t).unwrap();
    // nothing is due before the first minor frame has passed
    assert_eq!(s.next(0), None);
    assert_eq!(s.next(99_999), None);
    assert_eq!(s.next(100_000), Some(t));
    assert_eq!(s.next(100_000), None);
    // 700 ms later
    assert_eq!(s.next(800_000), Some(t));
    assert_eq!(s.next(800_000), Some(t));
    assert_eq!(s.next(800_000), None);
    // 1000 ms later
    assert_eq!(s.next(1_800_000), Some(t));
    assert_eq!(s.next(1_800_000), Some(t));
    assert_eq!(s.next(1_800_000), Some(t));
    assert_eq!(s.next(1_800_000), None);
}

#[test]
fn new_schedule_is_empty() {
    let s: Schedule<u32> = Schedule::new(5);
    assert_eq!(s.size(), 5);
    assert_eq!(s.display(), "-----");
    assert_eq!(s.count(&0), 0);
    let empty: Schedule<u32> = Schedule::new(0);
    assert_eq!(empty.size(), 0);
    assert_eq!(empty.display(), "");
}

#[test]
fn pattern_is_evenly_spread() {
    // round(i * 10 / 3) for i = 0, 1, 2
    let mut s: Schedule<u32> = Schedule::new(10);
    s.insert(3, 1).unwrap();
    assert_eq!(s.display(), "#--#---#--");
    // round(i * 10 / 4): halves are rounded upwards
    let mut s: Schedule<u32> = Schedule::new(10);
    s.insert(4, 1).unwrap();
    assert_eq!(s.display(), "#--#-#--#-");
    let mut s: Schedule<u32> = Schedule::new(200);
    s.insert(7, 1).unwrap();
    assert_eq!(taken(&s), vec![0, 29, 57, 86, 114, 143, 171]);
}

#[test]
fn gaps_differ_by_at_most_one() {
    for size in [10usize, 50, 97, 200] {
        for frequency in 1..=size as u32 {
            let mut s: Schedule<u32> = Schedule::new(size);
            s.insert(frequency, 1).unwrap();
            assert_eq!(s.count(&1), frequency as usize);
            let slots = taken(&s);
            assert_eq!(slots[0], 0);
            let mut gaps: Vec<usize> = slots.windows(2).map(|w| w[1] - w[0]).collect();
            gaps.push(slots[0] + size - slots[slots.len() - 1]);
            let min = *gaps.iter().min().unwrap();
            let max = *gaps.iter().max().unwrap();
            assert!(max - min <= 1);
            assert_eq!(min, size / frequency as usize);
        }
    }
}

#[test]
fn phase_is_the_least_that_avoids_collisions() {
    let mut s: Schedule<u32> = Schedule::new(10);
    s.insert(3, 1).unwrap();
    s.insert(4, 2).unwrap();
    assert_eq!(one_round(&mut s), vec![
        Some(1), Some(2), None, Some(1), Some(2), None, Some(2), Some(1), None, Some(2),
    ]);
    s.insert(3, 3).unwrap();
    assert_eq!(one_round(&mut s), vec![
        Some(1), Some(2), Some(3), Some(1), Some(2), Some(3), Some(2), Some(1), Some(3), Some(2),
    ]);
    assert_eq!(s.insert(1, 4), Err(ScheduleError::Conflict));
    assert_eq!(s.display(), "##########");
}

#[test]
fn packing_keeps_earlier_tasks() {
    let mut s: Schedule<u32> = Schedule::new(200);
    s.insert(3, 3).unwrap();
    let first = one_round(&mut s);
    s.insert(4, 4).unwrap();
    let second = one_round(&mut s);
    let mut fours = Vec::new();
    for j in 0..200 {
        if first[j].is_some() {
            assert_eq!(second[j], first[j]);
        }
        if second[j] == Some(4) {
            fours.push(j);
        }
    }
    assert_eq!(fours, vec![1, 51, 101, 151]);
}

#[test]
fn conflict_leaves_the_schedule_unchanged() {
    let mut s: Schedule<u32> = Schedule::new(4);
    s.insert(2, 7).unwrap();
    s.insert(2, 8).unwrap();
    let before = one_round(&mut s);
    assert_eq!(before, vec![Some(7), Some(8), Some(7), Some(8)]);
    assert_eq!(s.insert(1, 9), Err(ScheduleError::Conflict));
    assert_eq!(one_round(&mut s), before);
    assert_eq!(s.count(&7), 2);
    assert_eq!(s.count(&8), 2);
    assert_eq!(s.count(&9), 0);
}

#[test]
fn more_occurrences_than_slots_is_a_conflict() {
    let mut s: Schedule<u32> = Schedule::new(50);
    assert_eq!(s.insert(51, 1), Err(ScheduleError::Conflict));
    assert_eq!(s.insert(u32::MAX, 1), Err(ScheduleError::Conflict));
    assert_eq!(s.count(&1), 0);
    assert_eq!(s.insert(50, 1), Ok(()));
    assert_eq!(s.count(&1), 50);
    let mut empty: Schedule<u32> = Schedule::new(0);
    assert_eq!(empty.insert(1, 1), Err(ScheduleError::Conflict));
    assert_eq!(empty.insert(0, 1), Ok(()));
}

#[test]
fn inserting_again_adds_to_the_slots_held() {
    let mut s: Schedule<u32> = Schedule::new(20);
    s.insert(2, 5).unwrap();
    s.insert(3, 5).unwrap();
    assert_eq!(s.count(&5), 5);
}

#[test]
fn frequency_zero_removes_the_task() {
    let mut s: Schedule<u32> = Schedule::new(20);
    s.insert(4, 1).unwrap();
    s.insert(2, 2).unwrap();
    assert_eq!(s.display(), "##---#----##---#----");
    assert_eq!(s.insert(0, 1), Ok(()));
    assert_eq!(s.display(), "-#---------#--------");
    assert_eq!(s.count(&1), 0);
    assert_eq!(s.count(&2), 2);
    // removing a task that is not there changes nothing
    let before = s.display();
    assert_eq!(s.insert(0, 9), Ok(()));
    assert_eq!(s.display(), before);
}

#[test]
fn delete_clears_every_slot_of_the_task() {
    let mut s: Schedule<u32> = Schedule::new(10);
    s.insert(3, 1).unwrap();
    s.insert(4, 2).unwrap();
    s.delete(&1);
    assert_eq!(s.count(&1), 0);
    assert_eq!(s.count(&2), 4);
    assert_eq!(s.display(), "-#--#-#--#");
    s.delete(&1);
    assert_eq!(s.display(), "-#--#-#--#");
}

#[test]
fn display_marks_taken_slots() {
    let mut s: Schedule<u32> = Schedule::new(8);
    s.insert(2, 1).unwrap();
    assert_eq!(s.display(), "#---#---");
    s.insert(1, 2).unwrap();
    assert_eq!(s.display(), "##--#---");
}

#[test]
fn next_yields_at_most_one_task_per_call() {
    let mut s: Schedule<u32> = Schedule::new(4);
    s.insert(4, 6).unwrap();
    // four frames have passed at once: four calls are needed
    assert_eq!(s.next(1_000_000), Some(6));
    assert_eq!(s.next(1_000_000), Some(6));
    assert_eq!(s.next(1_000_000), Some(6));
    assert_eq!(s.next(1_000_000), Some(6));
    assert_eq!(s.next(1_000_000), None);
}

#[test]
fn next_skips_empty_slots() {
    let mut s: Schedule<u32> = Schedule::new(100);
    s.insert(1, 0).unwrap();
    assert_eq!(s.next(9_999), None);
    assert_eq!(s.next(10_000), Some(0));
    // 99 empty slots follow; the task is due again behind slot 100
    assert_eq!(s.next(1_009_999), None);
    assert_eq!(s.next(1_010_000), Some(0));
    assert_eq!(s.next(1_010_000), None);
}

#[test]
fn restart_moves_the_origin() {
    let mut s: Schedule<u32> = Schedule::new(10);
    s.insert(1, 3).unwrap();
    s.restart(5_000_000);
    assert_eq!(s.next(4_000_000), None);
    assert_eq!(s.next(5_099_999), None);
    assert_eq!(s.next(5_100_000), Some(3));
    // a clock that runs backwards yields nothing
    assert_eq!(s.next(1), None);
    assert_eq!(s.next(6_100_000), Some(3));
}

#[test]
fn an_empty_schedule_yields_nothing() {
    let mut s: Schedule<u32> = Schedule::new(10);
    assert_eq!(s.next(3_000_000), None);
    assert_eq!(s.next(3_000_000), None);
    let mut none: Schedule<u32> = Schedule::new(0);
    assert_eq!(none.next(u64::MAX), None);
}

#[test]
fn one_hertz_is_seen_once_per_second() {
    let mut s: Schedule<u32> = Schedule::new(50);
    s.insert(5, 1).unwrap();
    let mut seen = 0;
    // poll once per millisecond for three seconds
    for now in (0..=3_000_000u64).step_by(1000) {
        if s.next(now) == Some(1) {
            seen += 1;
        }
    }
    assert_eq!(seen, 15);
}

#[test]
fn spacings_without_a_common_phase_conflict() {
    // every fourth and every fifth slot of twenty meet under every phase
    let mut s: Schedule<u32> = Schedule::new(20);
    s.insert(4, 1).unwrap();
    assert_eq!(s.insert(5, 2), Err(ScheduleError::Conflict));
    assert_eq!(s.display(), "#----#----#----#----");
}

#[test]
fn conflict_has_its_message() {
    assert_eq!(ScheduleError::Conflict.message(), "task does not fit current schedule");
}

#[test]
fn next_walks_the_slots_in_order() {
    let mut s: Schedule<u32> = Schedule::new(10);
    s.insert(3, 1).unwrap();
    s.insert(4, 2).unwrap();
    let slots = one_round(&mut s);
    s.restart(0);
    let mut walked = Vec::new();
    for frame in 1..=10u64 {
        // the clock reading at which `frame` minor frames have passed
        walked.push(s.next(frame * 100_000));
        assert_eq!(s.next(frame * 100_000), None);
    }
    assert_eq!(walked, slots);
}

#[test]
fn slot_reads_one_slot() {
    let mut s: Schedule<u32> = Schedule::new(3);
    s.insert(1, 42).unwrap();
    assert_eq!(s.slot(0), Some(42));
    assert_eq!(s.slot(1), None);
    assert_eq!(s.slot(2), None);
    assert_eq!(s.slot(3), None);
    assert_eq!(s.slot(usize::MAX), None);
}
