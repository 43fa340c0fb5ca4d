use qotd::select::{select, SECONDS_IN_DAY};

#[test]
fn a_day_has_86400_seconds() {
    assert_eq!(SECONDS_IN_DAY, 86400);
}

#[test]
fn epoch_selects_the_first_quote() {
    assert_eq!(select(0, 3), 0);
    assert_eq!(select(0, 1), 0);
}

#[test]
fn index_is_the_day_number_modulo_the_size() {
    assert_eq!(select(86_400, 3), 1);
    assert_eq!(select(2 * 86_400, 3), 2);
    assert_eq!(select(3 * 86_400, 3), 0);
    // 2024-01-01T00:00:00Z is day 19723 after the epoch.
    assert_eq!(select(1_704_067_200, 7), 19_723 % 7);
    assert_eq!(select(1_704_067_200, 7), 4);
    assert_eq!(select(1_704_067_200, 1000), 723);
}

#[test]
fn index_is_within_the_set() {
    for size in 1..50usize {
        for day in 0..200u64 {
            assert!(select(day * 86_400 + 17, size) < size);
        }
    }
}

#[test]
fn one_day_selects_one_index() {
    let midnight = 19_723 * 86_400;
    let first = select(midnight, 5);
    assert_eq!(select(midnight + 1, 5), first);
    assert_eq!(select(midnight + 43_200, 5), first);
    assert_eq!(select(midnight + 86_399, 5), first);
}

#[test]
fn index_changes_at_midnight() {
    let midnight = 19_723 * 86_400;
    assert_eq!(select(midnight - 1, 5), 19_722 % 5);
    assert_eq!(select(midnight, 5), 19_723 % 5);
    assert_ne!(select(midnight - 1, 5), select(midnight, 5));
}

#[test]
fn selection_is_periodic_in_the_size_of_the_set() {
    for size in 1..20usize {
        for now in [0u64, 1, 86_399, 86_400, 1_704_067_200, 1_704_100_000] {
            let later = now + size as u64 * 86_400;
            assert_eq!(select(later, size), select(now, size));
        }
    }
}

#[test]
fn next_day_selects_the_next_index_and_wraps() {
    let size = 4usize;
    let mut now = 1_704_067_200u64;
    let mut index = select(now, size);
    for _ in 0..12 {
        now += 86_400;
        let next = select(now, size);
        assert_eq!(next, (index + 1) % size);
        index = next;
    }
}

#[test]
fn every_index_is_served_on_some_day() {
    let size = 9usize;
    for index in 0..size {
        assert_eq!(select(index as u64 * 86_400, size), index);
    }
}

#[test]
fn a_single_quote_is_always_selected() {
    for now in [0u64, 86_400, 1_704_067_200, u64::MAX] {
        assert_eq!(select(now, 1), 0);
    }
}

#[test]
fn the_latest_instant_is_served() {
    let day = u64::MAX / 86_400;
    assert_eq!(select(u64::MAX, 10), (day % 10) as usize);
    assert_eq!(select(u64::MAX, usize::MAX), day as usize);
}
