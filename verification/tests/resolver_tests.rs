use wave_vpi::resolver::find_nearest_time_index;

#[test]
fn resolves_between_entries_to_preceding_index() {
    let t: Vec<u64> = vec![0, 10, 10, 25];
    assert_eq!(find_nearest_time_index(&t, 7), 0);
}

#[test]
fn resolves_exact_duplicate_to_either_duplicate_index() {
    let t: Vec<u64> = vec![0, 10, 10, 25];
    let r = find_nearest_time_index(&t, 10);
    assert!(r == 1 || r == 2);
}

#[test]
fn resolves_after_last_entry_to_last_index() {
    let t: Vec<u64> = vec![0, 10, 10, 25];
    assert_eq!(find_nearest_time_index(&t, 30), 3);
}

#[test]
fn resolves_before_first_entry_to_zero() {
    let t: Vec<u64> = vec![5, 10, 25];
    assert_eq!(find_nearest_time_index(&t, 3), 0);
}

#[test]
fn resolves_exact_first_entry() {
    let t: Vec<u64> = vec![5, 10, 25];
    assert_eq!(find_nearest_time_index(&t, 5), 0);
}

#[test]
fn resolving_table_entries_is_idempotent_on_strictly_increasing_table() {
    let t: Vec<u64> = vec![0, 3, 10, 25, 100, 101];
    for i in 0..t.len() {
        assert_eq!(find_nearest_time_index(&t, t[i]), i);
    }
}

#[test]
fn resolves_empty_table_to_zero() {
    let t: Vec<u64> = vec![];
    assert_eq!(find_nearest_time_index(&t, 42), 0);
}

#[test]
fn resolves_single_entry_table() {
    let t: Vec<u64> = vec![8];
    assert_eq!(find_nearest_time_index(&t, 0), 0);
    assert_eq!(find_nearest_time_index(&t, 8), 0);
    assert_eq!(find_nearest_time_index(&t, 100), 0);
}

#[test]
fn resolved_entry_never_exceeds_queried_time() {
    let t: Vec<u64> = vec![2, 2, 4, 9, 9, 9, 50];
    for time in 2..60u64 {
        let r = find_nearest_time_index(&t, time);
        assert!(t[r] <= time);
        for j in 0..t.len() {
            if t[j] <= time {
                assert!(t[j] <= t[r]);
            }
        }
    }
}
