use tic_tac_toe::table::Table;

#[test]
fn empty_table_counts_nothing() {
    let t: Table<i32, i32> = Table::new();
    assert_eq!(t.count(), 0);
    assert!(!t.contains(&1, &2));
}

#[test]
fn add_count_contains() {
    let mut t: Table<i32, i32> = Table::new();
    t.add(1, 2);
    t.add(1, 3);
    t.add(10, 20);
    assert!(t.contains(&1, &3));
    assert!(t.contains(&1, &2));
    assert!(t.contains(&10, &20));
    assert!(!t.contains(&1, &20));
    assert!(!t.contains(&10, &2));
    assert!(!t.contains(&2, &1));
    assert!(!t.contains(&3, &1));
    assert_eq!(t.count(), 3);
}

#[test]
fn a_pair_is_filed_once() {
    let mut t: Table<u8, u64> = Table::new();
    for _ in 0..5 {
        t.add(7, 70);
    }
    assert_eq!(t.count(), 1);
    t.add(7, 71);
    assert_eq!(t.count(), 2);
    t.add(8, 70);
    assert_eq!(t.count(), 3);
    assert!(t.contains(&8, &70));
    assert!(!t.contains(&8, &71));
}

#[test]
fn count_adds_up_over_the_keys() {
    let mut t: Table<u32, u32> = Table::new();
    let mut expected = 0;
    for k in 0..20u32 {
        for v in 0..k {
            t.add(k, v);
            expected += 1;
            assert_eq!(t.count(), expected);
        }
    }
    assert_eq!(t.count(), 190);
    for k in 0..20u32 {
        for v in 0..20u32 {
            assert_eq!(t.contains(&k, &v), v < k);
        }
    }
}

#[test]
fn equal_sets_under_two_keys_count_twice() {
    let mut t: Table<i64, bool> = Table::new();
    t.add(-1, true);
    t.add(1, true);
    t.add(-1, false);
    t.add(1, false);
    assert_eq!(t.count(), 4);
}
