use sponge::table::{ColorLookupTable, TABLE_LEN};

#[test]
fn table_has_one_entry_per_index() {
    let table = ColorLookupTable::new();
    assert_eq!(TABLE_LEN, 257);
    assert_eq!(table.to_vec().len(), 257);
}

#[test]
fn table_entries_are_rounded_powers() {
    let table = ColorLookupTable::new();
    assert_eq!(table.get(0), 0);
    assert_eq!(table.get(1), 1);
    assert_eq!(table.get(2), 2);
    assert_eq!(table.get(3), 2);
    assert_eq!(table.get(32), 16);
    assert_eq!(table.get(100), 40);
    assert_eq!(table.get(192), 67);
    assert_eq!(table.get(243), 81);
    assert_eq!(table.get(255), 84);
    assert_eq!(table.get(256), 84);
}

#[test]
fn table_agrees_with_floating_point_rounding() {
    let table = ColorLookupTable::new().to_vec();
    for (i, entry) in table.iter().enumerate() {
        let exact = (i as f64).powf(0.8);
        assert_eq!(*entry as f64, exact.round(), "index {}", i);
    }
}

#[test]
fn table_never_decreases() {
    let table = ColorLookupTable::new().to_vec();
    for i in 0..table.len() - 1 {
        assert!(table[i] <= table[i + 1]);
    }
}

#[test]
fn table_get_reads_the_vector() {
    let table = ColorLookupTable::new();
    let entries = table.to_vec();
    for i in 0..TABLE_LEN {
        assert_eq!(table.get(i), entries[i]);
    }
}
