use rock_paper_scissor::table::{Table, TableKey};

#[test]
fn empty_table_holds_nothing() {
    let table: Table<u64, u8> = Table::new();
    assert!(!table.contains_key(&0));
    assert_eq!(table.get(&0), None);
}

#[test]
fn insert_then_get() {
    let mut table: Table<u64, u8> = Table::new();
    table.insert(5, 50);
    table.insert(6, 60);
    assert_eq!(table.get(&5), Some(&50));
    assert_eq!(table.get(&6), Some(&60));
    assert_eq!(table.get(&7), None);
    assert!(table.contains_key(&5));
    assert!(!table.contains_key(&7));
}

#[test]
fn insert_replaces_what_was_there() {
    let mut table: Table<u64, u8> = Table::new();
    table.insert(5, 50);
    table.insert(6, 60);
    table.insert(5, 51);
    assert_eq!(table.get(&5), Some(&51));
    assert_eq!(table.get(&6), Some(&60));
}

#[test]
fn digest_keys_differ_by_any_byte() {
    let mut table: Table<[u8; 32], u8> = Table::new();
    let a = [1u8; 32];
    let mut b = a;
    b[31] = 2;
    table.insert(a, 1);
    table.insert(b, 2);
    assert_eq!(table.get(&a), Some(&1));
    assert_eq!(table.get(&b), Some(&2));
}

#[test]
fn pair_keys_compare_both_parts() {
    let mut table: Table<([u8; 32], u64), u8> = Table::new();
    table.insert(([1u8; 32], 1), 11);
    table.insert(([1u8; 32], 2), 12);
    table.insert(([2u8; 32], 1), 21);
    assert_eq!(table.get(&([1u8; 32], 1)), Some(&11));
    assert_eq!(table.get(&([1u8; 32], 2)), Some(&12));
    assert_eq!(table.get(&([2u8; 32], 1)), Some(&21));
    assert_eq!(table.get(&([2u8; 32], 2)), None);
    assert!(([1u8; 32], 1u64).same(&([1u8; 32], 1u64)));
    assert!(!([1u8; 32], 1u64).same(&([1u8; 32], 2u64)));
    assert!(7u64.same(&7u64));
    assert!(!7u64.same(&8u64));
}
