use struct_table::data_provider::{
    get_vec_range_clamped, page_index, page_result, row_count_from_pages,
};
use struct_table::data_storage::{self, MemoryStorage, TableDataStorage};

#[test]
fn clamped_copy_with_range() {
    let v = vec![1, 2, 3, 4, 5];
    assert_eq!(get_vec_range_clamped(&v, 1..3), (vec![2, 3], 1..3));
    assert_eq!(get_vec_range_clamped(&v, 3..10), (vec![4, 5], 3..5));
    assert_eq!(get_vec_range_clamped(&v, 7..10), (vec![5], 4..5));
    let empty: Vec<u8> = vec![];
    assert_eq!(get_vec_range_clamped(&empty, 0..10), (vec![], 0..0));
}

#[test]
fn clamped_copy_of_storage() {
    let v = vec!['a', 'b', 'c'];
    assert_eq!(data_storage::get_vec_range_clamped(&v, 1..9), vec!['b', 'c']);
    assert_eq!(data_storage::get_vec_range_clamped(&v, 0..0), Vec::<char>::new());
    let empty: Vec<char> = vec![];
    assert_eq!(data_storage::get_vec_range_clamped(&empty, 2..4), Vec::<char>::new());
}

#[test]
fn memory_storage_reads_and_writes() {
    let mut storage = MemoryStorage::new(vec![10, 20, 30]);
    assert_eq!(storage.get_rows(1..5), Ok(vec![20, 30]));
    assert_eq!(storage.set_row(1, 21), Ok(()));
    assert_eq!(storage.set_row(9, 99), Ok(()));
    assert_eq!(storage.get_rows(0..3), Ok(vec![10, 21, 30]));
    assert!(storage.get_rows(3..1).is_err());
}

#[test]
fn pages_of_a_paginated_source() {
    assert_eq!(page_index(&(40..60), 20), 2);
    assert_eq!(page_index(&(0..20), 20), 0);
    assert_eq!(page_result(&(40..60), vec!['x'; 5]), (vec!['x'; 5], 40..45));
    assert_eq!(row_count_from_pages(Some(3), 20), Some(60));
    assert_eq!(row_count_from_pages(None, 20), None);
}
