use personal_os::position::{Container, PositionError, PositionStore, Slot};

fn column(n: u128) -> Container {
    Container::Column(n)
}

#[test]
fn insert_without_position_appends() {
    let mut store = PositionStore::new();
    assert_eq!(store.insert(column(1), 10, None), Ok(0));
    assert_eq!(store.insert(column(1), 11, None), Ok(1));
    assert_eq!(store.insert(column(1), 12, None), Ok(2));
    assert_eq!(store.items(column(1)), vec![10, 11, 12]);
    assert_eq!(store.count(column(1)), 3);
    assert_eq!(store.count(column(2)), 0);
}

#[test]
fn insert_at_a_position_shifts_what_stands_behind() {
    let mut store = PositionStore::new();
    store.insert(column(1), 10, None).unwrap();
    store.insert(column(1), 11, None).unwrap();
    assert_eq!(store.insert(column(1), 12, Some(1)), Ok(1));
    assert_eq!(store.items(column(1)), vec![10, 12, 11]);
    assert_eq!(
        store.position_of(11),
        Some(Slot { item: 11, container: column(1), position: 2 })
    );
    assert_eq!(store.insert(column(1), 13, Some(0)), Ok(0));
    assert_eq!(store.items(column(1)), vec![13, 10, 12, 11]);
}

#[test]
fn insert_at_the_size_of_the_container_appends() {
    let mut store = PositionStore::new();
    store.insert(column(1), 10, None).unwrap();
    assert_eq!(store.insert(column(1), 11, Some(1)), Ok(1));
    assert_eq!(store.items(column(1)), vec![10, 11]);
}

#[test]
fn positions_out_of_range_are_refused_and_change_nothing() {
    let mut store = PositionStore::new();
    store.insert(column(1), 10, None).unwrap();
    assert_eq!(store.insert(column(1), 11, Some(-1)), Err(PositionError::OutOfRange));
    assert_eq!(store.insert(column(1), 11, Some(2)), Err(PositionError::OutOfRange));
    assert_eq!(store.insert(column(1), 10, None), Err(PositionError::DuplicateItem));
    assert_eq!(store.move_item(10, column(1), 1), Err(PositionError::OutOfRange));
    assert_eq!(store.move_item(10, column(2), 1), Err(PositionError::OutOfRange));
    assert_eq!(store.move_item(10, column(2), -1), Err(PositionError::OutOfRange));
    assert_eq!(store.move_item(99, column(2), 0), Err(PositionError::UnknownItem));
    assert_eq!(store.remove(99), Err(PositionError::UnknownItem));
    assert_eq!(store.items(column(1)), vec![10]);
    assert_eq!(store.items(column(2)), Vec::<u128>::new());
}

#[test]
fn remove_closes_the_gap() {
    let mut store = PositionStore::new();
    for item in [10, 11, 12, 13] {
        store.insert(column(1), item, None).unwrap();
    }
    assert_eq!(
        store.remove(11),
        Ok(Slot { item: 11, container: column(1), position: 1 })
    );
    assert_eq!(store.items(column(1)), vec![10, 12, 13]);
    assert_eq!(store.position_of(13).unwrap().position, 2);
    assert_eq!(store.position_of(11), None);
}

#[test]
fn move_down_within_a_container() {
    let mut store = PositionStore::new();
    for item in [10, 11, 12, 13] {
        store.insert(column(1), item, None).unwrap();
    }
    assert_eq!(store.move_item(10, column(1), 2), Ok(2));
    assert_eq!(store.items(column(1)), vec![11, 12, 10, 13]);
}

#[test]
fn move_up_within_a_container() {
    let mut store = PositionStore::new();
    for item in [10, 11, 12, 13] {
        store.insert(column(1), item, None).unwrap();
    }
    assert_eq!(store.move_item(13, column(1), 1), Ok(1));
    assert_eq!(store.items(column(1)), vec![10, 13, 11, 12]);
}

#[test]
fn move_to_the_same_place_changes_nothing() {
    let mut store = PositionStore::new();
    for item in [10, 11, 12] {
        store.insert(column(1), item, None).unwrap();
    }
    assert_eq!(store.move_item(11, column(1), 1), Ok(1));
    assert_eq!(store.items(column(1)), vec![10, 11, 12]);
}

#[test]
fn move_across_containers_closes_one_gap_and_opens_another() {
    let mut store = PositionStore::new();
    for item in [10, 11, 12] {
        store.insert(column(1), item, None).unwrap();
    }
    for item in [20, 21] {
        store.insert(column(2), item, None).unwrap();
    }
    assert_eq!(store.move_item(11, column(2), 1), Ok(1));
    assert_eq!(store.items(column(1)), vec![10, 12]);
    assert_eq!(store.items(column(2)), vec![20, 11, 21]);
    assert_eq!(
        store.position_of(11),
        Some(Slot { item: 11, container: column(2), position: 1 })
    );
}

#[test]
fn moving_there_and_back_restores_every_position() {
    let mut store = PositionStore::new();
    for item in [10, 11, 12] {
        store.insert(column(1), item, None).unwrap();
    }
    for item in [20, 21] {
        store.insert(column(2), item, None).unwrap();
    }
    store.move_item(11, column(2), 0).unwrap();
    store.move_item(11, column(1), 1).unwrap();
    assert_eq!(store.items(column(1)), vec![10, 11, 12]);
    assert_eq!(store.items(column(2)), vec![20, 21]);
    for (item, position) in [(10, 0), (11, 1), (12, 2)] {
        assert_eq!(
            store.position_of(item),
            Some(Slot { item, container: column(1), position })
        );
    }
}

#[test]
fn positions_stay_dense_after_many_operations() {
    let mut store = PositionStore::new();
    for item in 0..20u128 {
        store.insert(column(item % 3), item, Some(0)).unwrap();
    }
    for item in (0..20u128).step_by(4) {
        store.remove(item).unwrap();
    }
    for item in (1..20u128).step_by(4) {
        store.move_item(item, column(2), 0).unwrap();
    }
    for c in 0..3u128 {
        let items = store.items(column(c));
        assert_eq!(items.len(), store.count(column(c)));
        for (index, item) in items.iter().enumerate() {
            assert_eq!(
                store.position_of(*item),
                Some(Slot { item: *item, container: column(c), position: index as i32 })
            );
        }
    }
    assert_eq!(
        store.count(column(0)) + store.count(column(1)) + store.count(column(2)),
        15
    );
}
