use hyu::store::{Store, StoreError};

#[test]
fn new_store_is_empty() {
    let store: Store<1, u32> = Store::new();
    assert!(store.objects().is_empty());
    assert!(store.get_resource(1).is_none());
}

#[test]
fn ensure_capacity_grows_empty_store_to_twenty_slots() {
    let mut store: Store<1, u32> = Store::new();
    store.ensure_objects_capacity();
    // Ids 1 to 20 now have a slot.
    store.new_object(20, 7);
    assert_eq!(store.get_resource(20), Some(&7));
}

#[test]
fn ensure_capacity_grows_again_near_the_top() {
    let mut store: Store<1, u32> = Store::new();
    store.ensure_objects_capacity();
    store.new_object(15, 1);
    // 20 slots, highest index 14: fewer than 10 free beyond it.
    store.ensure_objects_capacity();
    // Now (20 + 10) * 2 = 60 slots.
    store.new_object(60, 2);
    assert_eq!(store.get_resource(60), Some(&2));
    assert_eq!(store.get_resource(15), Some(&1));
}

#[test]
fn ensure_capacity_keeps_room_when_enough_is_free() {
    let mut store: Store<1, u32> = Store::new();
    store.ensure_objects_capacity();
    store.new_object(2, 5);
    store.ensure_objects_capacity();
    assert_eq!(store.get_resource(2), Some(&5));
    assert!(store.get_resource(21).is_none());
}

#[test]
fn read_after_write_and_remove() {
    let mut store: Store<1, &str> = Store::new();
    store.ensure_objects_capacity();
    let r = store.new_object(3, "display");
    assert_eq!(*r, "display");
    store.new_object(4, "seat");
    assert_eq!(store.get_object(3), Ok(&"display"));
    assert_eq!(store.get_object(4), Ok(&"seat"));
    assert!(store.remove_object(3).is_ok());
    assert_eq!(store.get_object(3), Err(StoreError::NoObject(3)));
    assert_eq!(store.get_object(4), Ok(&"seat"));
}

#[test]
fn get_object_mut_changes_the_object() {
    let mut store: Store<1, u32> = Store::new();
    store.ensure_objects_capacity();
    store.new_object(1, 10);
    *store.get_object_mut(1).unwrap() += 5;
    assert_eq!(store.get_resource(1), Some(&15));
    assert_eq!(store.get_object_mut(2), Err(StoreError::NoObject(2)));
    if let Some(x) = store.get_resource_mut(1) {
        *x = 1;
    }
    assert_eq!(store.get_resource(1), Some(&1));
}

#[test]
fn objects_lists_present_objects_in_id_order() {
    let mut store: Store<1, u32> = Store::new();
    store.ensure_objects_capacity();
    store.new_object(5, 50);
    store.new_object(2, 20);
    store.new_object(9, 90);
    let all: Vec<u32> = store.objects().into_iter().copied().collect();
    assert_eq!(all, vec![20, 50, 90]);
}

#[test]
fn ids_beyond_the_slots_have_no_object() {
    let store: Store<1, u32> = Store::default();
    assert!(store.get_resource(1000).is_none());
}

#[test]
fn id_to_index_subtracts_the_start() {
    assert_eq!(Store::<1, u32>::id_to_index(1), 0);
    assert_eq!(Store::<0xff000000, u32>::wl_id_to_index(0xff000005), 5);
}


#[test]
fn second_ensure_capacity_changes_nothing() {
    let mut store: Store<1, u32> = Store::new();
    store.ensure_objects_capacity();
    store.new_object(15, 1);
    store.ensure_objects_capacity();
    store.ensure_objects_capacity();
    // Still 60 slots: id 60 is the last, id 61 is beyond them.
    store.new_object(60, 2);
    assert_eq!(store.get_resource(60), Some(&2));
    assert_eq!(store.get_resource(61), None);
}
