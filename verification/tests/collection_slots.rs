use ducttape_item_engine::collection::{
    ItemCollectionError, ItemCollectionEvent, ItemCollectionSized, ItemCollectionUnsized,
};
use ducttape_item_engine::item::{Item, ItemStack};
use ducttape_item_engine::prelude_items::Rock;

fn rock_stack(count: u32) -> ItemStack {
    ItemStack::new(Rock::new().into_item(), count)
}

#[test]
fn sized_collection_fills_then_rejects() {
    // A sized collection of capacity 16, empty (all air): 16 adds succeed,
    // the 17th fails with Full.
    let mut inv = ItemCollectionSized::new(16);
    assert_eq!(inv.get_size(), 16);
    assert_eq!(inv.len(), 16);

    for i in 0..16u32 {
        assert!(inv.add_item(rock_stack(i + 1)).is_ok());
    }
    assert!(matches!(inv.add_item(rock_stack(99)), Err(ItemCollectionError::Full)));
}

#[test]
fn first_add_occupies_slot_zero() {
    let mut inv = ItemCollectionSized::new(16);
    assert!(inv.get_item(0).is_err());
    inv.add_item(rock_stack(3)).expect("an empty collection accepts an item");
    let got = inv.get_item(0).expect("slot 0 was just filled");
    assert_eq!(got.get_ident(), "rock");
    assert_eq!(got.get_count(), 3);
}

#[test]
fn remove_on_air_fails_remove_on_occupied_leaves_air() {
    let mut inv = ItemCollectionSized::new(4);
    assert!(matches!(inv.remove_item(2), Err(ItemCollectionError::NotFound)));

    inv.add_item(rock_stack(5)).expect("room available");
    let removed = inv.remove_item(0).expect("slot 0 occupied");
    assert_eq!(removed.get_ident(), "rock");
    assert_eq!(removed.get_count(), 5);

    // the slot holds air again: a read fails with NotFound
    assert!(matches!(inv.get_item(0), Err(ItemCollectionError::NotFound)));
    assert_eq!(inv.len(), 4);
}

#[test]
fn get_out_of_range_fails() {
    let inv = ItemCollectionSized::new(2);
    assert!(matches!(inv.get_item(7), Err(ItemCollectionError::NotFound)));
}

#[test]
fn set_item_overwrites_occupied_slots_only() {
    let mut inv = ItemCollectionSized::new(2);
    assert!(matches!(inv.set_item(0, rock_stack(1)), Err(ItemCollectionError::NotFound)));
    inv.add_item(rock_stack(1)).expect("room available");
    inv.set_item(0, rock_stack(9)).expect("slot 0 occupied");
    assert_eq!(inv.get_item(0).expect("still occupied").get_count(), 9);
}

#[test]
fn refresh_notifies_without_mutating() {
    let mut inv = ItemCollectionSized::new(3);
    inv.add_item(rock_stack(2)).expect("room available");
    let _ = inv.take_events();

    let before: Vec<(String, u32)> =
        inv.get_items().iter().map(|s| (s.get_ident(), s.get_count())).collect();
    inv.refresh();
    inv.refresh();
    let after: Vec<(String, u32)> =
        inv.get_items().iter().map(|s| (s.get_ident(), s.get_count())).collect();

    assert_eq!(before, after);
    let events = inv.take_events();
    assert_eq!(events.len(), 2);
    assert!(events.iter().all(|e| matches!(e, ItemCollectionEvent::ManualRefresh)));
}

#[test]
fn events_record_structural_changes() {
    let mut inv = ItemCollectionSized::new(2);
    inv.add_item(rock_stack(1)).expect("room available");
    inv.remove_item(0).expect("occupied");
    inv.clear();
    let events = inv.take_events();
    assert_eq!(events.len(), 3);
    match &events[0] {
        ItemCollectionEvent::Add { index, item } => {
            assert_eq!(*index, 0);
            assert_eq!(item.get_ident(), "rock");
        },
        _ => panic!("expected an add event"),
    }
    match &events[1] {
        ItemCollectionEvent::Remove { index, item } => {
            assert_eq!(*index, 0);
            assert_eq!(item.get_ident(), "rock");
        },
        _ => panic!("expected a remove event"),
    }
    assert!(matches!(events[2], ItemCollectionEvent::Clear));
    assert!(inv.take_events().is_empty());
}

#[test]
fn sized_clear_keeps_length_and_leaves_air() {
    let mut inv = ItemCollectionSized::new(3);
    inv.add_item(rock_stack(1)).expect("room available");
    inv.clear();
    assert_eq!(inv.len(), 3);
    for i in 0..3 {
        assert!(inv.get_item(i).is_err());
    }
}

#[test]
fn unsized_collection_appends_unconditionally() {
    let mut inv = ItemCollectionUnsized::new();
    assert!(inv.is_empty());
    for i in 0..20u32 {
        assert!(inv.add_item(rock_stack(i + 1)).is_ok());
    }
    assert_eq!(inv.len(), 20);
    assert_eq!(inv.get_item(19).expect("occupied").get_count(), 20);

    let events = inv.take_events();
    assert_eq!(events.len(), 20);
    match &events[4] {
        ItemCollectionEvent::Add { index, .. } => assert_eq!(*index, 4),
        _ => panic!("expected an add event"),
    }
}

#[test]
fn unsized_air_slot_reads_as_absent() {
    let mut inv = ItemCollectionUnsized::new();
    inv.add_item(ItemStack::new(Item::Air, 1)).expect("append always succeeds");
    assert!(matches!(inv.get_item(0), Err(ItemCollectionError::NotFound)));
    assert!(matches!(inv.remove_item(0), Err(ItemCollectionError::NotFound)));
}

#[test]
fn error_messages() {
    assert_eq!(ItemCollectionError::Full.message(), "Item collection is full");
    assert_eq!(ItemCollectionError::Empty.message(), "Item collection is empty");
    assert_eq!(ItemCollectionError::NotFound.message(), "Item not found in collection");
}

#[test]
fn stack_counts() {
    let mut stack = rock_stack(2);
    stack.increment_count(3);
    assert_eq!(stack.get_count(), 5);
    stack.decrement_count(4);
    assert_eq!(stack.get_count(), 1);
    stack.set_count(7);
    assert_eq!(stack.get_count(), 7);
    assert_eq!(stack.get_name(), "\u{1faa8}");
    assert!(!stack.is_air());
}
