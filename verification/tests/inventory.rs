use scalar::inventory::{Inventory, Item, ItemStack};

fn stack(item: Item, count: i32) -> ItemStack {
    ItemStack { item, count }
}

#[test]
fn empty_inventory_reads_zero() {
    let inv = Inventory::default();
    assert_eq!(inv.get(&Item::Iron), 0);
    assert!(inv.stacks.is_empty());
}

#[test]
fn set_then_get_reads_new_count() {
    let mut inv = Inventory::default();
    inv.set(&Item::Wood, 7);
    assert_eq!(inv.get(&Item::Wood), 7);
    assert_eq!(inv.stacks, vec![stack(Item::Wood, 7)]);
    inv.set(&Item::Wood, 3);
    assert_eq!(inv.get(&Item::Wood), 3);
    assert_eq!(inv.stacks.len(), 1);
}

#[test]
fn set_to_zero_drops_stack() {
    let mut inv = Inventory::default();
    inv.set(&Item::Coal, 4);
    inv.set(&Item::Iron, 2);
    inv.set(&Item::Coal, 0);
    assert_eq!(inv.stacks, vec![stack(Item::Iron, 2)]);
    assert_eq!(inv.get(&Item::Coal), 0);
}

#[test]
fn set_negative_drops_stack() {
    let mut inv = Inventory::default();
    inv.set(&Item::Stone, -5);
    assert!(inv.stacks.is_empty());
}

#[test]
fn set_drops_every_non_positive_stack() {
    let mut inv = Inventory {
        stacks: vec![stack(Item::Iron, 0), stack(Item::Copper, 3), stack(Item::Wood, -1)],
    };
    inv.set(&Item::Coal, 1);
    assert_eq!(inv.stacks, vec![stack(Item::Copper, 3), stack(Item::Coal, 1)]);
}

#[test]
fn get_reads_first_stack_of_item() {
    let inv = Inventory {
        stacks: vec![stack(Item::Iron, 2), stack(Item::Iron, 9)],
    };
    assert_eq!(inv.get(&Item::Iron), 2);
}

#[test]
fn add_accumulates() {
    let mut inv = Inventory::default();
    inv.add(&Item::Iron, 5);
    inv.add(&Item::Iron, 10);
    inv.add(&Item::Copper, 1);
    assert_eq!(inv.get(&Item::Iron), 15);
    assert_eq!(inv.get(&Item::Copper), 1);
    assert_eq!(inv.stacks, vec![stack(Item::Iron, 15), stack(Item::Copper, 1)]);
}

#[test]
fn add_zero_changes_nothing() {
    let mut inv = Inventory {
        stacks: vec![stack(Item::Iron, 0)],
    };
    inv.add(&Item::Iron, 0);
    assert_eq!(inv.stacks, vec![stack(Item::Iron, 0)]);
}

#[test]
fn has_compares_count() {
    let mut inv = Inventory::default();
    inv.add(&Item::Stone, 3);
    assert!(inv.has(&Item::Stone, 3));
    assert!(inv.has(&Item::Stone, 0));
    assert!(!inv.has(&Item::Stone, 4));
    assert!(!inv.has(&Item::Wood, 1));
    assert!(inv.has(&Item::Wood, 0));
}

#[test]
fn remove_takes_items() {
    let mut inv = Inventory::default();
    inv.add(&Item::Wood, 10);
    inv.remove(&Item::Wood, 4);
    assert_eq!(inv.get(&Item::Wood), 6);
    inv.remove(&Item::Wood, 6);
    assert_eq!(inv.get(&Item::Wood), 0);
    assert!(inv.stacks.is_empty());
}

#[test]
fn remove_refused_when_short() {
    let mut inv = Inventory::default();
    inv.add(&Item::Wood, 2);
    inv.remove(&Item::Wood, 3);
    assert_eq!(inv.stacks, vec![stack(Item::Wood, 2)]);
}

#[test]
fn add_then_remove_restores() {
    let mut inv = Inventory::default();
    inv.add(&Item::Iron, 3);
    inv.add(&Item::Coal, 8);
    let before = inv.stacks.clone();
    inv.add(&Item::Copper, 5);
    inv.remove(&Item::Copper, 5);
    assert_eq!(inv.stacks, before);
    inv.add(&Item::Iron, 4);
    inv.remove(&Item::Iron, 4);
    assert_eq!(inv.stacks, before);
}

#[test]
fn set_leaves_other_items() {
    let mut inv = Inventory::default();
    inv.add(&Item::Iron, 3);
    inv.add(&Item::Coal, 8);
    inv.set(&Item::Iron, 0);
    assert_eq!(inv.get(&Item::Coal), 8);
}
