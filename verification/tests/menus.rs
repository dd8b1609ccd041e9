use scalar::buildings::{Building, FuelSlot};
use scalar::inventory::{Inventory, Item, ItemStack};
use scalar::menus::{
    add_fuel, buy_building, collect_output, menu_exit, pause_menu_outcome, research, GameState,
    ResearchResult,
};
use scalar::unlocks::{Unlock, Unlocks};

#[test]
fn menu_exit_targets() {
    assert_eq!(menu_exit(false, false, false), None);
    assert_eq!(menu_exit(true, false, false), Some(GameState::Play));
    assert_eq!(menu_exit(false, true, false), Some(GameState::Play));
    assert_eq!(menu_exit(false, false, true), Some(GameState::PauseMenu));
    assert_eq!(menu_exit(true, true, true), Some(GameState::PauseMenu));
    assert_eq!(GameState::default(), GameState::Play);
}

#[test]
fn pause_menu_buttons() {
    let o = pause_menu_outcome(true, false, false);
    assert_eq!(o.next, Some(GameState::Play));
    assert!(!o.quit);
    let o = pause_menu_outcome(false, true, false);
    assert_eq!(o.next, Some(GameState::Play));
    let o = pause_menu_outcome(false, false, true);
    assert_eq!(o.next, None);
    assert!(o.quit);
}

#[test]
fn buying_a_miner() {
    let mut inv = Inventory::default();
    inv.add(&Item::Stone, 2);
    inv.add(&Item::Wood, 5);
    inv.add(&Item::Iron, 12);
    assert!(buy_building(&mut inv, Building::Miner));
    assert_eq!(inv.get(&Item::Stone), 1);
    assert_eq!(inv.get(&Item::Wood), 0);
    assert_eq!(inv.get(&Item::Iron), 2);
    assert_eq!(
        inv.stacks,
        vec![ItemStack { item: Item::Stone, count: 1 }, ItemStack { item: Item::Iron, count: 2 }]
    );
}

#[test]
fn buying_refused_when_short() {
    let mut inv = Inventory::default();
    inv.add(&Item::Iron, 10);
    inv.add(&Item::Copper, 9);
    let before = inv.stacks.clone();
    assert!(!buy_building(&mut inv, Building::Processor));
    assert_eq!(inv.stacks, before);
}

#[test]
fn research_pays_once() {
    let mut unlocks = Unlocks::default();
    let mut money = 150;
    let mut inv = Inventory::default();
    inv.add(&Item::Stone, 5);
    inv.add(&Item::Wood, 12);
    let r = research(&mut unlocks, &mut money, &mut inv, Unlock::PlayerMineSpeed);
    assert_eq!(r, ResearchResult::Unlocked);
    assert_eq!(money, 50);
    assert_eq!(inv.get(&Item::Stone), 0);
    assert_eq!(inv.get(&Item::Wood), 2);
    assert!(unlocks.contains(&Unlock::PlayerMineSpeed));

    inv.add(&Item::Stone, 5);
    inv.add(&Item::Wood, 10);
    money = 500;
    let r = research(&mut unlocks, &mut money, &mut inv, Unlock::PlayerMineSpeed);
    assert_eq!(r, ResearchResult::AlreadyUnlocked);
    assert_eq!(money, 500);
    assert_eq!(inv.get(&Item::Stone), 5);
}

#[test]
fn research_needs_money_and_items() {
    let mut unlocks = Unlocks::default();
    let mut money = 99;
    let mut inv = Inventory::default();
    inv.add(&Item::Stone, 5);
    inv.add(&Item::Wood, 10);
    let r = research(&mut unlocks, &mut money, &mut inv, Unlock::PlayerMineSpeed);
    assert_eq!(r, ResearchResult::CannotAfford);
    assert_eq!(money, 99);
    assert!(!unlocks.contains(&Unlock::PlayerMineSpeed));

    money = 100;
    inv.remove(&Item::Wood, 1);
    let r = research(&mut unlocks, &mut money, &mut inv, Unlock::PlayerMineSpeed);
    assert_eq!(r, ResearchResult::CannotAfford);
    assert_eq!(money, 100);
}

#[test]
fn collecting_output() {
    let mut inv = Inventory::default();
    inv.add(&Item::Iron, 1);
    let mut stack = ItemStack { item: Item::Iron, count: 40 };
    collect_output(&mut inv, &mut stack);
    assert_eq!(inv.get(&Item::Iron), 41);
    assert_eq!(stack.count, 0);
    collect_output(&mut inv, &mut stack);
    assert_eq!(inv.get(&Item::Iron), 41);
}

#[test]
fn adding_fuel() {
    let mut inv = Inventory::default();
    let mut fuel = FuelSlot::new();
    assert!(!add_fuel(&mut inv, &mut fuel));
    inv.add(&Item::Coal, 2);
    assert!(add_fuel(&mut inv, &mut fuel));
    assert_eq!(fuel.stack.count, 1);
    assert_eq!(inv.get(&Item::Coal), 1);
    fuel.stack.count = 100;
    assert!(!add_fuel(&mut inv, &mut fuel));
    assert_eq!(inv.get(&Item::Coal), 1);
    assert_eq!(fuel.stack.count, 100);
}

#[test]
fn unlock_data() {
    let u = Unlock::PlayerMineSpeed;
    assert_eq!(u.name(), "Pickaxe");
    assert_eq!(u.description(), "Increases player mining speed.");
    assert_eq!(
        u.cost(),
        (
            100,
            vec![ItemStack { item: Item::Stone, count: 5 }, ItemStack { item: Item::Wood, count: 10 }]
        )
    );
    assert_eq!(Unlock::all(), vec![Unlock::PlayerMineSpeed]);
    let mut unlocks = Unlocks::default();
    assert!(unlocks.insert(u));
    assert!(!unlocks.insert(u));
}
