use vstd::prelude::*;

use crate::buildings::{building_cost, Building, FuelSlot};
use crate::inventory::{
    add_count, add_fits, count_of, has_count, items_distinct, law_get_after_set,
    law_set_keeps_wf, law_set_leaves_others, lemma_count_distinct, lemma_first_index_none,
    remove_count, stacks_wf, Inventory, Item, ItemStack,
};
use crate::unlocks::{unlock_cost, Unlock, Unlocks};

verus! {

/// The screen the game is on.
#[derive(Clone, Copy, PartialEq, Eq, Hash, Debug, Structural)]
pub enum GameState {
    Play,
    PauseMenu,
    BuildMenu,
    BuildingMenu,
    MapMenu,
    ResearchMenu,
}

impl Default for GameState {
    /// The game starts in play.
    fn default() -> (r: GameState)
        ensures
            r == GameState::Play,
    {
        GameState::Play
    }
}

/// Where a menu goes when it is left: with the exit button, the cancel key or
/// the pause key. The pause key opens the pause menu, the others go back to
/// playing; `None` when the menu stays open.
pub fn menu_exit(exit_pressed: bool, cancel_pressed: bool, pause_pressed: bool) -> (r: Option<GameState>)
    ensures
        r == if pause_pressed {
            Some(GameState::PauseMenu)
        } else if exit_pressed || cancel_pressed {
            Some(GameState::Play)
        } else {
            None
        },
{
    if exit_pressed || cancel_pressed || pause_pressed {
        if pause_pressed {
            Some(GameState::PauseMenu)
        } else {
            Some(GameState::Play)
        }
    } else {
        None
    }
}

/// What the pause menu does this frame.
#[derive(Clone, Copy, PartialEq, Eq, Debug, Structural)]
pub struct PauseOutcome {
    /// The screen to go to, if any.
    pub next: Option<GameState>,
    /// Whether the game quits.
    pub quit: bool,
}

/// The pause menu: the continue button or the escape key resume play, the quit
/// button quits.
pub fn pause_menu_outcome(continue_pressed: bool, escape_pressed: bool, quit_pressed: bool) -> (r: PauseOutcome)
    ensures
        r.next == if continue_pressed || escape_pressed {
            Some(GameState::Play)
        } else {
            None::<GameState>
        },
        r.quit == quit_pressed,
{
    let next = if continue_pressed || escape_pressed {
        Some(GameState::Play)
    } else {
        None
    };
    PauseOutcome { next, quit: quit_pressed }
}

/// Whether the stacks hold every stack of `cost`.
pub open spec fn can_afford(s: Seq<ItemStack>, cost: Seq<ItemStack>) -> bool {
    forall|k: int| 0 <= k < cost.len() ==> has_count(s, #[trigger] cost[k].item, cost[k].count)
}

/// The stacks after removing each stack of `cost` in turn.
pub open spec fn pay_all(s: Seq<ItemStack>, cost: Seq<ItemStack>) -> Seq<ItemStack>
    decreases cost.len(),
{
    if cost.len() == 0 {
        s
    } else {
        remove_count(pay_all(s, cost.drop_last()), cost.last().item, cost.last().count)
    }
}

/// Every stack of `cost` has a count that is not negative.
pub open spec fn cost_valid(cost: Seq<ItemStack>) -> bool {
    forall|k: int| 0 <= k < cost.len() ==> #[trigger] cost[k].count >= 0
}

/// Whether the inventory holds every stack of `cost`.
fn afford(inventory: &mut Inventory, cost: &Vec<ItemStack>) -> (r: bool)
    ensures
        r == can_afford(old(inventory).stacks@, cost@),
        *final(inventory) == *old(inventory),
{
    let n = cost.len();
    let mut i: usize = 0;
    while i < n
        invariant
            n == cost@.len(),
            0 <= i <= n,
            *inventory == *old(inventory),
            forall|k: int| 0 <= k < i ==> has_count(inventory.stacks@, #[trigger] cost@[k].item, cost@[k].count),
        decreases n - i,
    {
        let st = cost[i];
        if !inventory.has(&st.item, st.count) {
            assert(!has_count(inventory.stacks@, cost@[i as int].item, cost@[i as int].count));
            return false;
        }
        i = i + 1;
    }
    true
}

/// Removes each stack of `cost` from the inventory in turn.
fn pay(inventory: &mut Inventory, cost: &Vec<ItemStack>)
    requires
        cost_valid(cost@),
    ensures
        final(inventory).stacks@ == pay_all(old(inventory).stacks@, cost@),
{
    let ghost s0 = inventory.stacks@;
    let n = cost.len();
    let mut i: usize = 0;
    while i < n
        invariant
            n == cost@.len(),
            0 <= i <= n,
            cost_valid(cost@),
            inventory.stacks@ == pay_all(s0, cost@.take(i as int)),
        decreases n - i,
    {
        let st = cost[i];
        proof {
            assert(cost@.take(i + 1).drop_last() =~= cost@.take(i as int));
            assert(cost@.take(i + 1).last() == st);
            assert(st.count >= 0);
        }
        inventory.remove(&st.item, st.count);
        i = i + 1;
    }
    proof {
        assert(cost@.take(n as int) =~= cost@);
    }
}

/// Buys a building in the build menu: when the inventory holds its whole cost,
/// the cost is removed and the result is `true`; otherwise nothing changes.
pub fn buy_building(inventory: &mut Inventory, building: Building) -> (bought: bool)
    ensures
        bought == can_afford(old(inventory).stacks@, building_cost(building)),
        bought ==> final(inventory).stacks@ == pay_all(old(inventory).stacks@, building_cost(building)),
        !bought ==> *final(inventory) == *old(inventory),
{
    let cost = building.cost();
    if !afford(inventory, &cost) {
        return false;
    }
    pay(inventory, &cost);
    true
}

/// What a research attempt came to.
#[derive(Clone, Copy, PartialEq, Eq, Debug, Structural)]
pub enum ResearchResult {
    /// The upgrade was already researched; nothing changed.
    AlreadyUnlocked,
    /// The money or the items did not suffice; nothing changed.
    CannotAfford,
    /// The upgrade was paid for and recorded.
    Unlocked,
}

/// Whether `money` and the stacks pay for `u`.
pub open spec fn can_afford_unlock(money: i32, s: Seq<ItemStack>, u: Unlock) -> bool {
    money >= unlock_cost(u).0 && can_afford(s, unlock_cost(u).1)
}

/// Researches `u` in the research menu: an upgrade already researched is
/// skipped; otherwise, when the money and the items pay for it, both are taken
/// and the upgrade is recorded.
pub fn research(unlocks: &mut Unlocks, money: &mut i32, inventory: &mut Inventory, u: Unlock) -> (r: ResearchResult)
    ensures
        old(unlocks)@.contains(u) ==> r == ResearchResult::AlreadyUnlocked,
        !old(unlocks)@.contains(u) && !can_afford_unlock(*old(money), old(inventory).stacks@, u)
            ==> r == ResearchResult::CannotAfford,
        !old(unlocks)@.contains(u) && can_afford_unlock(*old(money), old(inventory).stacks@, u)
            ==> r == ResearchResult::Unlocked,
        r == ResearchResult::Unlocked ==> {
            &&& *final(money) == *old(money) - unlock_cost(u).0
            &&& final(inventory).stacks@ == pay_all(old(inventory).stacks@, unlock_cost(u).1)
            &&& final(unlocks)@ == old(unlocks)@.insert(u)
        },
        r != ResearchResult::Unlocked ==> {
            &&& *final(money) == *old(money)
            &&& *final(inventory) == *old(inventory)
            &&& final(unlocks)@ == old(unlocks)@
        },
{
    if unlocks.contains(&u) {
        return ResearchResult::AlreadyUnlocked;
    }
    let cost = u.cost();
    if !(*money >= cost.0 && afford(inventory, &cost.1)) {
        return ResearchResult::CannotAfford;
    }
    *money = *money - cost.0;
    pay(inventory, &cost.1);
    unlocks.insert(u);
    ResearchResult::Unlocked
}

/// Collects a building's stored items into the inventory and empties the store.
pub fn collect_output(inventory: &mut Inventory, stack: &mut ItemStack)
    requires
        add_fits(old(inventory).stacks@, old(stack).item, old(stack).count),
    ensures
        final(inventory).stacks@ == add_count(old(inventory).stacks@, old(stack).item, old(stack).count),
        final(stack).count == 0,
        final(stack).item == old(stack).item,
{
    inventory.add(&stack.item, stack.count);
    stack.count = 0;
}

/// Moves one unit of fuel from the inventory into a building's fuel slot, when
/// the slot is below its limit and the inventory holds the fuel; returns
/// whether it did.
pub fn add_fuel(inventory: &mut Inventory, fuel: &mut FuelSlot) -> (added: bool)
    ensures
        added == (old(fuel).stack.count < old(fuel).limit && has_count(
            old(inventory).stacks@,
            old(fuel).stack.item,
            1,
        )),
        added ==> final(inventory).stacks@ == remove_count(old(inventory).stacks@, old(fuel).stack.item, 1),
        added ==> final(fuel).stack.count == old(fuel).stack.count + 1,
        added ==> final(fuel).stack.count <= final(fuel).limit,
        !added ==> *final(inventory) == *old(inventory) && *final(fuel) == *old(fuel),
        final(fuel).stack.item == old(fuel).stack.item,
        final(fuel).limit == old(fuel).limit,
{
    if fuel.stack.count < fuel.limit {
        if inventory.has(&fuel.stack.item, 1) {
            inventory.remove(&fuel.stack.item, 1);
            fuel.stack.count = fuel.stack.count + 1;
            return true;
        }
    }
    false
}


/// Dropping the last stack keeps the items distinct.
proof fn lemma_distinct_drop_last(t: Seq<ItemStack>)
    requires
        items_distinct(t),
        t.len() > 0,
    ensures
        items_distinct(t.drop_last()),
{
    let d = t.drop_last();
    assert forall|a: int, b: int|
        0 <= a < d.len() && 0 <= b < d.len() && a != b implies #[trigger] d[a].item
        != #[trigger] d[b].item by {
        assert(d[a] == t[a] && d[b] == t[b]);
    }
}

/// In stacks without a repeated item, the last stack does not change the count
/// of another item.
proof fn lemma_count_without_last(t: Seq<ItemStack>, j: Item)
    requires
        items_distinct(t),
        t.len() > 0,
        t.last().item != j,
    ensures
        count_of(t, j) == count_of(t.drop_last(), j),
{
    let d = t.drop_last();
    lemma_distinct_drop_last(t);
    if exists|k: int| 0 <= k < d.len() && d[k].item == j {
        let k = choose|k: int| 0 <= k < d.len() && d[k].item == j;
        lemma_count_distinct(d, j, k);
        lemma_count_distinct(t, j, k);
    } else {
        lemma_first_index_none(d, j);
        assert forall|k: int| 0 <= k < t.len() implies t[k].item != j by {
            if k < d.len() {
                assert(d[k] == t[k]);
            }
        }
        lemma_first_index_none(t, j);
    }
}

/// Paying a cost whose items are all different from well-formed stacks that
/// afford it takes from each item exactly the amount the cost lists for it,
/// and leaves the stacks well formed.
pub proof fn law_pay_deducts_cost(s: Seq<ItemStack>, cost: Seq<ItemStack>)
    requires
        stacks_wf(s),
        items_distinct(cost),
        cost_valid(cost),
        can_afford(s, cost),
    ensures
        stacks_wf(pay_all(s, cost)),
        forall|j: Item| #[trigger] count_of(pay_all(s, cost), j) == count_of(s, j) - count_of(cost, j),
    decreases cost.len(),
{
    if cost.len() == 0 {
        assert forall|j: Item| #[trigger] count_of(pay_all(s, cost), j) == count_of(s, j) - count_of(cost, j) by {
            lemma_first_index_none(cost, j);
        }
    } else {
        let d = cost.drop_last();
        let x = cost.last();
        lemma_distinct_drop_last(cost);
        assert forall|k: int| 0 <= k < d.len() implies has_count(s, #[trigger] d[k].item, d[k].count) by {
            assert(d[k] == cost[k]);
        }
        assert(cost_valid(d)) by {
            assert forall|k: int| 0 <= k < d.len() implies #[trigger] d[k].count >= 0 by {
                assert(d[k] == cost[k]);
            }
        }
        law_pay_deducts_cost(s, d);
        let p = pay_all(s, d);
        // the last item is not listed earlier in the cost
        lemma_count_distinct(cost, x.item, cost.len() - 1);
        assert forall|k: int| 0 <= k < d.len() implies d[k].item != x.item by {
            assert(cost[k].item != cost[cost.len() - 1].item);
        }
        lemma_first_index_none(d, x.item);
        assert(count_of(p, x.item) == count_of(s, x.item));
        assert(has_count(s, cost[cost.len() - 1].item, cost[cost.len() - 1].count));
        let c = count_of(p, x.item);
        law_set_keeps_wf(p, x.item, (c - x.count) as i32);
        law_get_after_set(p, x.item, (c - x.count) as i32);
        assert forall|j: Item| #[trigger] count_of(pay_all(s, cost), j) == count_of(s, j) - count_of(cost, j) by {
            if j != x.item {
                law_set_leaves_others(p, x.item, (c - x.count) as i32, j);
                lemma_count_without_last(cost, j);
            }
        }
    }
}

/// Buying a building from well-formed stacks that afford it takes exactly the
/// building's cost, item by item, and leaves the stacks well formed.
pub proof fn law_buy_building_deducts_cost(s: Seq<ItemStack>, b: Building)
    requires
        stacks_wf(s),
        can_afford(s, building_cost(b)),
    ensures
        stacks_wf(pay_all(s, building_cost(b))),
        forall|j: Item| #[trigger] count_of(pay_all(s, building_cost(b)), j)
            == count_of(s, j) - count_of(building_cost(b), j),
{
    let cost = building_cost(b);
    assert(items_distinct(cost)) by {
        assert forall|a: int, c: int|
            0 <= a < cost.len() && 0 <= c < cost.len() && a != c implies #[trigger] cost[a].item
            != #[trigger] cost[c].item by {
        }
    }
    law_pay_deducts_cost(s, cost);
}

/// Researching an upgrade from well-formed stacks that afford it takes exactly
/// the upgrade's item cost, item by item, and leaves the stacks well formed.
pub proof fn law_research_deducts_cost(s: Seq<ItemStack>, u: Unlock)
    requires
        stacks_wf(s),
        can_afford(s, unlock_cost(u).1),
    ensures
        stacks_wf(pay_all(s, unlock_cost(u).1)),
        forall|j: Item| #[trigger] count_of(pay_all(s, unlock_cost(u).1), j)
            == count_of(s, j) - count_of(unlock_cost(u).1, j),
{
    let cost = unlock_cost(u).1;
    assert(items_distinct(cost)) by {
        assert forall|a: int, c: int|
            0 <= a < cost.len() && 0 <= c < cost.len() && a != c implies #[trigger] cost[a].item
            != #[trigger] cost[c].item by {
        }
    }
    law_pay_deducts_cost(s, cost);
}


/// Affording a cost means holding, for every stack of the cost, at least its
/// count of its item, whatever the position of the item among the stacks.
pub proof fn law_afford_reads_counts(s: Seq<ItemStack>, cost: Seq<ItemStack>)
    ensures
        can_afford(s, cost) <==> forall|k: int|
            0 <= k < cost.len() ==> count_of(s, #[trigger] cost[k].item) >= cost[k].count,
{
}

/// A building can be bought exactly when the inventory holds its listed items:
/// a miner takes 1 stone, 5 wood and 10 iron; a processor 10 iron and 10
/// copper; a satellite dish 10 wood, 20 iron and 20 copper.
pub proof fn law_building_affordable(s: Seq<ItemStack>, b: Building)
    ensures
        can_afford(s, building_cost(b)) <==> match b {
            Building::Miner => count_of(s, Item::Stone) >= 1 && count_of(s, Item::Wood) >= 5
                && count_of(s, Item::Iron) >= 10,
            Building::Processor => count_of(s, Item::Iron) >= 10 && count_of(s, Item::Copper) >= 10,
            Building::SatelliteDish => count_of(s, Item::Wood) >= 10 && count_of(s, Item::Iron) >= 20
                && count_of(s, Item::Copper) >= 20,
        },
{
    let cost = building_cost(b);
    if can_afford(s, cost) {
        assert(has_count(s, cost[0].item, cost[0].count));
        assert(has_count(s, cost[1].item, cost[1].count));
        if cost.len() > 2 {
            assert(has_count(s, cost[2].item, cost[2].count));
        }
    }
}

/// Researching an upgrade is paid for exactly when the money reaches its
/// price and the inventory holds every item it lists, wherever they stand.
pub proof fn law_unlock_affordable_reads_counts(money: i32, s: Seq<ItemStack>, u: Unlock)
    ensures
        can_afford_unlock(money, s, u) <==> (money >= unlock_cost(u).0 && forall|k: int|
            0 <= k < unlock_cost(u).1.len() ==> count_of(s, #[trigger] unlock_cost(u).1[k].item)
                >= unlock_cost(u).1[k].count),
{
}

/// The pickaxe upgrade costs 100 money, 5 stone and 10 wood.
pub proof fn law_pickaxe_affordable(money: i32, s: Seq<ItemStack>)
    ensures
        can_afford_unlock(money, s, Unlock::PlayerMineSpeed) <==> (money >= 100 && count_of(s, Item::Stone)
            >= 5 && count_of(s, Item::Wood) >= 10),
{
    let cost = unlock_cost(Unlock::PlayerMineSpeed).1;
    if can_afford(s, cost) {
        assert(has_count(s, cost[0].item, cost[0].count));
        assert(has_count(s, cost[1].item, cost[1].count));
    }
}

} // verus!
