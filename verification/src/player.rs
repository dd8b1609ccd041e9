use vstd::prelude::*;

use crate::buildings::{min_int, Building};
use crate::inventory::{add_count, add_fits, Inventory, ItemStack};
use crate::world::ResourceNode;

verus! {

/// The building the player is holding and about to place, if any.
#[derive(Clone, Copy, Debug, PartialEq, Eq, Structural)]
pub struct HeldBuilding(pub Option<Building>);

/// What the player is looking at.
#[derive(Clone, Copy, Debug, PartialEq, Eq, Structural)]
pub enum HitTarget {
    /// Nothing within reach.
    Nothing,
    /// The terrain.
    Terrain,
    /// A resource node of the given kind.
    Node(ResourceNode),
    /// A building.
    Building,
}

/// Whether a held building can be placed on what the player looks at: a
/// satellite dish on the terrain, a miner on an ore node.
pub fn can_place(building: Building, target: HitTarget) -> (r: bool)
    ensures
        r == match building {
            Building::SatelliteDish => target == HitTarget::Terrain,
            Building::Miner => target == HitTarget::Node(ResourceNode::Ore),
            Building::Processor => false,
        },
{
    match building {
        Building::SatelliteDish => match target {
            HitTarget::Terrain => true,
            _ => false,
        },
        Building::Miner => match target {
            HitTarget::Node(ResourceNode::Ore) => true,
            _ => false,
        },
        Building::Processor => false,
    }
}

/// The player mines a node: `whole` finished mining operations take that many
/// items from the node, at most what it holds, into the inventory. Returns the
/// amount mined.
pub fn mine_node(node: &mut ItemStack, inventory: &mut Inventory, whole: i32) -> (amount: i32)
    requires
        old(node).count > 0,
        whole >= 0,
        add_fits(old(inventory).stacks@, old(node).item, min_int(old(node).count as int, whole as int) as i32),
    ensures
        amount == min_int(old(node).count as int, whole as int),
        final(node).count == old(node).count - amount,
        final(node).item == old(node).item,
        final(inventory).stacks@ == add_count(old(inventory).stacks@, old(node).item, amount),
{
    let amount = if node.count < whole {
        node.count
    } else {
        whole
    };
    node.count = node.count - amount;
    inventory.add(&node.item, amount);
    amount
}

} // verus!
