use vstd::prelude::*;

use crate::inventory::{Item, ItemStack};
use crate::random::fast_i32;

verus! {

/// The number of terrain chunks along each side of the world.
pub const N_CHUNKS: i32 = 24;

/// The number of triangle tiles of a chunk along x.
pub const N_TILES_X: i32 = 40;

/// The number of triangle tiles of a chunk along z.
pub const N_TILES_Z: i32 = 70;

/// The kinds of resource node in the world.
#[derive(Clone, Copy, Debug, PartialEq, Eq, Structural)]
pub enum ResourceNode {
    Ore,
    Tree,
    Rock,
}

impl ResourceNode {
    /// The kind as shown to the player.
    pub fn label(&self) -> (r: &str)
        ensures
            r@ == match *self {
                ResourceNode::Ore => "Ore"@,
                ResourceNode::Tree => "Tree"@,
                ResourceNode::Rock => "Rock"@,
            },
    {
        match self {
            ResourceNode::Ore => "Ore",
            ResourceNode::Tree => "Tree",
            ResourceNode::Rock => "Rock",
        }
    }
}

/// The item of an ore node of the given variant: 0 is iron, 1 copper, any
/// other coal.
pub open spec fn ore_item(variant: i32) -> Item {
    if variant == 0 {
        Item::Iron
    } else if variant == 1 {
        Item::Copper
    } else {
        Item::Coal
    }
}

/// Ore variant 0 is iron, 1 copper, 2 coal; no other variant is drawn.
pub proof fn law_ore_variants(variant: i32)
    ensures
        ore_item(0) == Item::Iron,
        ore_item(1) == Item::Copper,
        ore_item(2) == Item::Coal,
        0 <= variant < 3 ==> (ore_item(variant) == Item::Iron || ore_item(variant) == Item::Copper
            || ore_item(variant) == Item::Coal),
{
}

/// A random ore node: a variant among 0, 1 and 2, then between 100 and 999
/// items of that variant's ore. Returns the variant with the node's stack.
pub fn random_ore(rng: &mut fastrand::Rng) -> (r: (i32, ItemStack))
    ensures
        0 <= r.0 < 3,
        r.1.item == ore_item(r.0),
        100 <= r.1.count < 1000,
{
    let variant = fast_i32(rng, 0, 3);
    let stack = if variant == 0 {
        ItemStack { item: Item::Iron, count: fast_i32(rng, 100, 1000) }
    } else if variant == 1 {
        ItemStack { item: Item::Copper, count: fast_i32(rng, 100, 1000) }
    } else {
        ItemStack { item: Item::Coal, count: fast_i32(rng, 100, 1000) }
    };
    (variant, stack)
}

/// The wood a tree yields.
pub fn tree_stack() -> (r: ItemStack)
    ensures
        r == (ItemStack { item: Item::Wood, count: 5 }),
{
    ItemStack { item: Item::Wood, count: 5 }
}

/// The stone and model variant of a rock: a small rock keeps its variant and
/// yields one stone, a rare big rock is variant 2 and yields ten.
pub fn rock_node(variant: i32, big: bool) -> (r: (ItemStack, i32))
    ensures
        r.0.item == Item::Stone,
        r.0.count == if big {
            10i32
        } else {
            1i32
        },
        r.1 == if big {
            2i32
        } else {
            variant
        },
{
    let mut variant = variant;
    let mut stack = ItemStack { item: Item::Stone, count: 1 };
    if big {
        variant = 2;
        stack.count = 10;
    }
    (stack, variant)
}

/// What becomes of a resource node.
#[derive(Clone, Copy, Debug, PartialEq, Eq, Structural)]
pub enum Depletion {
    /// The node still holds items and stays.
    Keep,
    /// The node is empty and goes away.
    Remove,
    /// The node is an empty tree and leaves a stump.
    ReplaceWithStump,
}

/// A node that no longer holds items goes away; an empty tree leaves a stump.
pub fn depletion(node: ResourceNode, stack: &ItemStack) -> (r: Depletion)
    ensures
        stack.count > 0 ==> r == Depletion::Keep,
        stack.count <= 0 && node == ResourceNode::Tree ==> r == Depletion::ReplaceWithStump,
        stack.count <= 0 && node != ResourceNode::Tree ==> r == Depletion::Remove,
{
    if stack.count <= 0 {
        match node {
            ResourceNode::Tree => Depletion::ReplaceWithStump,
            _ => Depletion::Remove,
        }
    } else {
        Depletion::Keep
    }
}

} // verus!
