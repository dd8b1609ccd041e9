use scalar::buildings::Building;
use scalar::chunks::ChunkIndex;
use scalar::controls::{Action, Controls, Key};
use scalar::inventory::{Inventory, Item, ItemStack};
use scalar::map::{generate_nodes, generate_tiles, TilePos, WORLD_SIZE};
use scalar::player::{can_place, mine_node, HitTarget};
use scalar::world::{depletion, random_ore, rock_node, tree_stack, Depletion, ResourceNode};
use scalar::worldgen::{gradient_seed, grid_index};

#[test]
fn default_controls() {
    let c = Controls::default();
    assert_eq!(c.get(Action::Forward), Key::KeyW);
    assert_eq!(c.get(Action::Jump), Key::Space);
    assert_eq!(c.get(Action::Pause), Key::Escape);
    assert_eq!(c.print(Action::Forward), "W");
    assert_eq!(c.print(Action::Primary), "E");
    assert_eq!(c.print(Action::Sprint), "ShiftLeft");
    assert_eq!(c.print(Action::Pause), "Escape");
    assert_eq!(c.0.len(), 11);
}

#[test]
fn unbound_action_reads_digit0() {
    let mut c = Controls::default();
    c.0.remove(&Action::Build);
    assert_eq!(c.get(Action::Build), Key::Digit0);
    assert_eq!(c.print(Action::Build), "Digit0");
}

#[test]
fn key_names() {
    assert_eq!(Key::KeyB.name(), "KeyB");
    assert_eq!(Key::KeyB.label(), "B");
    assert_eq!(Key::Digit0.label(), "Digit0");
}

#[test]
fn tiles_cover_map() {
    let tiles = generate_tiles();
    assert_eq!(tiles.len(), (WORLD_SIZE * WORLD_SIZE) as usize);
    assert_eq!(tiles[0].tile_pos, TilePos { x: -10, y: -10 });
    assert_eq!(tiles[1].tile_pos, TilePos { x: -10, y: -9 });
    assert_eq!(tiles[21].tile_pos, TilePos { x: -9, y: -10 });
    assert_eq!(tiles[440].tile_pos, TilePos { x: 10, y: 10 });
    let mut seen = std::collections::HashSet::new();
    for t in &tiles {
        assert!(seen.insert(t.tile_pos));
    }
}

#[test]
fn nodes_on_map() {
    let nodes = generate_nodes();
    assert_eq!(nodes.len(), 100);
    for n in &nodes {
        assert!((-10..=10).contains(&n.tile_pos.x));
        assert!((-10..=10).contains(&n.tile_pos.y));
        assert!(n.stack.item == Item::Iron || n.stack.item == Item::Copper);
        assert!((0..100).contains(&n.stack.count));
    }
    let first = nodes[0];
    assert!(nodes.iter().any(|n| n.tile_pos != first.tile_pos));
    assert!(nodes.iter().any(|n| n.stack.item != first.stack.item));
}

#[test]
fn ore_nodes() {
    let mut rng = fastrand::Rng::with_seed(67);
    for _ in 0..200 {
        let (variant, stack) = random_ore(&mut rng);
        let expected = match variant {
            0 => Item::Iron,
            1 => Item::Copper,
            2 => Item::Coal,
            _ => panic!("variant out of range"),
        };
        assert_eq!(stack.item, expected);
        assert!((100..1000).contains(&stack.count));
    }
}

#[test]
fn ore_nodes_follow_seed() {
    let mut a = fastrand::Rng::with_seed(67);
    let mut b = fastrand::Rng::with_seed(67);
    let variant = b.i32(0..3);
    let count = b.i32(100..1000);
    let (v, stack) = random_ore(&mut a);
    assert_eq!(v, variant);
    assert_eq!(stack.count, count);
}

#[test]
fn rocks_and_trees() {
    assert_eq!(tree_stack(), ItemStack { item: Item::Wood, count: 5 });
    assert_eq!(rock_node(1, false), (ItemStack { item: Item::Stone, count: 1 }, 1));
    assert_eq!(rock_node(0, true), (ItemStack { item: Item::Stone, count: 10 }, 2));
}

#[test]
fn node_depletion() {
    let full = ItemStack { item: Item::Wood, count: 1 };
    let empty = ItemStack { item: Item::Wood, count: 0 };
    assert_eq!(depletion(ResourceNode::Tree, &full), Depletion::Keep);
    assert_eq!(depletion(ResourceNode::Tree, &empty), Depletion::ReplaceWithStump);
    assert_eq!(depletion(ResourceNode::Ore, &empty), Depletion::Remove);
    assert_eq!(depletion(ResourceNode::Rock, &empty), Depletion::Remove);
    assert_eq!(ResourceNode::Rock.label(), "Rock");
}

#[test]
fn placement_rules() {
    assert!(can_place(Building::SatelliteDish, HitTarget::Terrain));
    assert!(!can_place(Building::SatelliteDish, HitTarget::Node(ResourceNode::Ore)));
    assert!(can_place(Building::Miner, HitTarget::Node(ResourceNode::Ore)));
    assert!(!can_place(Building::Miner, HitTarget::Node(ResourceNode::Tree)));
    assert!(!can_place(Building::Miner, HitTarget::Terrain));
    assert!(!can_place(Building::Processor, HitTarget::Terrain));
    assert!(!can_place(Building::Miner, HitTarget::Nothing));
}

#[test]
fn mining_by_hand() {
    let mut inv = Inventory::default();
    let mut node = ItemStack { item: Item::Stone, count: 3 };
    assert_eq!(mine_node(&mut node, &mut inv, 2), 2);
    assert_eq!(node.count, 1);
    assert_eq!(inv.get(&Item::Stone), 2);
    assert_eq!(mine_node(&mut node, &mut inv, 2), 1);
    assert_eq!(node.count, 0);
    assert_eq!(inv.get(&Item::Stone), 3);
}

#[test]
fn gradient_seeds() {
    assert_eq!(gradient_seed(0, 0), 0);
    assert_eq!(gradient_seed(1, 2), (1u64 << 32) | 2);
    assert_eq!(gradient_seed(0, -1), u64::MAX);
    assert_ne!(gradient_seed(3, 4), gradient_seed(4, 3));
    assert_eq!(grid_index(2, 5), 4005);
}

#[test]
fn chunk_index() {
    let mut index = ChunkIndex::default();
    assert!(index.get((0, 0)).is_none());
    index.add((0, 0), 1);
    index.add((0, 0), 2);
    index.add((1, -1), 3);
    index.add((5, 5), 4);
    assert_eq!(index.get((0, 0)).map(|s| s.len()), Some(2));
    let around = index.get_radius((0, 0), 1);
    let mut ids: Vec<u64> = around.into_iter().collect();
    ids.sort();
    assert_eq!(ids, vec![1, 2, 3]);
    assert!(index.get_radius((0, 0), -1).is_empty());
    assert_eq!(index.get_radius((0, 0), 0).len(), 2);
    assert_eq!(index.get_radius((4, 4), 1).len(), 1);
}
