use vstd::prelude::*;

use crate::inventory::{Item, ItemStack};
use crate::random::{rand_i32, rand_ratio, thread_rng};

verus! {

/// The side of the square tile map, in tiles.
pub const WORLD_SIZE: i32 = 21;

/// A tile position on the map; the map is centred on (0, 0).
#[derive(Clone, Copy, Debug, Default, PartialEq, Eq, Hash, Structural)]
pub struct TilePos {
    pub x: i32,
    pub y: i32,
}

/// A map tile.
#[derive(Clone, Copy, Debug, PartialEq, Eq, Structural)]
pub struct Tile {
    pub tile_pos: TilePos,
}

/// A resource node on the tile map.
#[derive(Clone, Copy, Debug, PartialEq, Eq, Structural)]
pub struct ResourceNode {
    pub stack: ItemStack,
    pub tile_pos: TilePos,
}

/// The tile at position `i` of the generated list: rows of `x`, each running
/// over `y`, both from -10 to 10.
pub open spec fn grid_tile(i: int) -> Tile {
    Tile { tile_pos: TilePos { x: (i / 21 - 10) as i32, y: (i % 21 - 10) as i32 } }
}

/// The tiles of the map, row by row.
pub open spec fn tile_grid() -> Seq<Tile> {
    Seq::new(441, |i: int| grid_tile(i))
}

/// Whether a position lies on the map.
pub open spec fn on_map(p: TilePos) -> bool {
    -10 <= p.x <= 10 && -10 <= p.y <= 10
}

/// The tiles of the map, row by row.
pub fn generate_tiles() -> (tiles: Vec<Tile>)
    ensures
        tiles@ == tile_grid(),
{
    let mut tiles: Vec<Tile> = Vec::new();
    let mut x: i32 = 0;
    while x < WORLD_SIZE
        invariant
            0 <= x <= WORLD_SIZE,
            tiles@.len() == x * 21,
            forall|i: int| 0 <= i < tiles@.len() ==> #[trigger] tiles@[i] == grid_tile(i),
        decreases WORLD_SIZE - x,
    {
        let mut y: i32 = 0;
        while y < WORLD_SIZE
            invariant
                0 <= x < WORLD_SIZE,
                0 <= y <= WORLD_SIZE,
                tiles@.len() == x * 21 + y,
                forall|i: int| 0 <= i < tiles@.len() ==> #[trigger] tiles@[i] == grid_tile(i),
            decreases WORLD_SIZE - y,
        {
            let tile_pos = TilePos { x: x - WORLD_SIZE / 2, y: y - WORLD_SIZE / 2 };
            proof {
                lemma_grid_index(x as int, y as int);
            }
            tiles.push(Tile { tile_pos });
            y = y + 1;
        }
        x = x + 1;
    }
    assert(tiles@ =~= tile_grid());
    tiles
}

/// The tile list holds the tile of row `x` and column `y` at `x * 21 + y`.
proof fn lemma_grid_index(x: int, y: int)
    requires
        0 <= x < 21,
        0 <= y < 21,
    ensures
        (x * 21 + y) / 21 == x,
        (x * 21 + y) % 21 == y,
{
    vstd::arithmetic::div_mod::lemma_fundamental_div_mod_converse(x * 21 + y, 21, x, y);
}

/// Every position on the map is the position of exactly one generated tile,
/// and every generated tile lies on the map.
pub proof fn law_tiles_cover_map_once(p: TilePos)
    ensures
        on_map(p) ==> tile_grid()[(p.x + 10) * 21 + p.y + 10].tile_pos == p,
        forall|i: int| 0 <= i < tile_grid().len() ==> on_map(#[trigger] tile_grid()[i].tile_pos),
        forall|i: int, j: int|
            0 <= i < tile_grid().len() && 0 <= j < tile_grid().len() && i != j ==> #[trigger] tile_grid()[i]
                != #[trigger] tile_grid()[j],
{
    if on_map(p) {
        lemma_grid_index(p.x + 10, p.y + 10);
    }
    assert forall|i: int| 0 <= i < tile_grid().len() implies on_map(#[trigger] tile_grid()[i].tile_pos) by {
        vstd::arithmetic::div_mod::lemma_fundamental_div_mod(i, 21);
    }
    assert forall|i: int, j: int|
        0 <= i < tile_grid().len() && 0 <= j < tile_grid().len() && i != j implies #[trigger] tile_grid()[i]
            != #[trigger] tile_grid()[j] by {
        vstd::arithmetic::div_mod::lemma_fundamental_div_mod(i, 21);
        vstd::arithmetic::div_mod::lemma_fundamental_div_mod(j, 21);
    }
}

/// A node as the map generates them: on the map, of iron or copper, holding
/// fewer than 100 items.
pub open spec fn node_ok(n: ResourceNode) -> bool {
    &&& on_map(n.tile_pos)
    &&& (n.stack.item == Item::Iron || n.stack.item == Item::Copper)
    &&& 0 <= n.stack.count < 100
}

/// The thread's random number generator with a record of every value drawn
/// from it, in order (a coin toss is recorded as 1 for heads, 0 for tails).
pub struct DrawLog {
    rng: rand::rngs::ThreadRng,
    draws: Ghost<Seq<i32>>,
}

impl DrawLog {
    /// The values drawn so far, in order.
    pub closed spec fn history(&self) -> Seq<i32> {
        self.draws@
    }

    /// A log on the thread's generator, with nothing drawn yet.
    pub fn new() -> (r: DrawLog)
        ensures
            r.history() == Seq::<i32>::empty(),
    {
        DrawLog { rng: thread_rng(), draws: Ghost(Seq::empty()) }
    }

    /// Draws a value in `low..high` and records it.
    pub fn draw(&mut self, low: i32, high: i32) -> (r: i32)
        requires
            low < high,
        ensures
            low <= r < high,
            final(self).history() == old(self).history().push(r),
    {
        let r = rand_i32(&mut self.rng, low, high);
        self.draws = Ghost(self.draws@.push(r));
        r
    }

    /// Tosses a fair coin and records 1 for heads, 0 for tails.
    pub fn coin(&mut self) -> (heads: bool)
        ensures
            final(self).history() == old(self).history().push(if heads {
                1i32
            } else {
                0i32
            }),
    {
        let heads = rand_ratio(&mut self.rng, 1, 2);
        self.draws = Ghost(self.draws@.push(if heads {
            1i32
        } else {
            0i32
        }));
        heads
    }
}

/// The node made of four draws: the tile column and row, each drawn among the
/// 21 map columns or rows; a coin toss, heads for iron and tails for copper;
/// the number of items.
pub open spec fn node_of_draws(x_draw: i32, y_draw: i32, coin: i32, count: i32) -> ResourceNode {
    ResourceNode {
        stack: ItemStack { item: if coin == 1 { Item::Iron } else { Item::Copper }, count },
        tile_pos: TilePos { x: (x_draw - 10) as i32, y: (y_draw - 10) as i32 },
    }
}

/// Node `k` of a generation that started after `o` draws, from the four draws
/// it consumed.
pub open spec fn drawn_node(h: Seq<i32>, o: int, k: int) -> ResourceNode {
    node_of_draws(h[o + 4 * k], h[o + 4 * k + 1], h[o + 4 * k + 2], h[o + 4 * k + 3])
}

/// The four draws of node `k` of a generation that started after `o` draws lie
/// in their ranges: columns and rows in `0..21`, the coin 0 or 1, the count in
/// `0..100`.
pub open spec fn draws_in_range(h: Seq<i32>, o: int, k: int) -> bool {
    &&& 0 <= h[o + 4 * k] < 21
    &&& 0 <= h[o + 4 * k + 1] < 21
    &&& (h[o + 4 * k + 2] == 0 || h[o + 4 * k + 2] == 1)
    &&& 0 <= h[o + 4 * k + 3] < 100
}

/// Random resource nodes for the tile map, from the draws recorded in `log`:
/// 100 nodes, node `k` made of the `k`-th group of four new draws (column,
/// row, coin, count).
pub fn generate_nodes_from(log: &mut DrawLog) -> (nodes: Vec<ResourceNode>)
    ensures
        nodes@.len() == 100,
        final(log).history().len() == old(log).history().len() + 400,
        final(log).history().take(old(log).history().len() as int) == old(log).history(),
        forall|k: int| 0 <= k < 100 ==> #[trigger] nodes@[k] == drawn_node(final(log).history(), old(log).history().len() as int, k),
        forall|k: int| 0 <= k < 100 ==> #[trigger] draws_in_range(final(log).history(), old(log).history().len() as int, k),
{
    let ghost h0 = log.history();
    let ghost o = h0.len() as int;
    let mut nodes: Vec<ResourceNode> = Vec::new();
    let mut k: usize = 0;
    while k < 100
        invariant
            0 <= k <= 100,
            o == h0.len(),
            nodes@.len() == k,
            log.history().len() == o + 4 * k,
            log.history().take(o) == h0,
            forall|j: int| 0 <= j < k ==> #[trigger] nodes@[j] == drawn_node(log.history(), o, j),
            forall|j: int| 0 <= j < k ==> #[trigger] draws_in_range(log.history(), o, j),
        decreases 100 - k,
    {
        let ghost h1 = log.history();
        let x_draw = log.draw(0, WORLD_SIZE);
        let y_draw = log.draw(0, WORLD_SIZE);
        let tile_pos = TilePos { x: x_draw - WORLD_SIZE / 2, y: y_draw - WORLD_SIZE / 2 };
        let stack = if log.coin() {
            ItemStack { item: Item::Iron, count: log.draw(0, 100) }
        } else {
            ItemStack { item: Item::Copper, count: log.draw(0, 100) }
        };
        let ghost before = nodes@;
        nodes.push(ResourceNode { stack, tile_pos });
        proof {
            let h = log.history();
            assert(h.len() == h1.len() + 4);
            assert forall|i: int| 0 <= i < h1.len() implies h[i] == h1[i] by {}
            assert(h.take(o) =~= h0) by {
                assert forall|i: int| 0 <= i < o implies h.take(o)[i] == h0[i] by {
                    assert(h1.take(o)[i] == h0[i]);
                }
            }
            assert forall|j: int| 0 <= j < k + 1 implies #[trigger] nodes@[j] == drawn_node(h, o, j) by {
                if j < k {
                    assert(nodes@[j] == before[j]);
                    assert(before[j] == drawn_node(h1, o, j));
                }
            }
            assert forall|j: int| 0 <= j < k + 1 implies #[trigger] draws_in_range(h, o, j) by {
                if j < k {
                    assert(draws_in_range(h1, o, j));
                }
            }
        }
        k = k + 1;
    }
    nodes
}

/// Every map tile can be drawn, and different draws of column and row give
/// different tiles: the position of a node is the pair of its two draws, each
/// taken on its own.
pub proof fn law_node_position_from_draws(x_draw: i32, y_draw: i32, x2: i32, y2: i32, coin: i32, count: i32, p: TilePos)
    requires
        0 <= x_draw < 21,
        0 <= y_draw < 21,
        0 <= x2 < 21,
        0 <= y2 < 21,
    ensures
        on_map(node_of_draws(x_draw, y_draw, coin, count).tile_pos),
        (x_draw != x2 || y_draw != y2) ==> node_of_draws(x_draw, y_draw, coin, count).tile_pos
            != node_of_draws(x2, y2, coin, count).tile_pos,
        on_map(p) ==> node_of_draws((p.x + 10) as i32, (p.y + 10) as i32, coin, count).tile_pos == p,
        node_of_draws(x_draw, y_draw, coin, count).tile_pos.x - node_of_draws(x2, y_draw, coin, count).tile_pos.x
            == x_draw - x2,
        node_of_draws(x_draw, y_draw, coin, count).tile_pos.y - node_of_draws(x_draw, y2, coin, count).tile_pos.y
            == y_draw - y2,
{
}

/// Random resource nodes for the tile map: 100 nodes, each on a random tile,
/// of iron or copper with even odds, holding fewer than 100 items. Each node
/// takes four draws from the thread's generator: column, row, coin, count.
pub fn generate_nodes() -> (nodes: Vec<ResourceNode>)
    ensures
        nodes@.len() == 100,
        forall|i: int| 0 <= i < nodes@.len() ==> #[trigger] node_ok(nodes@[i]),
        exists|h: Seq<i32>|
            h.len() == 400 && (forall|k: int| 0 <= k < 100 ==> #[trigger] nodes@[k] == drawn_node(h, 0, k))
                && (forall|k: int| 0 <= k < 100 ==> #[trigger] draws_in_range(h, 0, k)),
{
    let mut log = DrawLog::new();
    let nodes = generate_nodes_from(&mut log);
    proof {
        let h = log.history();
        assert forall|i: int| 0 <= i < nodes@.len() implies #[trigger] node_ok(nodes@[i]) by {
            assert(draws_in_range(h, 0, i));
            assert(nodes@[i] == drawn_node(h, 0, i));
        }
    }
    nodes
}

} // verus!
