use vstd::prelude::*;

use crate::inventory::{Item, ItemStack};
use crate::random::fast_usize;

verus! {

/// The kinds of building a player can place.
#[derive(Clone, Copy, Debug, PartialEq, Eq, Structural)]
pub enum Building {
    Miner,
    Processor,
    SatelliteDish,
}

/// The cost of a building, stack by stack.
pub open spec fn building_cost(b: Building) -> Seq<ItemStack> {
    match b {
        Building::Miner => seq![
            ItemStack { item: Item::Stone, count: 1 },
            ItemStack { item: Item::Wood, count: 5 },
            ItemStack { item: Item::Iron, count: 10 },
        ],
        Building::Processor => seq![
            ItemStack { item: Item::Iron, count: 10 },
            ItemStack { item: Item::Copper, count: 10 },
        ],
        Building::SatelliteDish => seq![
            ItemStack { item: Item::Wood, count: 10 },
            ItemStack { item: Item::Iron, count: 20 },
            ItemStack { item: Item::Copper, count: 20 },
        ],
    }
}

impl Building {
    /// Every kind of building, in declaration order.
    pub fn all() -> (r: Vec<Building>)
        ensures
            r@ == seq![Building::Miner, Building::Processor, Building::SatelliteDish],
    {
        vec![Building::Miner, Building::Processor, Building::SatelliteDish]
    }

    /// The display name.
    pub fn name(&self) -> (r: &str)
        ensures
            r@ == match *self {
                Building::Miner => "Miner"@,
                Building::Processor => "Processor"@,
                Building::SatelliteDish => "Satellite Dish"@,
            },
    {
        match self {
            Building::Miner => "Miner",
            Building::Processor => "Processor",
            Building::SatelliteDish => "Satellite Dish",
        }
    }

    /// The path of the model file.
    pub fn asset(&self) -> (r: &str)
        ensures
            r@ == match *self {
                Building::Miner => "models/miner.glb"@,
                Building::Processor => "models/processor.glb"@,
                Building::SatelliteDish => "models/satellite_dish.glb"@,
            },
    {
        match self {
            Building::Miner => "models/miner.glb",
            Building::Processor => "models/processor.glb",
            Building::SatelliteDish => "models/satellite_dish.glb",
        }
    }

    /// The description shown in the build menu.
    pub fn description(&self) -> (r: &str)
        ensures
            r@ == match *self {
                Building::Miner => "Mines resources from an ore vein. Self fueling when placed on coal."@,
                Building::Processor => "Generates image data. Powered by clean coal."@,
                Building::SatelliteDish => "Sends images into the stars :). You get money in exchange."@,
            },
    {
        match self {
            Building::Miner => {
                "Mines resources from an ore vein. Self fueling when placed on coal."
            },
            Building::Processor => "Generates image data. Powered by clean coal.",
            Building::SatelliteDish => "Sends images into the stars :). You get money in exchange.",
        }
    }

    /// The items it takes to build one.
    pub fn cost(&self) -> (r: Vec<ItemStack>)
        ensures
            r@ == building_cost(*self),
    {
        match self {
            Building::Miner => vec![
                ItemStack { item: Item::Stone, count: 1 },
                ItemStack { item: Item::Wood, count: 5 },
                ItemStack { item: Item::Iron, count: 10 },
            ],
            Building::Processor => vec![
                ItemStack { item: Item::Iron, count: 10 },
                ItemStack { item: Item::Copper, count: 10 },
            ],
            Building::SatelliteDish => vec![
                ItemStack { item: Item::Wood, count: 10 },
                ItemStack { item: Item::Iron, count: 20 },
                ItemStack { item: Item::Copper, count: 20 },
            ],
        }
    }
}

/// What a building is doing.
#[derive(Debug, Clone, Copy, PartialEq, Eq, Structural)]
pub enum ProcessingStatus {
    Idle,
    Running,
    OutOfEnergy,
    OutputFull,
}

impl ProcessingStatus {
    /// The status as shown to the player.
    pub fn label(&self) -> (r: &str)
        ensures
            r@ == match *self {
                ProcessingStatus::Idle => "Idle"@,
                ProcessingStatus::Running => "Running"@,
                ProcessingStatus::OutOfEnergy => "Out of energy"@,
                ProcessingStatus::OutputFull => "Output full"@,
            },
    {
        match self {
            ProcessingStatus::Idle => "Idle",
            ProcessingStatus::Running => "Running",
            ProcessingStatus::OutOfEnergy => "Out of energy",
            ProcessingStatus::OutputFull => "Output full",
        }
    }
}

impl Default for ProcessingStatus {
    /// A building starts idle.
    fn default() -> (r: ProcessingStatus)
        ensures
            r == ProcessingStatus::Idle,
    {
        ProcessingStatus::Idle
    }
}

/// The status of a production step: a building without input idles, one whose
/// output is full waits, and otherwise it runs when it has energy.
pub fn tick_status(has_input: bool, has_room: bool, has_energy: bool) -> (r: ProcessingStatus)
    ensures
        !has_input ==> r == ProcessingStatus::Idle,
        has_input && !has_room ==> r == ProcessingStatus::OutputFull,
        has_input && has_room && has_energy ==> r == ProcessingStatus::Running,
        has_input && has_room && !has_energy ==> r == ProcessingStatus::OutOfEnergy,
{
    if !has_input {
        ProcessingStatus::Idle
    } else if !has_room {
        ProcessingStatus::OutputFull
    } else if has_energy {
        ProcessingStatus::Running
    } else {
        ProcessingStatus::OutOfEnergy
    }
}

/// The output storage of a building.
#[derive(Debug, Clone, Copy, PartialEq, Eq, Structural)]
pub struct OutputSlot {
    pub stack: ItemStack,
    pub limit: i32,
}

/// The fuel storage of a building.
#[derive(Debug, Clone, Copy, PartialEq, Eq, Structural)]
pub struct FuelSlot {
    pub stack: ItemStack,
    pub limit: i32,
}

/// The image data stored in a processor.
#[derive(Debug, Clone, Copy, PartialEq, Eq, Structural)]
pub struct ImageData {
    pub count: i32,
    pub limit: i32,
}

impl OutputSlot {
    /// The empty output slot of a freshly placed miner on a node of `item`.
    pub fn new(item: Item) -> (r: OutputSlot)
        ensures
            r == (OutputSlot { stack: ItemStack { item, count: 0 }, limit: 100 }),
    {
        OutputSlot { stack: ItemStack { item, count: 0 }, limit: 100 }
    }
}

impl FuelSlot {
    /// The empty coal slot of a freshly placed building.
    pub fn new() -> (r: FuelSlot)
        ensures
            r == (FuelSlot { stack: ItemStack { item: Item::Coal, count: 0 }, limit: 100 }),
    {
        FuelSlot { stack: ItemStack { item: Item::Coal, count: 0 }, limit: 100 }
    }

    /// Burns one unit of fuel if there is any; returns whether it did.
    pub fn burn(&mut self) -> (burned: bool)
        ensures
            burned == (old(self).stack.count > 0),
            final(self).stack.count == if burned {
                old(self).stack.count - 1
            } else {
                old(self).stack.count as int
            },
            final(self).stack.item == old(self).stack.item,
            final(self).limit == old(self).limit,
    {
        if self.stack.count > 0 {
            self.stack.count = self.stack.count - 1;
            true
        } else {
            false
        }
    }
}

impl ImageData {
    /// The empty image store of a freshly placed processor.
    pub fn new() -> (r: ImageData)
        ensures
            r == (ImageData { count: 0, limit: 1000 }),
    {
        ImageData { count: 0, limit: 1000 }
    }
}

/// A miner placed on its own fuel burns one unit of its output when the fuel
/// slot's item matches it and the output is not empty; returns whether it did.
pub fn self_fuel(fuel: &FuelSlot, output: &mut OutputSlot) -> (burned: bool)
    ensures
        burned == (fuel.stack.item == old(output).stack.item && old(output).stack.count > 0),
        final(output).stack.count == if burned {
            old(output).stack.count - 1
        } else {
            old(output).stack.count as int
        },
        final(output).stack.item == old(output).stack.item,
        final(output).limit == old(output).limit,
{
    if fuel.stack.item == output.stack.item && output.stack.count > 0 {
        output.stack.count = output.stack.count - 1;
        true
    } else {
        false
    }
}

/// The smaller of two integers.
pub open spec fn min_int(a: int, b: int) -> int {
    if a <= b {
        a
    } else {
        b
    }
}

/// Moves the items that a miner's finished operations yield from the node into
/// the output slot: `whole` operations, at most what the node holds and what
/// fits below the output's limit. Returns the amount moved.
pub fn mine_into_output(node: &mut ItemStack, output: &mut OutputSlot, whole: i32) -> (amount: i32)
    requires
        old(node).count > 0,
        whole >= 0,
        old(output).stack.count < old(output).limit,
        old(output).limit - old(output).stack.count <= i32::MAX,
    ensures
        amount == min_int(
            min_int(old(node).count as int, whole as int),
            old(output).limit - old(output).stack.count,
        ),
        final(output).stack.count == old(output).stack.count + amount,
        final(node).count == old(node).count - amount,
        final(node).count + final(output).stack.count == old(node).count + old(output).stack.count,
        final(output).stack.count <= final(output).limit,
        0 <= amount,
        final(node).item == old(node).item,
        final(output).stack.item == old(output).stack.item,
        final(output).limit == old(output).limit,
{
    let room = output.limit - output.stack.count;
    let mut amount = if node.count < whole {
        node.count
    } else {
        whole
    };
    if room < amount {
        amount = room;
    }
    proof {
        assert(amount <= room);
    }
    output.stack.count = output.stack.count + amount;
    node.count = node.count - amount;
    amount
}

/// Stores the image data of a processor's finished operations: `whole`
/// operations, at most what fits below the limit. Returns the amount stored.
pub fn store_image_data(data: &mut ImageData, whole: i32) -> (amount: i32)
    requires
        whole >= 0,
        old(data).count < old(data).limit,
        old(data).limit - old(data).count <= i32::MAX,
    ensures
        amount == min_int(whole as int, old(data).limit - old(data).count),
        final(data).count == old(data).count + amount,
        final(data).limit == old(data).limit,
        final(data).count <= final(data).limit,
        0 <= amount,
{
    let room = data.limit - data.count;
    let amount = if whole < room {
        whole
    } else {
        room
    };
    data.count = data.count + amount;
    amount
}

/// The total image data of the processors.
pub open spec fn total_data(s: Seq<ImageData>) -> int
    decreases s.len(),
{
    if s.len() == 0 {
        0
    } else {
        total_data(s.drop_last()) + s.last().count
    }
}

/// The image data of the processors that hold a positive amount.
pub open spec fn positive_data(s: Seq<ImageData>) -> int
    decreases s.len(),
{
    if s.len() == 0 {
        0
    } else {
        positive_data(s.drop_last()) + if s.last().count > 0 {
            s.last().count as int
        } else {
            0
        }
    }
}

/// Summing the image data in order never leaves the range of `i32`.
pub open spec fn data_sum_fits(s: Seq<ImageData>) -> bool {
    forall|i: int| 0 <= i <= s.len() ==> i32::MIN <= #[trigger] total_data(s.take(i)) <= i32::MAX
}

/// The total image data of the processors, summed in order.
pub fn sum_image_data(sources: &Vec<ImageData>) -> (total: i32)
    requires
        data_sum_fits(sources@),
    ensures
        total == total_data(sources@),
{
    let n = sources.len();
    let mut total: i32 = 0;
    let mut i: usize = 0;
    while i < n
        invariant
            n == sources@.len(),
            0 <= i <= n,
            data_sum_fits(sources@),
            total == total_data(sources@.take(i as int)),
        decreases n - i,
    {
        proof {
            assert(sources@.take(i + 1).drop_last() =~= sources@.take(i as int));
            assert(i32::MIN <= total_data(sources@.take(i + 1)) <= i32::MAX);
        }
        total = total + sources[i].count;
        i = i + 1;
    }
    proof {
        assert(sources@.take(n as int) =~= sources@);
    }
    total
}

/// Whether there is image data to send: a positive total and a processor that
/// holds some.
pub fn has_image_data(sources: &Vec<ImageData>) -> (r: bool)
    requires
        data_sum_fits(sources@),
    ensures
        r == (total_data(sources@) > 0 && exists|j: int|
            0 <= j < sources@.len() && #[trigger] sources@[j].count > 0),
{
    let total = sum_image_data(sources);
    let n = sources.len();
    let mut i: usize = 0;
    while i < n
        invariant
            n == sources@.len(),
            0 <= i <= n,
            total == total_data(sources@),
            forall|j: int| 0 <= j < i ==> #[trigger] sources@[j].count <= 0,
        decreases n - i,
    {
        if sources[i].count > 0 {
            assert(sources@[i as int].count > 0);
            return total > 0;
        }
        i = i + 1;
    }
    false
}

/// Changing one processor's data changes the totals by the difference.
proof fn lemma_data_update(s: Seq<ImageData>, j: int, x: ImageData)
    requires
        0 <= j < s.len(),
    ensures
        total_data(s.update(j, x)) == total_data(s) - s[j].count + x.count,
        positive_data(s.update(j, x)) == positive_data(s) - (if s[j].count > 0 {
            s[j].count as int
        } else {
            0
        }) + (if x.count > 0 {
            x.count as int
        } else {
            0
        }),
    decreases s.len(),
{
    let u = s.update(j, x);
    if j == s.len() - 1 {
        assert(u.drop_last() =~= s.drop_last());
    } else {
        assert(u.drop_last() =~= s.drop_last().update(j, x));
        lemma_data_update(s.drop_last(), j, x);
    }
}

/// The positive data is at least the total, and some processor holds data when
/// the positive data is not zero.
proof fn lemma_positive_data(s: Seq<ImageData>)
    ensures
        positive_data(s) >= total_data(s),
        positive_data(s) >= 0,
        positive_data(s) > 0 ==> exists|j: int| 0 <= j < s.len() && #[trigger] s[j].count > 0,
    decreases s.len(),
{
    if s.len() > 0 {
        lemma_positive_data(s.drop_last());
        if positive_data(s) > 0 && s.last().count <= 0 {
            let j = choose|j: int| 0 <= j < s.drop_last().len() && #[trigger] s.drop_last()[j].count > 0;
            assert(s[j] == s.drop_last()[j]);
        }
    }
}

/// The processors that hold image data, by position.
fn positive_sources(sources: &Vec<ImageData>) -> (r: Vec<usize>)
    ensures
        forall|k: int| 0 <= k < r@.len() ==> #[trigger] r@[k] < sources@.len() && sources@[r@[k] as int].count > 0,
        forall|j: int| 0 <= j < sources@.len() && #[trigger] sources@[j].count > 0 ==> r@.contains(j as usize),
{
    let n = sources.len();
    let mut r: Vec<usize> = Vec::new();
    let mut i: usize = 0;
    while i < n
        invariant
            n == sources@.len(),
            0 <= i <= n,
            forall|k: int| 0 <= k < r@.len() ==> #[trigger] r@[k] < sources@.len() && sources@[r@[k] as int].count > 0,
            forall|j: int| 0 <= j < i && #[trigger] sources@[j].count > 0 ==> r@.contains(j as usize),
        decreases n - i,
    {
        if sources[i].count > 0 {
            let ghost before = r@;
            r.push(i);
            proof {
                assert(r@[r@.len() - 1] == i);
                assert forall|j: int| 0 <= j < i + 1 && #[trigger] sources@[j].count > 0 implies r@.contains(j as usize) by {
                    if j < i {
                        let k = choose|k: int| 0 <= k < before.len() && before[k] == j as usize;
                        assert(r@[k] == before[k]);
                    }
                }
            }
        }
        i = i + 1;
    }
    r
}

/// Sends the image data of a satellite dish's finished operations: `whole`
/// operations, at most the total data held. The money grows by the amount sent,
/// and the amount is taken from the processors one unit at a time, each unit
/// from a processor picked at random among those that still hold data.
/// Returns the amount sent.
pub fn transmit_image_data(
    sources: &mut Vec<ImageData>,
    whole: i32,
    money: &mut i32,
    rng: &mut fastrand::Rng,
) -> (amount: i32)
    requires
        data_sum_fits(old(sources)@),
        total_data(old(sources)@) > 0,
        whole >= 0,
        *old(money) + min_int(total_data(old(sources)@), whole as int) <= i32::MAX,
    ensures
        amount == min_int(total_data(old(sources)@), whole as int),
        *final(money) == *old(money) + amount,
        total_data(final(sources)@) == total_data(old(sources)@) - amount,
        *final(money) + total_data(final(sources)@) == *old(money) + total_data(old(sources)@),
        final(sources)@.len() == old(sources)@.len(),
        forall|j: int| 0 <= j < old(sources)@.len() ==> {
            &&& #[trigger] final(sources)@[j].limit == old(sources)@[j].limit
            &&& final(sources)@[j].count <= old(sources)@[j].count
            &&& old(sources)@[j].count > 0 ==> final(sources)@[j].count >= 0
            &&& old(sources)@[j].count <= 0 ==> final(sources)@[j].count == old(sources)@[j].count
        },
{
    let total = sum_image_data(sources);
    let amount = if total < whole {
        total
    } else {
        whole
    };
    *money = *money + amount;
    let ghost orig = sources@;
    proof {
        lemma_positive_data(orig);
    }
    let mut remaining = amount;
    while remaining > 0
        invariant
            0 <= remaining <= amount,
            sources@.len() == orig.len(),
            total_data(sources@) == total_data(orig) - (amount - remaining),
            positive_data(sources@) >= remaining,
            forall|j: int| 0 <= j < orig.len() ==> {
                &&& #[trigger] sources@[j].limit == orig[j].limit
                &&& sources@[j].count <= orig[j].count
                &&& orig[j].count > 0 ==> sources@[j].count >= 0
                &&& orig[j].count <= 0 ==> sources@[j].count == orig[j].count
            },
        decreases remaining,
    {
        proof {
            lemma_positive_data(sources@);
        }
        let candidates = positive_sources(sources);
        proof {
            let j = choose|j: int| 0 <= j < sources@.len() && #[trigger] sources@[j].count > 0;
            assert(candidates@.contains(j as usize));
        }
        let pick = fast_usize(rng, 0, candidates.len());
        let index = candidates[pick];
        let old_data = sources[index];
        let new_data = ImageData { count: old_data.count - 1, limit: old_data.limit };
        proof {
            lemma_data_update(sources@, index as int, new_data);
        }
        sources.set(index, new_data);
        remaining = remaining - 1;
    }
    assert forall|j: int| 0 <= j < orig.len() implies {
        &&& sources@[j].limit == orig[j].limit
        &&& sources@[j].count <= orig[j].count
        &&& orig[j].count > 0 ==> sources@[j].count >= 0
        &&& orig[j].count <= 0 ==> sources@[j].count == orig[j].count
    } by {
        assert(sources@[j].limit == orig[j].limit);
    }
    amount
}

} // verus!
