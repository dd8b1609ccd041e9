use vstd::prelude::*;

use crate::inventory::{Item, ItemStack};

verus! {

/// A research upgrade.
#[derive(Clone, Copy, Hash, Eq, PartialEq, Debug, Structural)]
pub enum Unlock {
    PlayerMineSpeed,
}

/// The price of an upgrade: money, then items.
pub open spec fn unlock_cost(u: Unlock) -> (i32, Seq<ItemStack>) {
    match u {
        Unlock::PlayerMineSpeed => (
            100,
            seq![
                ItemStack { item: Item::Stone, count: 5 },
                ItemStack { item: Item::Wood, count: 10 },
            ],
        ),
    }
}

impl Unlock {
    /// Every upgrade, in declaration order.
    pub fn all() -> (r: Vec<Unlock>)
        ensures
            r@ == seq![Unlock::PlayerMineSpeed],
    {
        vec![Unlock::PlayerMineSpeed]
    }

    /// The display name.
    pub fn name(&self) -> (r: &str)
        ensures
            r@ == match *self {
                Unlock::PlayerMineSpeed => "Pickaxe"@,
            },
    {
        match self {
            Unlock::PlayerMineSpeed => "Pickaxe",
        }
    }

    /// The description shown in the research menu.
    pub fn description(&self) -> (r: &str)
        ensures
            r@ == match *self {
                Unlock::PlayerMineSpeed => "Increases player mining speed."@,
            },
    {
        match self {
            Unlock::PlayerMineSpeed => "Increases player mining speed.",
        }
    }

    /// The price: money, then items.
    pub fn cost(&self) -> (r: (i32, Vec<ItemStack>))
        ensures
            r.0 == unlock_cost(*self).0,
            r.1@ == unlock_cost(*self).1,
    {
        match self {
            Unlock::PlayerMineSpeed => (
                100,
                vec![
                    ItemStack { item: Item::Stone, count: 5 },
                    ItemStack { item: Item::Wood, count: 10 },
                ],
            ),
        }
    }
}

/// The upgrades a player has researched.
pub struct Unlocks(pub fxhash::FxHashSet<Unlock>);

impl Default for Unlocks {
    /// No upgrade researched yet.
    fn default() -> (r: Unlocks)
        ensures
            r@ == Set::<Unlock>::empty(),
    {
        Unlocks(fxhash::FxHashSet::default())
    }
}

impl Unlocks {
    /// The researched upgrades, as a set.
    pub open spec fn view(&self) -> Set<Unlock> {
        self.0@
    }

    /// Whether `u` has been researched.
    pub fn contains(&self, u: &Unlock) -> (r: bool)
        ensures
            r == self@.contains(*u),
    {
        unlock_set_contains(&self.0, u)
    }

    /// Records `u` as researched; returns whether it was new.
    pub fn insert(&mut self, u: Unlock) -> (r: bool)
        ensures
            final(self)@ == old(self)@.insert(u),
            r == !old(self)@.contains(u),
    {
        unlock_set_insert(&mut self.0, u)
    }
}

/// Calls `HashSet::contains` on a set of upgrades hashed with `fxhash`'s
/// `FxHasher`. Stated: the result is membership in the set's contents. This
/// rests on `Unlock`'s derived `Hash` and `Eq` agreeing, as they do for an enum
/// without fields.
#[verifier::external_body]
fn unlock_set_contains(s: &fxhash::FxHashSet<Unlock>, u: &Unlock) -> (r: bool)
    ensures
        r == s@.contains(*u),
{
    s.contains(u)
}

/// Calls `HashSet::insert` on a set of upgrades hashed with `fxhash`'s
/// `FxHasher`. Stated: the contents gain `u`, and the result says whether `u`
/// was absent before. This rests on `Unlock`'s derived `Hash` and `Eq` agreeing.
#[verifier::external_body]
fn unlock_set_insert(s: &mut fxhash::FxHashSet<Unlock>, u: Unlock) -> (r: bool)
    ensures
        final(s)@ == old(s)@.insert(u),
        r == !old(s)@.contains(u),
{
    s.insert(u)
}

} // verus!
