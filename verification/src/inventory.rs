use vstd::prelude::*;

verus! {

/// An item kind that can be carried, mined or produced.
#[derive(Debug, Hash, PartialEq, Eq, Clone, Copy, Structural)]
pub enum Item {
    Iron,
    Copper,
    Wood,
    Stone,
    Coal,
}

/// A number of items of one kind.
#[derive(Debug, Hash, PartialEq, Eq, Clone, Copy, Structural)]
pub struct ItemStack {
    pub item: Item,
    pub count: i32,
}

/// The player's items, as a list of stacks.
#[derive(Debug)]
pub struct Inventory {
    pub stacks: Vec<ItemStack>,
}

impl Default for Inventory {
    /// An empty inventory.
    fn default() -> (r: Inventory)
        ensures
            r.stacks@ == Seq::<ItemStack>::empty(),
    {
        Inventory { stacks: Vec::new() }
    }
}

/// `i` is the first position of `s` that holds `item`.
pub open spec fn is_first_index(s: Seq<ItemStack>, item: Item, i: int) -> bool {
    &&& 0 <= i < s.len()
    &&& s[i].item == item
    &&& forall|j: int| 0 <= j < i ==> s[j].item != item
}

/// The first position of `s` that holds `item`, if any.
pub open spec fn first_index(s: Seq<ItemStack>, item: Item) -> Option<int> {
    if exists|i: int| is_first_index(s, item, i) {
        Some(choose|i: int| is_first_index(s, item, i))
    } else {
        None
    }
}

/// The count that a lookup of `item` reads: that of the first stack holding it, or 0.
pub open spec fn count_of(s: Seq<ItemStack>, item: Item) -> int {
    match first_index(s, item) {
        Some(i) => s[i].count as int,
        None => 0,
    }
}

/// The stacks of `s` with a positive count, in their order.
pub open spec fn keep_positive(s: Seq<ItemStack>) -> Seq<ItemStack> {
    s.filter(|st: ItemStack| st.count > 0)
}

/// The stacks after setting the count of `item` to `count`: the first stack of
/// `item` takes the new count (or a new stack is appended), then every stack
/// whose count is not positive is dropped.
pub open spec fn set_count(s: Seq<ItemStack>, item: Item, count: i32) -> Seq<ItemStack> {
    let updated = match first_index(s, item) {
        Some(i) => s.update(i, ItemStack { item, count }),
        None => s.push(ItemStack { item, count }),
    };
    keep_positive(updated)
}

/// Whether the stacks hold at least `count` of `item`.
pub open spec fn has_count(s: Seq<ItemStack>, item: Item, count: i32) -> bool {
    count_of(s, item) >= count
}

/// The stacks after adding `count` of `item` (a negative count takes items away).
pub open spec fn add_count(s: Seq<ItemStack>, item: Item, count: i32) -> Seq<ItemStack> {
    if count == 0 {
        s
    } else {
        set_count(s, item, (count_of(s, item) + count) as i32)
    }
}

/// The stacks after removing `count` of `item`, or unchanged when fewer are held.
pub open spec fn remove_count(s: Seq<ItemStack>, item: Item, count: i32) -> Seq<ItemStack> {
    if !has_count(s, item, count) {
        s
    } else {
        set_count(s, item, (count_of(s, item) - count) as i32)
    }
}

/// Adding `count` of `item` to `s` fits in an `i32`.
pub open spec fn add_fits(s: Seq<ItemStack>, item: Item, count: i32) -> bool {
    count == 0 || i32::MIN <= count_of(s, item) + count <= i32::MAX
}

/// Removing `count` of `item` from `s` fits in an `i32` (or is refused).
pub open spec fn remove_fits(s: Seq<ItemStack>, item: Item, count: i32) -> bool {
    !has_count(s, item, count) || count_of(s, item) - count <= i32::MAX
}

/// No item has two stacks.
pub open spec fn items_distinct(s: Seq<ItemStack>) -> bool {
    forall|i: int, j: int|
        0 <= i < s.len() && 0 <= j < s.len() && i != j ==> #[trigger] s[i].item != #[trigger] s[j].item
}

/// Every stack holds a positive count and no item has two stacks.
pub open spec fn stacks_wf(s: Seq<ItemStack>) -> bool {
    &&& forall|i: int| 0 <= i < s.len() ==> #[trigger] s[i].count > 0
    &&& items_distinct(s)
}

impl Inventory {
    /// The count of `item` that [`Inventory::get`] reads.
    pub open spec fn count(&self, item: Item) -> int {
        count_of(self.stacks@, item)
    }

    /// The position of the first stack holding `item`, if any.
    fn find(&self, item: &Item) -> (r: Option<usize>)
        ensures
            match r {
                Some(i) => first_index(self.stacks@, *item) == Some(i as int),
                None => first_index(self.stacks@, *item) is None,
            },
    {
        let n = self.stacks.len();
        let mut i: usize = 0;
        while i < n
            invariant
                n == self.stacks@.len(),
                0 <= i <= n,
                forall|j: int| 0 <= j < i ==> self.stacks@[j].item != *item,
            decreases n - i,
        {
            if self.stacks[i].item == *item {
                proof {
                    lemma_first_index_is(self.stacks@, *item, i as int);
                }
                return Some(i);
            }
            i = i + 1;
        }
        proof {
            lemma_first_index_none(self.stacks@, *item);
        }
        None
    }

    /// The count of the first stack holding `item`, or 0 when none does.
    pub fn get(&self, item: &Item) -> (r: i32)
        ensures
            r == self.count(*item),
    {
        match self.find(item) {
            Some(i) => self.stacks[i].count,
            None => 0,
        }
    }

    /// Sets the count of `item`, then drops every stack whose count is not positive.
    pub fn set(&mut self, item: &Item, count: i32)
        ensures
            final(self).stacks@ == set_count(old(self).stacks@, *item, count),
    {
        match self.find(item) {
            Some(i) => {
                self.stacks.set(i, ItemStack { item: *item, count });
            },
            None => {
                self.stacks.push(ItemStack { item: *item, count });
            },
        }
        let ghost updated = self.stacks@;
        let n = self.stacks.len();
        let mut kept: Vec<ItemStack> = Vec::new();
        let mut i: usize = 0;
        while i < n
            invariant
                n == self.stacks@.len(),
                self.stacks@ == updated,
                0 <= i <= n,
                kept@ == keep_positive(updated.take(i as int)),
            decreases n - i,
        {
            let st = self.stacks[i];
            proof {
                assert(updated.take(i + 1).drop_last() =~= updated.take(i as int));
                assert(updated.take(i + 1).last() == st);
                reveal_with_fuel(Seq::filter, 1);
            }
            if st.count > 0 {
                kept.push(st);
            }
            i = i + 1;
        }
        proof {
            assert(updated.take(n as int) =~= updated);
        }
        self.stacks = kept;
    }

    /// Adds `count` of `item`; a zero count changes nothing.
    pub fn add(&mut self, item: &Item, count: i32)
        requires
            add_fits(old(self).stacks@, *item, count),
        ensures
            final(self).stacks@ == add_count(old(self).stacks@, *item, count),
    {
        if count == 0 {
            return;
        }
        let current = self.get(item);
        self.set(item, current + count);
    }

    /// Whether at least `count` of `item` is held.
    pub fn has(&mut self, item: &Item, count: i32) -> (r: bool)
        ensures
            r == has_count(old(self).stacks@, *item, count),
            *final(self) == *old(self),
    {
        let current = self.get(item);
        current >= count
    }

    /// Removes `count` of `item`; when fewer are held, nothing changes.
    pub fn remove(&mut self, item: &Item, count: i32)
        requires
            remove_fits(old(self).stacks@, *item, count),
        ensures
            final(self).stacks@ == remove_count(old(self).stacks@, *item, count),
    {
        if !self.has(item, count) {
            return;
        }
        let current = self.get(item);
        self.set(item, current - count);
    }
}

/// When `i` holds `item` and no earlier position does, it is the first index.
proof fn lemma_first_index_is(s: Seq<ItemStack>, item: Item, i: int)
    requires
        0 <= i < s.len(),
        s[i].item == item,
        forall|j: int| 0 <= j < i ==> s[j].item != item,
    ensures
        first_index(s, item) == Some(i),
{
    assert(is_first_index(s, item, i));
    let k = choose|k: int| is_first_index(s, item, k);
    assert(k == i) by {
        if k < i {
            assert(s[k].item != item);
        } else if k > i {
            assert(s[i].item != item);
        }
    }
}

/// When no position holds `item`, there is no first index.
pub proof fn lemma_first_index_none(s: Seq<ItemStack>, item: Item)
    requires
        forall|j: int| 0 <= j < s.len() ==> s[j].item != item,
    ensures
        first_index(s, item) is None,
{
}


/// In stacks where no item repeats, the count of an item is that of its only stack.
pub proof fn lemma_count_distinct(t: Seq<ItemStack>, item: Item, k: int)
    requires
        items_distinct(t),
        0 <= k < t.len(),
        t[k].item == item,
    ensures
        first_index(t, item) == Some(k),
        count_of(t, item) == t[k].count,
{
    assert forall|j: int| 0 <= j < k implies t[j].item != item by {
        assert(t[j].item != t[k].item);
    }
    lemma_first_index_is(t, item, k);
}

/// Dropping the stacks that are not positive keeps only stacks of `s`, all positive.
proof fn lemma_keep_positive_elements(s: Seq<ItemStack>, m: int)
    requires
        0 <= m < keep_positive(s).len(),
    ensures
        keep_positive(s)[m].count > 0,
        s.contains(keep_positive(s)[m]),
{
    let pred = |st: ItemStack| st.count > 0;
    s.lemma_filter_pred(pred, m);
    assert(s.filter(pred).contains(s.filter(pred)[m]));
    s.lemma_filter_contains_rev(pred, s.filter(pred)[m]);
}

/// Dropping the stacks that are not positive keeps items distinct.
proof fn lemma_keep_positive_distinct(s: Seq<ItemStack>)
    requires
        items_distinct(s),
    ensures
        items_distinct(keep_positive(s)),
    decreases s.len(),
{
    let pred = |st: ItemStack| st.count > 0;
    reveal_with_fuel(Seq::filter, 1);
    if s.len() > 0 {
        let d = s.drop_last();
        assert(items_distinct(d)) by {
            assert forall|i: int, j: int|
                0 <= i < d.len() && 0 <= j < d.len() && i != j implies #[trigger] d[i].item
                != #[trigger] d[j].item by {
                assert(d[i] == s[i] && d[j] == s[j]);
            }
        }
        lemma_keep_positive_distinct(d);
        let f = keep_positive(d);
        if pred(s.last()) {
            assert(keep_positive(s) == f.push(s.last()));
            let t = f.push(s.last());
            assert forall|i: int, j: int|
                0 <= i < t.len() && 0 <= j < t.len() && i != j implies #[trigger] t[i].item
                != #[trigger] t[j].item by {
                if i == f.len() || j == f.len() {
                    let o = if i == f.len() { j } else { i };
                    lemma_keep_positive_elements(d, o);
                    let x = f[o];
                    assert(d.contains(x));
                    let q = choose|q: int| 0 <= q < d.len() && d[q] == x;
                    assert(s[q] == x);
                    assert(s[q].item != s[s.len() - 1].item);
                }
            }
        }
    }
}

/// When every stack is positive, dropping the stacks that are not positive changes nothing.
proof fn lemma_keep_positive_all(s: Seq<ItemStack>)
    requires
        forall|i: int| 0 <= i < s.len() ==> #[trigger] s[i].count > 0,
    ensures
        keep_positive(s) == s,
    decreases s.len(),
{
    reveal_with_fuel(Seq::filter, 1);
    if s.len() > 0 {
        let d = s.drop_last();
        assert forall|i: int| 0 <= i < d.len() implies #[trigger] d[i].count > 0 by {
            assert(d[i] == s[i]);
        }
        lemma_keep_positive_all(d);
        assert(s.last().count > 0);
        assert(d.push(s.last()) =~= s);
    }
}

/// The stacks before dropping non-positive ones, in a call of `set_count`.
spec fn set_updated(s: Seq<ItemStack>, item: Item, count: i32) -> Seq<ItemStack> {
    match first_index(s, item) {
        Some(i) => s.update(i, ItemStack { item, count }),
        None => s.push(ItemStack { item, count }),
    }
}

/// The facts about `set_updated` on well-formed stacks that the laws use.
proof fn lemma_set_updated(s: Seq<ItemStack>, item: Item, count: i32)
    requires
        stacks_wf(s),
    ensures
        ({
            let u = set_updated(s, item, count);
            &&& items_distinct(u)
            &&& set_count(s, item, count) == keep_positive(u)
            &&& exists|p: int| 0 <= p < u.len() && u[p] == ItemStack { item, count }
            &&& forall|q: int| 0 <= q < u.len() && u[q].item != item ==> s.contains(u[q])
            &&& forall|q: int| 0 <= q < s.len() && s[q].item != item ==> u.contains(s[q])
            &&& forall|q: int| 0 <= q < u.len() && u[q].item != item ==> u[q].count > 0
        }),
{
    let u = set_updated(s, item, count);
    let x = ItemStack { item, count };
    match first_index(s, item) {
        Some(i) => {
            assert(is_first_index(s, item, i));
            assert(u[i] == x);
            assert forall|a: int, b: int|
                0 <= a < u.len() && 0 <= b < u.len() && a != b implies #[trigger] u[a].item
                != #[trigger] u[b].item by {
                assert(s[a].item != s[b].item);
            }
            assert forall|q: int| 0 <= q < u.len() && u[q].item != item implies s.contains(u[q]) by {
                assert(u[q] == s[q]);
            }
            assert forall|q: int| 0 <= q < s.len() && s[q].item != item implies u.contains(s[q]) by {
                assert(u[q] == s[q]);
            }
        },
        None => {
            assert forall|j: int| 0 <= j < s.len() implies s[j].item != item by {
                if s[j].item == item {
                    assert forall|m: int| 0 <= m < j implies s[m].item != item by {
                        assert(s[m].item != s[j].item);
                    }
                    assert(is_first_index(s, item, j));
                }
            }
            assert(u[s.len() as int] == x);
            assert forall|a: int, b: int|
                0 <= a < u.len() && 0 <= b < u.len() && a != b implies #[trigger] u[a].item
                != #[trigger] u[b].item by {
                if a < s.len() && b < s.len() {
                    assert(s[a].item != s[b].item);
                }
            }
            assert forall|q: int| 0 <= q < u.len() && u[q].item != item implies s.contains(u[q]) by {
                assert(u[q] == s[q]);
            }
            assert forall|q: int| 0 <= q < s.len() && s[q].item != item implies u.contains(s[q]) by {
                assert(u[q] == s[q]);
            }
        },
    }
}


/// Setting a count keeps the stacks well formed: all counts positive, no item twice.
pub proof fn law_set_keeps_wf(s: Seq<ItemStack>, item: Item, count: i32)
    requires
        stacks_wf(s),
    ensures
        stacks_wf(set_count(s, item, count)),
{
    lemma_set_updated(s, item, count);
    let u = set_updated(s, item, count);
    lemma_keep_positive_distinct(u);
    let t = keep_positive(u);
    assert forall|m: int| 0 <= m < t.len() implies #[trigger] t[m].count > 0 by {
        lemma_keep_positive_elements(u, m);
    }
}

/// After the count of an item is set, a lookup of that item reads the new count,
/// or 0 when the new count is not positive.
pub proof fn law_get_after_set(s: Seq<ItemStack>, item: Item, count: i32)
    requires
        stacks_wf(s),
    ensures
        count_of(set_count(s, item, count), item) == if count > 0 {
            count as int
        } else {
            0
        },
{
    lemma_set_updated(s, item, count);
    let u = set_updated(s, item, count);
    let x = ItemStack { item, count };
    let p = choose|p: int| 0 <= p < u.len() && u[p] == x;
    let t = keep_positive(u);
    if count > 0 {
        assert forall|q: int| 0 <= q < u.len() implies #[trigger] u[q].count > 0 by {
            if u[q].item == item {
                if q != p {
                    assert(u[q].item != u[p].item);
                }
            }
        }
        lemma_keep_positive_all(u);
        lemma_count_distinct(u, item, p);
    } else {
        assert forall|m: int| 0 <= m < t.len() implies t[m].item != item by {
            lemma_keep_positive_elements(u, m);
            let q = choose|q: int| 0 <= q < u.len() && u[q] == t[m];
            if t[m].item == item {
                if q != p {
                    assert(u[q].item != u[p].item);
                }
            }
        }
        lemma_first_index_none(t, item);
    }
}

/// Setting the count of one item leaves the count of every other item unchanged.
pub proof fn law_set_leaves_others(s: Seq<ItemStack>, item: Item, count: i32, other: Item)
    requires
        stacks_wf(s),
        other != item,
    ensures
        count_of(set_count(s, item, count), other) == count_of(s, other),
{
    lemma_set_updated(s, item, count);
    let u = set_updated(s, item, count);
    lemma_keep_positive_distinct(u);
    let t = keep_positive(u);
    if exists|q: int| 0 <= q < s.len() && s[q].item == other {
        let q = choose|q: int| 0 <= q < s.len() && s[q].item == other;
        assert(items_distinct(s));
        lemma_count_distinct(s, other, q);
        assert(u.contains(s[q]));
        let q2 = choose|q2: int| 0 <= q2 < u.len() && u[q2] == s[q];
        u.lemma_filter_contains(|st: ItemStack| st.count > 0, q2);
        let m = choose|m: int| 0 <= m < t.len() && t[m] == s[q];
        lemma_count_distinct(t, other, m);
    } else {
        assert forall|m: int| 0 <= m < t.len() implies t[m].item != other by {
            lemma_keep_positive_elements(u, m);
            let q = choose|q: int| 0 <= q < u.len() && u[q] == t[m];
            if t[m].item == other {
                assert(s.contains(u[q]));
            }
        }
        lemma_first_index_none(t, other);
        lemma_first_index_none(s, other);
    }
}

/// Adding a positive amount of an item and then removing the same amount gives
/// back the stacks as they were.
pub proof fn law_add_then_remove(s: Seq<ItemStack>, item: Item, n: i32)
    requires
        stacks_wf(s),
        n > 0,
        add_fits(s, item, n),
    ensures
        remove_count(add_count(s, item, n), item, n) == s,
{
    let c = count_of(s, item);
    let a = add_count(s, item, n);
    law_get_after_set(s, item, (c + n) as i32);
    match first_index(s, item) {
        Some(k) => {
            assert(is_first_index(s, item, k));
            assert(c > 0);
            let u1 = s.update(k, ItemStack { item, count: (c + n) as i32 });
            assert forall|q: int| 0 <= q < u1.len() implies #[trigger] u1[q].count > 0 by {}
            lemma_keep_positive_all(u1);
            assert(a == u1);
            assert forall|j: int| 0 <= j < k implies u1[j].item != item by {}
            lemma_first_index_is(u1, item, k);
            let u2 = u1.update(k, ItemStack { item, count: c as i32 });
            assert(u2 =~= s);
            lemma_keep_positive_all(s);
        },
        None => {
            let u1 = s.push(ItemStack { item, count: n });
            assert forall|q: int| 0 <= q < u1.len() implies #[trigger] u1[q].count > 0 by {}
            lemma_keep_positive_all(u1);
            assert(a == u1);
            assert forall|j: int| 0 <= j < s.len() implies u1[j].item != item by {
                if u1[j].item == item {
                    assert forall|m: int| 0 <= m < j implies s[m].item != item by {
                        assert(s[m].item != s[j].item);
                    }
                    assert(is_first_index(s, item, j));
                }
            }
            lemma_first_index_is(u1, item, s.len() as int);
            let u2 = u1.update(s.len() as int, ItemStack { item, count: 0 });
            reveal_with_fuel(Seq::filter, 1);
            assert(u2.drop_last() =~= s);
            lemma_keep_positive_all(s);
        },
    }
}


/// In well-formed stacks no count read is negative.
pub proof fn lemma_count_not_negative(s: Seq<ItemStack>, item: Item)
    requires
        stacks_wf(s),
    ensures
        count_of(s, item) >= 0,
{
    if let Some(i) = first_index(s, item) {
        assert(is_first_index(s, item, i));
    }
}

/// Adding a non-negative amount of an item to well-formed stacks raises its
/// count by exactly that amount, keeps every other count, and keeps the stacks
/// well formed.
pub proof fn law_add_increases(s: Seq<ItemStack>, item: Item, n: i32, other: Item)
    requires
        stacks_wf(s),
        n >= 0,
        add_fits(s, item, n),
    ensures
        count_of(add_count(s, item, n), item) == count_of(s, item) + n,
        other != item ==> count_of(add_count(s, item, n), other) == count_of(s, other),
        stacks_wf(add_count(s, item, n)),
{
    lemma_count_not_negative(s, item);
    if n != 0 {
        let c = (count_of(s, item) + n) as i32;
        law_get_after_set(s, item, c);
        law_set_keeps_wf(s, item, c);
        if other != item {
            law_set_leaves_others(s, item, c, other);
        }
    }
}

/// Removing a held, non-negative amount of an item from well-formed stacks
/// lowers its count by exactly that amount, keeps every other count, and keeps
/// the stacks well formed.
pub proof fn law_remove_decreases(s: Seq<ItemStack>, item: Item, n: i32, other: Item)
    requires
        stacks_wf(s),
        n >= 0,
        has_count(s, item, n),
    ensures
        count_of(remove_count(s, item, n), item) == count_of(s, item) - n,
        other != item ==> count_of(remove_count(s, item, n), other) == count_of(s, other),
        stacks_wf(remove_count(s, item, n)),
{
    let c = (count_of(s, item) - n) as i32;
    law_get_after_set(s, item, c);
    law_set_keeps_wf(s, item, c);
    if other != item {
        law_set_leaves_others(s, item, c, other);
    }
}

} // verus!
