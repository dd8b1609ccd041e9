use vstd::prelude::*;

verus! {

/// A chunk of the world, by its x and z chunk coordinates.
pub type ChunkPos = (i32, i32);

/// The chunk map of entities, by chunk, as sets of entity ids.
pub open spec fn chunk_view(m: Map<ChunkPos, fxhash::FxHashSet<u64>>) -> Map<ChunkPos, Set<u64>> {
    m.map_values(|s: fxhash::FxHashSet<u64>| s@)
}

/// Whether chunk `k` holds entity `e`.
pub open spec fn chunk_has(v: Map<ChunkPos, Set<u64>>, k: ChunkPos, e: u64) -> bool {
    v.contains_key(k) && v[k].contains(e)
}

/// Whether `e` lies in a chunk at offset (`dx`, `dz`) from `c`, with both
/// offsets between `-r` and `r`, that comes before offset (`x`, `z`) in the
/// order of a scan over x, then z.
pub open spec fn seen_before(v: Map<ChunkPos, Set<u64>>, c: ChunkPos, r: int, x: int, z: int, e: u64) -> bool {
    exists|dx: int, dz: int|
        -r <= dx <= r && -r <= dz <= r && (dx < x || (dx == x && dz < z)) && #[trigger] chunk_has(
            v,
            ((c.0 + dx) as i32, (c.1 + dz) as i32),
            e,
        )
}

/// The entities in the square of chunks around `c` with half side `r`.
pub open spec fn entities_around(v: Map<ChunkPos, Set<u64>>, c: ChunkPos, r: int) -> Set<u64> {
    Set::new(|e: u64| seen_before(v, c, r, r + 1, -r, e))
}

/// Looks up entities by the chunk they are in.
pub struct ChunkIndex {
    entities: fxhash::FxHashMap<ChunkPos, fxhash::FxHashSet<u64>>,
}

impl Default for ChunkIndex {
    /// An index without entities.
    fn default() -> (r: ChunkIndex)
        ensures
            r@ == Map::<ChunkPos, Set<u64>>::empty(),
    {
        let r = ChunkIndex { entities: fxhash::FxHashMap::default() };
        assert(r@ =~= Map::<ChunkPos, Set<u64>>::empty());
        r
    }
}

impl ChunkIndex {
    /// The entities of each chunk that holds any.
    pub closed spec fn view(&self) -> Map<ChunkPos, Set<u64>> {
        chunk_view(self.entities@)
    }

    /// Records that `entity` is in chunk `chunk`.
    pub fn add(&mut self, chunk: ChunkPos, entity: u64)
        ensures
            final(self)@ == old(self)@.insert(
                chunk,
                if old(self)@.contains_key(chunk) {
                    old(self)@[chunk]
                } else {
                    Set::<u64>::empty()
                }.insert(entity),
            ),
    {
        let mut set = match chunk_map_remove(&mut self.entities, &chunk) {
            Some(s) => s,
            None => fxhash::FxHashSet::default(),
        };
        entity_set_insert(&mut set, entity);
        chunk_map_insert(&mut self.entities, chunk, set);
        assert(self@ =~= old(self)@.insert(
            chunk,
            if old(self)@.contains_key(chunk) {
                old(self)@[chunk]
            } else {
                Set::<u64>::empty()
            }.insert(entity),
        ));
    }

    /// The entities in chunk `chunk`, if any were recorded there.
    pub fn get(&self, chunk: ChunkPos) -> (r: Option<&fxhash::FxHashSet<u64>>)
        ensures
            match r {
                Some(s) => self@.contains_key(chunk) && s@ == self@[chunk],
                None => !self@.contains_key(chunk),
            },
    {
        chunk_map_get(&self.entities, &chunk)
    }

    /// The entities in the square of chunks around `chunk` with half side
    /// `radius`, in chunks.
    pub fn get_radius(&self, chunk: ChunkPos, radius: i32) -> (r: fxhash::FxHashSet<u64>)
        requires
            radius > i32::MIN,
            i32::MIN <= chunk.0 - radius,
            chunk.0 + radius <= i32::MAX,
            i32::MIN <= chunk.1 - radius,
            chunk.1 + radius <= i32::MAX,
        ensures
            r@ == entities_around(self@, chunk, radius as int),
    {
        let ghost v = self@;
        let ghost rr = radius as int;
        let mut set: fxhash::FxHashSet<u64> = fxhash::FxHashSet::default();
        if radius < 0 {
            assert(set@ =~= entities_around(v, chunk, rr));
            return set;
        }
        let r64 = radius as i64;
        let mut x: i64 = -r64;
        assert(set@ =~= Set::new(|e: u64| seen_before(v, chunk, rr, x as int, -rr, e)));
        while x <= r64
            invariant
                0 <= radius,
                r64 == radius,
                v == self@,
                rr == radius,
                -radius <= x <= radius + 1,
                i32::MIN <= chunk.0 - radius,
                chunk.0 + radius <= i32::MAX,
                i32::MIN <= chunk.1 - radius,
                chunk.1 + radius <= i32::MAX,
                set@ == Set::new(|e: u64| seen_before(v, chunk, rr, x as int, -rr, e)),
            decreases r64 + 1 - x,
        {
            let mut z: i64 = -r64;
            while z <= r64
                invariant
                    0 <= radius,
                    r64 == radius,
                    v == self@,
                    rr == radius,
                    -radius <= x <= radius,
                    -radius <= z <= radius + 1,
                    i32::MIN <= chunk.0 - radius,
                    chunk.0 + radius <= i32::MAX,
                    i32::MIN <= chunk.1 - radius,
                    chunk.1 + radius <= i32::MAX,
                    set@ == Set::new(|e: u64| seen_before(v, chunk, rr, x as int, z as int, e)),
                decreases r64 + 1 - z,
            {
                let key: ChunkPos = ((chunk.0 as i64 + x) as i32, (chunk.1 as i64 + z) as i32);
                let ghost before = set@;
                match self.get(key) {
                    Some(s) => {
                        entity_set_extend(&mut set, s);
                    },
                    None => {},
                }
                proof {
                    lemma_scan_step(v, chunk, rr, x as int, z as int, before, set@);
                }
                z = z + 1;
            }
            proof {
                lemma_scan_row(v, chunk, rr, x as int);
            }
            x = x + 1;
        }
        proof {
            assert(set@ =~= entities_around(v, chunk, rr));
        }
        set
    }
}

/// Scanning one more chunk adds exactly that chunk's entities.
proof fn lemma_scan_step(
    v: Map<ChunkPos, Set<u64>>,
    c: ChunkPos,
    r: int,
    x: int,
    z: int,
    before: Set<u64>,
    after: Set<u64>,
)
    requires
        -r <= x <= r,
        -r <= z <= r,
        before == Set::new(|e: u64| seen_before(v, c, r, x, z, e)),
        forall|e: u64| after.contains(e) <==> before.contains(e) || chunk_has(v, ((c.0 + x) as i32, (c.1 + z) as i32), e),
    ensures
        after == Set::new(|e: u64| seen_before(v, c, r, x, z + 1, e)),
{
    assert forall|e: u64| #[trigger] after.contains(e) <==> seen_before(v, c, r, x, z + 1, e) by {
        if after.contains(e) {
            if !before.contains(e) {
                assert(chunk_has(v, ((c.0 + x) as i32, (c.1 + z) as i32), e));
            }
        }
        if seen_before(v, c, r, x, z + 1, e) {
            let (dx, dz) = choose|dx: int, dz: int|
                -r <= dx <= r && -r <= dz <= r && (dx < x || (dx == x && dz < z + 1)) && #[trigger] chunk_has(
                    v,
                    ((c.0 + dx) as i32, (c.1 + dz) as i32),
                    e,
                );
            if dx < x || dz < z {
                assert(seen_before(v, c, r, x, z, e));
            }
        }
    }
    assert(after =~= Set::new(|e: u64| seen_before(v, c, r, x, z + 1, e)));
}

/// A finished row of the scan is the start of the next row.
proof fn lemma_scan_row(v: Map<ChunkPos, Set<u64>>, c: ChunkPos, r: int, x: int)
    ensures
        Set::new(|e: u64| seen_before(v, c, r, x, r + 1, e)) == Set::new(
            |e: u64| seen_before(v, c, r, x + 1, -r, e),
        ),
{
    assert forall|e: u64| #[trigger] seen_before(v, c, r, x, r + 1, e) <==> seen_before(v, c, r, x + 1, -r, e) by {
        if seen_before(v, c, r, x, r + 1, e) {
            let (dx, dz) = choose|dx: int, dz: int|
                -r <= dx <= r && -r <= dz <= r && (dx < x || (dx == x && dz < r + 1)) && #[trigger] chunk_has(
                    v,
                    ((c.0 + dx) as i32, (c.1 + dz) as i32),
                    e,
                );
            assert(dx < x + 1);
        }
        if seen_before(v, c, r, x + 1, -r, e) {
            let (dx, dz) = choose|dx: int, dz: int|
                -r <= dx <= r && -r <= dz <= r && (dx < x + 1 || (dx == x + 1 && dz < -r)) && #[trigger] chunk_has(
                    v,
                    ((c.0 + dx) as i32, (c.1 + dz) as i32),
                    e,
                );
            assert(dx < x || (dx == x && dz < r + 1));
        }
    }
    assert(Set::new(|e: u64| seen_before(v, c, r, x, r + 1, e)) =~= Set::new(
        |e: u64| seen_before(v, c, r, x + 1, -r, e),
    ));
}

/// The entities around a chunk include those of every chunk within the radius.
pub proof fn law_radius_covers_chunks(v: Map<ChunkPos, Set<u64>>, c: ChunkPos, r: int, dx: int, dz: int, e: u64)
    requires
        -r <= dx <= r,
        -r <= dz <= r,
        chunk_has(v, ((c.0 + dx) as i32, (c.1 + dz) as i32), e),
    ensures
        entities_around(v, c, r).contains(e),
{
    assert(seen_before(v, c, r, r + 1, -r, e));
}

/// The entities around a chunk, with a radius that is not negative, include
/// those of the chunk itself.
pub proof fn law_radius_covers_center(v: Map<ChunkPos, Set<u64>>, c: ChunkPos, r: int, e: u64)
    requires
        r >= 0,
        chunk_has(v, c, e),
    ensures
        entities_around(v, c, r).contains(e),
{
    assert(((c.0 + 0) as i32, (c.1 + 0) as i32) == c);
    law_radius_covers_chunks(v, c, r, 0, 0, e);
}

/// Calls `HashMap::remove` on the chunk map, hashed with `fxhash`'s
/// `FxHasher`. Stated: the entry of `k` is gone afterwards, and the result is
/// the set it held, if any.
#[verifier::external_body]
fn chunk_map_remove(
    m: &mut fxhash::FxHashMap<ChunkPos, fxhash::FxHashSet<u64>>,
    k: &ChunkPos,
) -> (r: Option<fxhash::FxHashSet<u64>>)
    ensures
        final(m)@ == old(m)@.remove(*k),
        match r {
            Some(s) => old(m)@.contains_key(*k) && s == old(m)@[*k],
            None => !old(m)@.contains_key(*k),
        },
{
    m.remove(k)
}

/// Calls `HashMap::insert` on the chunk map, hashed with `fxhash`'s
/// `FxHasher`. Stated: `k` maps to `v` afterwards and other entries are
/// unchanged.
#[verifier::external_body]
fn chunk_map_insert(
    m: &mut fxhash::FxHashMap<ChunkPos, fxhash::FxHashSet<u64>>,
    k: ChunkPos,
    v: fxhash::FxHashSet<u64>,
)
    ensures
        final(m)@ == old(m)@.insert(k, v),
{
    m.insert(k, v);
}

/// Calls `HashMap::get` on the chunk map, hashed with `fxhash`'s `FxHasher`.
/// Stated: the result is the set that `k` maps to, if any.
#[verifier::external_body]
fn chunk_map_get<'a>(
    m: &'a fxhash::FxHashMap<ChunkPos, fxhash::FxHashSet<u64>>,
    k: &ChunkPos,
) -> (r: Option<&'a fxhash::FxHashSet<u64>>)
    ensures
        match r {
            Some(s) => m@.contains_key(*k) && *s == m@[*k],
            None => !m@.contains_key(*k),
        },
{
    m.get(k)
}

/// Calls `HashSet::insert` on a set of entity ids hashed with `fxhash`'s
/// `FxHasher`. Stated: the set gains `e`.
#[verifier::external_body]
fn entity_set_insert(s: &mut fxhash::FxHashSet<u64>, e: u64)
    ensures
        final(s)@ == old(s)@.insert(e),
{
    s.insert(e);
}

/// Calls `Extend::extend` of a set of entity ids hashed with `fxhash`'s
/// `FxHasher` with the ids of another such set. Stated: the set becomes the
/// union of both.
#[verifier::external_body]
fn entity_set_extend(dst: &mut fxhash::FxHashSet<u64>, src: &fxhash::FxHashSet<u64>)
    ensures
        final(dst)@ == old(dst)@.union(src@),
{
    dst.extend(src);
}

} // verus!
