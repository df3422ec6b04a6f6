//! An index from tile positions to the entities there: at most one tile
//! entity and any number of object entities per position. Entities are
//! identified by their id.
use vstd::prelude::*;

verus! {

/// The position of a tile: the layer entity it belongs to and its
/// coordinates in that layer.
#[derive(Debug, Clone, Copy, PartialEq, Eq, Hash, Default, Structural)]
pub struct TilePosition {
    pub layer: u64,
    pub x: i32,
    pub y: i32,
}

impl TilePosition {
    pub fn new(layer: u64, x: i32, y: i32) -> (r: TilePosition)
        ensures
            r == (TilePosition { layer, x, y }),
    {
        TilePosition { layer, x, y }
    }
}

/// The entities at one position.
#[derive(Debug)]
struct TileIndexValue {
    objects: Vec<u64>,
    tile: Option<u64>,
}

impl TileIndexValue {
    fn copy(&self) -> (r: TileIndexValue)
        ensures
            r.objects@ == self.objects@,
            r.tile == self.tile,
    {
        let objects = self.objects.clone();
        assert(objects@ =~= self.objects@);
        TileIndexValue { objects, tile: self.tile }
    }
}

/// What the index holds at one position: the object entities in index
/// order, and the tile entity if there is one.
pub struct TileEntities {
    pub objects: Seq<u64>,
    pub tile: Option<u64>,
}

/// For each position with an entity, the entities there.
#[derive(Debug)]
pub struct TileIndex {
    index: Vec<(TilePosition, TileIndexValue)>,
}

/// The objects at `e`, with the first occurrence of `id` taken out by moving
/// the last object into its place.
pub open spec fn objects_without(objects: Seq<u64>, id: u64) -> Seq<u64> {
    if objects.contains(id) {
        let pos = choose|i: int|
            0 <= i < objects.len() && objects[i] == id && forall|j: int|
                0 <= j < i ==> objects[j] != id;
        objects.update(pos, objects.last()).drop_last()
    } else {
        objects
    }
}

/// The index with the entry of `tile` set to `e`, or removed where `e` holds
/// no entity.
pub open spec fn with_entry(
    m: Map<TilePosition, TileEntities>,
    tile: TilePosition,
    e: TileEntities,
) -> Map<TilePosition, TileEntities> {
    if e.objects.len() == 0 && e.tile is None {
        m.remove(tile)
    } else {
        m.insert(tile, e)
    }
}

/// The index of the first occurrence of `id` in `v`, if any.
fn first_position(v: &Vec<u64>, id: u64) -> (r: Option<usize>)
    ensures
        match r {
            Some(p) => p < v@.len() && v@[p as int] == id && forall|j: int| 0 <= j < p ==> v@[j] != id,
            None => !v@.contains(id),
        },
{
    let mut pos: usize = 0;
    while pos < v.len()
        invariant
            pos <= v@.len(),
            forall|j: int| 0 <= j < pos ==> v@[j] != id,
        decreases v@.len() - pos,
    {
        if v[pos] == id {
            return Some(pos);
        }
        pos = pos + 1;
    }
    None
}

/// Taking `id` out of `objects` moves the last object into the place of its
/// first occurrence.
proof fn lemma_objects_without_first(objects: Seq<u64>, id: u64, p: int)
    requires
        0 <= p < objects.len(),
        objects[p] == id,
        forall|j: int| 0 <= j < p ==> objects[j] != id,
    ensures
        objects_without(objects, id) == objects.update(p, objects.last()).drop_last(),
{
    assert(objects.contains(id));
    let chosen = choose|k: int|
        0 <= k < objects.len() && objects[k] == id && forall|j: int| 0 <= j < k ==> objects[j] != id;
    assert(chosen == p) by {
        if chosen < p {
            assert(objects[chosen] != id);
        } else if chosen > p {
            assert(objects[p] != id);
        }
    }
}

/// The entities at `tile` in `m`: none where `m` has no entry for it.
pub open spec fn entities_in(m: Map<TilePosition, TileEntities>, tile: TilePosition) -> TileEntities {
    if m.dom().contains(tile) {
        m[tile]
    } else {
        TileEntities { objects: Seq::empty(), tile: None }
    }
}

/// No entry of `m` is without entities.
pub open spec fn no_empty_entries(m: Map<TilePosition, TileEntities>) -> bool {
    forall|p: TilePosition| #[trigger] m.dom().contains(p) ==> m[p].objects.len() > 0 || m[p].tile is Some
}

/// `m` after the object entity `id` is recorded at `tile`.
pub open spec fn object_inserted(m: Map<TilePosition, TileEntities>, id: u64, tile: TilePosition) -> Map<TilePosition, TileEntities> {
    m.insert(
        tile,
        TileEntities { objects: entities_in(m, tile).objects.push(id), tile: entities_in(m, tile).tile },
    )
}

/// `m` after the tile entity `id` is recorded at `tile`.
pub open spec fn tile_inserted(m: Map<TilePosition, TileEntities>, id: u64, tile: TilePosition) -> Map<TilePosition, TileEntities> {
    m.insert(tile, TileEntities { objects: entities_in(m, tile).objects, tile: Some(id) })
}

/// `m` after the object entity `id` is taken out of `tile`.
pub open spec fn object_removed(m: Map<TilePosition, TileEntities>, id: u64, tile: TilePosition) -> Map<TilePosition, TileEntities> {
    if m.dom().contains(tile) {
        with_entry(
            m,
            tile,
            TileEntities { objects: objects_without(m[tile].objects, id), tile: m[tile].tile },
        )
    } else {
        m
    }
}

/// `m` after the tile entity at `tile` is taken out if it is `id`.
pub open spec fn tile_removed(m: Map<TilePosition, TileEntities>, id: u64, tile: TilePosition) -> Map<TilePosition, TileEntities> {
    if m.dom().contains(tile) {
        with_entry(
            m,
            tile,
            TileEntities {
                objects: m[tile].objects,
                tile: if m[tile].tile == Some(id) {
                    None
                } else {
                    m[tile].tile
                },
            },
        )
    } else {
        m
    }
}

impl TileIndex {
    /// No position is listed twice, and no listed position is without
    /// entities.
    pub closed spec fn wf(self) -> bool {
        &&& forall|i: int, j: int|
            0 <= i < j < self.index@.len() ==> #[trigger] self.index@[i].0 != #[trigger] self.index@[j].0
        &&& forall|i: int|
            0 <= i < self.index@.len() ==> (#[trigger] self.index@[i]).1.objects@.len() > 0
                || self.index@[i].1.tile is Some
    }

    /// The entities at each position that has any.
    pub closed spec fn view(self) -> Map<TilePosition, TileEntities> {
        Map::new(
            |p: TilePosition| exists|i: int| 0 <= i < self.index@.len() && self.index@[i].0 == p,
            |p: TilePosition| {
                let i = choose|i: int| 0 <= i < self.index@.len() && self.index@[i].0 == p;
                TileEntities { objects: self.index@[i].1.objects@, tile: self.index@[i].1.tile }
            },
        )
    }

    /// The entities at `tile`: none where the index has no entry for it.
    pub open spec fn entities_at(self, tile: TilePosition) -> TileEntities {
        entities_in(self@, tile)
    }

    /// The view of a well-formed index has no entry without entities.
    pub proof fn lemma_view_has_no_empty_entries(&self)
        requires
            self.wf(),
        ensures
            no_empty_entries(self@),
    {
        assert forall|p: TilePosition| #[trigger] self@.dom().contains(p) implies self@[p].objects.len() > 0 || self@[p].tile is Some by {
            let i = choose|i: int| 0 <= i < self.index@.len() && self.index@[i].0 == p;
            assert(self.index@[i].1.objects@.len() > 0 || self.index@[i].1.tile is Some);
        }
    }

    pub fn new() -> (r: TileIndex)
        ensures
            r.wf(),
            r@ == Map::<TilePosition, TileEntities>::empty(),
    {
        let r = TileIndex { index: Vec::new() };
        assert(r@ =~= Map::<TilePosition, TileEntities>::empty());
        r
    }

    fn find(&self, tile: TilePosition) -> (r: Option<usize>)
        requires
            self.wf(),
        ensures
            match r {
                Some(i) => i < self.index@.len() && self.index@[i as int].0 == tile,
                None => !self@.dom().contains(tile),
            },
            r is Some <==> self@.dom().contains(tile),
            r matches Some(i) ==> self@[tile] == (TileEntities {
                objects: self.index@[i as int].1.objects@,
                tile: self.index@[i as int].1.tile,
            }),
    {
        let mut i: usize = 0;
        while i < self.index.len()
            invariant
                self.wf(),
                i <= self.index@.len(),
                forall|j: int| 0 <= j < i ==> self.index@[j].0 != tile,
            decreases self.index@.len() - i,
        {
            if self.index[i].0 == tile {
                assert(self@.dom().contains(tile));
                let ghost k = choose|k: int| 0 <= k < self.index@.len() && self.index@[k].0 == tile;
                assert(k == i as int) by {
                    if k != i as int {
                        if k < i as int {
                            assert(self.index@[k].0 != tile);
                        } else {
                            assert(self.index@[i as int].0 != self.index@[k].0);
                        }
                    }
                }
                return Some(i);
            }
            i = i + 1;
        }
        None
    }

    /// Replaces the entities at position `i` by `value`, or drops the entry
    /// where `value` holds no entity.
    fn store(&mut self, i: usize, value: TileIndexValue)
        requires
            old(self).wf(),
            i < old(self).index@.len(),
        ensures
            final(self).wf(),
            final(self)@ == with_entry(
                old(self)@,
                old(self).index@[i as int].0,
                TileEntities { objects: value.objects@, tile: value.tile },
            ),
    {
        let ghost old_index = self.index@;
        let ghost tile = self.index@[i as int].0;
        let ghost e = TileEntities { objects: value.objects@, tile: value.tile };
        if value.objects.len() == 0 && value.tile.is_none() {
            self.index.swap_remove(i);
            assert(self.wf()) by {
                assert forall|a: int, b: int|
                    0 <= a < b < self.index@.len() implies #[trigger] self.index@[a].0
                    != #[trigger] self.index@[b].0 by {
                    let n = old_index.len() - 1;
                    let a0 = if a == i { n } else { a };
                    let b0 = if b == i { n } else { b };
                    assert(self.index@[a] == old_index[a0]);
                    assert(self.index@[b] == old_index[b0]);
                }
                assert forall|a: int| 0 <= a < self.index@.len() implies (#[trigger] self.index@[a]).1.objects@.len() > 0
                    || self.index@[a].1.tile is Some by {
                    let n = old_index.len() - 1;
                    let a0 = if a == i { n } else { a };
                    assert(self.index@[a] == old_index[a0]);
                }
            }
            assert(self@ =~= old(self)@.remove(tile)) by {
                assert forall|p: TilePosition| #[trigger] self@.dom().contains(p) <==> old(self)@.remove(tile).dom().contains(p) by {
                    let n = old_index.len() - 1;
                    if self@.dom().contains(p) {
                        let a = choose|a: int| 0 <= a < self.index@.len() && self.index@[a].0 == p;
                        let a0 = if a == i { n } else { a };
                        assert(self.index@[a] == old_index[a0]);
                        assert(a0 != i);
                    }
                    if old(self)@.remove(tile).dom().contains(p) {
                        let a = choose|a: int| 0 <= a < old_index.len() && old_index[a].0 == p;
                        assert(a != i);
                        let a1 = if a == n { i as int } else { a };
                        assert(self.index@[a1] == old_index[a]);
                    }
                }
                assert forall|p: TilePosition| #[trigger] self@.dom().contains(p) implies self@[p] == old(self)@.remove(tile)[p] by {
                    let n = old_index.len() - 1;
                    let a = choose|a: int| 0 <= a < self.index@.len() && self.index@[a].0 == p;
                    let a0 = if a == i { n } else { a };
                    assert(self.index@[a] == old_index[a0]);
                    let b = choose|b: int| 0 <= b < old_index.len() && old_index[b].0 == p;
                    assert(b == a0) by {
                        if b != a0 {
                            if b < a0 {
                                assert(old_index[b].0 != old_index[a0].0);
                            } else {
                                assert(old_index[a0].0 != old_index[b].0);
                            }
                        }
                    }
                }
            }
        } else {
            let position = self.index[i].0;
            self.index.set(i, (position, value));
            assert(self@ =~= old(self)@.insert(tile, e)) by {
                assert forall|p: TilePosition| #[trigger] self@.dom().contains(p) <==> old(self)@.insert(tile, e).dom().contains(p) by {
                    if self@.dom().contains(p) {
                        let a = choose|a: int| 0 <= a < self.index@.len() && self.index@[a].0 == p;
                        assert(self.index@[a].0 == old_index[a].0);
                    }
                    if old(self)@.dom().contains(p) {
                        let a = choose|a: int| 0 <= a < old_index.len() && old_index[a].0 == p;
                        assert(self.index@[a].0 == old_index[a].0);
                    }
                    if p == tile {
                        assert(self.index@[i as int].0 == tile);
                    }
                }
                assert forall|p: TilePosition| #[trigger] self@.dom().contains(p) implies self@[p] == old(self)@.insert(tile, e)[p] by {
                    let a = choose|a: int| 0 <= a < self.index@.len() && self.index@[a].0 == p;
                    let b = choose|b: int| 0 <= b < old_index.len() && old_index[b].0 == p;
                    assert(self.index@[a].0 == old_index[a].0);
                    assert(a == b) by {
                        if a != b {
                            if a < b {
                                assert(old_index[a].0 != old_index[b].0);
                            } else {
                                assert(old_index[b].0 != old_index[a].0);
                            }
                        }
                    }
                    if p == tile {
                        assert(a == i) by {
                            if a != i {
                                if a < i {
                                    assert(old_index[a].0 != old_index[i as int].0);
                                } else {
                                    assert(old_index[i as int].0 != old_index[a].0);
                                }
                            }
                        }
                    }
                }
            }
        }
    }

    /// Appends a new entry for `tile`, which the index does not hold yet.
    fn push_entry(&mut self, tile: TilePosition, value: TileIndexValue)
        requires
            old(self).wf(),
            !old(self)@.dom().contains(tile),
            value.objects@.len() > 0 || value.tile is Some,
        ensures
            final(self).wf(),
            final(self)@ == old(self)@.insert(
                tile,
                TileEntities { objects: value.objects@, tile: value.tile },
            ),
    {
        let ghost old_index = self.index@;
        let ghost e = TileEntities { objects: value.objects@, tile: value.tile };
        self.index.push((tile, value));
        let ghost n = old_index.len() as int;
        assert(self.index@[n].0 == tile);
        assert(forall|a: int| 0 <= a < n ==> old_index[a].0 != tile);
        assert(self@ =~= old(self)@.insert(tile, e)) by {
            assert forall|p: TilePosition| #[trigger] self@.dom().contains(p) <==> old(self)@.insert(tile, e).dom().contains(p) by {
                if old(self)@.dom().contains(p) {
                    let a = choose|a: int| 0 <= a < old_index.len() && old_index[a].0 == p;
                    assert(self.index@[a].0 == p);
                }
            }
            assert forall|p: TilePosition| #[trigger] self@.dom().contains(p) implies self@[p] == old(self)@.insert(tile, e)[p] by {
                let a = choose|a: int| 0 <= a < self.index@.len() && self.index@[a].0 == p;
                if p != tile {
                    assert(a < n);
                    let b = choose|b: int| 0 <= b < old_index.len() && old_index[b].0 == p;
                    assert(a == b) by {
                        if a != b {
                            if a < b {
                                assert(old_index[a].0 != old_index[b].0);
                            } else {
                                assert(old_index[b].0 != old_index[a].0);
                            }
                        }
                    }
                } else {
                    assert(a == n);
                }
            }
        }
    }

    /// Records the object entity `id` at `tile`.
    pub fn insert_object(&mut self, id: u64, tile: TilePosition)
        requires
            old(self).wf(),
        ensures
            final(self).wf(),
            final(self)@ == object_inserted(old(self)@, id, tile),
    {
        match self.find(tile) {
            Some(i) => {
                let mut value = self.index[i].1.copy();
                value.objects.push(id);
                self.store(i, value);
            },
            None => {
                let mut objects = Vec::new();
                objects.push(id);
                self.push_entry(tile, TileIndexValue { objects, tile: None });
            },
        }
    }

    /// Records the tile entity `id` at `tile`, returning the tile entity it
    /// replaces, if any.
    pub fn insert_tile(&mut self, id: u64, tile: TilePosition) -> (r: Option<u64>)
        requires
            old(self).wf(),
        ensures
            final(self).wf(),
            r == old(self).entities_at(tile).tile,
            final(self)@ == tile_inserted(old(self)@, id, tile),
    {
        match self.find(tile) {
            Some(i) => {
                let mut value = self.index[i].1.copy();
                let prev = value.tile;
                value.tile = Some(id);
                self.store(i, value);
                prev
            },
            None => {
                self.push_entry(tile, TileIndexValue { objects: Vec::new(), tile: Some(id) });
                None
            },
        }
    }

    /// Removes the object entity `id` from `tile`: its first occurrence is
    /// replaced by the last object. The entry of `tile` is dropped once it
    /// holds no entity.
    pub fn remove_object(&mut self, id: u64, tile: TilePosition)
        requires
            old(self).wf(),
        ensures
            final(self).wf(),
            final(self)@ == object_removed(old(self)@, id, tile),
            final(self).entities_at(tile).objects.to_multiset() == old(self).entities_at(
                tile,
            ).objects.to_multiset().remove(id),
            final(self).entities_at(tile).tile == old(self).entities_at(tile).tile,
            forall|p: TilePosition|
                p != tile ==> #[trigger] final(self).entities_at(p) == old(self).entities_at(p),
    {
        proof {
            lemma_remove_object(self@, id, tile);
        }
        if let Some(i) = self.find(tile) {
            let mut value = self.index[i].1.copy();
            let ghost objects = value.objects@;
            match first_position(&value.objects, id) {
                Some(pos) => {
                    proof {
                        lemma_objects_without_first(objects, id, pos as int);
                    }
                    value.objects.swap_remove(pos);
                },
                None => {},
            }
            assert(value.objects@ == objects_without(objects, id));
            self.store(i, value);
        }
    }

    /// Removes the tile entity at `tile` if it is `id`. The entry of `tile` is
    /// dropped once it holds no entity.
    pub fn remove_tile(&mut self, id: u64, tile: TilePosition)
        requires
            old(self).wf(),
        ensures
            final(self).wf(),
            final(self)@ == tile_removed(old(self)@, id, tile),
    {
        if let Some(i) = self.find(tile) {
            let mut value = self.index[i].1.copy();
            if value.tile == Some(id) {
                value.tile = None;
            }
            self.store(i, value);
        }
    }

    /// The object entities at `tile`.
    pub fn get_objects(&self, tile: TilePosition) -> (r: &[u64])
        requires
            self.wf(),
        ensures
            r@ == self.entities_at(tile).objects,
    {
        match self.find(tile) {
            Some(i) => self.index[i].1.objects.as_slice(),
            None => &[],
        }
    }

    /// The tile entity at `tile`, if there is one.
    pub fn get_tile(&self, tile: TilePosition) -> (r: Option<u64>)
        requires
            self.wf(),
        ensures
            r == self.entities_at(tile).tile,
    {
        match self.find(tile) {
            Some(i) => self.index[i].1.tile,
            None => None,
        }
    }

    /// Whether the index holds an entry for `tile`.
    pub fn contains(&self, tile: TilePosition) -> (r: bool)
        requires
            self.wf(),
        ensures
            r == self@.dom().contains(tile),
    {
        self.find(tile).is_some()
    }
}

/// Recording a tile entity at a position without one and then removing it
/// leaves the index as it was; while recorded, it is the tile entity there.
pub proof fn lemma_insert_remove_tile(m: Map<TilePosition, TileEntities>, id: u64, tile: TilePosition)
    requires
        no_empty_entries(m),
        entities_in(m, tile).tile is None,
    ensures
        entities_in(tile_inserted(m, id, tile), tile).tile == Some(id),
        tile_removed(tile_inserted(m, id, tile), id, tile) == m,
{
    let m2 = tile_inserted(m, id, tile);
    if m.dom().contains(tile) {
        assert(m[tile].objects.len() > 0);
        assert(tile_removed(m2, id, tile) =~= m.insert(tile, m[tile]));
        assert(m.insert(tile, m[tile]) =~= m);
    } else {
        assert(tile_removed(m2, id, tile) =~= m);
    }
}

/// Recording an object entity at a position where it is not and then
/// removing it leaves the index as it was; while recorded, it is the last
/// object there.
pub proof fn lemma_insert_remove_object(m: Map<TilePosition, TileEntities>, id: u64, tile: TilePosition)
    requires
        no_empty_entries(m),
        !entities_in(m, tile).objects.contains(id),
    ensures
        entities_in(object_inserted(m, id, tile), tile).objects.last() == id,
        object_removed(object_inserted(m, id, tile), id, tile) == m,
{
    let e = entities_in(m, tile);
    let objects = e.objects.push(id);
    let p = e.objects.len() as int;
    assert forall|j: int| 0 <= j < p implies objects[j] != id by {
        assert(e.objects[j] == objects[j]);
    }
    lemma_objects_without_first(objects, id, p);
    assert(objects_without(objects, id) =~= e.objects);
    if m.dom().contains(tile) {
        assert(object_removed(object_inserted(m, id, tile), id, tile) =~= m.insert(tile, m[tile]));
        assert(m.insert(tile, m[tile]) =~= m);
    } else {
        assert(object_removed(object_inserted(m, id, tile), id, tile) =~= m);
    }
}

/// The first occurrence of `id`, searching from `from` on where it does not
/// occur before, and it occurs at `k`.
proof fn lemma_first_occurrence(objects: Seq<u64>, id: u64, from: int, k: int) -> (p: int)
    requires
        0 <= from <= k < objects.len(),
        objects[k] == id,
        forall|j: int| 0 <= j < from ==> objects[j] != id,
    ensures
        0 <= p < objects.len(),
        objects[p] == id,
        forall|j: int| 0 <= j < p ==> objects[j] != id,
    decreases k - from,
{
    if objects[from] == id {
        from
    } else {
        lemma_first_occurrence(objects, id, from + 1, k)
    }
}

/// Taking `id` out of a list of objects takes one occurrence of it out of
/// their multiset, and nothing where it is absent.
pub proof fn lemma_objects_without_multiset(objects: Seq<u64>, id: u64)
    ensures
        objects_without(objects, id).to_multiset() == objects.to_multiset().remove(id),
{
    broadcast use vstd::multiset::group_multiset_axioms;
    broadcast use vstd::multiset::group_multiset_properties;

    if objects.contains(id) {
        let k = choose|k: int| 0 <= k < objects.len() && objects[k] == id;
        let pos = lemma_first_occurrence(objects, id, 0, k);
        lemma_objects_without_first(objects, id, pos);
        let u = objects.update(pos, objects.last());
        vstd::seq_lib::to_multiset_update(objects, pos, objects.last());
        vstd::seq_lib::to_multiset_remove(u, u.len() - 1);
        assert(u.drop_last() =~= u.remove(u.len() - 1));
        assert(u[u.len() - 1] == objects.last());
        assert(objects_without(objects, id).to_multiset() =~= objects.to_multiset().remove(id));
    } else {
        vstd::seq_lib::to_multiset_contains(objects, id);
        assert(objects.to_multiset().remove(id) =~= objects.to_multiset());
    }
}

/// Removing an object entity from the index takes one occurrence of it out
/// of the objects at its position, where it is there, and leaves the tile
/// entity there and every other position as they were.
pub proof fn lemma_remove_object(m: Map<TilePosition, TileEntities>, id: u64, tile: TilePosition)
    ensures
        entities_in(object_removed(m, id, tile), tile).objects.to_multiset() == entities_in(
            m,
            tile,
        ).objects.to_multiset().remove(id),
        entities_in(object_removed(m, id, tile), tile).tile == entities_in(m, tile).tile,
        forall|p: TilePosition| p != tile ==> #[trigger] entities_in(object_removed(m, id, tile), p) == entities_in(m, p),
{
    broadcast use vstd::multiset::group_multiset_axioms;

    lemma_objects_without_multiset(entities_in(m, tile).objects, id);
    if !m.dom().contains(tile) {
        assert(Seq::<u64>::empty().to_multiset().remove(id) =~= Seq::<u64>::empty().to_multiset());
    } else {
        let e = TileEntities { objects: objects_without(m[tile].objects, id), tile: m[tile].tile };
        if e.objects.len() == 0 && e.tile is None {
            assert(Seq::<u64>::empty() =~= e.objects);
        }
    }
}

} // verus!
