//! Tile-to-occupants index, rebuilt once per tick and read during effect
//! resolution; the only mutation during a resolution pass is the removal
//! of an entity on death.

use vstd::prelude::*;
use crate::components::EntityId;
use crate::map::{LevelMap, tile_walkable};

verus! {

/// Total number of occupancy records over a sequence of per-tile lists.
pub open spec fn occ_sum(s: Seq<Seq<(EntityId, bool)>>) -> nat
    decreases s.len(),
{
    if s.len() == 0 {
        0
    } else {
        occ_sum(s.drop_last()) + s.last().len()
    }
}

/// One tile's list never holds more records than the whole index.
pub proof fn lemma_occ_at_le_sum(s: Seq<Seq<(EntityId, bool)>>, i: int)
    requires
        0 <= i < s.len(),
    ensures
        s[i].len() <= occ_sum(s),
    decreases s.len(),
{
    if i == s.len() - 1 {
    } else {
        lemma_occ_at_le_sum(s.drop_last(), i);
        assert(s.drop_last()[i] == s[i]);
    }
}

/// Replacing one tile's list changes the total by the two lists' lengths.
pub proof fn lemma_occ_sum_update(s: Seq<Seq<(EntityId, bool)>>, i: int, v: Seq<(EntityId, bool)>)
    requires
        0 <= i < s.len(),
    ensures
        occ_sum(s.update(i, v)) + s[i].len() == occ_sum(s) + v.len(),
    decreases s.len(),
{
    if i == s.len() - 1 {
        assert(s.update(i, v).drop_last() =~= s.drop_last());
        assert(s.update(i, v).last() == v);
    } else {
        lemma_occ_sum_update(s.drop_last(), i, v);
        assert(s.update(i, v).drop_last() =~= s.drop_last().update(i, v));
        assert(s.update(i, v).last() == s.last());
    }
}

/// Tile-to-occupants lookup plus the blocked-tile table.
#[derive(Clone, Debug)]
pub struct SpatialIndex {
    pub blocked: Vec<bool>,
    pub tile_content: Vec<Vec<(EntityId, bool)>>,
}

impl SpatialIndex {
    /// Well-formed: the two per-tile tables have the same length.
    pub open spec fn wf(self) -> bool {
        self.blocked@.len() == self.tile_content@.len()
    }

    /// View of the per-tile occupant lists.
    pub open spec fn contents(self) -> Seq<Seq<(EntityId, bool)>> {
        self.tile_content@.map_values(|v: Vec<(EntityId, bool)>| v@)
    }

    /// Total number of occupancy records.
    pub open spec fn occupancy(self) -> nat {
        occ_sum(self.contents())
    }

    /// An empty index sized for a map of `size` tiles.
    pub fn new(size: usize) -> (r: SpatialIndex)
        ensures
            r.wf(),
            r.tile_content@.len() == size,
            forall|i: int| 0 <= i < size ==> r.contents()[i].len() == 0,
            forall|i: int| 0 <= i < size ==> !r.blocked@[i],
    {
        let mut blocked: Vec<bool> = Vec::new();
        let mut tile_content: Vec<Vec<(EntityId, bool)>> = Vec::new();
        let mut i: usize = 0;
        while i < size
            invariant
                i <= size,
                blocked@.len() == i,
                tile_content@.len() == i,
                forall|j: int| 0 <= j < i ==> tile_content@[j]@.len() == 0,
                forall|j: int| 0 <= j < i ==> !blocked@[j],
            decreases size - i,
        {
            blocked.push(false);
            tile_content.push(Vec::new());
            i = i + 1;
        }
        SpatialIndex { blocked, tile_content }
    }

    /// Empty every tile's occupant list and unblock every tile.
    pub fn clear(&mut self)
        requires
            old(self).wf(),
        ensures
            final(self).wf(),
            final(self).tile_content@.len() == old(self).tile_content@.len(),
            forall|i: int|
                0 <= i < final(self).tile_content@.len() ==> final(self).contents()[i].len() == 0,
            forall|i: int| 0 <= i < final(self).blocked@.len() ==> !final(self).blocked@[i],
    {
        let n = self.tile_content.len();
        let mut fresh = SpatialIndex::new(n);
        self.blocked = fresh.blocked;
        self.tile_content = fresh.tile_content;
    }

    /// Mark as blocked exactly the tiles whose kind cannot be walked on.
    pub fn populate_blocked_from_map(&mut self, map: &LevelMap)
        requires
            old(self).wf(),
            map.wf(),
            old(self).tile_content@.len() == map.tiles@.len(),
        ensures
            final(self).wf(),
            final(self).tile_content@ == old(self).tile_content@,
            final(self).blocked@.len() == old(self).blocked@.len(),
            forall|i: int|
                0 <= i < final(self).blocked@.len()
                    ==> final(self).blocked@[i] == !crate::map::spec_tile_walkable(map.tiles@[i]),
    {
        let n = self.blocked.len();
        let mut i: usize = 0;
        while i < n
            invariant
                i <= n,
                self.wf(),
                self.blocked@.len() == n,
                self.tile_content@ == old(self).tile_content@,
                n == map.tiles@.len(),
                map.wf(),
                forall|j: int|
                    0 <= j < i ==> self.blocked@[j] == !crate::map::spec_tile_walkable(
                        map.tiles@[j],
                    ),
            decreases n - i,
        {
            let walkable = tile_walkable(map.tiles[i]);
            self.blocked.set(i, !walkable);
            i = i + 1;
        }
    }

    /// Whether the tile at `idx` is blocked; out-of-range counts as blocked.
    pub fn is_blocked(&self, idx: usize) -> (r: bool)
        ensures
            r == if idx < self.blocked@.len() {
                self.blocked@[idx as int]
            } else {
                true
            },
    {
        if idx < self.blocked.len() {
            self.blocked[idx]
        } else {
            true
        }
    }

    /// Mark the tile at `idx` as blocked.
    pub fn set_blocked(&mut self, idx: usize)
        requires
            old(self).wf(),
            idx < old(self).blocked@.len(),
        ensures
            final(self).wf(),
            final(self).tile_content@ == old(self).tile_content@,
            final(self).blocked@ == old(self).blocked@.update(idx as int, true),
    {
        self.blocked.set(idx, true);
    }

    /// Record an entity standing on the tile at `idx`; a blocking entity
    /// also blocks the tile.
    pub fn index_entity(&mut self, entity: EntityId, idx: usize, blocks_tile: bool)
        requires
            old(self).wf(),
            idx < old(self).tile_content@.len(),
        ensures
            final(self).wf(),
            final(self).tile_content@.len() == old(self).tile_content@.len(),
            final(self).contents() == old(self).contents().update(
                idx as int,
                old(self).contents()[idx as int].push((entity, blocks_tile)),
            ),
            final(self).blocked@ == if blocks_tile {
                old(self).blocked@.update(idx as int, true)
            } else {
                old(self).blocked@
            },
    {
        let mut lst = copy_entries(&self.tile_content[idx]);
        lst.push((entity, blocks_tile));
        self.tile_content[idx] = lst;
        if blocks_tile {
            self.blocked.set(idx, true);
        }
        proof {
            assert(self.contents() =~= old(self).contents().update(
                idx as int,
                old(self).contents()[idx as int].push((entity, blocks_tile)),
            ));
        }
    }

    /// The entities standing on the tile at `idx`.
    pub fn occupants_at(&self, idx: usize) -> (r: Vec<EntityId>)
        requires
            self.wf(),
            idx < self.tile_content@.len(),
        ensures
            r@ == self.contents()[idx as int].map_values(|p: (EntityId, bool)| p.0),
    {
        let lst = &self.tile_content[idx];
        let mut r: Vec<EntityId> = Vec::new();
        let mut i: usize = 0;
        while i < lst.len()
            invariant
                i <= lst@.len(),
                r@.len() == i,
                lst@ == self.tile_content@[idx as int]@,
                idx < self.tile_content@.len(),
                forall|j: int| 0 <= j < i ==> r@[j] == lst@[j].0,
            decreases lst@.len() - i,
        {
            r.push(lst[i].0);
            i = i + 1;
        }
        proof {
            assert(r@ =~= self.contents()[idx as int].map_values(|p: (EntityId, bool)| p.0));
        }
        r
    }

    /// Remove every record of `entity` from the tile at `idx`: that
    /// tile's list keeps exactly its other records, in order, and every
    /// other tile is untouched.
    pub fn remove_entity(&mut self, entity: EntityId, idx: usize)
        requires
            old(self).wf(),
            idx < old(self).tile_content@.len(),
        ensures
            final(self).wf(),
            final(self).tile_content@.len() == old(self).tile_content@.len(),
            final(self).blocked@ == old(self).blocked@,
            final(self).contents() == old(self).contents().update(
                idx as int,
                spec_without_entity(old(self).contents()[idx as int], entity),
            ),
            final(self).occupancy() <= old(self).occupancy(),
            forall|i: int|
                0 <= i < final(self).contents().len() ==> final(self).contents()[i].len()
                    <= old(self).contents()[i].len(),
    {
        let lst = &self.tile_content[idx];
        let mut kept: Vec<(EntityId, bool)> = Vec::new();
        proof {
            assert(lst@.take(0) =~= Seq::<(EntityId, bool)>::empty());
        }
        let mut i: usize = 0;
        while i < lst.len()
            invariant
                i <= lst@.len(),
                lst@ == self.tile_content@[idx as int]@,
                idx < self.tile_content@.len(),
                kept@ == spec_without_entity(lst@.take(i as int), entity),
            decreases lst@.len() - i,
        {
            let entry = lst[i];
            if entry.0 != entity {
                kept.push(entry);
            }
            proof {
                assert(lst@.take(i + 1).drop_last() =~= lst@.take(i as int));
                assert(lst@.take(i + 1).last() == lst@[i as int]);
            }
            i = i + 1;
        }
        proof {
            assert(lst@.take(lst@.len() as int) =~= lst@);
            lemma_without_entity_len(self.tile_content@[idx as int]@, entity);
        }
        let ghost before = old(self).contents();
        self.tile_content[idx] = kept;
        proof {
            assert(self.contents() =~= before.update(idx as int, kept@));
            lemma_occ_sum_update(before, idx as int, kept@);
        }
    }
}

/// A tile's occupant list with every record of one entity removed.
pub open spec fn spec_without_entity(s: Seq<(EntityId, bool)>, entity: EntityId) -> Seq<
    (EntityId, bool),
>
    decreases s.len(),
{
    if s.len() == 0 {
        Seq::<(EntityId, bool)>::empty()
    } else {
        let rest = spec_without_entity(s.drop_last(), entity);
        if s.last().0 == entity {
            rest
        } else {
            rest.push(s.last())
        }
    }
}

/// Removing records never lengthens the list.
pub proof fn lemma_without_entity_len(s: Seq<(EntityId, bool)>, entity: EntityId)
    ensures
        spec_without_entity(s, entity).len() <= s.len(),
    decreases s.len(),
{
    if s.len() > 0 {
        lemma_without_entity_len(s.drop_last(), entity);
    }
}

/// A copy of a tile's occupant records.
fn copy_entries(v: &Vec<(EntityId, bool)>) -> (r: Vec<(EntityId, bool)>)
    ensures
        r@ == v@,
{
    let mut r: Vec<(EntityId, bool)> = Vec::new();
    let mut i: usize = 0;
    while i < v.len()
        invariant
            i <= v@.len(),
            r@ == v@.take(i as int),
        decreases v@.len() - i,
    {
        r.push(v[i]);
        proof {
            assert(r@ =~= v@.take(i + 1));
        }
        i = i + 1;
    }
    proof {
        assert(v@.take(v@.len() as int) =~= v@);
    }
    r
}

} // verus!
