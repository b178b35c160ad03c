//! Dense per-entity storage: one cell for every entity id that can be issued,
//! and the walk over the ids whose flags hold a given mask.

use vstd::prelude::*;
use crate::flags::ComponentFlags;

verus! {

/// The name of an entity: an index into every [`EntityArray`].
pub type EntityId = u32;

/// How many cells an [`EntityArray`] has. Ids run from 0 to one below it.
pub const MAX_ENTITIES: usize = 4096;

/// One cell per entity id.
pub struct EntityArray<T> {
    cells: Vec<T>,
}

pub type ComponentArray<T> = EntityArray<T>;

pub type FlagsArray = EntityArray<ComponentFlags>;

impl<T> View for EntityArray<T> {
    type V = Seq<T>;

    closed spec fn view(&self) -> Seq<T> {
        self.cells@
    }
}

impl<T> EntityArray<T> {
    /// The array has exactly [`MAX_ENTITIES`] cells.
    pub open spec fn wf(&self) -> bool {
        self@.len() == MAX_ENTITIES
    }

    /// An array whose every cell holds `value`.
    pub fn filled(value: T) -> (r: Self) where T: Copy
        ensures
            r.wf(),
            forall|i: int| 0 <= i < MAX_ENTITIES ==> r@[i] == value,
    {
        let mut cells: Vec<T> = Vec::with_capacity(MAX_ENTITIES);
        let mut i: usize = 0;
        while i < MAX_ENTITIES
            invariant
                i <= MAX_ENTITIES,
                cells@.len() == i,
                forall|j: int| 0 <= j < i ==> cells@[j] == value,
            decreases MAX_ENTITIES - i,
        {
            cells.push(value);
            i += 1;
        }
        EntityArray { cells }
    }

    /// The number of cells.
    pub fn len(&self) -> (r: usize)
        requires
            self.wf(),
        ensures
            r == MAX_ENTITIES,
    {
        self.cells.len()
    }

    /// The cell of `entity`.
    pub fn get(&self, entity: EntityId) -> (r: &T)
        requires
            self.wf(),
            entity < MAX_ENTITIES,
        ensures
            *r == self@[entity as int],
    {
        &self.cells[entity as usize]
    }

    /// Puts `value` into the cell of `entity` and leaves the others alone.
    pub fn set(&mut self, entity: EntityId, value: T)
        requires
            old(self).wf(),
            entity < MAX_ENTITIES,
        ensures
            final(self).wf(),
            final(self)@ == old(self)@.update(entity as int, value),
    {
        self.cells[entity as usize] = value;
    }
}

/// The ids below `upto` whose flags hold `mask`, in ascending order.
pub open spec fn ids_with(flags: Seq<ComponentFlags>, mask: u64, upto: int) -> Seq<EntityId>
    decreases upto,
{
    if upto <= 0 {
        Seq::empty()
    } else if flags[upto - 1].has(mask) {
        ids_with(flags, mask, upto - 1).push((upto - 1) as EntityId)
    } else {
        ids_with(flags, mask, upto - 1)
    }
}

/// Every id that [`ids_with`] lists is below `upto` and holds `mask`; every
/// such id is listed; and the list is strictly ascending.
pub proof fn lemma_ids_with(flags: Seq<ComponentFlags>, mask: u64, upto: int)
    requires
        0 <= upto <= flags.len(),
        upto <= u32::MAX,
    ensures
        forall|k: int|
            0 <= k < ids_with(flags, mask, upto).len() ==> {
                let e = #[trigger] ids_with(flags, mask, upto)[k];
                e < upto && flags[e as int].has(mask)
            },
        forall|e: int|
            0 <= e < upto && #[trigger] flags[e].has(mask) ==> ids_with(flags, mask, upto).contains(
                e as EntityId,
            ),
        forall|j: int, k: int|
            0 <= j < k < ids_with(flags, mask, upto).len() ==> ids_with(flags, mask, upto)[j]
                < ids_with(flags, mask, upto)[k],
    decreases upto,
{
    if upto > 0 {
        lemma_ids_with(flags, mask, upto - 1);
        let rest = ids_with(flags, mask, upto - 1);
        let all = ids_with(flags, mask, upto);
        if flags[upto - 1].has(mask) {
            assert(all == rest.push((upto - 1) as EntityId));
            assert(all[all.len() - 1] == (upto - 1) as EntityId);
            assert forall|e: int| 0 <= e < upto && #[trigger] flags[e].has(mask) implies
                all.contains(e as EntityId) by {
                if e < upto - 1 {
                    assert(rest.contains(e as EntityId));
                    let k = choose|k: int| 0 <= k < rest.len() && rest[k] == e as EntityId;
                    assert(all[k] == e as EntityId);
                } else {
                    assert(all[all.len() - 1] == e as EntityId);
                }
            }
        } else {
            assert(all == rest);
        }
    }
}

/// Ids whose flags lack `mask` add nothing to [`ids_with`].
pub proof fn lemma_ids_with_gap(flags: Seq<ComponentFlags>, mask: u64, from: int, to: int)
    requires
        0 <= from <= to <= flags.len(),
        forall|j: int| from <= j < to ==> !(#[trigger] flags[j]).has(mask),
    ensures
        ids_with(flags, mask, to) == ids_with(flags, mask, from),
    decreases to - from,
{
    if from < to {
        lemma_ids_with_gap(flags, mask, from, to - 1);
        assert(!flags[to - 1].has(mask));
    }
}

/// A walk over the ids whose flags hold a mask, in ascending order.
pub struct EntityIterator<'a> {
    idx: EntityId,
    entities: &'a FlagsArray,
    flags: u64,
}

impl<'a> EntityIterator<'a> {
    /// The walk is over a whole array and has not run past its end.
    pub closed spec fn wf(&self) -> bool {
        self.entities.wf() && self.idx <= MAX_ENTITIES
    }

    /// The id at which the walk looks next.
    pub closed spec fn position(&self) -> int {
        self.idx as int
    }

    /// The flags that the walk reads.
    pub closed spec fn source(&self) -> Seq<ComponentFlags> {
        self.entities@
    }

    /// The mask that the walk looks for.
    pub closed spec fn mask(&self) -> u64 {
        self.flags
    }

    /// A walk over `entities` for `flags`, from id 0.
    pub fn new(entities: &'a FlagsArray, flags: u64) -> (r: Self)
        requires
            entities.wf(),
        ensures
            r.wf(),
            r.position() == 0,
            r.source() == entities@,
            r.mask() == flags,
    {
        EntityIterator { idx: 0, entities, flags }
    }

    /// The least id at or after the walk's position whose flags hold the mask,
    /// or `None` when there is none; the walk then stands behind that id, or at
    /// the end.
    pub fn next(&mut self) -> (r: Option<EntityId>)
        requires
            old(self).wf(),
        ensures
            final(self).wf(),
            final(self).source() == old(self).source(),
            final(self).mask() == old(self).mask(),
            match r {
                Some(e) => {
                    &&& old(self).position() <= e < MAX_ENTITIES
                    &&& old(self).source()[e as int].has(old(self).mask())
                    &&& forall|j: int|
                        old(self).position() <= j < e ==> !(#[trigger] old(self).source()[j]).has(
                            old(self).mask(),
                        )
                    &&& final(self).position() == e + 1
                },
                None => {
                    &&& forall|j: int|
                        old(self).position() <= j < MAX_ENTITIES ==> !(#[trigger] old(
                            self,
                        ).source()[j]).has(old(self).mask())
                    &&& final(self).position() == MAX_ENTITIES
                },
            },
    {
        while (self.idx as usize) < MAX_ENTITIES
            invariant
                self.wf(),
                self.entities == old(self).entities,
                self.flags == old(self).flags,
                old(self).idx <= self.idx,
                forall|j: int|
                    old(self).idx <= j < self.idx ==> !(#[trigger] self.entities@[j]).has(
                        self.flags,
                    ),
            decreases MAX_ENTITIES - self.idx,
        {
            let found = self.entities.get(self.idx).contains(self.flags);
            let idx = self.idx;
            self.idx += 1;
            if found {
                return Some(idx);
            }
        }
        None
    }
}

} // verus!
