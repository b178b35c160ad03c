//! Picking: which entity lies under the pointer.
//!
//! Pickable entities are drawn a second time into a target that holds ids in
//! place of colours. After a draw, the one pixel under the pointer is copied
//! out of that target; a later tick reads the copy, if it has arrived. This
//! module keeps the target's size, says which pixel to copy and what a read
//! pixel means.

use vstd::prelude::*;
use crate::storage::EntityId;

verus! {

/// A rectangle of pixels in a target whose origin is at the bottom left.
#[derive(Clone, Copy, Debug, PartialEq, Eq, Structural)]
pub struct Rect {
    pub left: u32,
    pub bottom: u32,
    pub width: u32,
    pub height: u32,
}

/// What a read of the copied pixel says.
#[derive(Clone, Copy, Debug, PartialEq, Eq, Structural)]
pub enum Pick {
    /// The copy has not arrived: nothing new is known.
    Unknown,
    /// No pickable entity lies under the pointer.
    Nothing,
    /// This entity lies under the pointer.
    Entity(EntityId),
}

/// The size of the picking target.
pub struct PickingSystem {
    pub size: (u32, u32),
}

impl PickingSystem {
    /// A picking system whose target has `size`, as width and height.
    pub fn new(size: (u32, u32)) -> (r: Self)
        ensures
            r.size == size,
    {
        PickingSystem { size }
    }

    /// Takes note of the size of the surface that is drawn to, and says
    /// whether it differs from the size of the target, which must then be
    /// made anew.
    pub fn prepare(&mut self, size: (u32, u32)) -> (resized: bool)
        ensures
            final(self).size == size,
            resized == (old(self).size != size),
    {
        if self.size.0 != size.0 || self.size.1 != size.1 {
            self.size = size;
            true
        } else {
            false
        }
    }

    /// The pixel of the target that lies under `position`, if any.
    /// `position` counts its rows from the top and the target from the
    /// bottom.
    pub open spec fn pixel_under(size: (u32, u32), position: (u32, u32)) -> Option<Rect> {
        if position.0 < size.0 && position.1 < size.1 {
            Some(
                Rect {
                    left: position.0,
                    bottom: (size.1 - position.1 - 1) as u32,
                    width: 1,
                    height: 1,
                },
            )
        } else {
            None
        }
    }

    /// The pixel to copy out of the target for a pointer at `position`, or
    /// `None` where the pointer is not over the target.
    pub fn update(&self, position: (u32, u32)) -> (r: Option<Rect>)
        ensures
            r == Self::pixel_under(self.size, position),
    {
        if position.0 < self.size.0 && position.1 < self.size.1 {
            let bottom = self.size.1 - position.1 - 1;
            Some(Rect { left: position.0, bottom, width: 1, height: 1 })
        } else {
            None
        }
    }

    /// What the copied pixel says: `pixel` is `None` while the copy has not
    /// arrived, and else the id that was drawn, 0 where nothing was.
    pub open spec fn meaning(pixel: Option<u32>) -> Pick {
        match pixel {
            None => Pick::Unknown,
            Some(id) => if id > 0 {
                Pick::Entity(id)
            } else {
                Pick::Nothing
            },
        }
    }

    /// What the copied pixel says.
    pub fn read_picking_buffer(&self, pixel: Option<u32>) -> (r: Pick)
        ensures
            r == Self::meaning(pixel),
    {
        match pixel {
            None => Pick::Unknown,
            Some(id) => if id > 0 {
                Pick::Entity(id)
            } else {
                Pick::Nothing
            },
        }
    }

    /// The entity under the pointer after a read that said `pick`, where it
    /// was `previous` before. Without a pointer there is none. With one, a
    /// read that says nothing new keeps the previous entity.
    pub open spec fn resolved(
        previous: Option<EntityId>,
        pointer: Option<(u32, u32)>,
        pick: Pick,
    ) -> Option<EntityId> {
        if pointer.is_none() {
            None
        } else {
            match pick {
                Pick::Unknown => previous,
                Pick::Nothing => None,
                Pick::Entity(id) => Some(id),
            }
        }
    }

    /// The entity under the pointer after a read that said `pick`.
    pub fn resolve(previous: Option<EntityId>, pointer: Option<(u32, u32)>, pick: Pick) -> (r:
        Option<EntityId>)
        ensures
            r == Self::resolved(previous, pointer, pick),
    {
        if pointer.is_none() {
            None
        } else {
            match pick {
                Pick::Unknown => previous,
                Pick::Nothing => None,
                Pick::Entity(id) => Some(id),
            }
        }
    }
}

} // verus!
