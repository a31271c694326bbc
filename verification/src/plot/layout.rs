//! Where the patches of a composition come to lie.

use vstd::prelude::*;

use crate::names::same_name;
use crate::num::Num;
use crate::slot::Slot;

verus! {

/// A composition of patches, as far as a plot has to know it.
pub struct Composition {
    /// The ids of its patches.
    pub patch_ids: Vec<String>,
}

impl Composition {
    /// Whether there is a patch with an id.
    pub open spec fn has_patch(self, id: Seq<char>) -> bool {
        exists|k: int| 0 <= k < self.patch_ids@.len() && (#[trigger] self.patch_ids@[k])@ == id
    }

    /// Whether there is a patch with an id.
    pub fn contains_patch_id(&self, id: &str) -> (r: bool)
        ensures
            r == self.has_patch(id@),
    {
        let mut k: usize = 0;
        while k < self.patch_ids.len()
            invariant
                k <= self.patch_ids@.len(),
                forall|j: int| 0 <= j < k ==> (#[trigger] self.patch_ids@[j])@ != id@,
            decreases self.patch_ids@.len() - k,
        {
            if same_name(self.patch_ids[k].as_str(), id) {
                assert(self.patch_ids@[k as int]@ == id@);
                return true;
            }
            k = k + 1;
        }
        false
    }
}

/// A rectangle of the solved layout, in pixels.
#[derive(Clone, Copy, Debug, PartialEq, Eq, Structural)]
pub struct SlotRect {
    /// The left edge.
    pub x0: Num,
    /// The top edge.
    pub y0: Num,
    /// The right edge.
    pub x1: Num,
    /// The bottom edge.
    pub y1: Num,
}

impl SlotRect {
    /// Whether the rectangle has no room: an edge lies on the one across from
    /// it, or beyond.
    pub open spec fn shut(self) -> bool {
        self.x1.at_most(self.x0) || self.y1.at_most(self.y0)
    }

    /// Whether the rectangle has no room.
    pub fn is_shut(&self) -> (r: bool)
        ensures
            r == self.shut(),
    {
        self.x1.is_at_most(self.x0) || self.y1.is_at_most(self.y0)
    }
}

/// Where one slot of a patch came to lie.
pub struct Placed {
    /// The patch.
    pub patch: String,
    /// The slot.
    pub slot: Slot,
    /// The rectangle.
    pub rect: SlotRect,
}

impl Placed {
    /// Whether this is about a slot of a patch.
    pub open spec fn is_for(self, patch: Seq<char>, slot: Slot) -> bool {
        self.patch@ == patch && self.slot == slot
    }
}

/// Where the slots of patches came to lie. A slot that nothing was put into lies
/// nowhere.
pub struct Layout {
    /// What was placed, in that order.
    pub placed: Vec<Placed>,
}

/// Where a slot of a patch came to lie: the first of the first `n` that is about
/// it counts.
pub open spec fn rect_among(
    placed: Seq<Placed>,
    patch: Seq<char>,
    slot: Slot,
    n: nat,
) -> Option<SlotRect>
    decreases n,
{
    if n == 0 {
        None
    } else {
        match rect_among(placed, patch, slot, (n - 1) as nat) {
            Some(r) => Some(r),
            None => if placed[n - 1].is_for(patch, slot) {
                Some(placed[n - 1].rect)
            } else {
                None
            },
        }
    }
}

impl Layout {
    /// Where a slot of a patch came to lie.
    pub open spec fn rect_of(self, patch: Seq<char>, slot: Slot) -> Option<SlotRect> {
        rect_among(self.placed@, patch, slot, self.placed@.len())
    }

    /// A layout of nothing.
    pub fn new() -> (r: Layout)
        ensures
            r.placed@.len() == 0,
    {
        Layout { placed: Vec::new() }
    }

    /// Adds where a slot of a patch came to lie.
    pub fn place(&mut self, patch: &str, slot: Slot, rect: SlotRect)
        ensures
            forall|p: Seq<char>, s: Slot| #[trigger]
                final(self).rect_of(p, s) == (match old(self).rect_of(p, s) {
                    Some(r) => Some(r),
                    None => if p == patch@ && s == slot {
                        Some(rect)
                    } else {
                        None
                    },
                }),
    {
        let ghost before = self.placed@;
        self.placed.push(Placed { patch: patch.to_owned(), slot, rect });
        proof {
            let n = before.len();
            let after = self.placed@;
            assert forall|p: Seq<char>, s: Slot| #[trigger]
                self.rect_of(p, s) == (match rect_among(before, p, s, n) {
                    Some(r) => Some(r),
                    None => if p == patch@ && s == slot {
                        Some(rect)
                    } else {
                        None
                    },
                }) by {
                earlier_places_count(before, after, p, s, n);
                assert(after[n as int].is_for(p, s) == (p == patch@ && s == slot));
            }
        }
    }

    /// Where a slot of a patch came to lie.
    pub fn get(&self, patch: &str, slot: Slot) -> (r: Option<SlotRect>)
        ensures
            r == self.rect_of(patch@, slot),
    {
        let mut found: Option<SlotRect> = None;
        let mut k: usize = 0;
        while k < self.placed.len()
            invariant
                k <= self.placed@.len(),
                found == rect_among(self.placed@, patch@, slot, k as nat),
            decreases self.placed@.len() - k,
        {
            if found.is_none() {
                let p = &self.placed[k];
                if p.slot == slot && same_name(p.patch.as_str(), patch) {
                    found = Some(p.rect);
                }
            }
            k = k + 1;
        }
        found
    }
}

proof fn earlier_places_count(
    a: Seq<Placed>,
    b: Seq<Placed>,
    patch: Seq<char>,
    slot: Slot,
    n: nat,
)
    requires
        n <= a.len() <= b.len(),
        forall|k: int| 0 <= k < a.len() ==> (#[trigger] b[k]) == a[k],
    ensures
        rect_among(b, patch, slot, n) == rect_among(a, patch, slot, n),
    decreases n,
{
    if n > 0 {
        earlier_places_count(a, b, patch, slot, (n - 1) as nat);
        assert(b[n - 1] == a[n - 1]);
    }
}

} // verus!
