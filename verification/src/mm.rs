//! Page-granular address-space bookkeeping: the set of mapped regions of one
//! task, with insertion, exact removal, overlap queries, translation, and
//! brk-style growing and shrinking of the region that backs the heap.
//!
//! The model tracks what the core itself is responsible for: which
//! page-aligned regions exist and with what permissions. Translation is
//! modelled as the identity on mapped pages.

use vstd::prelude::*;

use crate::config::MAX_VA;
use crate::config::MAX_VPN;
use crate::config::PAGE_SIZE;

verus! {

/// Permission bit: readable.
pub const PERM_R: u8 = 1;

/// Permission bit: writable.
pub const PERM_W: u8 = 2;

/// Permission bit: executable.
pub const PERM_X: u8 = 4;

/// Permission bit: accessible from user mode.
pub const PERM_U: u8 = 8;

/// One mapped region: the half-open page range `[start_vpn, end_vpn)`
/// together with its permission mask.
#[derive(Clone, Copy, PartialEq, Eq, Structural, Debug)]
pub struct MapArea {
    /// First page of the region.
    pub start_vpn: usize,
    /// Page just past the region.
    pub end_vpn: usize,
    /// Permission mask over `PERM_R | PERM_W | PERM_X | PERM_U`.
    pub perm: u8,
}

/// An address is page-aligned when it is a multiple of the page size.
pub open spec fn page_aligned(va: int) -> bool {
    va % (PAGE_SIZE as int) == 0
}

/// Page number of the page containing `va`.
pub open spec fn spec_floor_vpn(va: int) -> int {
    va / (PAGE_SIZE as int)
}

/// Page number just past address `va`, rounding any partial page up.
pub open spec fn spec_ceil_vpn(va: int) -> int {
    (va + PAGE_SIZE - 1) / (PAGE_SIZE as int)
}

/// A region is well formed when its bounds are ordered and inside the
/// managed range.
pub open spec fn area_wf(a: MapArea) -> bool {
    a.start_vpn <= a.end_vpn && a.end_vpn <= MAX_VPN
}

/// Every region of the sequence is well formed.
pub open spec fn areas_wf(s: Seq<MapArea>) -> bool {
    forall|i: int| 0 <= i < s.len() ==> area_wf(#[trigger] s[i])
}

/// The region intersects the half-open page range `[sv, ev)`.
pub open spec fn area_overlaps(a: MapArea, sv: int, ev: int) -> bool {
    a.start_vpn < ev && sv < a.end_vpn
}

/// Some region of the sequence intersects the page range `[sv, ev)`.
pub open spec fn spec_overlaps(s: Seq<MapArea>, sv: int, ev: int) -> bool {
    exists|i: int| 0 <= i < s.len() && area_overlaps(#[trigger] s[i], sv, ev)
}

/// The region is exactly the page range `[sv, ev)`.
pub open spec fn region_matches(a: MapArea, sv: int, ev: int) -> bool {
    a.start_vpn == sv && a.end_vpn == ev
}

/// `i` is the earliest index whose region is exactly `[sv, ev)`.
pub open spec fn is_first_region_match(s: Seq<MapArea>, sv: int, ev: int, i: int) -> bool {
    &&& 0 <= i < s.len()
    &&& region_matches(s[i], sv, ev)
    &&& forall|j: int| 0 <= j < i ==> !region_matches(#[trigger] s[j], sv, ev)
}

/// `i` is the earliest index whose region starts at page `sv`.
pub open spec fn is_first_break_match(s: Seq<MapArea>, sv: int, i: int) -> bool {
    &&& 0 <= i < s.len()
    &&& s[i].start_vpn == sv
    &&& forall|j: int| 0 <= j < i ==> (#[trigger] s[j]).start_vpn != sv
}

/// The page `vpn` lies inside some region of the sequence.
pub open spec fn contains_vpn(s: Seq<MapArea>, vpn: int) -> bool {
    exists|i: int| 0 <= i < s.len() && (#[trigger] s[i]).start_vpn <= vpn < s[i].end_vpn
}

/// The same region with its end moved to page `end_vpn`.
pub open spec fn set_area_end(a: MapArea, end_vpn: usize) -> MapArea {
    MapArea { start_vpn: a.start_vpn, end_vpn: end_vpn, perm: a.perm }
}

/// Page number just past address `va`, rounding any partial page up.
pub fn page_ceil_vpn(va: usize) -> (r: usize)
    requires
        va <= MAX_VA,
    ensures
        r == spec_ceil_vpn(va as int),
        r <= MAX_VPN,
{
    (va + PAGE_SIZE - 1) / PAGE_SIZE
}

/// One task's private virtual address space, reduced to the bookkeeping the
/// core manipulates: the list of mapped regions and an opaque token that
/// identifies the space for hardware activation.
pub struct MemorySet {
    /// The mapped regions, in insertion order.
    pub areas: Vec<MapArea>,
    /// Opaque identifier handed to the hardware-activation path.
    pub id: usize,
}

impl MemorySet {
    /// Every region of this space is well formed.
    pub open spec fn wf(self) -> bool {
        areas_wf(self.areas@)
    }

    /// A fresh, empty address space with the given activation token.
    pub fn new(id: usize) -> (r: MemorySet)
        ensures
            r.areas@ == Seq::<MapArea>::empty(),
            r.id == id,
            r.wf(),
    {
        MemorySet { areas: Vec::new(), id }
    }

    /// The opaque handle identifying this space for hardware activation.
    pub fn token(&self) -> (r: usize)
        ensures
            r == self.id,
    {
        self.id
    }

    /// Whether any mapped region intersects the page range `[start_vpn, end_vpn)`.
    pub fn overlaps(&self, start_vpn: usize, end_vpn: usize) -> (r: bool)
        ensures
            r == spec_overlaps(self.areas@, start_vpn as int, end_vpn as int),
    {
        let mut i: usize = 0;
        while i < self.areas.len()
            invariant
                i <= self.areas@.len(),
                forall|j: int| 0 <= j < i ==> !area_overlaps(
                    #[trigger] self.areas@[j],
                    start_vpn as int,
                    end_vpn as int,
                ),
            decreases self.areas@.len() - i,
        {
            let a = self.areas[i];
            if a.start_vpn < end_vpn && start_vpn < a.end_vpn {
                assert(area_overlaps(self.areas@[i as int], start_vpn as int, end_vpn as int));
                return true;
            }
            i += 1;
        }
        false
    }

    /// Translation of a virtual page to its physical page: in this
    /// bookkeeping model, the identity on mapped pages, absent otherwise.
    pub fn translate(&self, vpn: usize) -> (r: Option<usize>)
        ensures
            r == if contains_vpn(self.areas@, vpn as int) {
                Some(vpn)
            } else {
                None::<usize>
            },
    {
        let mut i: usize = 0;
        while i < self.areas.len()
            invariant
                i <= self.areas@.len(),
                forall|j: int| 0 <= j < i ==> !((#[trigger] self.areas@[j]).start_vpn <= vpn
                    < self.areas@[j].end_vpn),
            decreases self.areas@.len() - i,
        {
            let a = self.areas[i];
            if a.start_vpn <= vpn && vpn < a.end_vpn {
                assert(contains_vpn(self.areas@, vpn as int));
                return Some(vpn);
            }
            i += 1;
        }
        None
    }

    /// Inserts the region `[start_vpn, end_vpn)` with the given permissions.
    /// The caller is responsible for alignment and overlap checks before the
    /// call.
    pub fn insert_mapped_region(&mut self, start_vpn: usize, end_vpn: usize, perm: u8)
        requires
            start_vpn <= end_vpn,
            end_vpn <= MAX_VPN,
        ensures
            final(self).areas@ == old(self).areas@.push(
                MapArea { start_vpn, end_vpn, perm },
            ),
            final(self).id == old(self).id,
            old(self).wf() ==> final(self).wf(),
    {
        self.areas.push(MapArea { start_vpn, end_vpn, perm });
    }

    /// Index of the earliest region that is exactly `[start_vpn, end_vpn)`.
    pub fn find_region(&self, start_vpn: usize, end_vpn: usize) -> (r: Option<usize>)
        ensures
            match r {
                Some(i) => is_first_region_match(
                    self.areas@,
                    start_vpn as int,
                    end_vpn as int,
                    i as int,
                ),
                None => forall|j: int| 0 <= j < self.areas@.len() ==> !region_matches(
                    #[trigger] self.areas@[j],
                    start_vpn as int,
                    end_vpn as int,
                ),
            },
    {
        let mut i: usize = 0;
        while i < self.areas.len()
            invariant
                i <= self.areas@.len(),
                forall|j: int| 0 <= j < i ==> !region_matches(
                    #[trigger] self.areas@[j],
                    start_vpn as int,
                    end_vpn as int,
                ),
            decreases self.areas@.len() - i,
        {
            let a = self.areas[i];
            if a.start_vpn == start_vpn && a.end_vpn == end_vpn {
                return Some(i);
            }
            i += 1;
        }
        None
    }

    /// Removes the region that is exactly `[start_vpn, end_vpn)`; reports
    /// whether such a region existed.
    pub fn remove_mapped_region(&mut self, start_vpn: usize, end_vpn: usize) -> (r: bool)
        ensures
            final(self).id == old(self).id,
            r == exists|i: int| 0 <= i < old(self).areas@.len() && region_matches(
                #[trigger] old(self).areas@[i],
                start_vpn as int,
                end_vpn as int,
            ),
            !r ==> final(self).areas@ == old(self).areas@,
            r ==> exists|i: int| is_first_region_match(
                old(self).areas@,
                start_vpn as int,
                end_vpn as int,
                i,
            ) && final(self).areas@ == old(self).areas@.remove(i),
            old(self).wf() ==> final(self).wf(),
    {
        match self.find_region(start_vpn, end_vpn) {
            Some(i) => {
                self.areas.remove(i);
                true
            }
            None => false,
        }
    }

    /// Moves the end of the earliest region starting at the page of
    /// `start_va` up to the page ceiling of `new_end_va`; reports whether
    /// such a region existed.
    pub fn grow_break(&mut self, start_va: usize, new_end_va: usize) -> (r: bool)
        requires
            start_va <= new_end_va,
            new_end_va <= MAX_VA,
        ensures
            final(self).id == old(self).id,
            r == exists|i: int| 0 <= i < old(self).areas@.len()
                && (#[trigger] old(self).areas@[i]).start_vpn == spec_floor_vpn(start_va as int),
            !r ==> final(self).areas@ == old(self).areas@,
            r ==> exists|i: int| is_first_break_match(
                old(self).areas@,
                spec_floor_vpn(start_va as int),
                i,
            ) && final(self).areas@ == old(self).areas@.update(
                i,
                set_area_end(old(self).areas@[i], spec_ceil_vpn(new_end_va as int) as usize),
            ),
            old(self).wf() ==> final(self).wf(),
    {
        self.set_break_end(start_va, new_end_va)
    }

    /// Moves the end of the earliest region starting at the page of
    /// `start_va` down to the page ceiling of `new_end_va`; reports whether
    /// such a region existed.
    pub fn shrink_break(&mut self, start_va: usize, new_end_va: usize) -> (r: bool)
        requires
            start_va <= new_end_va,
            new_end_va <= MAX_VA,
        ensures
            final(self).id == old(self).id,
            r == exists|i: int| 0 <= i < old(self).areas@.len()
                && (#[trigger] old(self).areas@[i]).start_vpn == spec_floor_vpn(start_va as int),
            !r ==> final(self).areas@ == old(self).areas@,
            r ==> exists|i: int| is_first_break_match(
                old(self).areas@,
                spec_floor_vpn(start_va as int),
                i,
            ) && final(self).areas@ == old(self).areas@.update(
                i,
                set_area_end(old(self).areas@[i], spec_ceil_vpn(new_end_va as int) as usize),
            ),
            old(self).wf() ==> final(self).wf(),
    {
        self.set_break_end(start_va, new_end_va)
    }

    fn set_break_end(&mut self, start_va: usize, new_end_va: usize) -> (r: bool)
        requires
            start_va <= new_end_va,
            new_end_va <= MAX_VA,
        ensures
            final(self).id == old(self).id,
            r == exists|i: int| 0 <= i < old(self).areas@.len()
                && (#[trigger] old(self).areas@[i]).start_vpn == spec_floor_vpn(start_va as int),
            !r ==> final(self).areas@ == old(self).areas@,
            r ==> exists|i: int| is_first_break_match(
                old(self).areas@,
                spec_floor_vpn(start_va as int),
                i,
            ) && final(self).areas@ == old(self).areas@.update(
                i,
                set_area_end(old(self).areas@[i], spec_ceil_vpn(new_end_va as int) as usize),
            ),
            old(self).wf() ==> final(self).wf(),
    {
        let start_vpn = start_va / PAGE_SIZE;
        let end_vpn = page_ceil_vpn(new_end_va);
        let mut i: usize = 0;
        while i < self.areas.len()
            invariant
                i <= self.areas@.len(),
                self.areas@ == old(self).areas@,
                self.id == old(self).id,
                start_va <= new_end_va <= MAX_VA,
                start_vpn == spec_floor_vpn(start_va as int),
                end_vpn == spec_ceil_vpn(new_end_va as int),
                end_vpn <= MAX_VPN,
                forall|j: int| 0 <= j < i ==> (#[trigger] self.areas@[j]).start_vpn != start_vpn,
            decreases self.areas@.len() - i,
        {
            let a = self.areas[i];
            if a.start_vpn == start_vpn {
                proof {
                    vstd::arithmetic::div_mod::lemma_div_is_ordered(
                        start_va as int,
                        new_end_va as int + PAGE_SIZE - 1,
                        PAGE_SIZE as int,
                    );
                    assert(is_first_break_match(
                        self.areas@,
                        spec_floor_vpn(start_va as int),
                        i as int,
                    ));
                }
                self.areas[i] = MapArea { start_vpn: a.start_vpn, end_vpn, perm: a.perm };
                return true;
            }
            i += 1;
        }
        false
    }
}

} // verus!
