//! Region-based memory: a set of mounted, non-overlapping byte regions.
//!
//! A [`Region`] is a contiguous byte range with a start address and owned
//! backing storage. A [`SectionMemory`] holds the regions mounted into a
//! machine; an address is readable or writable exactly when some mounted
//! region contains it, and accesses outside every region fail rather than
//! silently succeeding.

use vstd::prelude::*;

verus! {

/// One contiguous byte range mounted at a fixed start address.
pub struct Region {
    /// First address of the range.
    pub start: u32,
    /// Backing bytes; the region covers `start .. start + data.len()`.
    pub data: Vec<u8>,
}

impl Region {
    /// The range fits in the address space: one past its last address is
    /// at most one past the largest representable address.
    pub open spec fn wf(self) -> bool {
        self.start + self.data@.len() <= 0x1_0000_0000
    }

    /// Whether address `a` falls inside this region.
    pub open spec fn contains_addr(self, a: u32) -> bool {
        self.start <= a && a < self.start + self.data@.len()
    }

    /// The byte this region holds at address `a`.
    pub open spec fn byte_at(self, a: u32) -> u8 {
        self.data@[a - self.start]
    }
}

/// Two regions share no address.
pub open spec fn disjoint(r1: Region, r2: Region) -> bool {
    forall|a: u32| !(r1.contains_addr(a) && r2.contains_addr(a))
}

/// Memory partitioned into named regions, mounted once and never resized.
pub struct SectionMemory {
    regions: Vec<Region>,
}

impl SectionMemory {
    /// Every region fits in the address space and no two regions share an
    /// address.
    #[verifier::type_invariant]
    spec fn inv(self) -> bool {
        &&& forall|i: int|
            0 <= i < self.regions@.len() ==> (#[trigger] self.regions@[i]).wf()
        &&& forall|i: int, j: int|
            0 <= i < self.regions@.len() && 0 <= j < self.regions@.len() && i != j ==> disjoint(
                #[trigger] self.regions@[i],
                #[trigger] self.regions@[j],
            )
    }

    /// Whether some mounted region contains address `a`.
    pub closed spec fn mapped(self, a: u32) -> bool {
        exists|i: int|
            0 <= i < self.regions@.len() && (#[trigger] self.regions@[i]).contains_addr(a)
    }

    /// The byte stored at a mapped address `a`.
    pub closed spec fn value_at(self, a: u32) -> u8 {
        let i = choose|i: int|
            0 <= i < self.regions@.len() && (#[trigger] self.regions@[i]).contains_addr(a);
        self.regions@[i].byte_at(a)
    }

    /// Whether `region` can be mounted: it fits in the address space and
    /// shares no address with what is already mounted.
    pub open spec fn can_mount(self, region: Region) -> bool {
        region.wf() && forall|a: u32| self.mapped(a) ==> !region.contains_addr(a)
    }

    /// A memory with nothing mounted.
    pub fn new() -> (r: SectionMemory)
        ensures
            forall|a: u32| !r.mapped(a),
    {
        SectionMemory { regions: Vec::new() }
    }

    /// Mounts `region`, refusing (and leaving the memory unchanged) if the
    /// region does not fit in the address space or overlaps a mounted one.
    pub fn mount(&mut self, region: Region) -> (r: bool)
        ensures
            r == old(self).can_mount(region),
            r ==> forall|a: u32|
                final(self).mapped(a) == (old(self).mapped(a) || region.contains_addr(a)),
            r ==> forall|a: u32|
                region.contains_addr(a) ==> final(self).value_at(a) == region.byte_at(a),
            r ==> forall|a: u32|
                old(self).mapped(a) ==> final(self).value_at(a) == old(self).value_at(a),
            !r ==> *final(self) == *old(self),
    {
        proof {
            use_type_invariant(&*self);
        }
        let len_ok = region.data.len() as u64 <= 0x1_0000_0000u64 && region.start as u64
            + region.data.len() as u64 <= 0x1_0000_0000u64;
        if !len_ok {
            proof {
                assert(!region.wf());
            }
            return false;
        }
        let mut i: usize = 0;
        while i < self.regions.len()
            invariant
                self == old(self),
                self.inv(),
                i <= self.regions@.len(),
                region.wf(),
                forall|k: int, a: u32|
                    0 <= k < i ==> !(#[trigger] self.regions@[k].contains_addr(a)
                        && region.contains_addr(a)),
            decreases self.regions@.len() - i,
        {
            let existing = &self.regions[i];
            proof {
                assert(self.regions@[i as int].wf());
            }
            let overlap = existing.data.len() > 0 && region.data.len() > 0
                && (existing.start as u64) < region.start as u64 + region.data.len() as u64
                && (region.start as u64) < existing.start as u64 + existing.data.len() as u64;
            if overlap {
                proof {
                    let witness = if self.regions@[i as int].start >= region.start {
                        self.regions@[i as int].start
                    } else {
                        region.start
                    };
                    assert(self.regions@[i as int].contains_addr(witness));
                    assert(region.contains_addr(witness));
                    assert(self.mapped(witness));
                    assert(!self.can_mount(region));
                }
                return false;
            }
            proof {
                assert forall|a: u32|
                    !(#[trigger] self.regions@[i as int].contains_addr(a)
                        && region.contains_addr(a)) by {
                    if self.regions@[i as int].contains_addr(a) && region.contains_addr(a) {
                        assert(self.regions@[i as int].data@.len() > 0);
                        assert(region.data@.len() > 0);
                        assert((self.regions@[i as int].start as u64) < region.start as u64
                            + region.data@.len() as u64);
                        assert((region.start as u64) < self.regions@[i as int].start as u64
                            + self.regions@[i as int].data@.len() as u64);
                    }
                }
            }
            i += 1;
        }
        proof {
            assert forall|a: u32| self.mapped(a) implies !region.contains_addr(a) by {
                let k = choose|k: int|
                    0 <= k < self.regions@.len() && (#[trigger] self.regions@[k]).contains_addr(a);
                assert(!(self.regions@[k].contains_addr(a) && region.contains_addr(a)));
            }
            assert(self.can_mount(region));
        }
        let ghost before = *self;
        let ghost added = region;
        let mut regions: Vec<Region> = Vec::new();
        std::mem::swap(&mut regions, &mut self.regions);
        regions.push(region);
        proof {
            assert(before.inv());
            let n = before.regions@.len() as int;
            assert forall|k: int| 0 <= k < regions@.len() implies (#[trigger] regions@[k]).wf() by {
                if k < n {
                    assert(regions@[k] == before.regions@[k]);
                } else {
                    assert(regions@[k] == added);
                }
            }
            assert forall|i: int, j: int|
                0 <= i < regions@.len() && 0 <= j < regions@.len() && i != j implies disjoint(
                #[trigger] regions@[i],
                #[trigger] regions@[j],
            ) by {
                if i < n && j < n {
                    assert(disjoint(before.regions@[i], before.regions@[j]));
                    assert(regions@[i] == before.regions@[i]);
                    assert(regions@[j] == before.regions@[j]);
                } else if i == n {
                    assert(regions@[i] == added);
                    assert forall|a: u32|
                        !(regions@[i].contains_addr(a) && regions@[j].contains_addr(a)) by {
                        if regions@[j].contains_addr(a) {
                            assert(before.regions@[j].contains_addr(a));
                            assert(before.mapped(a));
                        }
                    }
                } else {
                    assert(regions@[j] == added);
                    assert forall|a: u32|
                        !(regions@[i].contains_addr(a) && regions@[j].contains_addr(a)) by {
                        if regions@[i].contains_addr(a) {
                            assert(before.regions@[i].contains_addr(a));
                            assert(before.mapped(a));
                        }
                    }
                }
            }
        }
        self.regions = regions;
        proof {
            lemma_mount_view(before, *self, added);
        }
        true
    }

    /// Reads the byte at `a`, or `None` if no region maps it.
    pub fn get(&self, a: u32) -> (r: Option<u8>)
        ensures
            r == if self.mapped(a) {
                Some(self.value_at(a))
            } else {
                None::<u8>
            },
    {
        proof {
            use_type_invariant(self);
        }
        let mut i: usize = 0;
        while i < self.regions.len()
            invariant
                self.inv(),
                i <= self.regions@.len(),
                forall|k: int| 0 <= k < i ==> !(#[trigger] self.regions@[k]).contains_addr(a),
            decreases self.regions@.len() - i,
        {
            let region = &self.regions[i];
            proof {
                assert(self.regions@[i as int].wf());
            }
            if region.start <= a && (a as u64) < region.start as u64 + region.data.len() as u64 {
                proof {
                    lemma_value_at_region(*self, i as int, a);
                }
                return Some(region.data[(a - region.start) as usize]);
            }
            i += 1;
        }
        proof {
            assert(!self.mapped(a)) by {
                if self.mapped(a) {
                    let k = choose|k: int|
                        0 <= k < self.regions@.len() && (#[trigger] self.regions@[k]).contains_addr(
                            a,
                        );
                }
            }
        }
        None
    }

    /// Writes `value` at `a` if some region maps it, and reports whether it
    /// did; unmapped addresses are left untouched.
    pub fn set(&mut self, a: u32, value: u8) -> (r: bool)
        ensures
            r == old(self).mapped(a),
            forall|x: u32| final(self).mapped(x) == old(self).mapped(x),
            old(self).mapped(a) ==> final(self).value_at(a) == value,
            forall|x: u32|
                old(self).mapped(x) && x != a ==> final(self).value_at(x) == old(self).value_at(x),
            !old(self).mapped(a) ==> *final(self) == *old(self),
    {
        proof {
            use_type_invariant(&*self);
        }
        let ghost before = *self;
        proof {
            assert(before.inv());
        }
        let mut regions: Vec<Region> = Vec::new();
        std::mem::swap(&mut regions, &mut self.regions);
        let mut i: usize = 0;
        while i < regions.len()
            invariant
                before.inv(),
                before == *old(self),
                regions == before.regions,
                i <= regions@.len(),
                forall|k: int| 0 <= k < i ==> !(#[trigger] regions@[k]).contains_addr(a),
            decreases regions@.len() - i,
        {
            proof {
                assert(regions@[i as int] == before.regions@[i as int]);
                assert(before.regions@[i as int].wf());
            }
            let found = {
                let region = &regions[i];
                region.start <= a && (a as u64) < region.start as u64 + region.data.len() as u64
            };
            if found {
                proof {
                    assert(before.regions@[i as int].contains_addr(a));
                    assert((a - before.regions@[i as int].start) < before.regions@[
                        i as int].data@.len());
                }
                let region = &mut regions[i];
                let offset = (a - region.start) as usize;
                region.data[offset] = value;
                proof {
                    assert(regions@[i as int].start == before.regions@[i as int].start);
                    assert(regions@[i as int].data@ =~= before.regions@[i as int].data@.update(
                        a - before.regions@[i as int].start,
                        value,
                    ));
                    assert forall|k: int|
                        0 <= k < regions@.len() implies (#[trigger] regions@[k]).start
                        == before.regions@[k].start && regions@[k].data@.len()
                        == before.regions@[k].data@.len() by {
                        if k != i as int {
                            assert(regions@[k] == before.regions@[k]);
                        }
                    }
                    lemma_same_shape_inv(before, SectionMemory { regions });
                }
                self.regions = regions;
                proof {
                    use_type_invariant(&*self);
                    lemma_same_shape_mapped(before, *self);
                    assert(before.regions@[i as int].contains_addr(a));
                    assert(before.mapped(a));
                    assert(self.regions@[i as int].contains_addr(a));
                    lemma_value_at_region(*self, i as int, a);
                    assert(self.regions@[i as int].byte_at(a) == value);
                    assert forall|x: u32|
                        before.mapped(x) && x != a implies self.value_at(x) == before.value_at(
                        x,
                    ) by {
                        let k = choose|k: int|
                            0 <= k < before.regions@.len() && (#[trigger] before.regions@[k])
                                .contains_addr(x);
                        lemma_value_at_region(before, k, x);
                        assert(self.regions@[k].contains_addr(x));
                        lemma_value_at_region(*self, k, x);
                        if k == i as int {
                            assert(self.regions@[k].byte_at(x) == before.regions@[k].byte_at(x));
                        } else {
                            assert(self.regions@[k] == before.regions@[k]);
                        }
                    }
                }
                return true;
            }
            i += 1;
        }
        self.regions = regions;
        proof {
            assert(!self.mapped(a)) by {
                if self.mapped(a) {
                    let k = choose|k: int|
                        0 <= k < self.regions@.len() && (#[trigger] self.regions@[k]).contains_addr(
                            a,
                        );
                }
            }
        }
        false
    }
}

/// With non-overlapping regions, the byte at an address is the byte of any
/// region that contains it.
proof fn lemma_value_at_region(m: SectionMemory, i: int, a: u32)
    requires
        m.inv(),
        0 <= i < m.regions@.len(),
        m.regions@[i].contains_addr(a),
    ensures
        m.mapped(a),
        m.value_at(a) == m.regions@[i].byte_at(a),
{
    assert(m.mapped(a));
    let k = choose|k: int| 0 <= k < m.regions@.len() && (#[trigger] m.regions@[k]).contains_addr(a);
    if k != i {
        assert(disjoint(m.regions@[k], m.regions@[i]));
        assert(false);
    }
}

/// Memories whose regions agree on starts and lengths map the same
/// addresses.
proof fn lemma_same_shape_mapped(m1: SectionMemory, m2: SectionMemory)
    requires
        m1.regions@.len() == m2.regions@.len(),
        forall|k: int|
            0 <= k < m1.regions@.len() ==> (#[trigger] m2.regions@[k]).start == m1.regions@[k].start
                && m2.regions@[k].data@.len() == m1.regions@[k].data@.len(),
    ensures
        forall|a: u32| m1.mapped(a) == m2.mapped(a),
{
    assert forall|a: u32| m1.mapped(a) == m2.mapped(a) by {
        if m1.mapped(a) {
            let k = choose|k: int|
                0 <= k < m1.regions@.len() && (#[trigger] m1.regions@[k]).contains_addr(a);
            assert(m2.regions@[k].contains_addr(a));
        }
        if m2.mapped(a) {
            let k = choose|k: int|
                0 <= k < m2.regions@.len() && (#[trigger] m2.regions@[k]).contains_addr(a);
            assert(m1.regions@[k].contains_addr(a));
        }
    }
}

/// A memory with the same region starts and lengths as a well-formed one is
/// itself well-formed.
proof fn lemma_same_shape_inv(m1: SectionMemory, m2: SectionMemory)
    requires
        m1.inv(),
        m1.regions@.len() == m2.regions@.len(),
        forall|k: int|
            0 <= k < m1.regions@.len() ==> (#[trigger] m2.regions@[k]).start == m1.regions@[k].start
                && m2.regions@[k].data@.len() == m1.regions@[k].data@.len(),
    ensures
        m2.inv(),
{
    assert forall|k: int| 0 <= k < m2.regions@.len() implies (#[trigger] m2.regions@[k]).wf() by {
        assert(m1.regions@[k].wf());
    }
    assert forall|i: int, j: int|
        0 <= i < m2.regions@.len() && 0 <= j < m2.regions@.len() && i != j implies disjoint(
        #[trigger] m2.regions@[i],
        #[trigger] m2.regions@[j],
    ) by {
        assert(disjoint(m1.regions@[i], m1.regions@[j]));
        assert forall|a: u32|
            !(m2.regions@[i].contains_addr(a) && m2.regions@[j].contains_addr(a)) by {
            assert(!(m1.regions@[i].contains_addr(a) && m1.regions@[j].contains_addr(a)));
        }
    }
}

/// After appending a mountable region, the memory maps the union of the old
/// addresses and the region's range, with the old bytes kept and the
/// region's bytes over its own range.
proof fn lemma_mount_view(before: SectionMemory, after: SectionMemory, region: Region)
    requires
        before.inv(),
        after.inv(),
        before.can_mount(region),
        after.regions@ == before.regions@.push(region),
    ensures
        forall|a: u32| after.mapped(a) == (before.mapped(a) || region.contains_addr(a)),
        forall|a: u32| region.contains_addr(a) ==> after.value_at(a) == region.byte_at(a),
        forall|a: u32| before.mapped(a) ==> after.value_at(a) == before.value_at(a),
{
    let n = before.regions@.len() as int;
    assert forall|a: u32| after.mapped(a) == (before.mapped(a) || region.contains_addr(a)) by {
        if after.mapped(a) {
            let k = choose|k: int|
                0 <= k < after.regions@.len() && (#[trigger] after.regions@[k]).contains_addr(a);
            if k < n {
                assert(before.regions@[k].contains_addr(a));
                assert(before.mapped(a));
            } else {
                assert(after.regions@[k] == region);
            }
        }
        if before.mapped(a) {
            let k = choose|k: int|
                0 <= k < before.regions@.len() && (#[trigger] before.regions@[k]).contains_addr(a);
            assert(after.regions@[k].contains_addr(a));
            assert(after.mapped(a));
        }
        if region.contains_addr(a) {
            assert(after.regions@[n].contains_addr(a));
            assert(after.mapped(a));
        }
    }
    assert forall|a: u32| region.contains_addr(a) implies after.value_at(a) == region.byte_at(
        a,
    ) by {
        assert(after.regions@[n].contains_addr(a));
        lemma_value_at_region(after, n, a);
        assert(after.regions@[n] == region);
    }
    assert forall|a: u32| before.mapped(a) implies after.value_at(a) == before.value_at(a) by {
        let k = choose|k: int|
            0 <= k < before.regions@.len() && (#[trigger] before.regions@[k]).contains_addr(a);
        lemma_value_at_region(before, k, a);
        assert(after.regions@[k].contains_addr(a));
        lemma_value_at_region(after, k, a);
        assert(after.regions@[k] == before.regions@[k]);
    }
}

} // verus!
