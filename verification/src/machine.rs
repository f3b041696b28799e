//! Machine state and the image builder that initializes it.
//!
//! A [`MachineState`] is the mutable record a session drives: program
//! counter, a 32-entry general register file, the two accumulators, and a
//! region-partitioned memory. The builder mounts the program's regions at
//! their declared addresses, a zero-filled heap just below a fixed
//! top-of-address-space ceiling, and the two fixed-address device regions
//! (display output and keyboard input).

use vstd::prelude::*;

use crate::memory::Region;
use crate::memory::SectionMemory;

verus! {

/// One past the last heap address: the heap is mounted immediately below it.
pub const HEAP_CEILING: u32 = 0x7FFF_FFFC;

/// Start of the fixed display output region.
pub const SCREEN_BASE: u32 = 0x1000_8000;

/// Size of the fixed display output region in bytes.
pub const SCREEN_SIZE: u32 = 0x4_0000;

/// Start of the fixed keyboard input region.
pub const KEYBOARD_BASE: u32 = 0xFFFF_0000;

/// Size of the fixed keyboard input region in bytes.
pub const KEYBOARD_SIZE: u32 = 0x100;

/// Heap size used when configuring a session.
pub const DEFAULT_HEAP_SIZE: u32 = 0x10_0000;

/// Whether `a` lies in the heap mounted for the given heap size.
pub open spec fn in_heap(heap_size: u32, a: u32) -> bool {
    HEAP_CEILING - heap_size <= a < HEAP_CEILING
}

/// Whether `a` lies in the fixed display output region.
pub open spec fn in_screen(a: u32) -> bool {
    SCREEN_BASE <= a < SCREEN_BASE + SCREEN_SIZE
}

/// Whether `a` lies in the fixed keyboard input region.
pub open spec fn in_keyboard(a: u32) -> bool {
    KEYBOARD_BASE <= a < KEYBOARD_BASE + KEYBOARD_SIZE
}

/// Whether `a` lies in a region the builder mounts besides the program's
/// own: heap, display, keyboard.
pub open spec fn fixed_mapped(heap_size: u32, a: u32) -> bool {
    in_heap(heap_size, a) || in_screen(a) || in_keyboard(a)
}

/// Whether one of the first `k` program regions contains `a`.
pub open spec fn prefix_mapped(regions: Seq<Region>, k: int, a: u32) -> bool {
    exists|i: int| 0 <= i < k && (#[trigger] regions[i].contains_addr(a))
}

/// Whether some program region contains `a`.
pub open spec fn user_mapped(regions: Seq<Region>, a: u32) -> bool {
    prefix_mapped(regions, regions.len() as int, a)
}

/// The inputs from which a machine can be built: the heap fits below its
/// ceiling and misses the display region, every program region fits in the
/// address space, and no two mounted ranges share an address.
pub open spec fn layout_ok(regions: Seq<Region>, heap_size: u32) -> bool {
    &&& heap_size <= HEAP_CEILING
    &&& forall|a: u32| !(in_heap(heap_size, a) && in_screen(a))
    &&& forall|i: int| 0 <= i < regions.len() ==> (#[trigger] regions[i]).wf()
    &&& forall|i: int, j: int, a: u32|
        0 <= i < regions.len() && 0 <= j < regions.len() && i != j ==> !(
        #[trigger] regions[i].contains_addr(a) && #[trigger] regions[j].contains_addr(a))
    &&& forall|i: int, a: u32|
        0 <= i < regions.len() && #[trigger] regions[i].contains_addr(a) ==> !fixed_mapped(
            heap_size,
            a,
        )
}

/// What a built memory holds: exactly the program regions plus heap,
/// display and keyboard are mapped; program bytes come from their regions
/// and everything else starts zeroed.
pub open spec fn built_memory(regions: Seq<Region>, heap_size: u32, m: SectionMemory) -> bool {
    &&& forall|a: u32|
        #[trigger] m.mapped(a) == (user_mapped(regions, a) || fixed_mapped(heap_size, a))
    &&& forall|i: int, a: u32|
        0 <= i < regions.len() && #[trigger] regions[i].contains_addr(a) ==> m.value_at(a)
            == regions[i].byte_at(a)
    &&& forall|a: u32|
        fixed_mapped(heap_size, a) && !user_mapped(regions, a) ==> #[trigger] m.value_at(a) == 0
}

/// The mutable state of one debugged machine.
pub struct MachineState {
    /// Program counter: address of the next instruction.
    pub pc: u32,
    /// General register file.
    pub registers: [u32; 32],
    /// High accumulator.
    pub hi: u32,
    /// Low accumulator.
    pub lo: u32,
    /// Region-partitioned memory.
    pub memory: SectionMemory,
}

/// A region of `size` zero bytes starting at `start`.
fn zero_region(start: u32, size: u32) -> (r: Region)
    ensures
        r.start == start,
        r.data@.len() == size,
        forall|i: int| 0 <= i < size ==> r.data@[i] == 0u8,
{
    let mut data: Vec<u8> = Vec::new();
    let mut i: u32 = 0;
    while i < size
        invariant
            i <= size,
            data@.len() == i,
            forall|j: int| 0 <= j < i ==> data@[j] == 0u8,
        decreases size - i,
    {
        data.push(0u8);
        i += 1;
    }
    Region { start, data }
}

/// Builds a machine from the program's regions, its entry address and a
/// heap size: program counter at the entry, all registers and accumulators
/// zero, and the memory laid out as [`built_memory`] describes. Refuses the
/// build, returning `None`, exactly when the requested layout would overlap
/// or not fit.
pub fn build_machine(regions: Vec<Region>, entry: u32, heap_size: u32) -> (r: Option<MachineState>)
    ensures
        (r is Some) == layout_ok(regions@, heap_size),
        r matches Some(m) ==> m.pc == entry && m.hi == 0 && m.lo == 0 && (forall|i: int|
            0 <= i < 32 ==> m.registers@[i] == 0) && built_memory(regions@, heap_size, m.memory),
{
    let mut memory = SectionMemory::new();

    // Heap, directly below the ceiling.
    if heap_size > HEAP_CEILING {
        proof {
            assert(!layout_ok(regions@, heap_size));
        }
        return None;
    }
    let heap = zero_region(HEAP_CEILING - heap_size, heap_size);
    let ghost heap_r = heap;
    let mounted = memory.mount(heap);
    proof {
        assert(heap_r.wf());
        assert(mounted);
        assert(forall|a: u32| heap_r.contains_addr(a) == in_heap(heap_size, a));
        assert(forall|a: u32| memory.mapped(a) == in_heap(heap_size, a));
        assert(forall|a: u32| in_heap(heap_size, a) ==> memory.value_at(a) == 0);
    }

    // Fixed display output region.
    let screen = zero_region(SCREEN_BASE, SCREEN_SIZE);
    let ghost screen_r = screen;
    let ghost mem_before_screen = memory;
    let screen_ok = memory.mount(screen);
    if !screen_ok {
        proof {
            assert(screen_r.wf());
            let a = choose|a: u32|
                mem_before_screen.mapped(a) && #[trigger] screen_r.contains_addr(a);
            assert(in_heap(heap_size, a) && in_screen(a));
            assert(!layout_ok(regions@, heap_size));
        }
        return None;
    }
    proof {
        assert(forall|a: u32| screen_r.contains_addr(a) == in_screen(a));
        assert(forall|a: u32|
            memory.mapped(a) == (in_heap(heap_size, a) || in_screen(a)));
        assert(forall|a: u32|
            (in_heap(heap_size, a) || in_screen(a)) ==> memory.value_at(a) == 0);
        assert(forall|a: u32| !(in_heap(heap_size, a) && in_screen(a))) by {
            assert(forall|a: u32|
                mem_before_screen.mapped(a) ==> !screen_r.contains_addr(a));
        }
    }

    // Fixed keyboard input region; it lies above both the heap ceiling and
    // the display region, so it can always be mounted.
    let keyboard = zero_region(KEYBOARD_BASE, KEYBOARD_SIZE);
    let ghost keyboard_r = keyboard;
    let ghost mem_before_kbd = memory;
    let kbd_ok = memory.mount(keyboard);
    proof {
        assert forall|a: u32| mem_before_kbd.mapped(a) implies !keyboard_r.contains_addr(a) by {
            assert(in_heap(heap_size, a) || in_screen(a));
        }
        assert(kbd_ok);
        assert(forall|a: u32| keyboard_r.contains_addr(a) == in_keyboard(a));
        assert(forall|a: u32| memory.mapped(a) == fixed_mapped(heap_size, a));
        assert(forall|a: u32| fixed_mapped(heap_size, a) ==> memory.value_at(a) == 0);
    }

    // The program's own regions, at their declared addresses.
    let ghost orig = regions@;
    let mut rest = regions;
    let ghost mut k: int = 0;
    while rest.len() > 0
        invariant
            orig == regions@,
            0 <= k,
            k + rest@.len() == orig.len(),
            rest@ == orig.subrange(k as int, orig.len() as int),
            heap_size <= HEAP_CEILING,
            forall|a: u32| !(in_heap(heap_size, a) && in_screen(a)),
            forall|a: u32|
                #[trigger] memory.mapped(a) == (prefix_mapped(orig, k as int, a) || fixed_mapped(
                    heap_size,
                    a,
                )),
            forall|i: int, a: u32|
                0 <= i < k && #[trigger] orig[i].contains_addr(a) ==> memory.value_at(a)
                    == orig[i].byte_at(a),
            forall|a: u32|
                fixed_mapped(heap_size, a) && !prefix_mapped(orig, k as int, a)
                    ==> #[trigger] memory.value_at(a) == 0,
            forall|i: int| 0 <= i < k ==> (#[trigger] orig[i]).wf(),
            forall|i: int, j: int, a: u32|
                0 <= i < k && 0 <= j < k && i != j ==> !(#[trigger] orig[i].contains_addr(a)
                    && #[trigger] orig[j].contains_addr(a)),
            forall|i: int, a: u32|
                0 <= i < k && #[trigger] orig[i].contains_addr(a) ==> !fixed_mapped(heap_size, a),
        decreases rest@.len(),
    {
        let region = rest.remove(0);
        let ghost region_g = region;
        proof {
            assert(orig.subrange(k as int, orig.len() as int)[0] == orig[k as int]);
            assert(region_g == orig[k as int]);
        }
        let ghost mem_before = memory;
        let ok = memory.mount(region);
        if !ok {
            proof {
                if !region_g.wf() {
                    assert(!(#[trigger] orig[k as int]).wf());
                    assert(!layout_ok(orig, heap_size));
                } else {
                    let a = choose|a: u32|
                        mem_before.mapped(a) && #[trigger] region_g.contains_addr(a);
                    if prefix_mapped(orig, k as int, a) {
                        let i = choose|i: int|
                            0 <= i < k && (#[trigger] orig[i].contains_addr(a));
                        assert(orig[i].contains_addr(a) && orig[k as int].contains_addr(a));
                        assert(!layout_ok(orig, heap_size));
                    } else {
                        assert(fixed_mapped(heap_size, a));
                        assert(orig[k as int].contains_addr(a));
                        assert(!layout_ok(orig, heap_size));
                    }
                }
            }
            return None;
        }
        proof {
            assert forall|a: u32|
                #[trigger] memory.mapped(a) == (prefix_mapped(orig, k as int + 1, a)
                    || fixed_mapped(heap_size, a)) by {
                if memory.mapped(a) {
                    if region_g.contains_addr(a) {
                        assert(orig[k as int].contains_addr(a));
                        assert(prefix_mapped(orig, k as int + 1, a));
                    } else {
                        assert(mem_before.mapped(a));
                        if prefix_mapped(orig, k as int, a) {
                            let i = choose|i: int|
                                0 <= i < k && (#[trigger] orig[i].contains_addr(a));
                            assert(prefix_mapped(orig, k as int + 1, a));
                        }
                    }
                }
                if prefix_mapped(orig, k as int + 1, a) {
                    let i = choose|i: int|
                        0 <= i < k + 1 && (#[trigger] orig[i].contains_addr(a));
                    if i < k {
                        assert(prefix_mapped(orig, k as int, a));
                        assert(mem_before.mapped(a));
                    } else {
                        assert(region_g.contains_addr(a));
                    }
                }
                if fixed_mapped(heap_size, a) {
                    assert(mem_before.mapped(a));
                }
            }
            assert forall|i: int, a: u32|
                0 <= i < k + 1 && #[trigger] orig[i].contains_addr(a) implies memory.value_at(a)
                == orig[i].byte_at(a) by {
                if i < k {
                    assert(mem_before.mapped(a));
                    assert(mem_before.value_at(a) == orig[i].byte_at(a));
                } else {
                    assert(region_g.contains_addr(a));
                }
            }
            assert forall|a: u32|
                fixed_mapped(heap_size, a) && !prefix_mapped(orig, k as int + 1, a)
                    implies #[trigger] memory.value_at(a) == 0 by {
                assert(mem_before.mapped(a));
                assert(!prefix_mapped(orig, k as int, a));
                assert(!region_g.contains_addr(a)) by {
                    if region_g.contains_addr(a) {
                        assert(orig[k as int].contains_addr(a));
                        assert(prefix_mapped(orig, k as int + 1, a));
                    }
                }
            }
            assert forall|i: int, j: int, a: u32|
                0 <= i < k + 1 && 0 <= j < k + 1 && i != j implies !(#[trigger] orig[
                i].contains_addr(a) && #[trigger] orig[j].contains_addr(a)) by {
                if orig[i].contains_addr(a) && orig[j].contains_addr(a) {
                    if i < k && j < k {
                    } else if i == k {
                        assert(prefix_mapped(orig, k as int, a));
                        assert(mem_before.mapped(a));
                        assert(!region_g.contains_addr(a));
                    } else {
                        assert(prefix_mapped(orig, k as int, a));
                        assert(mem_before.mapped(a));
                        assert(!region_g.contains_addr(a));
                    }
                }
            }
            assert forall|i: int, a: u32|
                0 <= i < k + 1 && #[trigger] orig[i].contains_addr(a) implies !fixed_mapped(
                heap_size,
                a,
            ) by {
                if i == k && fixed_mapped(heap_size, a) {
                    assert(mem_before.mapped(a));
                    assert(!region_g.contains_addr(a));
                }
            }
            assert(rest@ =~= orig.subrange(k as int + 1, orig.len() as int));
            k = k + 1;
        }
    }
    proof {
        assert(k == orig.len());
        assert(layout_ok(orig, heap_size));
        assert(built_memory(orig, heap_size, memory));
    }
    Some(
        MachineState {
            pc: entry,
            registers: [0u32; 32],
            hi: 0,
            lo: 0,
            memory,
        },
    )
}

/// The number of addresses `read_bytes` covers: `count`, clamped so the
/// window never runs past the last representable address.
pub open spec fn window_len(address: u32, count: u32) -> int {
    if address + count <= 0x1_0000_0000 {
        count as int
    } else {
        0x1_0000_0000 - address
    }
}

/// What reading `count` bytes at `address` yields: per position, the byte
/// if that address is mapped and an absence marker if it is not.
pub open spec fn read_window(m: SectionMemory, address: u32, count: u32) -> Seq<Option<u8>> {
    Seq::new(
        window_len(address, count) as nat,
        |i: int|
            if m.mapped((address + i) as u32) {
                Some(m.value_at((address + i) as u32))
            } else {
                None
            },
    )
}

/// How a memory changes when `bytes` are written at `address`: no address
/// is mapped or unmapped by a write; each mapped address in the window
/// takes its byte; unmapped addresses are silently skipped; everything
/// outside the window keeps its value.
pub open spec fn bytes_written(
    m_old: SectionMemory,
    m_new: SectionMemory,
    address: u32,
    bytes: Seq<u8>,
) -> bool {
    &&& forall|x: u32| #[trigger] m_new.mapped(x) == m_old.mapped(x)
    &&& forall|i: int|
        0 <= i < bytes.len() && address + i < 0x1_0000_0000 && m_old.mapped((address + i) as u32)
            ==> m_new.value_at((address + i) as u32) == bytes[i]
    &&& forall|x: u32|
        m_old.mapped(x) && !(address <= x && x < address + bytes.len())
            ==> #[trigger] m_new.value_at(x) == m_old.value_at(x)
}

/// How a machine changes when register `register` is set to `value`:
/// indices 0 through 31 update the general register file, 32 the high
/// accumulator, 33 the low accumulator, and any other index changes
/// nothing; the program counter and memory are never touched.
pub open spec fn register_set(
    m_old: MachineState,
    m_new: MachineState,
    register: u32,
    value: u32,
) -> bool {
    &&& m_new.pc == m_old.pc
    &&& m_new.memory == m_old.memory
    &&& (register < 32 ==> m_new.registers@ == m_old.registers@.update(register as int, value)
        && m_new.hi == m_old.hi && m_new.lo == m_old.lo)
    &&& (register == 32 ==> m_new.hi == value && m_new.registers == m_old.registers && m_new.lo
        == m_old.lo)
    &&& (register == 33 ==> m_new.lo == value && m_new.registers == m_old.registers && m_new.hi
        == m_old.hi)
    &&& (register > 33 ==> m_new == m_old)
}

impl MachineState {
    /// Reads `count` bytes starting at `address`, one optional byte per
    /// address: a value where the address is mapped, an absence marker
    /// where it is not. A window that would run past the largest address is
    /// clamped there rather than wrapping around.
    pub fn read_bytes(&self, address: u32, count: u32) -> (r: Vec<Option<u8>>)
        ensures
            r@ == read_window(self.memory, address, count),
    {
        let len: u64 = if address as u64 + count as u64 <= 0x1_0000_0000u64 {
            count as u64
        } else {
            0x1_0000_0000u64 - address as u64
        };
        let mut out: Vec<Option<u8>> = Vec::new();
        let mut i: u64 = 0;
        while i < len
            invariant
                len == window_len(address, count),
                len <= u32::MAX as u64 + 1,
                address + len <= 0x1_0000_0000,
                i <= len,
                out@.len() == i,
                forall|j: int|
                    0 <= j < i ==> out@[j] == read_window(self.memory, address, count)[j],
            decreases len - i,
        {
            let a = address + i as u32;
            out.push(self.memory.get(a));
            i += 1;
        }
        proof {
            assert(out@ =~= read_window(self.memory, address, count));
        }
        out
    }

    /// Writes `bytes` starting at `address`, byte by byte in order,
    /// silently skipping unmapped addresses; a write that would run past
    /// the largest address stops there rather than wrapping around.
    pub fn write_bytes(&mut self, address: u32, bytes: &Vec<u8>)
        ensures
            bytes_written(old(self).memory, final(self).memory, address, bytes@),
            final(self).pc == old(self).pc,
            final(self).registers == old(self).registers,
            final(self).hi == old(self).hi,
            final(self).lo == old(self).lo,
    {
        let len: u64 = if bytes.len() as u64 <= 0x1_0000_0000u64 - address as u64 {
            bytes.len() as u64
        } else {
            0x1_0000_0000u64 - address as u64
        };
        let mut i: u64 = 0;
        while i < len
            invariant
                len <= bytes@.len(),
                address + len <= 0x1_0000_0000,
                bytes@.len() > len ==> address + bytes@.len() >= 0x1_0000_0000,
                i <= len,
                self.pc == old(self).pc,
                self.registers == old(self).registers,
                self.hi == old(self).hi,
                self.lo == old(self).lo,
                forall|x: u32| #[trigger] self.memory.mapped(x) == old(self).memory.mapped(x),
                forall|j: int|
                    0 <= j < i && old(self).memory.mapped((address + j) as u32)
                        ==> self.memory.value_at((address + j) as u32) == bytes@[j],
                forall|x: u32|
                    old(self).memory.mapped(x) && !(address <= x && x < address + i)
                        ==> #[trigger] self.memory.value_at(x) == old(self).memory.value_at(x),
            decreases len - i,
        {
            let a = address + i as u32;
            let ghost prev = self.memory;
            self.memory.set(a, bytes[i as usize]);
            proof {
                assert forall|j: int|
                    0 <= j < i + 1 && old(self).memory.mapped((address + j) as u32)
                        implies self.memory.value_at((address + j) as u32) == bytes@[j] by {
                    if j < i {
                        assert((address + j) as u32 != a);
                        assert(prev.value_at((address + j) as u32) == bytes@[j]);
                    }
                }
            }
            i += 1;
        }
        proof {
            assert forall|j: int|
                0 <= j < bytes@.len() && address + j < 0x1_0000_0000 && old(self).memory.mapped(
                    (address + j) as u32,
                ) implies self.memory.value_at((address + j) as u32) == bytes@[j] by {
                assert(j < len);
            }
        }
    }

    /// Sets one register by index: 0 through 31 name the general registers,
    /// 32 the high accumulator, 33 the low accumulator; any other index is
    /// silently ignored and leaves the machine unchanged.
    pub fn set_register(&mut self, register: u32, value: u32)
        ensures
            register_set(*old(self), *final(self), register, value),
    {
        if register < 32 {
            self.registers[register as usize] = value;
        } else if register == 32 {
            self.hi = value;
        } else if register == 33 {
            self.lo = value;
        }
    }
}

/// Reading a window, writing back the bytes that were read (with any
/// filler at the absent positions), and reading again yields the first
/// read: the mapped addresses give back their original bytes and the
/// unmapped addresses are absent both times.
pub proof fn lemma_read_write_read_round_trip(
    m0: SectionMemory,
    m1: SectionMemory,
    address: u32,
    count: u32,
    bytes: Seq<u8>,
)
    requires
        bytes.len() == window_len(address, count),
        forall|i: int|
            0 <= i < bytes.len() && m0.mapped((address + i) as u32) ==> bytes[i] == m0.value_at(
                (address + i) as u32,
            ),
        bytes_written(m0, m1, address, bytes),
    ensures
        read_window(m1, address, count) == read_window(m0, address, count),
{
    assert forall|i: int| 0 <= i < window_len(address, count) implies read_window(
        m1,
        address,
        count,
    )[i] == read_window(m0, address, count)[i] by {
        let a = (address + i) as u32;
        assert(m1.mapped(a) == m0.mapped(a));
        if m0.mapped(a) {
            assert(address + i < 0x1_0000_0000);
            assert(m1.value_at(a) == bytes[i]);
        }
    }
    assert(read_window(m1, address, count) =~= read_window(m0, address, count));
}

} // verus!
