//! Minimal MMIO device bus.
//!
//! KVM reports a guest access to an address that no memory region backs as an
//! MMIO exit. The bus routes each such access to the device registered for the
//! matching guest-physical range.

use vm_memory::GuestMemoryMmap;
use vstd::prelude::*;

use crate::vmm::memory::guest_bytes;

verus! {

/// A device reachable over the MMIO bus.
///
/// `offset` is relative to the device's base address and strictly below its
/// registered length. A device may say in [`MmioDevice::reads`] and
/// [`MmioDevice::writes`] what an access does to it; one that says nothing promises
/// nothing.
pub trait MmioDevice: Send + Sized {
    /// Whether a read at `offset` into a buffer holding `data` may leave the
    /// device as `after` and the buffer as `result`.
    open spec fn reads(before: Self, offset: u64, data: Seq<u8>, after: Self, result: Seq<u8>) -> bool {
        true
    }

    /// Whether a write of `data` at `offset` may leave the device as `after` and
    /// guest memory, which held `bytes`, as `result`.
    open spec fn writes(
        before: Self,
        offset: u64,
        data: Seq<u8>,
        bytes: Map<int, u8>,
        after: Self,
        result: Map<int, u8>,
    ) -> bool {
        true
    }

    /// Handles a guest read of `data.len()` bytes at `offset` within the device.
    fn mmio_read(&mut self, offset: u64, data: &mut [u8])
        ensures
            Self::reads(*old(self), offset, old(data)@, *final(self), final(data)@),
    ;

    /// Handles a guest write of `data` at `offset` within the device.
    ///
    /// `guest_memory` lets a device follow guest-physical pointers, such as a
    /// virtqueue, when a register write asks it to.
    fn mmio_write(&mut self, offset: u64, data: &[u8], guest_memory: &mut GuestMemoryMmap)
        ensures
            Self::writes(
                *old(self),
                offset,
                data@,
                guest_bytes(*old(guest_memory)),
                *final(self),
                guest_bytes(*final(guest_memory)),
            ),
    ;
}

/// One device occupying the guest-physical range `[base, base + len)`.
pub struct MmioRegion<D> {
    pub base: u64,
    pub len: u64,
    pub device: D,
}

/// Routes guest MMIO accesses to the device registered for each address range.
pub struct MmioBus<D> {
    regions: Vec<MmioRegion<D>>,
}

/// The range `[base, base + len)` holds `addr`.
pub open spec fn contains_addr(base: u64, len: u64, addr: u64) -> bool {
    base <= addr < base + len
}

/// Returns `true` iff the range `[base, base + len)` contains `addr`.
pub fn region_contains(base: u64, len: u64, addr: u64) -> (contained: bool)
    ensures
        contained == contains_addr(base, len, addr),
{
    addr >= base && addr - base < len
}

/// Region `i` is the one that an access to `addr` goes to: the first registered
/// one that holds it.
pub open spec fn routes_to<D>(regions: Seq<MmioRegion<D>>, addr: u64, i: int) -> bool {
    &&& 0 <= i < regions.len()
    &&& contains_addr(regions[i].base, regions[i].len, addr)
    &&& forall|j: int| 0 <= j < i ==> !contains_addr((#[trigger] regions[j]).base, regions[j].len, addr)
}

/// `after` differs from `before` at most in the device of region `i`.
pub open spec fn only_device_changed<D>(
    before: Seq<MmioRegion<D>>,
    after: Seq<MmioRegion<D>>,
    i: int,
) -> bool {
    &&& after.len() == before.len()
    &&& after[i].base == before[i].base
    &&& after[i].len == before[i].len
    &&& forall|j: int| 0 <= j < before.len() && j != i ==> #[trigger] after[j] == before[j]
}

impl<D> View for MmioBus<D> {
    type V = Seq<MmioRegion<D>>;

    closed spec fn view(&self) -> Seq<MmioRegion<D>> {
        self.regions@
    }
}

impl<D: MmioDevice> MmioBus<D> {
    /// Creates an empty bus.
    pub fn new() -> (bus: Self)
        ensures
            bus@ == Seq::<MmioRegion<D>>::empty(),
    {
        MmioBus { regions: Vec::new() }
    }

    /// Registers `device` for the guest-physical range `[base, base + len)`.
    pub fn register(&mut self, base: u64, len: u64, device: D)
        ensures
            final(self)@ == old(self)@.push(MmioRegion { base, len, device }),
    {
        self.regions.push(MmioRegion { base, len, device });
    }

    /// The region that an access to `addr` goes to.
    fn route(&self, addr: u64) -> (found: Option<usize>)
        ensures
            match found {
                Some(i) => routes_to(self@, addr, i as int),
                None => forall|i: int| !routes_to(self@, addr, i),
            },
    {
        let mut i: usize = 0;
        while i < self.regions.len()
            invariant
                i <= self.regions@.len(),
                forall|j: int|
                    0 <= j < i ==> !contains_addr(
                        (#[trigger] self.regions@[j]).base,
                        self.regions@[j].len,
                        addr,
                    ),
            decreases self.regions@.len() - i,
        {
            if region_contains(self.regions[i].base, self.regions[i].len, addr) {
                return Some(i);
            }
            i = i + 1;
        }
        None
    }

    /// Routes a guest MMIO read to its device. Returns `false` if no device owns
    /// `addr`; the caller then supplies zeros to the guest.
    pub fn read(&mut self, addr: u64, data: &mut [u8]) -> (routed: bool)
        ensures
            routed <==> exists|i: int| routes_to(old(self)@, addr, i),
            !routed ==> final(self)@ == old(self)@ && final(data)@ == old(data)@,
            routed ==> exists|i: int|
                {
                    &&& #[trigger] routes_to(old(self)@, addr, i)
                    &&& only_device_changed(old(self)@, final(self)@, i)
                    &&& D::reads(
                        old(self)@[i].device,
                        (addr - old(self)@[i].base) as u64,
                        old(data)@,
                        final(self)@[i].device,
                        final(data)@,
                    )
                },
    {
        match self.route(addr) {
            Some(i) => {
                let ghost before = self@;
                let offset: u64 = addr - self.regions[i].base;
                self.regions[i].device.mmio_read(offset, data);
                assert(routes_to(before, addr, i as int));
                true
            },
            None => false,
        }
    }

    /// Routes a guest MMIO write to its device. Returns `false` if no device owns
    /// `addr`.
    pub fn write(&mut self, addr: u64, data: &[u8], guest_memory: &mut GuestMemoryMmap) -> (routed: bool)
        ensures
            routed <==> exists|i: int| routes_to(old(self)@, addr, i),
            !routed ==> final(self)@ == old(self)@ && guest_bytes(*final(guest_memory))
                == guest_bytes(*old(guest_memory)),
            routed ==> exists|i: int|
                {
                    &&& #[trigger] routes_to(old(self)@, addr, i)
                    &&& only_device_changed(old(self)@, final(self)@, i)
                    &&& D::writes(
                        old(self)@[i].device,
                        (addr - old(self)@[i].base) as u64,
                        data@,
                        guest_bytes(*old(guest_memory)),
                        final(self)@[i].device,
                        guest_bytes(*final(guest_memory)),
                    )
                },
    {
        match self.route(addr) {
            Some(i) => {
                let ghost before = self@;
                let offset: u64 = addr - self.regions[i].base;
                self.regions[i].device.mmio_write(offset, data, guest_memory);
                assert(routes_to(before, addr, i as int));
                true
            },
            None => false,
        }
    }
}

/// An access goes to at most one region.
pub proof fn law_route_is_unique<D>(regions: Seq<MmioRegion<D>>, addr: u64, i: int, j: int)
    requires
        routes_to(regions, addr, i),
        routes_to(regions, addr, j),
    ensures
        i == j,
{
}

/// A device never sees an offset at or past the length it was registered with.
pub proof fn law_offset_is_in_range<D>(regions: Seq<MmioRegion<D>>, addr: u64, i: int)
    requires
        routes_to(regions, addr, i),
    ensures
        0 <= addr - regions[i].base < regions[i].len,
{
}

/// A region holds nothing below its base, and an empty region holds nothing.
pub proof fn law_region_bounds(base: u64, len: u64, addr: u64)
    ensures
        addr < base ==> !contains_addr(base, len, addr),
        !contains_addr(base, 0, addr),
{
}

/// An access goes to the region that holds its address, and to the first registered one
/// if several do; it goes nowhere exactly if no region holds it.
pub proof fn law_first_region_is_routed_to<D>(regions: Seq<MmioRegion<D>>, addr: u64, i: int)
    requires
        0 <= i < regions.len(),
        regions[i].base <= addr,
        addr - regions[i].base < regions[i].len,
    ensures
        exists|j: int| 0 <= j <= i && routes_to(regions, addr, j),
        (forall|j: int|
            0 <= j < i ==> addr < (#[trigger] regions[j]).base || addr - regions[j].base >= regions[j].len)
            ==> routes_to(regions, addr, i),
    decreases i,
{
    if forall|j: int|
        0 <= j < i ==> addr < (#[trigger] regions[j]).base || addr - regions[j].base >= regions[j].len {
        assert(routes_to(regions, addr, i));
    } else {
        let j = choose|j: int|
            0 <= j < i && !(addr < (#[trigger] regions[j]).base || addr - regions[j].base >= regions[j].len);
        law_first_region_is_routed_to(regions, addr, j);
        let k = choose|k: int| 0 <= k <= j && routes_to(regions, addr, k);
        assert(routes_to(regions, addr, k));
    }
}

/// A region that was registered later changes no route that there was.
pub proof fn law_earlier_routes_stay<D>(regions: Seq<MmioRegion<D>>, added: MmioRegion<D>, addr: u64, i: int)
    requires
        routes_to(regions, addr, i),
    ensures
        routes_to(regions.push(added), addr, i),
{
    let all = regions.push(added);
    assert forall|j: int| 0 <= j < i implies !contains_addr((#[trigger] all[j]).base, all[j].len, addr) by {
        assert(all[j] == regions[j]);
    }
}

/// A region holds the addresses from its base on, as many as it is long, also where it
/// ends beyond the last address.
pub proof fn law_region_holds_its_addresses(base: u64, len: u64, addr: u64)
    ensures
        contains_addr(base, len, addr) <==> exists|offset: u64| offset < len && #[trigger] (base + offset) == addr,
{
    if contains_addr(base, len, addr) {
        let offset = (addr - base) as u64;
        assert(offset < len && base + offset == addr);
    }
}

} // verus!
