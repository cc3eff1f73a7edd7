//! Direct kernel boot for x86_64: the boot data structures a Linux kernel expects
//! in guest memory, and the registers that put a vCPU into 64-bit long mode.
//!
//! Every boot structure is kept in the first megabyte, below the kernel:
//!
//! ```text
//!   0x00000500  GDT       (null, 64-bit code, flat data)
//!   0x00000520  IDT       (empty placeholder)
//!   0x00007000  zero page (boot_params: e820 map + cmdline pointer)
//!   0x00009000  PML4      (level-4 page table)
//!   0x0000a000  PDPT      (level-3 page-directory-pointer table)
//!   0x0000b000  PD        (level-2 page directory, 2 MiB pages)
//!   0x00020000  kernel command line (NUL-terminated ASCII)
//!   0x00100000  kernel image / entry point
//! ```

use linux_loader::loader::bootparam::{boot_e820_entry, boot_params};
use linux_loader::loader::elf::Elf;
use linux_loader::loader::KernelLoader;
use vm_memory::{Address, ByteValued, GuestMemoryMmap};
use vstd::arithmetic::div_mod::lemma_fundamental_div_mod_converse;
use vstd::prelude::*;
use vstd::string::StringExecFns;

use crate::bytes::{
    byte_range, from_le_bytes, le_bytes, le_value, lemma_byte_ranges, lemma_le_bytes_len,
    lemma_le_bytes_of_value, lemma_le_round_trip, to_le_bytes, zeros,
};
use crate::text::{decimal, decimal_digits};
use crate::vmm::memory::{
    backed, bytes_at, guest_bytes, lemma_layout_decides, lemma_read_back, lemma_write_elsewhere, loaded,
    write_number, refusal, write_slice, written,
};

verus! {

/// Global Descriptor Table.
pub const BOOT_GDT_ADDR: u64 = 0x500;

/// Interrupt Descriptor Table (empty, but `IDTR` still needs a valid pointer).
pub const BOOT_IDT_ADDR: u64 = 0x520;

/// The Linux x86 boot-protocol "zero page"; 4 KiB-aligned.
pub const ZERO_PAGE_ADDR: u64 = 0x7000;

/// Level-4 page table (PML4).
pub const PML4_ADDR: u64 = 0x9000;

/// Level-3 page table (page-directory-pointer table).
pub const PDPT_ADDR: u64 = 0xa000;

/// Level-2 page table (page directory).
pub const PD_ADDR: u64 = 0xb000;

/// Address of the NUL-terminated kernel command line.
pub const CMDLINE_ADDR: u64 = 0x2_0000;

/// Number of entries in the page directory; each maps a 2 MiB page.
pub const PD_ENTRY_COUNT: u64 = 512;

/// Largest kernel command line the guest's boot buffer accepts.
pub const MAX_GUEST_CMDLINE_LEN: usize = 2048;

/// Kernel command line for a diskless VM (no root filesystem attached).
pub const KERNEL_CMDLINE_DISKLESS: &'static str =
    "earlyprintk=ttyS0 console=ttyS0 reboot=k panic=1 pci=off nox2apic lapic=notscdeadline virtio_mmio.device=1K@0xd0000000:5";

/// Kernel command line for a VM with a virtio-blk root disk: the diskless line
/// plus `root=/dev/vda rw`. On a diskless VM that directive would make the kernel
/// panic looking for an absent root device.
pub const KERNEL_CMDLINE_WITH_DISK: &'static str =
    "earlyprintk=ttyS0 console=ttyS0 reboot=k panic=1 pci=off nox2apic lapic=notscdeadline virtio_mmio.device=1K@0xd0000000:5 root=/dev/vda rw";

/// `CR0.PE`, Protected Mode Enable, and `CR0.PG`, paging enable.
pub const CR0_PE_PG: u64 = 0x8000_0001;

/// `CR4.PAE`, Physical Address Extension.
pub const CR4_PAE: u64 = 0x20;

/// `EFER.LME`, Long Mode Enable, and `EFER.LMA`, Long Mode Active.
pub const EFER_LME_LMA: u64 = 0x500;

/// `RFLAGS` with only the architecturally reserved bit 1 set.
pub const RFLAGS_RESERVED_ONE: u64 = 2;

/// Flags for a page-directory entry mapping a 2 MiB page: present, writable, huge.
pub const PD_HUGE_PAGE_FLAGS: u64 = 0x83;

/// Flags for a PML4/PDPT entry that points at the next table: present, writable.
pub const PT_PRESENT_WRITABLE: u64 = 3;

/// Access byte and granularity nibble for the 64-bit code segment.
pub const GDT_FLAGS_CODE: u16 = 0xa09b;

/// Access byte and granularity nibble for the flat data segment.
pub const GDT_FLAGS_DATA: u16 = 0xc093;

/// e820 entry type for usable RAM.
pub const E820_RAM: u32 = 1;

/// Top of the low usable-RAM region: the start of the Extended BIOS Data Area.
pub const EBDA_START: u64 = 0x9_fc00;

/// Start of the high usable-RAM region, just above the legacy sub-1 MiB hole.
pub const HIGH_MEMORY_START: u64 = 0x10_0000;

/// `type_of_loader` value for a non-standard bootloader.
pub const LOADER_TYPE_UNDEFINED: u8 = 0xff;

/// `boot_flag` magic of the boot sector.
pub const BOOT_FLAG_MAGIC: u16 = 0xaa55;

/// `header` magic, the little-endian ASCII "HdrS" of a valid setup header.
pub const SETUP_HEADER_MAGIC: u32 = 0x5372_6448;

/// Offset of the `LVT LINT0` entry within the local-APIC register page.
pub const APIC_LVT0: usize = 0x350;

/// Offset of the `LVT LINT1` entry within the local-APIC register page.
pub const APIC_LVT1: usize = 0x360;

/// LVT delivery-mode field.
pub const APIC_DELIVERY_MODE_MASK: u32 = 0x700;

/// LVT delivery mode: deliver as an NMI.
pub const APIC_MODE_NMI: u32 = 0x4;

/// LVT delivery mode: deliver an external (8259-PIC) interrupt.
pub const APIC_MODE_EXTINT: u32 = 0x7;

/// Returns the kernel command line for a VM, carrying the `root=` directive
/// exactly when a virtio-blk root disk is attached.
pub fn kernel_cmdline(has_disk: bool) -> (line: &'static str)
    ensures
        line@ == cmdline_of(has_disk),
{
    if has_disk {
        KERNEL_CMDLINE_WITH_DISK
    } else {
        KERNEL_CMDLINE_DISKLESS
    }
}

/// The kernel command line of a VM with or without a disk.
pub open spec fn cmdline_of(has_disk: bool) -> Seq<char> {
    if has_disk {
        KERNEL_CMDLINE_WITH_DISK@
    } else {
        KERNEL_CMDLINE_DISKLESS@
    }
}

/// The bytes of the kernel command line, which is plain ASCII.
pub open spec fn cmdline_bytes(has_disk: bool) -> Seq<u8> {
    Seq::new(cmdline_of(has_disk).len(), |i: int| cmdline_of(has_disk)[i] as u8)
}

/// How many bytes the command line has.
pub open spec fn cmdline_len(has_disk: bool) -> int {
    if has_disk {
        137
    } else {
        120
    }
}

/// Both command lines are plain ASCII and fit the guest's boot buffer, and the one
/// for a VM with a disk is the other with the `root=` directive appended.
pub proof fn law_kernel_cmdline_fits_guest_buffer(has_disk: bool)
    ensures
        cmdline_of(has_disk).len() == cmdline_len(has_disk),
        cmdline_of(has_disk).len() < MAX_GUEST_CMDLINE_LEN,
        vstd::utf8::is_ascii_chars(cmdline_of(has_disk)),
        cmdline_of(true) =~= cmdline_of(false) + " root=/dev/vda rw"@,
{
    reveal_strlit(
        "earlyprintk=ttyS0 console=ttyS0 reboot=k panic=1 pci=off nox2apic lapic=notscdeadline virtio_mmio.device=1K@0xd0000000:5",
    );
    reveal_strlit(
        "earlyprintk=ttyS0 console=ttyS0 reboot=k panic=1 pci=off nox2apic lapic=notscdeadline virtio_mmio.device=1K@0xd0000000:5 root=/dev/vda rw",
    );
    reveal_strlit(" root=/dev/vda rw");
}

/// The page-directory entry for 2 MiB frame `index`.
pub open spec fn directory_entry(index: int) -> int {
    index * 0x20_0000 + PD_HUGE_PAGE_FLAGS
}

/// Builds a page-directory entry that identity-maps the 2 MiB page at `index`.
///
/// Entry `i` maps guest-physical `[i * 2 MiB, (i + 1) * 2 MiB)` to the same
/// range; the frame number never meets the flag bits. The bits of a frame number
/// beyond the 43 that an entry has room for are lost.
pub fn pd_entry(index: u64) -> (entry: u64)
    ensures
        entry == directory_entry(index as int % 0x800_0000_0000),
        entry >> 21 == index % 0x800_0000_0000,
        entry & 0x001f_ffff == PD_HUGE_PAGE_FLAGS,
{
    assert(((index << 21) | 0x83) == (index % 0x800_0000_0000) * 0x20_0000 + 0x83) by (bit_vector);
    assert(((index << 21) | 0x83) >> 21 == index % 0x800_0000_0000) by (bit_vector);
    assert(((index << 21) | 0x83) & 0x001f_ffff == 0x83) by (bit_vector);
    (index << 21) | PD_HUGE_PAGE_FLAGS
}

/// The segment descriptor of `base`, `limit` and `flags`, field by field: the low
/// sixteen bits of the limit, the low 24 bits of the base, the access byte, the
/// high four bits of the limit, the granularity nibble and the high byte of the
/// base.
pub open spec fn segment_descriptor(flags: u16, base: u32, limit: u32) -> int {
    limit as int % 0x1_0000 + (base as int % 0x100_0000) * 0x1_0000 + (flags as int % 0x100)
        * 0x100_0000_0000 + (limit as int / 0x1_0000 % 0x10) * 0x1_0000_0000_0000 + (flags as int / 0x1000)
        * 0x10_0000_0000_0000 + (base as int / 0x100_0000) * 0x100_0000_0000_0000
}

/// Packs an x86 segment descriptor into its 64-bit GDT representation.
pub fn gdt_entry(flags: u16, base: u32, limit: u32) -> (entry: u64)
    ensures
        entry == segment_descriptor(flags, base, limit),
        entry & 0xffff == limit & 0xffff,
        (entry >> 48) & 0xf == (limit >> 16) & 0xf,
{
    let b: u64 = base as u64;
    let f: u64 = flags as u64;
    let l: u64 = limit as u64;
    assert(b <= 0xffff_ffff && f <= 0xffff && l <= 0xffff_ffff ==> (((b & 0xff00_0000) << 32) | ((f
        & 0xf0ff) << 40) | ((l & 0xf_0000) << 32) | ((b & 0xff_ffff) << 16) | (l & 0xffff)) == l % 0x1_0000
        + (b % 0x100_0000) * 0x1_0000 + (f % 0x100) * 0x100_0000_0000 + (l / 0x1_0000 % 0x10)
        * 0x1_0000_0000_0000 + (f / 0x1000) * 0x10_0000_0000_0000 + (b / 0x100_0000)
        * 0x100_0000_0000_0000) by (bit_vector);
    assert((((b & 0xff00_0000) << 32) | ((f & 0xf0ff) << 40) | ((l & 0xf_0000) << 32) | ((b & 0xff_ffff)
        << 16) | (l & 0xffff)) & 0xffff == l & 0xffff) by (bit_vector);
    assert(f <= 0xffff ==> ((((b & 0xff00_0000) << 32) | ((f & 0xf0ff) << 40) | ((l & 0xf_0000) << 32) | ((b
        & 0xff_ffff) << 16) | (l & 0xffff)) >> 48) & 0xf == (l >> 16) & 0xf) by (bit_vector);
    ((b & 0xff00_0000) << 32) | ((f & 0x0000_f0ff) << 40) | ((l & 0x000f_0000) << 32) | ((b
        & 0x00ff_ffff) << 16) | (l & 0x0000_ffff)
}

/// One of the structures that boot memory is made of.
#[derive(Clone, Copy, Debug, PartialEq, Eq)]
pub enum BootStructure {
    GdtEntry(u64),
    Pml4Entry,
    PdptEntry,
    PdEntry(u64),
}

impl BootStructure {
    /// What the structure is called.
    pub open spec fn text(self) -> Seq<char> {
        match self {
            BootStructure::GdtEntry(index) => "GDT entry "@ + decimal_digits(index as nat),
            BootStructure::Pml4Entry => "PML4 entry"@,
            BootStructure::PdptEntry => "PDPT entry"@,
            BootStructure::PdEntry(index) => "PD entry "@ + decimal_digits(index as nat),
        }
    }
}

/// Which boot structure could not be written, and why.
#[derive(Debug, PartialEq, Eq)]
pub struct BootMemoryError {
    pub structure: BootStructure,
    pub reason: String,
}

impl BootMemoryError {
    /// The message that reports this error.
    pub fn message(&self) -> (message: String)
        ensures
            message@ == "failed to write "@ + self.structure.text() + ": "@ + self.reason@,
    {
        let structure = match self.structure {
            BootStructure::GdtEntry(index) => {
                let mut text = String::from_str("GDT entry ");
                text.append(decimal(index).as_str());
                text
            },
            BootStructure::Pml4Entry => String::from_str("PML4 entry"),
            BootStructure::PdptEntry => String::from_str("PDPT entry"),
            BootStructure::PdEntry(index) => {
                let mut text = String::from_str("PD entry ");
                text.append(decimal(index).as_str());
                text
            },
        };
        let mut message = String::from_str("failed to write ");
        message.append(structure.as_str());
        message.append(": ");
        message.append(self.reason.as_str());
        message
    }
}

/// How many 64-bit words the GDT and the page tables take.
pub const BOOT_WORD_COUNT: u64 = 5 + PD_ENTRY_COUNT;

/// Where boot word `i` goes: the three GDT entries, the PML4 entry, the PDPT entry,
/// then the page directory.
pub open spec fn boot_word_addr(i: int) -> int {
    if i < 3 {
        BOOT_GDT_ADDR + 8 * i
    } else if i == 3 {
        PML4_ADDR as int
    } else if i == 4 {
        PDPT_ADDR as int
    } else {
        PD_ADDR + 8 * (i - 5)
    }
}

/// What boot word `i` holds.
pub open spec fn boot_word(i: int) -> int {
    if i == 0 {
        0
    } else if i == 1 {
        segment_descriptor(GDT_FLAGS_CODE, 0, 0xf_ffff)
    } else if i == 2 {
        segment_descriptor(GDT_FLAGS_DATA, 0, 0xf_ffff)
    } else if i == 3 {
        PDPT_ADDR + PT_PRESENT_WRITABLE
    } else if i == 4 {
        PD_ADDR + PT_PRESENT_WRITABLE
    } else {
        directory_entry(i - 5)
    }
}

/// The structure that boot word `i` is.
pub open spec fn boot_word_structure(i: int) -> BootStructure {
    if i < 3 {
        BootStructure::GdtEntry(i as u64)
    } else if i == 3 {
        BootStructure::Pml4Entry
    } else if i == 4 {
        BootStructure::PdptEntry
    } else {
        BootStructure::PdEntry((i - 5) as u64)
    }
}

/// Memory after the first `n` boot words were written.
pub open spec fn boot_words_written(bytes: Map<int, u8>, n: nat) -> Map<int, u8>
    decreases n,
{
    if n == 0 {
        bytes
    } else {
        written(
            boot_words_written(bytes, (n - 1) as nat),
            boot_word_addr(n - 1),
            le_bytes(boot_word(n - 1) as nat, 8),
        )
    }
}

/// Boot word `i` can be written: guest memory backs its eight bytes.
pub open spec fn boot_word_backed(bytes: Map<int, u8>, i: int) -> bool {
    backed(bytes, boot_word_addr(i), 8)
}

proof fn lemma_boot_words_keep_layout(bytes: Map<int, u8>, n: nat)
    ensures
        boot_words_written(bytes, n).dom() =~= bytes.dom(),
    decreases n,
{
    if n > 0 {
        lemma_boot_words_keep_layout(bytes, (n - 1) as nat);
    }
}

/// Writes the GDT and the identity-mapping page tables into guest memory.
///
/// Called once per VM, before the vCPUs are configured: every vCPU then shares
/// these tables.
pub fn setup_boot_memory(guest_memory: &mut GuestMemoryMmap) -> (result: Result<(), BootMemoryError>)
    ensures
        ({
            let before = guest_bytes(*old(guest_memory));
            let after = guest_bytes(*final(guest_memory));
            match result {
                Ok(_) => {
                    &&& forall|i: int| 0 <= i < BOOT_WORD_COUNT ==> #[trigger] boot_word_backed(before, i)
                    &&& after == boot_words_written(before, BOOT_WORD_COUNT as nat)
                },
                Err(error) => exists|k: int|
                    {
                        &&& 0 <= k < BOOT_WORD_COUNT
                        &&& error.structure == boot_word_structure(k)
                        &&& error.reason@ == refusal(before, boot_word_addr(k), 8)
                        &&& !#[trigger] boot_word_backed(before, k)
                        &&& forall|i: int| 0 <= i < k ==> #[trigger] boot_word_backed(before, i)
                        &&& after == boot_words_written(before, (k + 1) as nat)
                    },
            }
        }),
{
    let ghost before = guest_bytes(*guest_memory);
    let code: u64 = gdt_entry(GDT_FLAGS_CODE, 0, 0x000f_ffff);
    let data: u64 = gdt_entry(GDT_FLAGS_DATA, 0, 0x000f_ffff);
    let mut i: u64 = 0;
    while i < BOOT_WORD_COUNT
        invariant
            i <= BOOT_WORD_COUNT,
            code == segment_descriptor(GDT_FLAGS_CODE, 0, 0xf_ffff),
            data == segment_descriptor(GDT_FLAGS_DATA, 0, 0xf_ffff),
            guest_bytes(*guest_memory) == boot_words_written(before, i as nat),
            before == guest_bytes(*old(guest_memory)),
            forall|k: int| 0 <= k < i ==> #[trigger] boot_word_backed(before, k),
        decreases BOOT_WORD_COUNT - i,
    {
        let (addr, word, structure): (u64, u64, BootStructure) = if i == 0 {
            (BOOT_GDT_ADDR, 0, BootStructure::GdtEntry(i))
        } else if i == 1 {
            (BOOT_GDT_ADDR + 8, code, BootStructure::GdtEntry(i))
        } else if i == 2 {
            (BOOT_GDT_ADDR + 16, data, BootStructure::GdtEntry(i))
        } else if i == 3 {
            (PML4_ADDR, PDPT_ADDR + PT_PRESENT_WRITABLE, BootStructure::Pml4Entry)
        } else if i == 4 {
            (PDPT_ADDR, PD_ADDR + PT_PRESENT_WRITABLE, BootStructure::PdptEntry)
        } else {
            (PD_ADDR + (i - 5) * 8, pd_entry(i - 5), BootStructure::PdEntry(i - 5))
        };
        proof {
            lemma_boot_words_keep_layout(before, i as nat);
            lemma_layout_decides(boot_words_written(before, i as nat), before, addr as int, 8);
            assert(boot_word_backed(before, i as int) == backed(before, addr as int, 8));
        }
        match write_number(guest_memory, addr, word, 8) {
            Ok(_) => {},
            Err(reason) => {
                assert(guest_bytes(*guest_memory) == boot_words_written(before, (i + 1) as nat));
                assert(!boot_word_backed(before, i as int));
                return Err(BootMemoryError { structure, reason });
            },
        }
        i = i + 1;
    }
    Ok(())
}

/// Each boot word, once all are written, reads back as it should.
proof fn lemma_boot_word_reads_back(bytes: Map<int, u8>, n: nat, i: int)
    requires
        0 <= i < n <= BOOT_WORD_COUNT,
        forall|k: int| 0 <= k < n ==> #[trigger] boot_word_backed(bytes, k),
    ensures
        loaded(boot_words_written(bytes, n), boot_word_addr(i), 8) == Some(boot_word(i) as nat),
    decreases n,
{
    let last = n - 1;
    let earlier = boot_words_written(bytes, last as nat);
    let after = boot_words_written(bytes, n);
    let word_bytes = le_bytes(boot_word(last) as nat, 8);
    lemma_boot_words_keep_layout(bytes, last as nat);
    lemma_boot_words_keep_layout(bytes, n);
    assert(boot_word_backed(bytes, i));
    assert(boot_word_backed(bytes, last));
    lemma_layout_decides(earlier, bytes, boot_word_addr(last), 8);
    lemma_layout_decides(after, bytes, boot_word_addr(i), 8);
    lemma_le_bytes_len(boot_word(last) as nat, 8);
    if i == last {
        lemma_read_back(earlier, boot_word_addr(last), word_bytes);
        lemma_byte_ranges();
        assert(0 <= boot_word(last) < 0x1_0000_0000_0000_0000);
        lemma_le_round_trip(boot_word(last) as nat, 8);
    } else {
        lemma_boot_word_reads_back(bytes, last as nat, i);
        lemma_layout_decides(earlier, bytes, boot_word_addr(i), 8);
        lemma_write_elsewhere(earlier, boot_word_addr(last), word_bytes);
        assert(boot_word_addr(i) + 8 <= boot_word_addr(last));
        assert(bytes_at(after, boot_word_addr(i), 8) =~= bytes_at(earlier, boot_word_addr(i), 8)) by {
            assert forall|k: int| 0 <= k < 8 implies #[trigger] after[boot_word_addr(i) + k]
                == earlier[boot_word_addr(i) + k] by {
                assert(earlier.contains_key(boot_word_addr(i) + k));
            }
        }
    }
}

/// The page-table entry in 8-byte slot `index` of the table at `table`.
pub open spec fn table_entry(bytes: Map<int, u8>, table: int, index: int) -> nat {
    loaded(bytes, table + 8 * index, 8)->Some_0
}

/// The physical address that `address` stands for: the PML4, the PDPT and the page
/// directory are walked in turn, and the directory maps 2 MiB pages.
pub open spec fn translated(bytes: Map<int, u8>, address: int) -> int {
    let pdpt = table_entry(bytes, PML4_ADDR as int, address / 0x80_0000_0000) / 0x1000 * 0x1000;
    let pd = table_entry(bytes, pdpt as int, address / 0x4000_0000 % 512) / 0x1000 * 0x1000;
    let frame = table_entry(bytes, pd as int, address / 0x20_0000 % 512) / 0x20_0000 * 0x20_0000;
    frame + address % 0x20_0000
}

/// The page tables that boot memory holds map each of the first 2^30 addresses to
/// itself.
pub proof fn law_boot_tables_identity_map(bytes: Map<int, u8>, address: int)
    requires
        forall|i: int| 0 <= i < BOOT_WORD_COUNT ==> #[trigger] boot_word_backed(bytes, i),
        0 <= address < 0x4000_0000,
    ensures
        translated(boot_words_written(bytes, BOOT_WORD_COUNT as nat), address) == address,
{
    let frame = address / 0x20_0000;
    lemma_boot_word_reads_back(bytes, BOOT_WORD_COUNT as nat, 3);
    lemma_boot_word_reads_back(bytes, BOOT_WORD_COUNT as nat, 4);
    lemma_boot_word_reads_back(bytes, BOOT_WORD_COUNT as nat, 5 + frame);
    assert(address / 0x80_0000_0000 == 0);
    assert(address / 0x4000_0000 == 0);
}

/// The GDT that boot memory holds: the null descriptor, the code segment and the
/// data segment.
pub proof fn law_boot_memory_holds_the_gdt(bytes: Map<int, u8>)
    requires
        forall|i: int| 0 <= i < BOOT_WORD_COUNT ==> #[trigger] boot_word_backed(bytes, i),
    ensures
        ({
            let after = boot_words_written(bytes, BOOT_WORD_COUNT as nat);
            &&& loaded(after, BOOT_GDT_ADDR as int, 8) == Some(0nat)
            &&& loaded(after, BOOT_GDT_ADDR + 8, 8) == Some(0x00af_9b00_0000_ffffnat)
            &&& loaded(after, BOOT_GDT_ADDR + 16, 8) == Some(0x00cf_9300_0000_ffffnat)
        }),
{
    lemma_boot_word_reads_back(bytes, BOOT_WORD_COUNT as nat, 0);
    lemma_boot_word_reads_back(bytes, BOOT_WORD_COUNT as nat, 1);
    lemma_boot_word_reads_back(bytes, BOOT_WORD_COUNT as nat, 2);
}

/// One region of the e820 memory map.
#[derive(Clone, Copy, Debug, PartialEq, Eq)]
pub struct E820Entry {
    pub addr: u64,
    pub size: u64,
    pub kind: u32,
}

/// The fields of the zero page that the monitor fills in; all others are zero.
#[derive(Clone, Copy, Debug, PartialEq, Eq)]
pub struct BootParams {
    pub type_of_loader: u8,
    pub boot_flag: u16,
    pub header: u32,
    pub cmd_line_ptr: u32,
    pub cmdline_size: u32,
    pub e820_entries: u8,
    pub low: E820Entry,
    pub high: E820Entry,
}

/// The 20 bytes of an e820 entry.
pub open spec fn e820_bytes(entry: E820Entry) -> Seq<u8> {
    le_bytes(entry.addr as nat, 8) + le_bytes(entry.size as nat, 8) + le_bytes(entry.kind as nat, 4)
}

/// The 4096 bytes of the zero page: each field at the offset that the Linux x86
/// boot protocol gives it, and zero everywhere else.
pub open spec fn zero_page(params: BootParams) -> Seq<u8> {
    zeros(0x1e8) + seq![params.e820_entries] + zeros(0x15) + le_bytes(params.boot_flag as nat, 2) + zeros(2)
        + le_bytes(params.header as nat, 4) + zeros(10) + seq![params.type_of_loader] + zeros(0x17)
        + le_bytes(params.cmd_line_ptr as nat, 4) + zeros(12) + le_bytes(params.cmdline_size as nat, 4)
        + zeros(0x94) + e820_bytes(params.low) + e820_bytes(params.high) + zeros(0xd08)
}

/// The zero page is one page long.
pub proof fn law_zero_page_is_one_page(params: BootParams)
    ensures
        zero_page(params).len() == 4096,
{
    lemma_le_bytes_len(params.boot_flag as nat, 2);
    lemma_le_bytes_len(params.header as nat, 4);
    lemma_le_bytes_len(params.cmd_line_ptr as nat, 4);
    lemma_le_bytes_len(params.cmdline_size as nat, 4);
    lemma_le_bytes_len(params.low.addr as nat, 8);
    lemma_le_bytes_len(params.low.size as nat, 8);
    lemma_le_bytes_len(params.low.kind as nat, 4);
    lemma_le_bytes_len(params.high.addr as nat, 8);
    lemma_le_bytes_len(params.high.size as nat, 8);
    lemma_le_bytes_len(params.high.kind as nat, 4);
}

/// Fills in a `linux_loader::loader::bootparam::boot_params`, whose default is all
/// zero, and takes its bytes with `vm_memory::ByteValued::as_slice`. The structure
/// is packed, and the contract states the offset of each field that is set.
#[verifier::external_body]
fn boot_params_bytes(fields: &BootParams) -> (bytes: Vec<u8>)
    ensures
        bytes@ == zero_page(*fields),
{
    let mut params = boot_params::default();
    params.hdr.type_of_loader = fields.type_of_loader;
    params.hdr.boot_flag = fields.boot_flag;
    params.hdr.header = fields.header;
    params.hdr.cmd_line_ptr = fields.cmd_line_ptr;
    params.hdr.cmdline_size = fields.cmdline_size;
    let (low, high) = (fields.low, fields.high);
    params.e820_table[0] = boot_e820_entry { addr: low.addr, size: low.size, type_: low.kind };
    params.e820_table[1] = boot_e820_entry { addr: high.addr, size: high.size, type_: high.kind };
    params.e820_entries = fields.e820_entries;
    params.as_slice().to_vec()
}

/// One of the parts that the zero page is made of.
#[derive(Clone, Copy, Debug, PartialEq, Eq)]
pub enum ZeroPagePart {
    Cmdline,
    CmdlineTerminator,
    BootParams,
}

impl ZeroPagePart {
    /// What is reported of a part that could not be written.
    pub open spec fn text(self) -> Seq<char> {
        match self {
            ZeroPagePart::Cmdline => "failed to write kernel cmdline: "@,
            ZeroPagePart::CmdlineTerminator => "failed to NUL-terminate kernel cmdline: "@,
            ZeroPagePart::BootParams => "failed to write boot_params zero page: "@,
        }
    }
}

/// Which part of the zero page could not be written, and why.
#[derive(Debug, PartialEq, Eq)]
pub struct ZeroPageError {
    pub part: ZeroPagePart,
    pub reason: String,
}

impl ZeroPageError {
    /// The message that reports this error.
    pub fn message(&self) -> (message: String)
        ensures
            message@ == self.part.text() + self.reason@,
    {
        let mut message = match self.part {
            ZeroPagePart::Cmdline => String::from_str("failed to write kernel cmdline: "),
            ZeroPagePart::CmdlineTerminator => String::from_str("failed to NUL-terminate kernel cmdline: "),
            ZeroPagePart::BootParams => String::from_str("failed to write boot_params zero page: "),
        };
        message.append(self.reason.as_str());
        message
    }
}

/// The zero page of a VM: a minimal valid setup header and an e820 map of two
/// usable regions, split around the legacy hole below 1 MiB. The kernel discards a
/// map of fewer than two entries.
pub open spec fn params_of(mem_size_bytes: int, has_disk: bool) -> BootParams {
    BootParams {
        type_of_loader: LOADER_TYPE_UNDEFINED,
        boot_flag: BOOT_FLAG_MAGIC,
        header: SETUP_HEADER_MAGIC,
        cmd_line_ptr: CMDLINE_ADDR as u32,
        cmdline_size: cmdline_len(has_disk) as u32,
        e820_entries: 2,
        low: E820Entry { addr: 0, size: EBDA_START, kind: E820_RAM },
        high: E820Entry {
            addr: HIGH_MEMORY_START,
            size: if mem_size_bytes < HIGH_MEMORY_START {
                0
            } else {
                (mem_size_bytes - HIGH_MEMORY_START) as u64
            },
            kind: E820_RAM,
        },
    }
}

/// Builds the zero page in guest memory: the NUL-terminated kernel command line at
/// [`CMDLINE_ADDR`], then the boot parameters at [`ZERO_PAGE_ADDR`].
pub fn setup_zero_page(guest_memory: &mut GuestMemoryMmap, mem_size_bytes: usize, has_disk: bool) -> (result:
    Result<(), ZeroPageError>)
    ensures
        ({
            let before = guest_bytes(*old(guest_memory));
            let after = guest_bytes(*final(guest_memory));
            let end = CMDLINE_ADDR + cmdline_len(has_disk);
            let with_line = written(before, CMDLINE_ADDR as int, cmdline_bytes(has_disk));
            let with_nul = written(with_line, end, seq![0u8]);
            if !backed(before, CMDLINE_ADDR as int, cmdline_len(has_disk)) {
                &&& result matches Err(error) && error.part == ZeroPagePart::Cmdline && error.reason@
                    == refusal(before, CMDLINE_ADDR as int, cmdline_len(has_disk) as nat)
                &&& after == with_line
            } else if !backed(before, end, 1) {
                &&& result matches Err(error) && error.part == ZeroPagePart::CmdlineTerminator
                    && error.reason@ == refusal(before, end, 1)
                &&& after == with_nul
            } else {
                &&& after == written(
                    with_nul,
                    ZERO_PAGE_ADDR as int,
                    zero_page(params_of(mem_size_bytes as int, has_disk)),
                )
                &&& result is Ok <==> backed(before, ZERO_PAGE_ADDR as int, 4096)
                &&& result matches Err(error) ==> error.part == ZeroPagePart::BootParams && error.reason@
                    == refusal(before, ZERO_PAGE_ADDR as int, 4096)
            }
        }),
{
    let cmdline = kernel_cmdline(has_disk);
    let line_bytes = cmdline.as_bytes();
    let ghost before = guest_bytes(*guest_memory);
    proof {
        law_kernel_cmdline_fits_guest_buffer(has_disk);
        vstd::utf8::is_ascii_chars_encode_utf8(cmdline@);
        assert(line_bytes@ =~= cmdline_bytes(has_disk));
        law_zero_page_is_one_page(params_of(mem_size_bytes as int, has_disk));
    }
    match write_slice(guest_memory, CMDLINE_ADDR, line_bytes) {
        Ok(_) => {},
        Err(reason) => return Err(ZeroPageError { part: ZeroPagePart::Cmdline, reason }),
    }
    let ghost with_line = guest_bytes(*guest_memory);
    let end: u64 = CMDLINE_ADDR + line_bytes.len() as u64;
    proof {
        lemma_write_elsewhere(before, CMDLINE_ADDR as int, line_bytes@);
        lemma_layout_decides(with_line, before, end as int, 1);
    }
    let nul: Vec<u8> = vec![0u8];
    assert(nul@ =~= seq![0u8]);
    match write_slice(guest_memory, end, nul.as_slice()) {
        Ok(_) => {},
        Err(reason) => return Err(ZeroPageError { part: ZeroPagePart::CmdlineTerminator, reason }),
    }
    let ghost with_nul = guest_bytes(*guest_memory);
    proof {
        lemma_write_elsewhere(with_line, end as int, seq![0u8]);
        lemma_layout_decides(with_nul, before, ZERO_PAGE_ADDR as int, 4096);
    }
    let high_ram: u64 = (mem_size_bytes as u64).saturating_sub(HIGH_MEMORY_START);
    let params = BootParams {
        type_of_loader: LOADER_TYPE_UNDEFINED,
        boot_flag: BOOT_FLAG_MAGIC,
        header: SETUP_HEADER_MAGIC,
        cmd_line_ptr: CMDLINE_ADDR as u32,
        cmdline_size: line_bytes.len() as u32,
        e820_entries: 2,
        low: E820Entry { addr: 0, size: EBDA_START, kind: E820_RAM },
        high: E820Entry { addr: HIGH_MEMORY_START, size: high_ram, kind: E820_RAM },
    };
    let page = boot_params_bytes(&params);
    match write_slice(guest_memory, ZERO_PAGE_ADDR, page.as_slice()) {
        Ok(_) => {},
        Err(reason) => return Err(ZeroPageError { part: ZeroPagePart::BootParams, reason }),
    }
    Ok(())
}

/// Length of the ELF header.
pub const ELF_HEADER_LEN: usize = 64;

/// Length of an ELF program header.
pub const PROGRAM_HEADER_LEN: usize = 56;

/// Type of a program header whose segment is loaded.
pub const PT_LOAD: u32 = 1;

/// Type of a program header whose segment holds notes.
pub const PT_NOTE: u32 = 4;

/// The first offset that a file cannot be moved to.
pub const FILE_OFFSET_LIMIT: u64 = 0x8000_0000_0000_0000;

/// What loading an ELF image into guest memory comes to: the kernel's entry point, or
/// the reason why the image could not be loaded, and guest memory afterwards.
pub uninterp spec fn elf_loaded(bytes: Map<int, u8>, image: Seq<u8>) -> (
    Result<u64, Seq<char>>,
    Map<int, u8>,
);

/// Calls `linux_loader::loader::elf::Elf::load` with no kernel offset and no lower
/// bound on the entry point. It copies the image's loadable segments to the
/// physical addresses that they name; the entry point is the `e_entry` field of
/// the ELF header, the eight bytes at offset 24. An image that is refused may have
/// been copied in part. What it does, and the words in which it refuses an image,
/// follow from the image and from which addresses are backed.
#[verifier::external_body]
fn elf_load(guest_memory: &mut GuestMemoryMmap, image: &[u8]) -> (entry: Result<u64, String>)
    ensures
        (match entry {
            Ok(address) => Ok::<u64, Seq<char>>(address),
            Err(reason) => Err::<u64, Seq<char>>(reason@),
        }) == elf_loaded(guest_bytes(*old(guest_memory)), image@).0,
        guest_bytes(*final(guest_memory)) == elf_loaded(guest_bytes(*old(guest_memory)), image@).1,
        guest_bytes(*final(guest_memory)).dom() == guest_bytes(*old(guest_memory)).dom(),
        entry is Ok ==> image@.len() >= 64 && entry->Ok_0 == le_value(image@.subrange(24, 32)),
{
    let mut cursor = std::io::Cursor::new(image);
    match Elf::load(&*guest_memory, None, &mut cursor, None) {
        Ok(loaded) => Ok(loaded.kernel_load.raw_value()),
        Err(error) => Err(error.to_string()),
    }
}

/// Why a kernel image could not be loaded.
#[derive(Debug)]
pub enum KernelError {
    /// The ELF loader refused the image, and says why.
    Elf(String),
}

impl KernelError {
    /// The message that reports that the image at `path` could not be loaded.
    pub fn message(&self, path: &str) -> (message: String)
        ensures
            message@ == "failed to load kernel ELF '"@ + path@ + "': "@ + self->Elf_0@,
    {
        let KernelError::Elf(reason) = self;
        let mut message = String::from_str("failed to load kernel ELF '");
        message.append(path);
        message.append("': ");
        message.append(reason.as_str());
        message
    }
}

/// The number in the `n` bytes of an image from `at` on.
pub open spec fn image_number(image: Seq<u8>, at: int, n: int) -> nat {
    le_value(image.subrange(at, at + n))
}

/// A place in an image that a file cannot be moved to: its offset has 64 bits, and a
/// file's has 63.
#[derive(Clone, Copy, Debug, PartialEq, Eq)]
pub enum Unreachable {
    /// The program headers.
    Headers,
    /// The contents of a loadable segment.
    Segment,
    /// A note segment.
    Notes,
}

impl Unreachable {
    /// The words in which an image is refused for it.
    pub open spec fn text(self) -> Seq<char> {
        match self {
            Unreachable::Headers =>
                "Kernel Loader: failed to load ELF kernel image: Kernel Loader: Unable to seek to program header"@,
            Unreachable::Segment =>
                "Kernel Loader: failed to load ELF kernel image: Kernel Loader: Unable to seek to kernel start"@,
            Unreachable::Notes =>
                "Kernel Loader: failed to load ELF kernel image: Kernel Loader: Unable to seek to note header"@,
        }
    }

    /// The words in which an image is refused for it.
    pub fn as_str(self) -> (text: &'static str)
        ensures
            text@ == self.text(),
    {
        match self {
            Unreachable::Headers =>
                "Kernel Loader: failed to load ELF kernel image: Kernel Loader: Unable to seek to program header",
            Unreachable::Segment =>
                "Kernel Loader: failed to load ELF kernel image: Kernel Loader: Unable to seek to kernel start",
            Unreachable::Notes =>
                "Kernel Loader: failed to load ELF kernel image: Kernel Loader: Unable to seek to note header",
        }
    }
}

/// What the program header at `at` asks for that a file does not reach, if anything: a
/// loadable segment that is not empty, or a note segment.
pub open spec fn header_stop(image: Seq<u8>, at: int) -> Option<Unreachable> {
    let kind = image_number(image, at, 4);
    if image_number(image, at + 8, 8) < FILE_OFFSET_LIMIT {
        None
    } else if kind == PT_LOAD && image_number(image, at + 32, 8) != 0 {
        Some(Unreachable::Segment)
    } else if kind == PT_NOTE {
        Some(Unreachable::Notes)
    } else {
        None
    }
}

/// The first of the program headers from `index` on, `count` in all, that asks for what
/// a file does not reach.
pub open spec fn first_stop(image: Seq<u8>, table: int, count: int, index: int) -> Option<
    (int, Unreachable),
>
    decreases count - index,
{
    if index >= count {
        None
    } else {
        match header_stop(image, table + PROGRAM_HEADER_LEN * index) {
            Some(why) => Some((index, why)),
            None => first_stop(image, table, count, index + 1),
        }
    }
}

/// How many program headers of an image can be followed before something is asked for
/// that a file does not reach, and what that is. An image that ends before its program
/// headers do is refused for that.
pub open spec fn reach_of(image: Seq<u8>) -> Option<(int, Unreachable)> {
    let table = image_number(image, 32, 8) as int;
    let count = image_number(image, 56, 2) as int;
    if image.len() < ELF_HEADER_LEN {
        None
    } else if table >= FILE_OFFSET_LIMIT {
        Some((0, Unreachable::Headers))
    } else if table + PROGRAM_HEADER_LEN * count > image.len() {
        None
    } else {
        first_stop(image, table, count, 0)
    }
}

/// An image with only its first `count` program headers.
pub open spec fn with_headers(image: Seq<u8>, count: int) -> Seq<u8> {
    image.update(56, (count % 0x100) as u8).update(57, (count / 0x100) as u8)
}

/// What loading the kernel image of a file comes to: the entry point, or the reason why
/// the image could not be loaded, and guest memory afterwards. What a file reaches is
/// loaded before it is refused for what it does not.
pub open spec fn kernel_loaded(bytes: Map<int, u8>, image: Seq<u8>) -> (
    Result<u64, Seq<char>>,
    Map<int, u8>,
) {
    match reach_of(image) {
        None => elf_loaded(bytes, image),
        Some((count, why)) => {
            let loaded = elf_loaded(bytes, with_headers(image, count));
            match loaded.0 {
                Ok(_) => (Err(why.text()), loaded.1),
                Err(_) => loaded,
            }
        },
    }
}

/// Reads the number in the `n` bytes of an image from `at` on.
fn read_image(image: &[u8], at: usize, n: usize) -> (value: u64)
    requires
        n <= 8,
        at + n <= image@.len(),
    ensures
        value == image_number(image@, at as int, n as int),
        value < byte_range(n as nat),
{
    let total: usize = image.len();
    assert(at + n <= total);
    let part = &image[at..at + n];
    assert(part@ =~= image@.subrange(at as int, at + n));
    proof {
        lemma_le_bytes_of_value(part@);
    }
    from_le_bytes(part)
}

/// Finds out how far a file can be followed.
fn find_reach(image: &[u8]) -> (stop: Option<(u16, Unreachable)>)
    ensures
        (match stop {
            Some((count, why)) => Some((count as int, why)),
            None => None::<(int, Unreachable)>,
        }) == reach_of(image@),
{
    let total: usize = image.len();
    if total < ELF_HEADER_LEN {
        return None;
    }
    let table: u64 = read_image(image, 32, 8);
    let count: u64 = read_image(image, 56, 2);
    proof {
        lemma_byte_ranges();
    }
    if table >= FILE_OFFSET_LIMIT {
        return Some((0, Unreachable::Headers));
    }
    if table + PROGRAM_HEADER_LEN as u64 * count > total as u64 {
        return None;
    }
    let mut index: u64 = 0;
    while index < count
        invariant
            index <= count < 0x1_0000,
            table < FILE_OFFSET_LIMIT,
            total == image@.len(),
            table + PROGRAM_HEADER_LEN * count <= total,
            first_stop(image@, table as int, count as int, index as int) == first_stop(
                image@,
                table as int,
                count as int,
                0,
            ),
            reach_of(image@) == first_stop(image@, table as int, count as int, 0),
        decreases count - index,
    {
        assert(table + PROGRAM_HEADER_LEN * index + PROGRAM_HEADER_LEN <= total) by (nonlinear_arith)
            requires
                index < count,
                table + PROGRAM_HEADER_LEN * count <= total,
                PROGRAM_HEADER_LEN == 56,
        ;
        let at: usize = (table + PROGRAM_HEADER_LEN as u64 * index) as usize;
        if read_image(image, at + 8, 8) >= FILE_OFFSET_LIMIT {
            let kind: u64 = read_image(image, at, 4);
            if kind == PT_LOAD as u64 && read_image(image, at + 32, 8) != 0 {
                return Some((index as u16, Unreachable::Segment));
            }
            if kind == PT_NOTE as u64 {
                return Some((index as u16, Unreachable::Notes));
            }
        }
        index = index + 1;
    }
    None
}

/// Loads a Linux kernel ELF image, the contents of a file, into guest memory and returns
/// the kernel entry point, the value that [`setup_vcpu_registers`] puts into `RIP`.
pub fn load_kernel(guest_memory: &mut GuestMemoryMmap, image: &[u8]) -> (entry: Result<u64, KernelError>)
    ensures
        (match entry {
            Ok(address) => Ok::<u64, Seq<char>>(address),
            Err(KernelError::Elf(reason)) => Err::<u64, Seq<char>>(reason@),
        }) == kernel_loaded(guest_bytes(*old(guest_memory)), image@).0,
        entry is Ok ==> image@.len() >= 64 && entry->Ok_0 == le_value(image@.subrange(24, 32)),
        guest_bytes(*final(guest_memory)) == kernel_loaded(guest_bytes(*old(guest_memory)), image@).1,
        guest_bytes(*final(guest_memory)).dom() == guest_bytes(*old(guest_memory)).dom(),
{
    match find_reach(image) {
        None => match elf_load(guest_memory, image) {
            Ok(address) => Ok(address),
            Err(reason) => Err(KernelError::Elf(reason)),
        },
        Some((count, why)) => {
            assert(image@.len() >= ELF_HEADER_LEN);
            let mut shortened: Vec<u8> = vstd::slice::slice_to_vec(image);
            shortened.set(56, (count % 0x100) as u8);
            shortened.set(57, (count / 0x100) as u8);
            assert(shortened@ =~= with_headers(image@, count as int));
            match elf_load(guest_memory, shortened.as_slice()) {
                Ok(_) => Err(KernelError::Elf(String::from_str(why.as_str()))),
                Err(reason) => Err(KernelError::Elf(reason)),
            }
        },
    }
}

/// The descriptor cache of a segment register.
#[derive(Clone, Copy, Debug, PartialEq, Eq)]
pub struct Segment {
    pub base: u64,
    pub limit: u32,
    pub selector: u16,
    pub kind: u8,
    pub present: u8,
    pub dpl: u8,
    pub db: u8,
    pub s: u8,
    pub l: u8,
    pub g: u8,
    pub avl: u8,
    pub unusable: u8,
}

/// The base and limit of a descriptor table.
#[derive(Clone, Copy, Debug, PartialEq, Eq)]
pub struct DescriptorTable {
    pub base: u64,
    pub limit: u16,
}

/// The general-purpose registers that booting sets.
#[derive(Clone, Copy, Debug, PartialEq, Eq)]
pub struct GeneralRegisters {
    pub rip: u64,
    pub rsi: u64,
    pub rflags: u64,
}

/// The special registers that booting sets.
#[derive(Clone, Copy, Debug, PartialEq, Eq)]
pub struct SpecialRegisters {
    pub gdt: DescriptorTable,
    pub idt: DescriptorTable,
    pub cs: Segment,
    pub ds: Segment,
    pub es: Segment,
    pub fs: Segment,
    pub gs: Segment,
    pub ss: Segment,
    pub cr0: u64,
    pub cr3: u64,
    pub cr4: u64,
    pub efer: u64,
}

/// The flat 64-bit code segment: GDT index 1, ring 0, execute/read, long mode,
/// 4 KiB granular.
pub open spec fn flat_code() -> Segment {
    Segment {
        base: 0,
        limit: 0x000f_ffff,
        selector: 8,
        kind: 11,
        present: 1,
        dpl: 0,
        db: 0,
        s: 1,
        l: 1,
        g: 1,
        avl: 0,
        unusable: 0,
    }
}

/// The flat data segment: GDT index 2, ring 0, read/write, 4 KiB granular.
pub open spec fn flat_data() -> Segment {
    Segment {
        base: 0,
        limit: 0x000f_ffff,
        selector: 16,
        kind: 3,
        present: 1,
        dpl: 0,
        db: 1,
        s: 1,
        l: 0,
        g: 1,
        avl: 0,
        unusable: 0,
    }
}

/// Builds the descriptor cache for the 64-bit code segment (`CS`).
pub fn code_segment() -> (segment: Segment)
    ensures
        segment == flat_code(),
{
    Segment {
        base: 0,
        limit: 0x000f_ffff,
        selector: 8,
        kind: 11,
        present: 1,
        dpl: 0,
        db: 0,
        s: 1,
        l: 1,
        g: 1,
        avl: 0,
        unusable: 0,
    }
}

/// Builds the descriptor cache shared by every data segment.
pub fn data_segment() -> (segment: Segment)
    ensures
        segment == flat_data(),
{
    Segment {
        base: 0,
        limit: 0x000f_ffff,
        selector: 16,
        kind: 3,
        present: 1,
        dpl: 0,
        db: 1,
        s: 1,
        l: 0,
        g: 1,
        avl: 0,
        unusable: 0,
    }
}

/// The special registers of a vCPU that is to run a 64-bit kernel: the tables of
/// [`setup_boot_memory`], flat segments, and the long-mode bits set on top of what
/// the control registers held.
pub open spec fn long_mode(before: SpecialRegisters) -> SpecialRegisters {
    SpecialRegisters {
        gdt: DescriptorTable { base: BOOT_GDT_ADDR, limit: 23 },
        idt: DescriptorTable { base: BOOT_IDT_ADDR, limit: 7 },
        cs: flat_code(),
        ds: flat_data(),
        es: flat_data(),
        fs: flat_data(),
        gs: flat_data(),
        ss: flat_data(),
        cr0: before.cr0 | CR0_PE_PG,
        cr3: PML4_ADDR,
        cr4: before.cr4 | CR4_PAE,
        efer: before.efer | EFER_LME_LMA,
    }
}

/// Sets one vCPU's registers so that it can be entered directly at a 64-bit kernel.
///
/// `RIP` is the entry point, `RSI` the zero page as the boot protocol requires, and
/// `RFLAGS` keeps interrupts masked. The special registers switch the CPU into
/// 64-bit long mode.
pub fn setup_vcpu_registers(
    regs: &mut GeneralRegisters,
    sregs: &mut SpecialRegisters,
    entry_point: u64,
)
    ensures
        *final(regs) == (GeneralRegisters {
            rip: entry_point,
            rsi: ZERO_PAGE_ADDR,
            rflags: RFLAGS_RESERVED_ONE,
        }),
        final(regs).rsi == 0x7000,
        final(regs).rflags == 2,
        *final(sregs) == long_mode(*old(sregs)),
{
    regs.rip = entry_point;
    regs.rsi = ZERO_PAGE_ADDR;
    regs.rflags = RFLAGS_RESERVED_ONE;
    sregs.gdt = DescriptorTable { base: BOOT_GDT_ADDR, limit: 23 };
    sregs.idt = DescriptorTable { base: BOOT_IDT_ADDR, limit: 7 };
    let data = data_segment();
    sregs.cs = code_segment();
    sregs.ds = data;
    sregs.es = data;
    sregs.fs = data;
    sregs.gs = data;
    sregs.ss = data;
    sregs.cr3 = PML4_ADDR;
    sregs.cr4 = sregs.cr4 | CR4_PAE;
    sregs.cr0 = sregs.cr0 | CR0_PE_PG;
    sregs.efer = sregs.efer | EFER_LME_LMA;
}

/// Booting sets the paging and long-mode bits and leaves every other bit of the
/// control registers as it was.
pub proof fn law_long_mode_bits(before: SpecialRegisters)
    ensures
        long_mode(before).cr0 & CR0_PE_PG == CR0_PE_PG,
        long_mode(before).cr0 & !CR0_PE_PG == before.cr0 & !CR0_PE_PG,
        long_mode(before).cr4 & CR4_PAE == CR4_PAE,
        long_mode(before).cr4 & !CR4_PAE == before.cr4 & !CR4_PAE,
        long_mode(before).efer & EFER_LME_LMA == EFER_LME_LMA,
        long_mode(before).efer & !EFER_LME_LMA == before.efer & !EFER_LME_LMA,
{
    lemma_bits_set(before.cr0, CR0_PE_PG);
    lemma_bits_set(before.cr4, CR4_PAE);
    lemma_bits_set(before.efer, EFER_LME_LMA);
}

proof fn lemma_bits_set(value: u64, mask: u64)
    ensures
        (value | mask) & mask == mask,
        (value | mask) & !mask == value & !mask,
{
    assert((value | mask) & mask == mask) by (bit_vector);
    assert((value | mask) & !mask == value & !mask) by (bit_vector);
}

/// The register page of a local APIC.
#[derive(Clone, Copy, Debug, PartialEq, Eq)]
pub struct LapicState {
    pub regs: [i8; 1024],
}

/// The four bytes of the register at `offset`.
pub open spec fn lapic_bytes(state: LapicState, offset: int) -> Seq<u8> {
    Seq::new(4, |i: int| state.regs@[offset + i] as u8)
}

/// The 32-bit register at `offset`, little-endian.
pub open spec fn lapic_reg(state: LapicState, offset: int) -> u32 {
    le_value(lapic_bytes(state, offset)) as u32
}

/// The register page `after` is `before` with `value` in the register at `offset`.
pub open spec fn lapic_reg_set(before: LapicState, after: LapicState, offset: int, value: u32) -> bool {
    &&& forall|i: int| 0 <= i < 4 ==> #[trigger] after.regs@[offset + i] == le_bytes(value as nat, 4)[i] as i8
    &&& forall|k: int| 0 <= k < 1024 && !(offset <= k < offset + 4) ==> #[trigger] after.regs@[k] == before.regs@[k]
}

/// Reads the little-endian 32-bit APIC register at `offset` from `state`.
pub fn read_lapic_reg(state: &LapicState, offset: usize) -> (value: u32)
    requires
        offset + 4 <= 1024,
    ensures
        value == lapic_reg(*state, offset as int),
{
    let bytes: Vec<u8> = vec![
        state.regs[offset] as u8,
        state.regs[offset + 1] as u8,
        state.regs[offset + 2] as u8,
        state.regs[offset + 3] as u8,
    ];
    proof {
        assert(bytes@ =~= lapic_bytes(*state, offset as int));
        lemma_le_bytes_of_value(bytes@);
        lemma_byte_ranges();
    }
    from_le_bytes(bytes.as_slice()) as u32
}

/// Writes `value` as the little-endian 32-bit APIC register at `offset`.
pub fn write_lapic_reg(state: &mut LapicState, offset: usize, value: u32)
    requires
        offset + 4 <= 1024,
    ensures
        lapic_reg_set(*old(state), *final(state), offset as int, value),
{
    let bytes = to_le_bytes(value as u64, 4);
    proof {
        lemma_le_bytes_len(value as nat, 4);
    }
    let ghost before = *state;
    let mut i: usize = 0;
    while i < 4
        invariant
            i <= 4,
            offset + 4 <= 1024,
            bytes@ == le_bytes(value as nat, 4),
            bytes@.len() == 4,
            forall|k: int| offset <= k < offset + i ==> #[trigger] state.regs@[k] == bytes@[k - offset] as i8,
            forall|k: int|
                0 <= k < 1024 && !(offset <= k < offset + i) ==> #[trigger] state.regs@[k] == before.regs@[k],
        decreases 4 - i,
    {
        state.regs[offset + i] = bytes[i] as i8;
        i = i + 1;
    }
    assert forall|k: int| 0 <= k < 4 implies #[trigger] state.regs@[offset + k] == le_bytes(
        value as nat,
        4,
    )[k] as i8 by {
        assert(state.regs@[offset + k] == bytes@[offset + k - offset] as i8);
    }
}

/// The LVT entry `lvt` with its delivery mode replaced by `mode`.
pub open spec fn delivery_mode_set(lvt: u32, mode: u32) -> u32 {
    (lvt & !APIC_DELIVERY_MODE_MASK) | (mode << 8)
}

/// Replaces the delivery-mode field of an LVT entry.
pub fn with_delivery_mode(lvt: u32, mode: u32) -> (entry: u32)
    ensures
        entry == delivery_mode_set(lvt, mode),
{
    (lvt & !APIC_DELIVERY_MODE_MASK) | (mode << 8)
}

/// Setting a three-bit delivery mode sets it, and nothing else.
pub proof fn law_delivery_mode_sets_only_the_mode(lvt: u32, mode: u32)
    requires
        mode <= APIC_MODE_EXTINT,
    ensures
        (delivery_mode_set(lvt, mode) >> 8) & 7 == mode,
        delivery_mode_set(lvt, mode) & !APIC_DELIVERY_MODE_MASK == lvt & !APIC_DELIVERY_MODE_MASK,
{
    assert(mode <= 7 ==> (((lvt & !0x700u32) | (mode << 8)) >> 8) & 7 == mode) by (bit_vector);
    assert(mode <= 7 ==> ((lvt & !0x700u32) | (mode << 8)) & !0x700u32 == lvt & !0x700u32) by (bit_vector);
}

/// The register codec round-trips: a value written to a register reads back, and a
/// register that lies elsewhere is left as it was.
pub proof fn law_lapic_codec_round_trips(
    before: LapicState,
    after: LapicState,
    offset: int,
    value: u32,
    other: int,
)
    requires
        0 <= offset <= 1020,
        0 <= other <= 1020,
        lapic_reg_set(before, after, offset, value),
    ensures
        lapic_reg(after, offset) == value,
        other + 4 <= offset || offset + 4 <= other ==> lapic_reg(after, other) == lapic_reg(before, other),
{
    lemma_le_bytes_len(value as nat, 4);
    lemma_byte_ranges();
    lemma_le_round_trip(value as nat, 4);
    assert(lapic_bytes(after, offset) =~= le_bytes(value as nat, 4)) by {
        assert forall|i: int| 0 <= i < 4 implies #[trigger] lapic_bytes(after, offset)[i] == le_bytes(
            value as nat,
            4,
        )[i] by {
            let byte = le_bytes(value as nat, 4)[i];
            assert(after.regs@[offset + i] == byte as i8);
            assert((byte as i8) as u8 == byte) by (bit_vector);
        }
    }
    if other + 4 <= offset || offset + 4 <= other {
        assert(lapic_bytes(after, other) =~= lapic_bytes(before, other));
    }
}

/// Puts a local APIC into "virtual wire mode": `LINT0` delivers the legacy 8259
/// PIC's interrupts, and with them the timer, and `LINT1` delivers NMIs. A kernel
/// booted without firmware relies on this wiring.
pub fn configure_lapic(state: &mut LapicState)
    ensures
        lapic_reg(*final(state), APIC_LVT0 as int) == delivery_mode_set(
            lapic_reg(*old(state), APIC_LVT0 as int),
            APIC_MODE_EXTINT,
        ),
        lapic_reg(*final(state), APIC_LVT1 as int) == delivery_mode_set(
            lapic_reg(*old(state), APIC_LVT1 as int),
            APIC_MODE_NMI,
        ),
        (lapic_reg(*final(state), 0x350) >> 8) & 7 == 7,
        (lapic_reg(*final(state), 0x360) >> 8) & 7 == 4,
        forall|k: int|
            0 <= k < 1024 && !(APIC_LVT0 <= k < APIC_LVT0 + 4) && !(APIC_LVT1 <= k < APIC_LVT1 + 4)
                ==> #[trigger] final(state).regs@[k] == old(state).regs@[k],
{
    let ghost before = *state;
    let lvt0: u32 = with_delivery_mode(read_lapic_reg(state, APIC_LVT0), APIC_MODE_EXTINT);
    write_lapic_reg(state, APIC_LVT0, lvt0);
    let ghost middle = *state;
    let lvt1: u32 = with_delivery_mode(read_lapic_reg(state, APIC_LVT1), APIC_MODE_NMI);
    write_lapic_reg(state, APIC_LVT1, lvt1);
    proof {
        law_lapic_codec_round_trips(before, middle, APIC_LVT0 as int, lvt0, APIC_LVT1 as int);
        law_lapic_codec_round_trips(middle, *state, APIC_LVT1 as int, lvt1, APIC_LVT0 as int);
        law_delivery_mode_sets_only_the_mode(lapic_reg(before, APIC_LVT0 as int), APIC_MODE_EXTINT);
        law_delivery_mode_sets_only_the_mode(lapic_reg(before, APIC_LVT1 as int), APIC_MODE_NMI);
    }
}

/// A number of six fields gives them back.
proof fn lemma_fields_apart(a: int, b: int, f: int, l: int, g: int, h: int)
    requires
        0 <= a < 0x1_0000,
        0 <= b < 0x100_0000,
        0 <= f < 0x100,
        0 <= l < 0x10,
        0 <= g < 0x10,
        0 <= h < 0x100,
    ensures
        ({
            let entry = a + b * 0x1_0000 + f * 0x100_0000_0000 + l * 0x1_0000_0000_0000 + g
                * 0x10_0000_0000_0000 + h * 0x100_0000_0000_0000;
            &&& 0 <= entry < 0x1_0000_0000_0000_0000
            &&& entry % 0x1_0000 == a
            &&& entry / 0x1_0000 % 0x100_0000 == b
            &&& entry / 0x100_0000_0000 % 0x100 == f
            &&& entry / 0x1_0000_0000_0000 % 0x10 == l
            &&& entry / 0x10_0000_0000_0000 % 0x10 == g
            &&& entry / 0x100_0000_0000_0000 == h
        }),
{
    let entry = a + b * 0x1_0000 + f * 0x100_0000_0000 + l * 0x1_0000_0000_0000 + g * 0x10_0000_0000_0000 + h
        * 0x100_0000_0000_0000;
    let above_g = h;
    let above_l = above_g * 0x10 + g;
    let above_f = above_l * 0x10 + l;
    let above_b = above_f * 0x100 + f;
    let above_a = above_b * 0x100_0000 + b;
    lemma_fundamental_div_mod_converse(entry, 0x1_0000, above_a, a);
    lemma_fundamental_div_mod_converse(above_a, 0x100_0000, above_b, b);
    lemma_fundamental_div_mod_converse(entry, 0x100_0000_0000, above_b, a + b * 0x1_0000);
    lemma_fundamental_div_mod_converse(above_b, 0x100, above_f, f);
    lemma_fundamental_div_mod_converse(
        entry,
        0x1_0000_0000_0000,
        above_f,
        a + b * 0x1_0000 + f * 0x100_0000_0000,
    );
    lemma_fundamental_div_mod_converse(above_f, 0x10, above_l, l);
    lemma_fundamental_div_mod_converse(
        entry,
        0x10_0000_0000_0000,
        above_l,
        a + b * 0x1_0000 + f * 0x100_0000_0000 + l * 0x1_0000_0000_0000,
    );
    lemma_fundamental_div_mod_converse(above_l, 0x10, above_g, g);
    lemma_fundamental_div_mod_converse(
        entry,
        0x100_0000_0000_0000,
        above_g,
        a + b * 0x1_0000 + f * 0x100_0000_0000 + l * 0x1_0000_0000_0000 + g * 0x10_0000_0000_0000,
    );
}

/// A segment descriptor gives back the base, the low twenty bits of the limit, the access
/// byte and the flags that it was made of.
pub proof fn law_descriptor_gives_back_its_fields(flags: u16, base: u32, limit: u32)
    ensures
        ({
            let entry = segment_descriptor(flags, base, limit);
            &&& 0 <= entry < 0x1_0000_0000_0000_0000
            &&& entry / 0x1_0000 % 0x100_0000 + entry / 0x100_0000_0000_0000 * 0x100_0000 == base
            &&& entry % 0x1_0000 + entry / 0x1_0000_0000_0000 % 0x10 * 0x1_0000 == limit as int % 0x10_0000
            &&& entry / 0x100_0000_0000 % 0x100 == flags as int % 0x100
            &&& entry / 0x10_0000_0000_0000 % 0x10 == flags as int / 0x1000
        }),
{
    let (a, b) = (limit as int % 0x1_0000, base as int % 0x100_0000);
    let (f, l) = (flags as int % 0x100, limit as int / 0x1_0000 % 0x10);
    let (g, h) = (flags as int / 0x1000, base as int / 0x100_0000);
    lemma_fields_apart(a, b, f, l, g, h);
    assert(segment_descriptor(flags, base, limit) == a + b * 0x1_0000 + f * 0x100_0000_0000 + l
        * 0x1_0000_0000_0000 + g * 0x10_0000_0000_0000 + h * 0x100_0000_0000_0000);
    assert(a + l * 0x1_0000 == limit as int % 0x10_0000);
    assert(b + h * 0x100_0000 == base);
}

/// Segment `segment` is what the descriptor `entry` says.
pub open spec fn described_by(segment: Segment, entry: int) -> bool {
    let access = entry / 0x100_0000_0000 % 0x100;
    let flags = entry / 0x10_0000_0000_0000 % 0x10;
    &&& segment.base == entry / 0x1_0000 % 0x100_0000 + entry / 0x100_0000_0000_0000 * 0x100_0000
    &&& segment.limit == entry % 0x1_0000 + entry / 0x1_0000_0000_0000 % 0x10 * 0x1_0000
    &&& segment.kind == access % 16
    &&& segment.s == access / 16 % 2
    &&& segment.dpl == access / 32 % 4
    &&& segment.present == access / 128
    &&& segment.avl == flags % 2
    &&& segment.l == flags / 2 % 2
    &&& segment.db == flags / 4 % 2
    &&& segment.g == flags / 8
    &&& segment.unusable == 0
}

/// A vCPU in long mode uses the tables that boot memory holds: its GDT has the three
/// entries there, each segment register is what the entry that it selects says, the code
/// segment is a 64-bit one, and its page tables start at the first of those written.
pub proof fn law_long_mode_uses_the_boot_tables(before: SpecialRegisters)
    ensures
        ({
            let after = long_mode(before);
            &&& after.gdt.base == boot_word_addr(0)
            &&& after.gdt.limit + 1 == 3 * 8
            &&& after.cr3 == boot_word_addr(3)
            &&& after.cs.selector == 8
            &&& described_by(after.cs, boot_word(1))
            &&& after.cs.l == 1
            &&& after.ds.selector == 16
            &&& described_by(after.ds, boot_word(2))
            &&& after.es == after.ds
            &&& after.fs == after.ds
            &&& after.gs == after.ds
            &&& after.ss == after.ds
            &&& after.idt.limit == 7
        }),
{
}

/// Where boot memory puts its words: the GDT at 0x500, then, each on a page of its own,
/// the three levels of page tables, the directory with an entry for each of 512 pages.
/// None of them overlaps another, nor the zero page, the command line or the memory that
/// the kernel is loaded to.
pub proof fn law_boot_words_have_their_places(i: int, j: int)
    requires
        0 <= i < j < BOOT_WORD_COUNT,
    ensures
        BOOT_WORD_COUNT == 5 + 512,
        boot_word_addr(0) == 0x500,
        boot_word_addr(1) == 0x508,
        boot_word_addr(2) == 0x510,
        boot_word_addr(3) == 0x9000,
        boot_word_addr(4) == 0xa000,
        i >= 5 ==> boot_word_addr(i) == 0xb000 + 8 * (i - 5),
        boot_word_addr(i) + 8 <= boot_word_addr(j),
        boot_word_addr(i) + 8 <= 0x7000 || 0x8000 <= boot_word_addr(i),
        boot_word_addr(j) + 8 <= 0x2_0000,
{
}

/// The control registers that a vCPU boots with: protection, paging, physical address
/// extension and long mode, which is active.
pub proof fn law_long_mode_is_entered(before: SpecialRegisters)
    ensures
        long_mode(before).cr0 & 0x8000_0001 == 0x8000_0001,
        long_mode(before).cr4 & 0x20 == 0x20,
        long_mode(before).efer & 0x500 == 0x500,
        long_mode(before).idt.base == 0x520,
{
    law_long_mode_bits(before);
}

/// Each page of the directory is present, writable and a large page.
pub proof fn law_directory_entries_map_large_pages(index: int)
    requires
        0 <= index < 512,
    ensures
        directory_entry(index) % 0x20_0000 == 0x83,
        directory_entry(index) / 0x20_0000 == index,
        boot_word(5 + index) == directory_entry(index),
        boot_word(3) == 0xa000 + 3,
        boot_word(4) == 0xb000 + 3,
{
}

/// Where the zero page holds what: each field at the offset that the boot protocol gives
/// it, and zero everywhere else.
pub proof fn law_zero_page_layout(params: BootParams, i: int)
    requires
        0 <= i < 4096,
    ensures
        ({
            let page = zero_page(params);
            &&& page[0x1e8] == params.e820_entries
            &&& page.subrange(0x1fe, 0x200) == le_bytes(params.boot_flag as nat, 2)
            &&& page.subrange(0x202, 0x206) == le_bytes(params.header as nat, 4)
            &&& page[0x210] == params.type_of_loader
            &&& page.subrange(0x228, 0x22c) == le_bytes(params.cmd_line_ptr as nat, 4)
            &&& page.subrange(0x238, 0x23c) == le_bytes(params.cmdline_size as nat, 4)
            &&& page.subrange(0x2d0, 0x2d8) == le_bytes(params.low.addr as nat, 8)
            &&& page.subrange(0x2d8, 0x2e0) == le_bytes(params.low.size as nat, 8)
            &&& page.subrange(0x2e0, 0x2e4) == le_bytes(params.low.kind as nat, 4)
            &&& page.subrange(0x2e4, 0x2ec) == le_bytes(params.high.addr as nat, 8)
            &&& page.subrange(0x2ec, 0x2f4) == le_bytes(params.high.size as nat, 8)
            &&& page.subrange(0x2f4, 0x2f8) == le_bytes(params.high.kind as nat, 4)
            &&& i < 0x1e8 || 0x1e9 <= i < 0x1fe || 0x200 <= i < 0x202 || 0x206 <= i < 0x210 || 0x211 <= i < 0x228
                || 0x22c <= i < 0x238 || 0x23c <= i < 0x2d0 || 0x2f8 <= i ==> page[i] == 0
        }),
{
    law_zero_page_is_one_page(params);
    lemma_le_bytes_len(params.boot_flag as nat, 2);
    lemma_le_bytes_len(params.header as nat, 4);
    lemma_le_bytes_len(params.cmd_line_ptr as nat, 4);
    lemma_le_bytes_len(params.cmdline_size as nat, 4);
    lemma_le_bytes_len(params.low.addr as nat, 8);
    lemma_le_bytes_len(params.low.size as nat, 8);
    lemma_le_bytes_len(params.low.kind as nat, 4);
    lemma_le_bytes_len(params.high.addr as nat, 8);
    lemma_le_bytes_len(params.high.size as nat, 8);
    lemma_le_bytes_len(params.high.kind as nat, 4);
    let page = zero_page(params);
    assert(page.subrange(0x1fe, 0x200) =~= le_bytes(params.boot_flag as nat, 2));
    assert(page.subrange(0x202, 0x206) =~= le_bytes(params.header as nat, 4));
    assert(page.subrange(0x228, 0x22c) =~= le_bytes(params.cmd_line_ptr as nat, 4));
    assert(page.subrange(0x238, 0x23c) =~= le_bytes(params.cmdline_size as nat, 4));
    assert(page.subrange(0x2d0, 0x2d8) =~= le_bytes(params.low.addr as nat, 8));
    assert(page.subrange(0x2d8, 0x2e0) =~= le_bytes(params.low.size as nat, 8));
    assert(page.subrange(0x2e0, 0x2e4) =~= le_bytes(params.low.kind as nat, 4));
    assert(page.subrange(0x2e4, 0x2ec) =~= le_bytes(params.high.addr as nat, 8));
    assert(page.subrange(0x2ec, 0x2f4) =~= le_bytes(params.high.size as nat, 8));
    assert(page.subrange(0x2f4, 0x2f8) =~= le_bytes(params.high.kind as nat, 4));
}

/// What the guest is told of itself: where its command line is and how long, and that its
/// memory is usable below the legacy hole and from 1 MiB to its end.
pub proof fn law_guest_is_told_its_memory(mem_size_bytes: int, has_disk: bool)
    requires
        0 <= mem_size_bytes <= u64::MAX,
    ensures
        ({
            let params = params_of(mem_size_bytes, has_disk);
            &&& params.type_of_loader == 0xff
            &&& params.boot_flag == 0xaa55
            &&& params.header == 0x5372_6448
            &&& params.cmd_line_ptr == 0x2_0000
            &&& params.cmd_line_ptr == CMDLINE_ADDR
            &&& params.cmdline_size == cmdline_of(has_disk).len()
            &&& params.e820_entries == 2
            &&& params.low == (E820Entry { addr: 0, size: 0x9_fc00, kind: 1 })
            &&& params.high.addr == 0x10_0000
            &&& params.high.kind == 1
            &&& mem_size_bytes >= 0x10_0000 ==> params.high.addr + params.high.size == mem_size_bytes
            &&& mem_size_bytes < 0x10_0000 ==> params.high.size == 0
        }),
{
    law_kernel_cmdline_fits_guest_buffer(has_disk);
}

/// The command line puts the console on the first serial port and the block device where
/// the monitor serves it, and only a VM with a disk mounts a root filesystem from it.
pub proof fn law_command_line_matches_the_devices(has_disk: bool)
    ensures
        cmdline_of(false)
            == "earlyprintk=ttyS0 console=ttyS0 reboot=k panic=1 pci=off nox2apic lapic=notscdeadline"@
            + " virtio_mmio.device=1K@0xd0000000:5"@,
        cmdline_of(true) == cmdline_of(false) + " root=/dev/vda rw"@,
        crate::vmm::provision::VIRTIO_BLK_MMIO_BASE == 0xd000_0000,
        crate::vmm::provision::VIRTIO_BLK_MMIO_SIZE >= 1024,
        crate::vmm::provision::VIRTIO_BLK_GSI == 5,
        forall|i: int|
            0 <= i < cmdline_bytes(has_disk).len() ==> #[trigger] cmdline_bytes(has_disk)[i] as char == cmdline_of(
                has_disk,
            )[i],
{
    law_kernel_cmdline_fits_guest_buffer(has_disk);
    reveal_strlit(
        "earlyprintk=ttyS0 console=ttyS0 reboot=k panic=1 pci=off nox2apic lapic=notscdeadline virtio_mmio.device=1K@0xd0000000:5",
    );
    reveal_strlit("earlyprintk=ttyS0 console=ttyS0 reboot=k panic=1 pci=off nox2apic lapic=notscdeadline");
    reveal_strlit(" virtio_mmio.device=1K@0xd0000000:5");
    assert(cmdline_of(false)
        =~= "earlyprintk=ttyS0 console=ttyS0 reboot=k panic=1 pci=off nox2apic lapic=notscdeadline"@
        + " virtio_mmio.device=1K@0xd0000000:5"@);
}

/// A program header stops a file exactly if its offset needs more than 63 bits and it is
/// a loadable segment with contents, or a note segment.
pub proof fn law_what_a_file_does_not_reach(image: Seq<u8>, at: int)
    ensures
        ({
            let kind = image_number(image, at, 4);
            let offset = image_number(image, at + 8, 8);
            let size = image_number(image, at + 32, 8);
            &&& header_stop(image, at) == Some(Unreachable::Segment) <==> offset >= 0x8000_0000_0000_0000 && kind
                == 1 && size != 0
            &&& header_stop(image, at) == Some(Unreachable::Notes) <==> offset >= 0x8000_0000_0000_0000 && kind == 4
            &&& header_stop(image, at) != Some(Unreachable::Headers)
        }),
{
}

/// Of the program headers, the first that a file does not reach decides.
pub proof fn law_first_unreachable_header_decides(image: Seq<u8>, table: int, count: int, index: int)
    requires
        0 <= index,
    ensures
        match first_stop(image, table, count, index) {
            Some((at, why)) => {
                &&& index <= at < count
                &&& header_stop(image, table + 56 * at) == Some(why)
                &&& forall|k: int| index <= k < at ==> #[trigger] header_reached(image, table, k)
            },
            None => forall|k: int| index <= k < count ==> #[trigger] header_reached(image, table, k),
        },
    decreases count - index,
{
    if index < count {
        law_first_unreachable_header_decides(image, table, count, index + 1);
        if header_stop(image, table + 56 * index) is None {
            assert(header_reached(image, table, index));
        }
    }
}

/// Program header `k` of the table at `table` asks for nothing that a file does not reach.
pub open spec fn header_reached(image: Seq<u8>, table: int, k: int) -> bool {
    header_stop(image, table + 56 * k) is None
}

/// The program headers stand where the header of the image says, at offset 32, and there
/// are as many as it says at offset 56. A table beyond what a file reaches is refused as
/// such; an image that ends before its table does is left to the loader.
pub proof fn law_program_headers_are_found(image: Seq<u8>)
    ensures
        ({
            let table = image_number(image, 32, 8);
            let count = image_number(image, 56, 2);
            &&& image.len() < 64 ==> reach_of(image) is None
            &&& image.len() >= 64 && table >= 0x8000_0000_0000_0000 ==> reach_of(image) == Some(
                (0int, Unreachable::Headers),
            )
            &&& image.len() >= 64 && table < 0x8000_0000_0000_0000 && table + 56 * count > image.len()
                ==> reach_of(image) is None
            &&& image.len() >= 64 && table < 0x8000_0000_0000_0000 && table + 56 * count <= image.len()
                ==> reach_of(image) == first_stop(image, table as int, count as int, 0)
        }),
{
}

/// Shortening an image changes the number of its program headers and nothing else.
pub proof fn law_shortened_image(image: Seq<u8>, count: int, k: int)
    requires
        image.len() >= 64,
        0 <= count < 0x1_0000,
    ensures
        with_headers(image, count).len() == image.len(),
        image_number(with_headers(image, count), 56, 2) == count,
        0 <= k < image.len() && k != 56 && k != 57 ==> with_headers(image, count)[k] == image[k],
{
    let bytes = with_headers(image, count).subrange(56, 58);
    assert(bytes =~= le_bytes(count as nat, 2)) by {
        crate::bytes::law_bytes_are_little_endian(count as nat, 2);
    }
    lemma_byte_ranges();
    lemma_le_round_trip(count as nat, 2);
}

/// An image that a file reaches is loaded as it is; one that it does not is never entered,
/// and what the file reaches of it is loaded all the same.
pub proof fn law_unreachable_image_is_never_entered(bytes: Map<int, u8>, image: Seq<u8>)
    ensures
        reach_of(image) is None ==> kernel_loaded(bytes, image) == elf_loaded(bytes, image),
        reach_of(image) matches Some((count, why)) ==> {
            let part = elf_loaded(bytes, with_headers(image, count));
            &&& kernel_loaded(bytes, image).0 is Err
            &&& kernel_loaded(bytes, image).1 == part.1
            &&& part.0 is Ok ==> kernel_loaded(bytes, image).0 == Err::<u64, Seq<char>>(why.text())
            &&& part.0 matches Err(reason) ==> kernel_loaded(bytes, image).0 == Err::<u64, Seq<char>>(reason)
        },
{
}

/// Each boot word is reported as the structure that it belongs to.
pub proof fn law_boot_words_are_named(i: int)
    requires
        0 <= i < 517,
    ensures
        match boot_word_structure(i) {
            BootStructure::GdtEntry(index) => index == i && boot_word_addr(i) == 0x500 + 8 * index,
            BootStructure::Pml4Entry => boot_word_addr(i) == 0x9000,
            BootStructure::PdptEntry => boot_word_addr(i) == 0xa000,
            BootStructure::PdEntry(index) => boot_word_addr(i) == 0xb000 + 8 * index,
        },
{
}

} // verus!
