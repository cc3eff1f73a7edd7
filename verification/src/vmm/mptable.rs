//! Intel MultiProcessor (MP) table: guest CPU enumeration for SMP.
//!
//! A directly booted guest has no firmware, so the Linux kernel finds its
//! processors through the MP table, revision 1.4:
//! a 16-byte floating pointer that it finds by scanning the BIOS ROM window, and
//! a configuration table that lists every processor, the ISA bus, the I/O APIC,
//! the sixteen legacy interrupt lines and the local-interrupt wiring.
//!
//! Both live in the BIOS hole, real guest RAM that the e820 map leaves out:
//!
//! ```text
//!   0xf0000  MP floating pointer     (16 bytes, signature "_MP_")
//!   0xf0010  MP configuration table  (signature "PCMP": header + entries)
//! ```
//!
//! The kernel trusts either only if its bytes sum to zero modulo 256.

use vm_memory::GuestMemoryMmap;
use vstd::prelude::*;
use vstd::string::StringExecFns;

use crate::bytes::{
    le_bytes, lemma_byte_ranges, lemma_le_bytes_len, lemma_le_round_trip, to_le_bytes, zeros,
};
use crate::vmm::memory::{
    backed, bytes_at, guest_bytes, lemma_layout_decides, loaded, refusal, write_slice, written,
};
use crate::vmm::MAX_VCPUS;

verus! {

/// Address of the 16-byte MP floating pointer.
pub const MPTABLE_FLOATING_POINTER_ADDR: u64 = 0x000f_0000;

/// Address of the MP configuration table, right after the floating pointer.
pub const MPTABLE_CONFIG_ADDR: u64 = 0x000f_0010;

/// Size of the MP floating pointer, in bytes.
pub const MP_FLOATING_POINTER_LEN: usize = 16;

/// Revision 1.4 of the MP table.
pub const MP_SPEC_REVISION: u8 = 4;

/// Processor-entry flag: this processor is enabled.
pub const PROCESSOR_FLAG_ENABLED: u8 = 1;

/// Processor-entry flag: this processor is the bootstrap processor.
pub const PROCESSOR_FLAG_BSP: u8 = 2;

/// Number of legacy ISA interrupt lines routed through the I/O APIC.
pub const ISA_IRQ_COUNT: u8 = 16;

/// Local-APIC register base, the architectural default.
pub const LAPIC_ADDR: u32 = 0xfee0_0000;

/// I/O APIC register base, the architectural default.
pub const IO_APIC_ADDR: u32 = 0xfec0_0000;

/// One of the two structures.
#[derive(Clone, Copy, Debug, PartialEq, Eq)]
pub enum MpStructure {
    FloatingPointer,
    ConfigTable,
}

impl MpStructure {
    /// What is reported of a structure that could not be written.
    pub open spec fn text(self) -> Seq<char> {
        match self {
            MpStructure::FloatingPointer => "failed to write the MP floating pointer: "@,
            MpStructure::ConfigTable => "failed to write the MP configuration table: "@,
        }
    }
}

/// Which of the two structures could not be written, and why.
#[derive(Debug, PartialEq, Eq)]
pub struct MpTableError {
    pub structure: MpStructure,
    pub reason: String,
}

impl MpTableError {
    /// The message that reports this error.
    pub fn message(&self) -> (message: String)
        ensures
            message@ == self.structure.text() + self.reason@,
    {
        let mut message = match self.structure {
            MpStructure::FloatingPointer => String::from_str("failed to write the MP floating pointer: "),
            MpStructure::ConfigTable => String::from_str("failed to write the MP configuration table: "),
        };
        message.append(self.reason.as_str());
        message
    }
}

/// The sum of `bytes`.
pub open spec fn byte_sum(bytes: Seq<u8>) -> nat
    decreases bytes.len(),
{
    if bytes.len() == 0 {
        0
    } else {
        byte_sum(bytes.drop_last()) + bytes.last() as nat
    }
}

/// The byte that brings the sum of `bytes` and itself to zero modulo 256.
pub open spec fn zeroing_byte(bytes: Seq<u8>) -> u8 {
    ((256 - byte_sum(bytes) % 256) % 256) as u8
}

proof fn lemma_byte_sum_concat(a: Seq<u8>, b: Seq<u8>)
    ensures
        byte_sum(a + b) == byte_sum(a) + byte_sum(b),
    decreases b.len(),
{
    if b.len() == 0 {
        assert(a + b =~= a);
    } else {
        lemma_byte_sum_concat(a, b.drop_last());
        assert((a + b).drop_last() =~= a + b.drop_last());
    }
}

/// Returns the byte that drives `bytes` plus that byte to zero modulo 256.
pub fn checksum(bytes: &[u8]) -> (check: u8)
    ensures
        check == zeroing_byte(bytes@),
        (byte_sum(bytes@) + check) % 256 == 0,
{
    let mut sum: u8 = 0;
    let mut i: usize = 0;
    while i < bytes.len()
        invariant
            i <= bytes@.len(),
            sum == byte_sum(bytes@.take(i as int)) % 256,
        decreases bytes@.len() - i,
    {
        assert(bytes@.take(i + 1).drop_last() =~= bytes@.take(i as int));
        sum = sum.wrapping_add(bytes[i]);
        i = i + 1;
    }
    assert(bytes@.take(i as int) =~= bytes@);
    if sum == 0 {
        0
    } else {
        (255 - sum) + 1
    }
}

/// Total size of the configuration table of `num_cpus` processors.
pub open spec fn table_length(num_cpus: int) -> int {
    204 + 20 * num_cpus
}

/// Total size of the configuration table, header plus every entry, for a VM of
/// `num_cpus` processors.
pub fn config_table_length(num_cpus: u32) -> (length: u32)
    requires
        table_length(num_cpus as int) <= u32::MAX,
    ensures
        length == table_length(num_cpus as int),
        length == 44 + num_cpus * 20 + 8 + 8 + 16 * 8 + 2 * 8,
{
    44 + num_cpus * 20 + 8 + 8 + 16 * 8 + 2 * 8
}

/// Builds the CPU-flags byte of a processor entry: always enabled, and marked as
/// the bootstrap processor for vCPU 0.
pub fn processor_flags(is_bsp: bool) -> (flags: u8)
    ensures
        flags == flags_of(is_bsp),
        flags == (if is_bsp {
            PROCESSOR_FLAG_ENABLED | PROCESSOR_FLAG_BSP
        } else {
            PROCESSOR_FLAG_ENABLED
        }),
{
    assert(1u8 | 2u8 == 3u8) by (bit_vector);
    if is_bsp {
        PROCESSOR_FLAG_ENABLED | PROCESSOR_FLAG_BSP
    } else {
        PROCESSOR_FLAG_ENABLED
    }
}

/// The CPU-flags byte: bit 0 says enabled, bit 1 bootstrap processor.
pub open spec fn flags_of(is_bsp: bool) -> u8 {
    if is_bsp {
        3
    } else {
        1
    }
}

/// Entry of processor `cpu`: its local-APIC id is its index, and processor 0 is
/// the bootstrap processor.
pub open spec fn processor_entry(cpu: int) -> Seq<u8> {
    seq![0u8, (cpu % 256) as u8, 0x14u8, flags_of(cpu == 0)] + zeros(16)
}

/// The entries of the first `n` processors.
pub open spec fn processor_entries(n: nat) -> Seq<u8>
    decreases n,
{
    if n == 0 {
        Seq::empty()
    } else {
        processor_entries((n - 1) as nat) + processor_entry(n - 1)
    }
}

/// Entry of the ISA bus, number 0.
pub open spec fn bus_entry() -> Seq<u8> {
    seq![1u8, 0, 0x49, 0x53, 0x41, 0x20, 0x20, 0x20]
}

/// Entry of the I/O APIC, whose id follows those of the processors.
pub open spec fn io_apic_entry(num_cpus: int) -> Seq<u8> {
    seq![2u8, (num_cpus % 256) as u8, 0x11, 1] + le_bytes(IO_APIC_ADDR as nat, 4)
}

/// Entry that routes ISA line `irq` to the same input of the I/O APIC.
pub open spec fn io_interrupt_entry(num_cpus: int, irq: int) -> Seq<u8> {
    seq![3u8, 0, 0, 0, 0, irq as u8, (num_cpus % 256) as u8, irq as u8]
}

/// The entries of the first `n` ISA lines.
pub open spec fn io_interrupt_entries(num_cpus: int, n: nat) -> Seq<u8>
    decreases n,
{
    if n == 0 {
        Seq::empty()
    } else {
        io_interrupt_entries(num_cpus, (n - 1) as nat) + io_interrupt_entry(num_cpus, n - 1)
    }
}

/// The local-interrupt entries: ExtINT on LINT0 and NMI on LINT1 of every local
/// APIC.
pub open spec fn local_interrupt_entries() -> Seq<u8> {
    seq![4u8, 3, 0, 0, 0, 0, 0xff, 0] + seq![4u8, 1, 0, 0, 0, 0, 0xff, 1]
}

/// Every entry of the configuration table, in order.
pub open spec fn table_entries(num_cpus: nat) -> Seq<u8> {
    processor_entries(num_cpus) + bus_entry() + io_apic_entry(num_cpus as int)
        + io_interrupt_entries(num_cpus as int, ISA_IRQ_COUNT as nat) + local_interrupt_entries()
}

/// The table header before its checksum byte: signature "PCMP", the table length
/// and the revision.
pub open spec fn header_start(num_cpus: nat) -> Seq<u8> {
    seq![0x50u8, 0x43, 0x4d, 0x50] + le_bytes((table_length(num_cpus as int) % 0x1_0000) as nat, 2)
        + seq![MP_SPEC_REVISION]
}

/// The table header after its checksum byte: OEM id "AIVMM   ", product id
/// "Hypervisor  ", no OEM table, the number of entries, the local-APIC address
/// and no extended table.
pub open spec fn header_end(num_cpus: nat) -> Seq<u8> {
    seq![0x41u8, 0x49, 0x56, 0x4d, 0x4d, 0x20, 0x20, 0x20] + seq![
        0x48u8,
        0x79,
        0x70,
        0x65,
        0x72,
        0x76,
        0x69,
        0x73,
        0x6f,
        0x72,
        0x20,
        0x20,
    ] + zeros(6) + le_bytes(num_cpus + 20, 2) + le_bytes(LAPIC_ADDR as nat, 4) + zeros(4)
}

/// The configuration table with `check` as its checksum byte.
pub open spec fn table_with(num_cpus: nat, check: u8) -> Seq<u8> {
    header_start(num_cpus) + seq![check] + (header_end(num_cpus) + table_entries(num_cpus))
}

/// The configuration table of `num_cpus` processors.
pub open spec fn config_table(num_cpus: nat) -> Seq<u8> {
    table_with(num_cpus, zeroing_byte(table_with(num_cpus, 0)))
}

/// The floating pointer with `check` as its checksum byte: signature "_MP_", the
/// address of the configuration table, a length of one paragraph, the
/// revision and no feature bits.
pub open spec fn pointer_with(check: u8) -> Seq<u8> {
    seq![0x5fu8, 0x4d, 0x50, 0x5f] + le_bytes(MPTABLE_CONFIG_ADDR as nat, 4) + seq![1u8, MP_SPEC_REVISION]
        + seq![check] + zeros(5)
}

/// The floating pointer.
pub open spec fn floating_pointer() -> Seq<u8> {
    pointer_with(zeroing_byte(pointer_with(0)))
}

proof fn lemma_entry_lengths(num_cpus: nat)
    ensures
        processor_entries(num_cpus).len() == 20 * num_cpus,
    decreases num_cpus,
{
    if num_cpus > 0 {
        lemma_entry_lengths((num_cpus - 1) as nat);
    }
}

proof fn lemma_io_interrupt_lengths(num_cpus: int, n: nat)
    ensures
        io_interrupt_entries(num_cpus, n).len() == 8 * n,
    decreases n,
{
    if n > 0 {
        lemma_io_interrupt_lengths(num_cpus, (n - 1) as nat);
    }
}

/// The configuration table is exactly as long as its length formula says.
pub proof fn law_table_has_the_stated_length(num_cpus: nat, check: u8)
    ensures
        table_with(num_cpus, check).len() == table_length(num_cpus as int),
        config_table(num_cpus).len() == table_length(num_cpus as int),
        header_start(num_cpus).len() == 7,
{
    lemma_entry_lengths(num_cpus);
    lemma_io_interrupt_lengths(num_cpus as int, ISA_IRQ_COUNT as nat);
    lemma_le_bytes_len(IO_APIC_ADDR as nat, 4);
    lemma_le_bytes_len(LAPIC_ADDR as nat, 4);
    lemma_le_bytes_len(num_cpus + 20, 2);
    lemma_le_bytes_len((table_length(num_cpus as int) % 0x1_0000) as nat, 2);
}

/// The length of the table of every VM that may be provisioned fits in its 16-bit
/// length field.
pub proof fn law_table_length_fits(num_cpus: u32)
    requires
        num_cpus <= MAX_VCPUS,
    ensures
        table_length(num_cpus as int) <= u16::MAX,
        num_cpus + 20 <= u16::MAX,
{
}

/// The configuration table of every VM sums to zero modulo 256, as the kernel
/// demands.
pub proof fn law_table_sums_to_zero(num_cpus: nat)
    ensures
        byte_sum(config_table(num_cpus)) % 256 == 0,
{
    let check = zeroing_byte(table_with(num_cpus, 0));
    let start = header_start(num_cpus);
    let end = header_end(num_cpus) + table_entries(num_cpus);
    lemma_byte_sum_concat(start + seq![0u8], end);
    lemma_byte_sum_concat(start, seq![0u8]);
    lemma_byte_sum_concat(start + seq![check], end);
    lemma_byte_sum_concat(start, seq![check]);
    lemma_byte_sum_single(0u8);
    lemma_byte_sum_single(check);
}

/// The floating pointer sums to zero modulo 256.
pub proof fn law_floating_pointer_sums_to_zero()
    ensures
        byte_sum(floating_pointer()) % 256 == 0,
        floating_pointer().len() == MP_FLOATING_POINTER_LEN,
{
    let check = zeroing_byte(pointer_with(0));
    let start = seq![0x5fu8, 0x4d, 0x50, 0x5f] + le_bytes(MPTABLE_CONFIG_ADDR as nat, 4) + seq![
        1u8,
        MP_SPEC_REVISION,
    ];
    lemma_le_bytes_len(MPTABLE_CONFIG_ADDR as nat, 4);
    lemma_byte_sum_concat(start + seq![0u8], zeros(5));
    lemma_byte_sum_concat(start, seq![0u8]);
    lemma_byte_sum_concat(start + seq![check], zeros(5));
    lemma_byte_sum_concat(start, seq![check]);
    lemma_byte_sum_single(0u8);
    lemma_byte_sum_single(check);
}

proof fn lemma_byte_sum_single(byte: u8)
    ensures
        byte_sum(seq![byte]) == byte,
{
    assert(seq![byte].drop_last() =~= Seq::<u8>::empty());
    reveal_with_fuel(byte_sum, 2);
}

/// `n` zero bytes.
fn zero_bytes(n: usize) -> (bytes: Vec<u8>)
    ensures
        bytes@ == zeros(n as nat),
{
    let bytes: Vec<u8> = vec![0u8; n];
    assert(bytes@ =~= zeros(n as nat));
    bytes
}

/// Builds the entries of the configuration table.
fn build_entries(num_cpus: u32) -> (entries: Vec<u8>)
    ensures
        entries@ == table_entries(num_cpus as nat),
{
    let mut entries: Vec<u8> = Vec::new();
    let mut cpu: u32 = 0;
    while cpu < num_cpus
        invariant
            cpu <= num_cpus,
            entries@ == processor_entries(cpu as nat),
        decreases num_cpus - cpu,
    {
        let ghost before = entries@;
        entries.append(&mut vec![0u8, (cpu % 256) as u8, 0x14, processor_flags(cpu == 0)]);
        entries.append(&mut zero_bytes(16));
        assert(entries@ =~= before + processor_entry(cpu as int));
        cpu = cpu + 1;
    }
    let io_apic_id: u8 = (num_cpus % 256) as u8;
    entries.append(&mut vec![1u8, 0, 0x49, 0x53, 0x41, 0x20, 0x20, 0x20]);
    let ghost with_bus = entries@;
    assert(with_bus =~= processor_entries(num_cpus as nat) + bus_entry());
    entries.append(&mut vec![2u8, io_apic_id, 0x11, 1]);
    entries.append(&mut to_le_bytes(IO_APIC_ADDR as u64, 4));
    let ghost with_io_apic = entries@;
    assert(with_io_apic =~= with_bus + io_apic_entry(num_cpus as int));
    let mut irq: u8 = 0;
    while irq < ISA_IRQ_COUNT
        invariant
            irq <= ISA_IRQ_COUNT,
            io_apic_id == num_cpus as int % 256,
            entries@ == with_io_apic + io_interrupt_entries(num_cpus as int, irq as nat),
        decreases ISA_IRQ_COUNT - irq,
    {
        let ghost before = entries@;
        entries.append(&mut vec![3u8, 0, 0, 0, 0, irq, io_apic_id, irq]);
        assert(entries@ =~= before + io_interrupt_entry(num_cpus as int, irq as int));
        irq = irq + 1;
        assert(entries@ =~= with_io_apic + io_interrupt_entries(num_cpus as int, irq as nat));
    }
    let ghost with_lines = entries@;
    entries.append(&mut vec![4u8, 3, 0, 0, 0, 0, 0xff, 0]);
    entries.append(&mut vec![4u8, 1, 0, 0, 0, 0, 0xff, 1]);
    assert(entries@ =~= with_lines + local_interrupt_entries());
    entries
}

/// Builds the configuration table.
fn build_config_table(num_cpus: u32) -> (table: Vec<u8>)
    requires
        num_cpus + 20 <= u16::MAX,
    ensures
        table@ == config_table(num_cpus as nat),
{
    let ghost n = num_cpus as nat;
    let mut entries = build_entries(num_cpus);
    let base_table_length: u32 = config_table_length(num_cpus) % 0x1_0000;
    let mut table: Vec<u8> = vec![0x50u8, 0x43, 0x4d, 0x50];
    table.append(&mut to_le_bytes(base_table_length as u64, 2));
    table.push(MP_SPEC_REVISION);
    assert(table@ =~= header_start(n));
    table.push(0);
    let ghost start = table@;
    assert(start =~= header_start(n) + seq![0u8]);
    let mut rest: Vec<u8> = vec![0x41u8, 0x49, 0x56, 0x4d, 0x4d, 0x20, 0x20, 0x20];
    rest.append(
        &mut vec![
            0x48u8,
            0x79,
            0x70,
            0x65,
            0x72,
            0x76,
            0x69,
            0x73,
            0x6f,
            0x72,
            0x20,
            0x20,
        ],
    );
    rest.append(&mut zero_bytes(6));
    rest.append(&mut to_le_bytes(num_cpus as u64 + 20, 2));
    rest.append(&mut to_le_bytes(LAPIC_ADDR as u64, 4));
    rest.append(&mut zero_bytes(4));
    assert(rest@ =~= header_end(n));
    rest.append(&mut entries);
    table.append(&mut rest);
    assert(table@ =~= table_with(n, 0));
    let check: u8 = checksum(table.as_slice());
    proof {
        law_table_has_the_stated_length(n, 0);
        law_table_has_the_stated_length(n, check);
    }
    table.set(7, check);
    assert(table@ =~= table_with(n, check));
    table
}

/// Builds the floating pointer.
fn build_floating_pointer() -> (pointer: Vec<u8>)
    ensures
        pointer@ == floating_pointer(),
{
    let mut pointer: Vec<u8> = vec![0x5fu8, 0x4d, 0x50, 0x5f];
    pointer.append(&mut to_le_bytes(MPTABLE_CONFIG_ADDR, 4));
    pointer.append(&mut vec![1u8, MP_SPEC_REVISION]);
    pointer.push(0);
    pointer.append(&mut zero_bytes(5));
    assert(pointer@ =~= pointer_with(0));
    let check: u8 = checksum(pointer.as_slice());
    proof {
        lemma_le_bytes_len(MPTABLE_CONFIG_ADDR as nat, 4);
    }
    pointer.set(10, check);
    assert(pointer@ =~= pointer_with(check));
    pointer
}

/// Writes a valid MP floating pointer and configuration table into guest memory,
/// enumerating `num_cpus` processors so that the guest kernel can bring up the
/// application processors.
pub fn setup_mptable(guest_memory: &mut GuestMemoryMmap, num_cpus: u32) -> (result: Result<(), MpTableError>)
    requires
        num_cpus + 20 <= u16::MAX,
    ensures
        ({
            let before = guest_bytes(*old(guest_memory));
            let pointed = written(before, MPTABLE_FLOATING_POINTER_ADDR as int, floating_pointer());
            let table = config_table(num_cpus as nat);
            if !backed(before, MPTABLE_FLOATING_POINTER_ADDR as int, MP_FLOATING_POINTER_LEN as int) {
                &&& result matches Err(error) && error.structure == MpStructure::FloatingPointer
                    && error.reason@ == refusal(
                    before,
                    MPTABLE_FLOATING_POINTER_ADDR as int,
                    MP_FLOATING_POINTER_LEN as nat,
                )
                &&& guest_bytes(*final(guest_memory)) == pointed
            } else {
                &&& guest_bytes(*final(guest_memory)) == written(
                    pointed,
                    MPTABLE_CONFIG_ADDR as int,
                    table,
                )
                &&& result is Ok <==> backed(
                    before,
                    MPTABLE_CONFIG_ADDR as int,
                    table_length(num_cpus as int),
                )
                &&& result matches Err(error) ==> error.structure == MpStructure::ConfigTable
                    && error.reason@ == refusal(
                    before,
                    MPTABLE_CONFIG_ADDR as int,
                    table_length(num_cpus as int) as nat,
                )
            }
        }),
{
    let config = build_config_table(num_cpus);
    let pointer = build_floating_pointer();
    proof {
        law_floating_pointer_sums_to_zero();
        law_table_has_the_stated_length(num_cpus as nat, 0);
    }
    let ghost before = guest_bytes(*guest_memory);
    match write_slice(guest_memory, MPTABLE_FLOATING_POINTER_ADDR, pointer.as_slice()) {
        Ok(_) => {},
        Err(reason) => return Err(MpTableError { structure: MpStructure::FloatingPointer, reason }),
    }
    proof {
        let pointed = guest_bytes(*guest_memory);
        assert(pointed.dom() =~= before.dom());
        lemma_layout_decides(pointed, before, MPTABLE_CONFIG_ADDR as int, config@.len());
    }
    match write_slice(guest_memory, MPTABLE_CONFIG_ADDR, config.as_slice()) {
        Ok(_) => Ok(()),
        Err(reason) => Err(MpTableError { structure: MpStructure::ConfigTable, reason }),
    }
}

proof fn lemma_processor_entry_at(n: nat, cpu: int)
    requires
        0 <= cpu < n,
    ensures
        processor_entries(n).len() == 20 * n,
        processor_entries(n).subrange(20 * cpu, 20 * cpu + 20) == processor_entry(cpu),
    decreases n,
{
    lemma_entry_lengths(n);
    let before = processor_entries((n - 1) as nat);
    lemma_entry_lengths((n - 1) as nat);
    if cpu == n - 1 {
        assert(processor_entries(n).subrange(20 * cpu, 20 * cpu + 20) =~= processor_entry(cpu));
    } else {
        lemma_processor_entry_at((n - 1) as nat, cpu);
        assert(processor_entries(n).subrange(20 * cpu, 20 * cpu + 20) =~= before.subrange(
            20 * cpu,
            20 * cpu + 20,
        ));
    }
}

proof fn lemma_io_interrupt_entry_at(num_cpus: int, n: nat, irq: int)
    requires
        0 <= irq < n,
    ensures
        io_interrupt_entries(num_cpus, n).subrange(8 * irq, 8 * irq + 8) == io_interrupt_entry(num_cpus, irq),
    decreases n,
{
    lemma_io_interrupt_lengths(num_cpus, n);
    let before = io_interrupt_entries(num_cpus, (n - 1) as nat);
    lemma_io_interrupt_lengths(num_cpus, (n - 1) as nat);
    if irq == n - 1 {
        assert(io_interrupt_entries(num_cpus, n).subrange(8 * irq, 8 * irq + 8) =~= io_interrupt_entry(
            num_cpus,
            irq,
        ));
    } else {
        lemma_io_interrupt_entry_at(num_cpus, (n - 1) as nat, irq);
        assert(io_interrupt_entries(num_cpus, n).subrange(8 * irq, 8 * irq + 8) =~= before.subrange(
            8 * irq,
            8 * irq + 8,
        ));
    }
}

/// Where the parts of the configuration table lie.
proof fn lemma_table_parts(n: nat)
    ensures
        config_table(n).len() == 204 + 20 * (n as int),
        config_table(n).subrange(44, 44 + 20 * (n as int)) == processor_entries(n),
        config_table(n).subrange(44 + 20 * (n as int), 52 + 20 * (n as int)) == bus_entry(),
        config_table(n).subrange(52 + 20 * (n as int), 60 + 20 * (n as int)) == io_apic_entry(n as int),
        config_table(n).subrange(60 + 20 * (n as int), 188 + 20 * (n as int)) == io_interrupt_entries(n as int, 16),
        config_table(n).subrange(188 + 20 * (n as int), 204 + 20 * (n as int)) == local_interrupt_entries(),
        config_table(n).subrange(0, 7) == header_start(n),
        config_table(n).subrange(8, 44) == header_end(n),
{
    law_table_has_the_stated_length(n, 0);
    lemma_entry_lengths(n);
    lemma_io_interrupt_lengths(n as int, 16);
    lemma_le_bytes_len(IO_APIC_ADDR as nat, 4);
    lemma_le_bytes_len(LAPIC_ADDR as nat, 4);
    lemma_le_bytes_len(n + 20, 2);
    lemma_le_bytes_len((table_length(n as int) % 0x1_0000) as nat, 2);
    let table = config_table(n);
    assert(header_end(n).len() == 36);
    assert(table.subrange(44, 204 + 20 * (n as int)) =~= table_entries(n));
    let entries = table_entries(n);
    assert(table.subrange(44, 44 + 20 * (n as int)) =~= processor_entries(n));
    assert(table.subrange(44 + 20 * (n as int), 52 + 20 * (n as int)) =~= bus_entry());
    assert(table.subrange(52 + 20 * (n as int), 60 + 20 * (n as int)) =~= io_apic_entry(n as int));
    assert(table.subrange(60 + 20 * (n as int), 188 + 20 * (n as int)) =~= io_interrupt_entries(n as int, 16));
    assert(table.subrange(188 + 20 * (n as int), 204 + 20 * (n as int)) =~= local_interrupt_entries());
    assert(table.subrange(0, 7) =~= header_start(n));
    assert(table.subrange(8, 44) =~= header_end(n));
}

/// The table lists every processor, in order: an enabled processor whose local-APIC id
/// is its index, the first one marked as the bootstrap processor.
pub proof fn law_every_processor_is_listed(num_cpus: nat, cpu: int)
    requires
        num_cpus <= MAX_VCPUS,
        0 <= cpu < num_cpus,
    ensures
        ({
            let entry = config_table(num_cpus).subrange(44 + 20 * cpu, 64 + 20 * cpu);
            &&& entry.len() == 20
            &&& entry[0] == 0
            &&& entry[1] == cpu
            &&& entry[2] == 0x14
            &&& cpu == 0 ==> entry[3] == 3
            &&& cpu != 0 ==> entry[3] == 1
            &&& forall|k: int| 4 <= k < 20 ==> #[trigger] entry[k] == 0
        }),
{
    let table = config_table(num_cpus);
    let entry = table.subrange(44 + 20 * cpu, 64 + 20 * cpu);
    assert(entry == processor_entry(cpu)) by {
        lemma_table_parts(num_cpus);
        lemma_processor_entry_at(num_cpus, cpu);
        assert(entry =~= table.subrange(44, 44 + 20 * (num_cpus as int)).subrange(20 * cpu, 20 * cpu + 20));
    }
}

/// No two processors have the same APIC id, and none has that of the I/O APIC.
pub proof fn law_apic_ids_are_distinct(num_cpus: nat, first: int, second: int)
    requires
        num_cpus <= MAX_VCPUS,
        0 <= first < second < num_cpus,
    ensures
        config_table(num_cpus)[44 + 20 * first + 1] != config_table(num_cpus)[44 + 20 * second + 1],
        config_table(num_cpus)[44 + 20 * first + 1] != config_table(num_cpus)[52 + 20 * (num_cpus as int) + 1],
        config_table(num_cpus)[44 + 20 * second + 1] != config_table(num_cpus)[52 + 20 * (num_cpus as int) + 1],
{
    lemma_apic_id_at(num_cpus, first);
    lemma_apic_id_at(num_cpus, second);
    lemma_io_apic_id(num_cpus);
}

proof fn lemma_apic_id_at(num_cpus: nat, cpu: int)
    requires
        num_cpus <= MAX_VCPUS,
        0 <= cpu < num_cpus,
    ensures
        config_table(num_cpus)[44 + 20 * cpu + 1] == cpu,
{
    let table = config_table(num_cpus);
    law_every_processor_is_listed(num_cpus, cpu);
    let entry = table.subrange(44 + 20 * cpu, 64 + 20 * cpu);
    assert(table.len() == 204 + 20 * num_cpus) by {
        law_table_has_the_stated_length(num_cpus, 0);
    }
    assert(entry[1] == table[44 + 20 * cpu + 1]);
}

proof fn lemma_io_apic_id(num_cpus: nat)
    requires
        num_cpus <= MAX_VCPUS,
    ensures
        config_table(num_cpus)[52 + 20 * (num_cpus as int) + 1] == num_cpus,
{
    let table = config_table(num_cpus);
    let at = 52 + 20 * (num_cpus as int);
    let entry = table.subrange(at, at + 8);
    assert(table.len() == 204 + 20 * num_cpus && entry == io_apic_entry(num_cpus as int)) by {
        lemma_table_parts(num_cpus);
    }
    assert(entry[1] == table[at + 1]);
}

/// After the processors come the ISA bus, whose number is 0, and the I/O APIC, enabled,
/// with the id after the last processor's and the registers at 0xfec00000.
pub proof fn law_bus_and_io_apic_are_listed(num_cpus: nat)
    requires
        num_cpus <= MAX_VCPUS,
    ensures
        ({
            let bus = config_table(num_cpus).subrange(44 + 20 * (num_cpus as int), 52 + 20 * (num_cpus as int));
            let io_apic = config_table(num_cpus).subrange(52 + 20 * (num_cpus as int), 60 + 20 * (num_cpus as int));
            &&& bus == seq![1u8, 0, 'I' as u8, 'S' as u8, 'A' as u8, ' ' as u8, ' ' as u8, ' ' as u8]
            &&& io_apic == seq![2u8, num_cpus as u8, 0x11, 1, 0x00, 0x00, 0xc0, 0xfe]
        }),
{
    lemma_table_parts(num_cpus);
    crate::bytes::law_bytes_are_little_endian(0xfec0_0000, 4);
    assert(io_apic_entry(num_cpus as int) =~= seq![2u8, num_cpus as u8, 0x11, 1, 0x00, 0x00, 0xc0, 0xfe]);
}

/// Each of the sixteen ISA lines is routed from bus 0 to the input of the same number of
/// the I/O APIC that the table lists.
pub proof fn law_isa_lines_are_routed(num_cpus: nat, irq: int)
    requires
        num_cpus <= MAX_VCPUS,
        0 <= irq < 16,
    ensures
        ({
            let table = config_table(num_cpus);
            let entry = table.subrange(60 + 20 * (num_cpus as int) + 8 * irq, 68 + 20 * (num_cpus as int) + 8 * irq);
            entry == seq![3u8, 0, 0, 0, 0, irq as u8, table[52 + 20 * (num_cpus as int) + 1], irq as u8]
        }),
{
    lemma_table_parts(num_cpus);
    lemma_io_interrupt_entry_at(num_cpus as int, 16, irq);
    lemma_io_apic_id(num_cpus);
    let table = config_table(num_cpus);
    assert(table.subrange(60 + 20 * (num_cpus as int) + 8 * irq, 68 + 20 * (num_cpus as int) + 8 * irq) =~= table.subrange(
        60 + 20 * (num_cpus as int),
        188 + 20 * (num_cpus as int),
    ).subrange(8 * irq, 8 * irq + 8));
}

/// The table ends with the local interrupts of every processor: external interrupts on
/// input 0 and the non-maskable interrupt on input 1.
pub proof fn law_local_interrupts_are_wired(num_cpus: nat)
    ensures
        config_table(num_cpus).len() == 204 + 20 * (num_cpus as int),
        config_table(num_cpus).subrange(188 + 20 * (num_cpus as int), 204 + 20 * (num_cpus as int)) == seq![
            4u8,
            3,
            0,
            0,
            0,
            0,
            0xff,
            0,
            4,
            1,
            0,
            0,
            0,
            0,
            0xff,
            1,
        ],
{
    lemma_table_parts(num_cpus);
}

/// The header says what the table is: its signature, its length, revision 1.4, the ids
/// of the maker and the product, how many entries follow, and where the local APIC is.
/// Nothing else is in it but its checksum.
pub proof fn law_header_describes_the_table(num_cpus: nat)
    requires
        num_cpus <= MAX_VCPUS,
    ensures
        ({
            let table = config_table(num_cpus);
            &&& forall|i: int| 0 <= i < 4 ==> #[trigger] table[i] as char == "PCMP"@[i]
            &&& table[4] + 256 * table[5] == table.len()
            &&& table[6] == 4
            &&& forall|i: int| 0 <= i < 20 ==> #[trigger] table[8 + i] as char == "AIVMM   Hypervisor  "@[i]
            &&& forall|i: int| 28 <= i < 34 || 40 <= i < 44 ==> #[trigger] table[i] == 0
            &&& table[34] + 256 * table[35] == num_cpus + 1 + 1 + 16 + 2
            &&& table.subrange(36, 40) == seq![0x00u8, 0x00, 0xe0, 0xfe]
        }),
{
    let table = config_table(num_cpus);
    lemma_table_parts(num_cpus);
    let start = table.subrange(0, 7);
    let end = table.subrange(8, 44);
    crate::bytes::law_bytes_are_little_endian((table_length(num_cpus as int) % 0x1_0000) as nat, 2);
    crate::bytes::law_bytes_are_little_endian(num_cpus + 20, 2);
    crate::bytes::law_bytes_are_little_endian(0xfee0_0000, 4);
    reveal_strlit("PCMP");
    reveal_strlit("AIVMM   Hypervisor  ");
    assert forall|i: int| 0 <= i < 7 implies #[trigger] table[i] == start[i] by {}
    assert forall|i: int| 8 <= i < 44 implies #[trigger] table[i] == end[i - 8] by {}
    assert(table.subrange(36, 40) =~= seq![0x00u8, 0x00, 0xe0, 0xfe]);
}

/// The floating pointer is a paragraph of signature "_MP_" and revision 1.4 that points
/// to where the configuration table is put, right behind it.
pub proof fn law_pointer_leads_to_the_table()
    ensures
        ({
            let pointer = floating_pointer();
            &&& pointer.len() == 16
            &&& forall|i: int| 0 <= i < 4 ==> #[trigger] pointer[i] as char == "_MP_"@[i]
            &&& pointer[4] + 0x100 * pointer[5] + 0x1_0000 * pointer[6] + 0x100_0000 * pointer[7]
                == MPTABLE_CONFIG_ADDR
            &&& pointer[8] * 16 == pointer.len()
            &&& pointer[9] == 4
            &&& forall|i: int| 11 <= i < 16 ==> #[trigger] pointer[i] == 0
        }),
        MPTABLE_FLOATING_POINTER_ADDR == 0xf_0000,
        MPTABLE_FLOATING_POINTER_ADDR + floating_pointer().len() == MPTABLE_CONFIG_ADDR,
{
    crate::bytes::law_bytes_are_little_endian(MPTABLE_CONFIG_ADDR as nat, 4);
    reveal_strlit("_MP_");
}

/// The sum of bytes is that of its parts, and that of one byte is the byte.
pub proof fn law_byte_sum_adds_up(a: Seq<u8>, b: Seq<u8>, byte: u8)
    ensures
        byte_sum(a + b) == byte_sum(a) + byte_sum(b),
        byte_sum(seq![byte]) == byte,
{
    lemma_byte_sum_concat(a, b);
    lemma_byte_sum_single(byte);
}

/// Once both structures are written, a guest that follows the floating pointer reads the
/// configuration table.
pub proof fn law_guest_finds_the_table(bytes: Map<int, u8>, num_cpus: nat)
    requires
        num_cpus <= MAX_VCPUS,
        backed(bytes, 0xf_0000, 16 + 204 + 20 * (num_cpus as int)),
    ensures
        ({
            let after = written(
                written(bytes, MPTABLE_FLOATING_POINTER_ADDR as int, floating_pointer()),
                MPTABLE_CONFIG_ADDR as int,
                config_table(num_cpus),
            );
            &&& bytes_at(after, 0xf_0000, 16) == floating_pointer()
            &&& loaded(after, 0xf_0004, 4) matches Some(table) && bytes_at(after, table as int, 204 + 20 * num_cpus)
                == config_table(num_cpus)
        }),
{
    law_table_has_the_stated_length(num_cpus, 0);
    law_floating_pointer_sums_to_zero();
    let pointer = floating_pointer();
    let after = written(
        written(bytes, MPTABLE_FLOATING_POINTER_ADDR as int, pointer),
        MPTABLE_CONFIG_ADDR as int,
        config_table(num_cpus),
    );
    assert(bytes_at(after, 0xf_0000, 16) =~= pointer);
    lemma_le_bytes_len(0xf_0010, 4);
    assert(bytes_at(after, 0xf_0004, 4) =~= le_bytes(0xf_0010, 4)) by {
        assert(bytes_at(after, 0xf_0004, 4) =~= pointer.subrange(4, 8));
    }
    lemma_byte_ranges();
    lemma_le_round_trip(0xf_0010, 4);
    assert forall|a: int| 0xf_0004 <= a < 0xf_0008 implies #[trigger] after.contains_key(a) by {
        assert(bytes.contains_key(a));
    }
    assert(bytes_at(after, 0xf_0010, 204 + 20 * num_cpus) =~= config_table(num_cpus));
}

} // verus!
