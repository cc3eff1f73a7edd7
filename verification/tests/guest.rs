use ai_vmm::vmm::boot::{
    code_segment, configure_lapic, data_segment, gdt_entry, kernel_cmdline, load_kernel, pd_entry,
    read_lapic_reg, setup_boot_memory, setup_vcpu_registers, setup_zero_page, with_delivery_mode,
    write_lapic_reg, BootStructure, DescriptorTable, GeneralRegisters, LapicState, SpecialRegisters,
    ZeroPagePart, CMDLINE_ADDR, E820_RAM, EBDA_START, GDT_FLAGS_CODE, GDT_FLAGS_DATA, HIGH_MEMORY_START,
    MAX_GUEST_CMDLINE_LEN, PD_HUGE_PAGE_FLAGS, ZERO_PAGE_ADDR,
};
use ai_vmm::vmm::mptable::{
    checksum, config_table_length, processor_flags, setup_mptable, MpStructure, MPTABLE_CONFIG_ADDR,
    MPTABLE_FLOATING_POINTER_ADDR, MP_FLOATING_POINTER_LEN, PROCESSOR_FLAG_BSP, PROCESSOR_FLAG_ENABLED,
};
use linux_loader::loader::bootparam::boot_params;
use vm_memory::{Bytes, GuestAddress, GuestMemoryMmap};

fn memory(size: usize) -> GuestMemoryMmap {
    GuestMemoryMmap::<()>::from_ranges(&[(GuestAddress(0), size)]).expect("guest memory")
}

#[test]
fn pd_entry_identity_maps_frames() {
    assert_eq!(pd_entry(0) >> 21, 0);
    assert_eq!(pd_entry(1) >> 21, 1);
    assert_eq!(pd_entry(511) >> 21, 511);
}

#[test]
fn pd_entry_keeps_flag_bits() {
    for index in [0_u64, 1, 200, 511] {
        assert_eq!(pd_entry(index) & 0x001f_ffff, PD_HUGE_PAGE_FLAGS);
    }
}

#[test]
fn gdt_entry_encodes_limit() {
    let code = gdt_entry(GDT_FLAGS_CODE, 0, 0x000f_ffff);
    assert_eq!(code & 0x0000_ffff, 0x0000_ffff);
    assert_eq!((code >> 48) & 0xf, 0xf);
}

#[test]
fn gdt_entries_are_the_flat_ones() {
    assert_eq!(gdt_entry(GDT_FLAGS_CODE, 0, 0x000f_ffff), 0x00af_9b00_0000_ffff);
    assert_eq!(gdt_entry(GDT_FLAGS_DATA, 0, 0x000f_ffff), 0x00cf_9300_0000_ffff);
    assert_eq!(gdt_entry(0, 0x1234_5678, 0), 0x1200_0034_5678_0000);
}

#[test]
fn kernel_cmdline_carries_root_directive_only_with_a_disk() {
    // A disk-backed VM mounts /dev/vda; a diskless VM must not carry a
    // `root=` directive, or the kernel panics on an absent root device.
    assert!(kernel_cmdline(true).contains("root=/dev/vda"));
    assert!(!kernel_cmdline(false).contains("root="));
    // Both lines fit the guest's boot command-line buffer.
    assert!(kernel_cmdline(true).len() < MAX_GUEST_CMDLINE_LEN);
    assert!(kernel_cmdline(false).len() < MAX_GUEST_CMDLINE_LEN);
}

#[test]
fn setup_zero_page_builds_e820_and_cmdline() {
    let mem_size = 0x0400_0000_usize; // 64 MiB
    let mut mem = memory(mem_size);
    setup_zero_page(&mut mem, mem_size, true).expect("setup_zero_page");

    let params: boot_params = mem
        .read_obj(GuestAddress(ZERO_PAGE_ADDR))
        .expect("read boot_params");

    // Copy packed fields into aligned locals before asserting on them.
    let entries = params.e820_entries;
    let cmd_ptr = params.hdr.cmd_line_ptr;
    let low = params.e820_table[0];
    let high = params.e820_table[1];
    let (low_type, low_addr, low_size) = (low.type_, low.addr, low.size);
    let (high_type, high_addr, high_size) = (high.type_, high.addr, high.size);

    // The guest kernel rejects an e820 map of fewer than two entries, so
    // the map is split around the legacy sub-1 MiB hole.
    assert_eq!(entries, 2);
    assert_eq!(u64::from(cmd_ptr), CMDLINE_ADDR);
    assert_eq!(low_type, E820_RAM);
    assert_eq!(low_addr, 0);
    assert_eq!(low_size, EBDA_START);
    assert_eq!(high_type, E820_RAM);
    assert_eq!(high_addr, HIGH_MEMORY_START);
    assert_eq!(high_size, mem_size as u64 - HIGH_MEMORY_START);
}

#[test]
fn the_zero_page_holds_the_setup_header_and_nothing_else() {
    let mut mem = memory(0x40_0000);
    setup_zero_page(&mut mem, 0x40_0000, false).expect("setup_zero_page");
    let params: boot_params = mem.read_obj(GuestAddress(ZERO_PAGE_ADDR)).expect("read boot_params");
    let (loader, flag, header) = (params.hdr.type_of_loader, params.hdr.boot_flag, params.hdr.header);
    assert_eq!(loader, 0xff);
    assert_eq!(flag, 0xaa55);
    assert_eq!(header, 0x5372_6448);
    let line = kernel_cmdline(false);
    let size = params.hdr.cmdline_size;
    assert_eq!(size as usize, line.len());
    let mut text = vec![1_u8; line.len() + 1];
    mem.read_slice(&mut text, GuestAddress(CMDLINE_ADDR)).expect("read command line");
    assert_eq!(&text[..line.len()], line.as_bytes());
    assert_eq!(text[line.len()], 0);
    // Each field is where the boot protocol has it, and nothing lies around them.
    let mut page = vec![0_u8; 4096];
    mem.read_slice(&mut page, GuestAddress(ZERO_PAGE_ADDR)).expect("read page");
    assert_eq!(page[0x1e8], 2);
    assert_eq!(page[0x210], 0xff);
    assert_eq!(&page[0x1fe..0x200], &[0x55, 0xaa]);
    assert_eq!(&page[0x202..0x206], b"HdrS");
    assert!(page[..0x1e8].iter().all(|&b| b == 0));
    assert!(page[0x2f8..].iter().all(|&b| b == 0));
}

#[test]
fn boot_structures_need_their_memory() {
    let mut small = memory(0x1000);
    let boot = setup_boot_memory(&mut small).expect_err("no page tables");
    assert_eq!(boot.structure, BootStructure::Pml4Entry);
    assert_eq!(boot.message(), "failed to write PML4 entry: Guest memory error: invalid guest address 36864");
    let page = setup_zero_page(&mut small, 0x1000, true).expect_err("no command line");
    assert_eq!(page.part, ZeroPagePart::Cmdline);
    assert_eq!(
        page.message(),
        "failed to write kernel cmdline: Guest memory error: invalid guest address 131072"
    );
    let table = setup_mptable(&mut small, 2).expect_err("no BIOS hole");
    assert_eq!(table.structure, MpStructure::FloatingPointer);
    assert_eq!(
        table.message(),
        "failed to write the MP floating pointer: Guest memory error: invalid guest address 983040"
    );
}

#[test]
fn a_write_that_runs_out_of_memory_says_how_far_it_got() {
    let mut gdt = memory(0x504);
    let error = setup_boot_memory(&mut gdt).expect_err("half an entry");
    assert_eq!(error.structure, BootStructure::GdtEntry(0));
    assert_eq!(
        error.message(),
        "failed to write GDT entry 0: Guest memory error: only used 4 bytes in 8 long buffer"
    );
    let mut directory = memory(0xb010);
    let error = setup_boot_memory(&mut directory).expect_err("two entries");
    assert_eq!(error.message(), "failed to write PD entry 2: Guest memory error: invalid guest address 45072");
    let mut pdpt = memory(0xa000);
    let error = setup_boot_memory(&mut pdpt).expect_err("no PDPT");
    assert_eq!(error.message(), "failed to write PDPT entry: Guest memory error: invalid guest address 40960");

    let line = kernel_cmdline(false).len();
    let mut no_nul = memory(CMDLINE_ADDR as usize + line);
    let error = setup_zero_page(&mut no_nul, 0x1000, false).expect_err("no terminator");
    assert_eq!(error.part, ZeroPagePart::CmdlineTerminator);
    assert!(error.message().starts_with("failed to NUL-terminate kernel cmdline: Guest memory error: "));
    let mut holed = GuestMemoryMmap::<()>::from_ranges(&[(GuestAddress(CMDLINE_ADDR), 0x1000)]).expect("memory");
    let error = setup_zero_page(&mut holed, 0x1000, false).expect_err("no zero page");
    assert_eq!(error.part, ZeroPagePart::BootParams);
    assert_eq!(
        error.message(),
        "failed to write boot_params zero page: Guest memory error: invalid guest address 28672"
    );
    let mut pointer = memory(MPTABLE_CONFIG_ADDR as usize + 3);
    let error = setup_mptable(&mut pointer, 1).expect_err("no table");
    assert_eq!(error.structure, MpStructure::ConfigTable);
    assert_eq!(
        error.message(),
        format!(
            "failed to write the MP configuration table: Guest memory error: only used 3 bytes in {} long buffer",
            config_table_length(1)
        )
    );
}

#[test]
fn a_page_directory_entry_keeps_the_low_frame_bits() {
    assert_eq!(pd_entry(0x7ff_ffff_ffff), 0xffff_ffff_ffe0_0083);
    assert_eq!(pd_entry(0x800_0000_0000), 0x83);
    assert_eq!(pd_entry(u64::MAX), 0xffff_ffff_ffe0_0083);
}

#[test]
fn a_refused_kernel_image_is_reported_with_its_path() {
    let mut mem = memory(0x1_0000);
    let error = load_kernel(&mut mem, b"not an ELF image").expect_err("no ELF image");
    let message = error.message("/boot/vmlinux");
    assert!(message.starts_with("failed to load kernel ELF '/boot/vmlinux': "));
    assert!(message.len() > "failed to load kernel ELF '/boot/vmlinux': ".len());
}

#[test]
fn boot_memory_holds_the_tables() {
    let mut mem = memory(0x2_0000);
    setup_boot_memory(&mut mem).expect("setup_boot_memory");
    let word = |addr: u64| -> u64 { mem.read_obj(GuestAddress(addr)).expect("word") };
    assert_eq!(word(0x500), 0);
    assert_eq!(word(0x508), gdt_entry(GDT_FLAGS_CODE, 0, 0x000f_ffff));
    assert_eq!(word(0x510), gdt_entry(GDT_FLAGS_DATA, 0, 0x000f_ffff));
    assert_eq!(word(0x9000), 0xa003);
    assert_eq!(word(0xa000), 0xb003);
    for index in [0_u64, 1, 511] {
        assert_eq!(word(0xb000 + 8 * index), pd_entry(index));
    }
}

#[test]
fn what_is_no_elf_image_is_refused() {
    let mut mem = memory(0x20_0000);
    assert!(load_kernel(&mut mem, &[]).is_err());
    assert!(load_kernel(&mut mem, &[0_u8; 64]).is_err());
}

/// A 64-bit little-endian ELF image with one loadable segment of four bytes.
fn elf_image(entry: u64, load_at: u64) -> Vec<u8> {
    let mut image = vec![0x7f, 0x45, 0x4c, 0x46, 2, 1, 1, 0, 0, 0, 0, 0, 0, 0, 0, 0];
    image.extend_from_slice(&2_u16.to_le_bytes());
    image.extend_from_slice(&62_u16.to_le_bytes());
    image.extend_from_slice(&1_u32.to_le_bytes());
    image.extend_from_slice(&entry.to_le_bytes());
    image.extend_from_slice(&64_u64.to_le_bytes());
    image.extend_from_slice(&0_u64.to_le_bytes());
    image.extend_from_slice(&0_u32.to_le_bytes());
    image.extend_from_slice(&64_u16.to_le_bytes());
    image.extend_from_slice(&56_u16.to_le_bytes());
    image.extend_from_slice(&1_u16.to_le_bytes());
    image.extend_from_slice(&0_u16.to_le_bytes());
    image.extend_from_slice(&0_u16.to_le_bytes());
    image.extend_from_slice(&0_u16.to_le_bytes());
    // Program header: PT_LOAD, readable and executable.
    image.extend_from_slice(&1_u32.to_le_bytes());
    image.extend_from_slice(&5_u32.to_le_bytes());
    image.extend_from_slice(&120_u64.to_le_bytes());
    image.extend_from_slice(&load_at.to_le_bytes());
    image.extend_from_slice(&load_at.to_le_bytes());
    image.extend_from_slice(&4_u64.to_le_bytes());
    image.extend_from_slice(&4_u64.to_le_bytes());
    image.extend_from_slice(&4096_u64.to_le_bytes());
    image.extend_from_slice(&[0xde, 0xad, 0xbe, 0xef]);
    image
}

#[test]
fn an_elf_image_is_loaded_and_its_entry_returned() {
    let mut mem = memory(0x20_0000);
    let entry = load_kernel(&mut mem, &elf_image(0x10_0000, 0x10_0000)).expect("load");
    assert_eq!(entry, 0x10_0000);
    let mut loaded = [0_u8; 4];
    mem.read_slice(&mut loaded, GuestAddress(0x10_0000)).expect("read");
    assert_eq!(loaded, [0xde, 0xad, 0xbe, 0xef]);
}

#[test]
fn a_vcpu_is_put_into_long_mode() {
    let data = data_segment();
    let mut regs = GeneralRegisters { rip: 1, rsi: 2, rflags: 3 };
    let none = DescriptorTable { base: 0, limit: 0 };
    let mut sregs = SpecialRegisters {
        gdt: none,
        idt: none,
        cs: data,
        ds: data,
        es: data,
        fs: data,
        gs: data,
        ss: data,
        cr0: 0x10,
        cr3: 0,
        cr4: 0x40,
        efer: 1,
    };
    setup_vcpu_registers(&mut regs, &mut sregs, 0x10_0000);
    assert_eq!(regs, GeneralRegisters { rip: 0x10_0000, rsi: 0x7000, rflags: 2 });
    assert_eq!(sregs.gdt, DescriptorTable { base: 0x500, limit: 23 });
    assert_eq!(sregs.idt, DescriptorTable { base: 0x520, limit: 7 });
    assert_eq!(sregs.cs, code_segment());
    assert_eq!(sregs.ss, data);
    assert_eq!(sregs.cr0, 0x8000_0011);
    assert_eq!(sregs.cr3, 0x9000);
    assert_eq!(sregs.cr4, 0x60);
    assert_eq!(sregs.efer, 0x501);
    assert_eq!((sregs.cs.selector, sregs.cs.kind, sregs.cs.l), (8, 11, 1));
}

#[test]
fn the_lapic_is_put_into_virtual_wire_mode() {
    let mut state = LapicState { regs: [0; 1024] };
    write_lapic_reg(&mut state, 0x350, 0x0001_0000);
    write_lapic_reg(&mut state, 0x360, 0xffff_ffff);
    assert_eq!(read_lapic_reg(&state, 0x360), 0xffff_ffff);
    configure_lapic(&mut state);
    assert_eq!(read_lapic_reg(&state, 0x350), 0x0001_0700);
    assert_eq!(read_lapic_reg(&state, 0x360), 0xffff_fcff);
    assert_eq!(read_lapic_reg(&state, 0x340), 0);
    assert_eq!(with_delivery_mode(0x0000_0300, 4), 0x0000_0400);
}

#[test]
fn checksum_drives_the_total_to_zero() {
    for bytes in [
        &[0_u8][..],
        &[1, 2, 3, 4, 250, 99][..],
        &[255, 255, 255][..],
    ] {
        let total = bytes
            .iter()
            .fold(checksum(bytes), |acc, &b| acc.wrapping_add(b));
        assert_eq!(total, 0, "checksum must zero the 8-bit sum of {bytes:?}");
    }
}

#[test]
fn processor_flags_mark_enabled_and_the_bsp() {
    assert_eq!(
        processor_flags(true),
        PROCESSOR_FLAG_ENABLED | PROCESSOR_FLAG_BSP
    );
    assert_eq!(processor_flags(false), PROCESSOR_FLAG_ENABLED);
    // Every processor entry is enabled, bootstrap processor or not.
    assert!(processor_flags(true) & PROCESSOR_FLAG_ENABLED != 0);
    assert!(processor_flags(false) & PROCESSOR_FLAG_ENABLED != 0);
}

#[test]
fn config_table_length_matches_the_built_table() {
    // 44-byte header + 4 * 20-byte processors + 8-byte bus + 8-byte I/O
    // APIC + 16 * 8-byte I/O interrupts + 2 * 8-byte local interrupts.
    assert_eq!(config_table_length(4), 44 + 80 + 8 + 8 + 128 + 16);
}

#[test]
fn the_longest_table_fits_its_length_field() {
    assert_eq!(config_table_length(255), 5304);
    let mut mem = memory(0x20_0000);
    setup_mptable(&mut mem, 255).expect("setup_mptable");
    let length: u16 = mem.read_obj(GuestAddress(MPTABLE_CONFIG_ADDR + 4)).expect("length");
    assert_eq!(length, 5304);
}

#[test]
fn setup_mptable_writes_a_valid_findable_table() {
    let mut memory = memory(0x20_0000);
    setup_mptable(&mut memory, 4).expect("setup_mptable");

    // Floating pointer: the "_MP_" signature, and all 16 bytes sum to zero.
    let mut floating_pointer = [0_u8; MP_FLOATING_POINTER_LEN];
    memory
        .read_slice(
            &mut floating_pointer,
            GuestAddress(MPTABLE_FLOATING_POINTER_ADDR),
        )
        .expect("read floating pointer");
    assert_eq!(&floating_pointer[0..4], b"_MP_");
    assert_eq!(
        floating_pointer
            .iter()
            .fold(0_u8, |a, &b| a.wrapping_add(b)),
        0,
        "the floating pointer must checksum to zero"
    );

    // Configuration table: the "PCMP" signature, a zero checksum over the
    // whole base table, and 4 processors + 1 bus + 2 local interrupts.
    let base_len: u16 = memory
        .read_obj(GuestAddress(MPTABLE_CONFIG_ADDR + 4))
        .expect("read base table length");
    assert_eq!(u32::from(base_len), config_table_length(4));
    let mut config = vec![0_u8; base_len as usize];
    memory
        .read_slice(&mut config, GuestAddress(MPTABLE_CONFIG_ADDR))
        .expect("read configuration table");
    assert_eq!(&config[0..4], b"PCMP");
    assert_eq!(
        config.iter().fold(0_u8, |a, &b| a.wrapping_add(b)),
        0,
        "the configuration table must checksum to zero"
    );
    // 4 processors + 1 bus + 1 I/O APIC + 16 I/O interrupts + 2 local
    // interrupts.
    let entry_count = u16::from_le_bytes([config[34], config[35]]);
    assert_eq!(entry_count, 4 + 1 + 1 + 16 + 2);
}

/// An ELF header that names a table of `count` program headers at `table`.
fn elf_header(table: u64, count: u16) -> Vec<u8> {
    let mut image = vec![0_u8; 64];
    image[..6].copy_from_slice(&[0x7f, b'E', b'L', b'F', 2, 1]);
    image[24..32].copy_from_slice(&0x10_0000_u64.to_le_bytes());
    image[32..40].copy_from_slice(&table.to_le_bytes());
    image[54..56].copy_from_slice(&56_u16.to_le_bytes());
    image[56..58].copy_from_slice(&count.to_le_bytes());
    image
}

fn program_header(kind: u32, offset: u64, addr: u64, size: u64) -> Vec<u8> {
    let mut header = vec![0_u8; 56];
    header[..4].copy_from_slice(&kind.to_le_bytes());
    header[8..16].copy_from_slice(&offset.to_le_bytes());
    header[24..32].copy_from_slice(&addr.to_le_bytes());
    header[32..40].copy_from_slice(&size.to_le_bytes());
    header
}

#[test]
fn an_image_is_refused_where_a_file_cannot_be_followed() {
    const FAR: u64 = 1 << 63;
    let load = |image: &[u8]| load_kernel(&mut memory(0x1000), image).map_err(|e| e.message("k"));
    let refused = |what: &str| {
        Err(format!(
            "failed to load kernel ELF 'k': Kernel Loader: failed to load ELF kernel image: Kernel Loader: {what}"
        ))
    };
    assert_eq!(load(&elf_header(64, 0)), Ok(0x10_0000));
    assert_eq!(load(&elf_header(FAR - 1, 0)), Ok(0x10_0000));
    assert_eq!(load(&elf_header(FAR, 0)), refused("Unable to seek to program header"));
    assert_eq!(load(&elf_header(FAR, 3)), refused("Unable to seek to program header"));
    assert_eq!(load(&elf_header(FAR, 3)[..40]), refused("Unable to read elf header"));
    assert_eq!(load(&elf_header(64, 1)), refused("Unable to read program header"));

    let image = |headers: &[Vec<u8>]| {
        let mut image = elf_header(64, headers.len() as u16);
        headers.iter().for_each(|header| image.extend_from_slice(header));
        image
    };
    assert_eq!(load(&image(&[program_header(1, FAR, 0, 8)])), refused("Unable to seek to kernel start"));
    assert_eq!(load(&image(&[program_header(4, FAR, 0, 0)])), refused("Unable to seek to note header"));
    // What is not followed may lie anywhere.
    assert_eq!(load(&image(&[program_header(1, FAR, 0, 0), program_header(7, FAR, 0, 8)])), Ok(0x10_0000));
    // An error that comes first decides, and what comes first is loaded.
    assert_eq!(
        load(&image(&[program_header(1, 0, 0x2000, 8), program_header(1, FAR, 0, 8)])),
        refused("Unable to read kernel image")
    );
    let mut mem = memory(0x1000);
    let far_second = image(&[program_header(1, 24, 0x100, 8), program_header(1, FAR, 0, 8)]);
    assert!(load_kernel(&mut mem, &far_second).is_err());
    assert_eq!(mem.read_obj::<u64>(GuestAddress(0x100)).expect("loaded"), 0x10_0000);
}
