use std::sync::atomic::{AtomicU64, Ordering};
use std::sync::Arc;

use ai_vmm::vmm::mmio::{region_contains, MmioBus, MmioDevice};
use ai_vmm::vmm::run::read_bus;
use ai_vmm::vmm::storage::{
    capacity_sectors, descriptor_addr, read_u32_le, ring_addr, ring_slot, write_high, write_low, write_u32_le,
    BlockError, DiskReply, QueueAction, QueueState, VirtioBlockMmio, VIRTIO_ID_BLOCK, VIRTIO_MMIO_MAGIC,
    VIRTQ_DESC_F_NEXT, VIRTQ_DESC_F_WRITE,
};
use vm_memory::{Bytes, GuestAddress, GuestMemoryMmap};

#[test]
fn u32_le_codec_round_trips() {
    let mut buf = [0_u8; 4];
    write_u32_le(&mut buf, 0x1234_5678);
    assert_eq!(read_u32_le(&buf), 0x1234_5678);
}

#[test]
fn block_device_presents_virtio_identity_and_capacity() {
    let device = VirtioBlockMmio::new();
    let capacity = capacity_sectors(4096);

    let mut reg = [0_u8; 4];
    device.mmio_read(0x000, capacity, &mut reg);
    assert_eq!(read_u32_le(&reg), VIRTIO_MMIO_MAGIC);
    device.mmio_read(0x008, capacity, &mut reg);
    assert_eq!(read_u32_le(&reg), VIRTIO_ID_BLOCK);
    device.mmio_read(0x100, capacity, &mut reg);
    assert_eq!(read_u32_le(&reg), 8); // 4096 bytes / 512 = 8 sectors
}

/// Writes one split-virtqueue descriptor into guest memory.
fn write_descriptor(
    memory: &GuestMemoryMmap,
    table: u64,
    index: u64,
    addr: u64,
    len: u32,
    flags: u16,
    next: u16,
) {
    let base = table + index * 16;
    memory.write_obj(addr, GuestAddress(base)).expect("desc addr");
    memory.write_obj(len, GuestAddress(base + 8)).expect("desc len");
    memory.write_obj(flags, GuestAddress(base + 12)).expect("desc flags");
    memory.write_obj(next, GuestAddress(base + 14)).expect("desc next");
}

// Fixed guest-physical layout shared by the datapath tests.
const DESC_TABLE: u64 = 0x1000;
const AVAIL_RING: u64 = 0x2000;
const USED_RING: u64 = 0x3000;
const HEADER_ADDR: u64 = 0x4000;
const DATA_ADDR: u64 = 0x5000;
const STATUS_ADDR: u64 = 0x6000;

/// Builds a device with the virtqueue registers pointed at the fixed layout above.
fn device_with_queue() -> VirtioBlockMmio {
    let mut device = VirtioBlockMmio::new();
    device.queue_desc = DESC_TABLE;
    device.queue_avail = AVAIL_RING;
    device.queue_used = USED_RING;
    device.queue_size = 8;
    device.queue_ready = 1;
    device
}

/// Lays out a one-request, three-descriptor chain (header, data, status)
/// and publishes it in the available ring.
fn publish_request(
    memory: &GuestMemoryMmap,
    request_type: u32,
    sector: u64,
    data_len: u32,
    data_writable: bool,
) {
    // virtio_blk_outhdr: { type: u32, reserved: u32, sector: u64 }.
    memory.write_obj(request_type, GuestAddress(HEADER_ADDR)).expect("header type");
    memory.write_obj(sector, GuestAddress(HEADER_ADDR + 8)).expect("header sector");

    let data_flags = if data_writable {
        VIRTQ_DESC_F_NEXT | VIRTQ_DESC_F_WRITE
    } else {
        VIRTQ_DESC_F_NEXT
    };
    write_descriptor(memory, DESC_TABLE, 0, HEADER_ADDR, 16, VIRTQ_DESC_F_NEXT, 1);
    write_descriptor(memory, DESC_TABLE, 1, DATA_ADDR, data_len, data_flags, 2);
    write_descriptor(memory, DESC_TABLE, 2, STATUS_ADDR, 1, VIRTQ_DESC_F_WRITE, 0);

    // Available ring: { flags: u16, idx: u16, ring: [u16; size] }.
    memory.write_obj(1_u16, GuestAddress(AVAIL_RING + 2)).expect("avail idx");
    memory.write_obj(0_u16, GuestAddress(AVAIL_RING + 4)).expect("avail ring[0]");
}

fn guest() -> GuestMemoryMmap {
    GuestMemoryMmap::<()>::from_ranges(&[(GuestAddress(0), 0x10_0000)]).expect("memory")
}

/// Runs the device over `disk` until its queue is empty, and counts the interrupts.
fn run_queue(device: &mut VirtioBlockMmio, memory: &mut GuestMemoryMmap, disk: &mut Vec<u8>) -> Result<u64, BlockError> {
    let mut interrupts = 0;
    let mut action = device.process_virtqueue(memory);
    loop {
        action = match action {
            QueueAction::ReadDisk { offset, len } => {
                let end = offset as usize + len as usize;
                let reply = if end <= disk.len() {
                    DiskReply::Data(disk[offset as usize..end].to_vec())
                } else {
                    DiskReply::Failed
                };
                device.disk_answered(memory, &reply)
            },
            QueueAction::WriteDisk { offset, data } => {
                let end = offset as usize + data.len();
                if disk.len() < end {
                    disk.resize(end, 0);
                }
                disk[offset as usize..end].copy_from_slice(&data);
                device.disk_answered(memory, &DiskReply::Done)
            },
            QueueAction::FlushDisk => device.disk_answered(memory, &DiskReply::Done),
            QueueAction::RaiseInterrupt => {
                interrupts += 1;
                device.interrupt_raised(memory, Ok(()))
            },
            QueueAction::Finished => return Ok(interrupts),
            QueueAction::Failed(error) => return Err(error),
        };
    }
}

#[test]
fn cyclic_descriptor_chain_is_rejected_not_hung() {
    let mut memory = guest();
    let mut disk = vec![0_u8; 512];
    let mut device = device_with_queue();

    // Header -> descriptor 1, whose `next` points back at itself: a cycle.
    write_descriptor(
        &memory,
        DESC_TABLE,
        0,
        HEADER_ADDR,
        16,
        VIRTQ_DESC_F_NEXT,
        1,
    );
    write_descriptor(&memory, DESC_TABLE, 1, DATA_ADDR, 512, VIRTQ_DESC_F_NEXT, 1);
    memory.write_obj(1_u16, GuestAddress(AVAIL_RING + 2)).expect("avail idx");
    memory.write_obj(0_u16, GuestAddress(AVAIL_RING + 4)).expect("avail ring[0]");

    // The bounded chain walk must return an error promptly, never loop.
    assert!(run_queue(&mut device, &mut memory, &mut disk).is_err());
}

#[test]
fn overflowing_queue_address_is_rejected_not_panicking() {
    let mut memory = guest();
    let mut disk = vec![0_u8; 512];
    let mut device = device_with_queue();

    // A guest-controlled avail-ring base near u64::MAX must resolve to a
    // clean error, not overflow the address arithmetic into a panic.
    device.queue_avail = u64::MAX;
    assert!(run_queue(&mut device, &mut memory, &mut disk).is_err());
}

#[test]
fn datapath_reads_a_block_into_guest_memory() {
    let mut memory = guest();
    let mut disk = vec![0xab_u8; 512];

    let mut device = device_with_queue();
    publish_request(&memory, 0 /* VIRTIO_BLK_T_IN */, 0, 512, true);

    let interrupts =
        run_queue(&mut device, &mut memory, &mut disk).expect("process_virtqueue must succeed");

    // The disk block was copied into the guest data buffer.
    let mut buffer = [0_u8; 512];
    memory.read_slice(&mut buffer, GuestAddress(DATA_ADDR)).expect("read guest data");
    assert!(buffer.iter().all(|&byte| byte == 0xab));
    // Status is VIRTIO_BLK_S_OK, the used ring advanced, the IRQ fired.
    let status: u8 = memory.read_obj(GuestAddress(STATUS_ADDR)).expect("status");
    assert_eq!(status, 0);
    let used_idx: u16 = memory.read_obj(GuestAddress(USED_RING + 2)).expect("used idx");
    assert_eq!(used_idx, 1);
    let used_id: u32 = memory.read_obj(GuestAddress(USED_RING + 4)).expect("used id");
    assert_eq!(used_id, 0);
    assert_eq!(interrupts, 1);
}

#[test]
fn datapath_writes_a_block_out_to_disk() {
    let mut memory = guest();
    let mut disk = vec![0_u8; 512];

    let mut device = device_with_queue();
    // Place the bytes the guest wants written into its data buffer.
    memory.write_slice(&[0xcd_u8; 512], GuestAddress(DATA_ADDR)).expect("fill guest data");
    publish_request(&memory, 1 /* VIRTIO_BLK_T_OUT */, 0, 512, false);

    let interrupts =
        run_queue(&mut device, &mut memory, &mut disk).expect("process_virtqueue must succeed");

    // The disk image now holds the bytes from the guest buffer.
    assert_eq!(disk.len(), 512);
    assert!(disk.iter().all(|&byte| byte == 0xcd));
    let status: u8 = memory.read_obj(GuestAddress(STATUS_ADDR)).expect("status");
    assert_eq!(status, 0);
    assert_eq!(interrupts, 1);
}

/// The status byte that a request of this kind ends with on a disk of one sector.
fn status_of(request_type: u32, sector: u64, len: u32, writable: bool) -> u8 {
    let mut memory = guest();
    let mut disk = vec![0_u8; 512];
    let mut device = device_with_queue();
    memory.write_obj(0xee_u8, GuestAddress(STATUS_ADDR)).expect("status");
    publish_request(&memory, request_type, sector, len, writable);
    assert_eq!(run_queue(&mut device, &mut memory, &mut disk), Ok(1));
    assert_eq!(device.used_idx, 1);
    memory.read_obj(GuestAddress(STATUS_ADDR)).expect("status")
}

#[test]
fn requests_end_with_the_status_they_deserve() {
    assert_eq!(status_of(0, 0, 512, true), 0);
    assert_eq!(status_of(4, 0, 512, true), 0); // flush
    assert_eq!(status_of(0, 1, 512, true), 1); // past the end of the disk
    assert_eq!(status_of(0, u64::MAX, 512, true), 1); // offset beyond 64 bits
    assert_eq!(status_of(99, 0, 512, true), 2); // unknown request
}

#[test]
fn a_lost_interrupt_is_reported() {
    let mut memory = guest();
    let mut device = device_with_queue();
    publish_request(&memory, 4, 0, 0, true);
    let action = device.process_virtqueue(&mut memory);
    assert!(matches!(action, QueueAction::FlushDisk));
    assert!(matches!(device.queue_state, QueueState::AwaitDisk { .. }));
    let action = device.disk_answered(&mut memory, &DiskReply::Failed);
    assert!(matches!(action, QueueAction::RaiseInterrupt));
    let action = device.interrupt_raised(&mut memory, Err("Resource temporarily unavailable".to_string()));
    match action {
        QueueAction::Failed(error) => assert_eq!(error.as_str(), "Resource temporarily unavailable"),
        other => panic!("expected an error, got {other:?}"),
    }
    let status: u8 = memory.read_obj(GuestAddress(STATUS_ADDR)).expect("status");
    assert_eq!(status, 1);
}

/// What stops the queue of a device, changed by `change`, whose driver has published a
/// flush.
fn queue_error(change: impl Fn(&mut VirtioBlockMmio, &GuestMemoryMmap)) -> BlockError {
    let mut memory = guest();
    let mut device = device_with_queue();
    publish_request(&memory, 4, 0, 0, true);
    change(&mut device, &memory);
    let mut action = device.process_virtqueue(&mut memory);
    if let QueueAction::FlushDisk = action {
        action = device.disk_answered(&mut memory, &DiskReply::Done);
    }
    match action {
        QueueAction::Failed(error) => error,
        other => panic!("expected an error, got {other:?}"),
    }
}

#[test]
fn a_refused_access_is_reported_in_the_words_of_guest_memory() {
    const BEYOND: u64 = 0x4000_0000;
    let refused = |addr: u64| format!("Guest memory error: invalid guest address {addr}");
    assert_eq!(queue_error(|d, _| d.queue_avail = BEYOND).as_str(), refused(BEYOND + 2));
    assert_eq!(queue_error(|d, _| d.queue_desc = BEYOND).as_str(), refused(BEYOND));
    assert_eq!(queue_error(|d, _| d.queue_used = BEYOND).as_str(), refused(BEYOND + 4));
    // The first field of a descriptor that lies outside memory decides.
    let memory = guest();
    let end = (1..=0x4000_0000_u64)
        .find(|addr| memory.read_obj::<u8>(GuestAddress(*addr)).is_err())
        .expect("memory ends");
    assert_eq!(queue_error(|d, _| d.queue_desc = end - 8).as_str(), refused(end));
    assert_eq!(
        queue_error(|d, _| d.queue_desc = end - 4).as_str(),
        "Guest memory error: only used 4 bytes in 8 long buffer"
    );
    // The header's type, its sector, and the status byte.
    let at = |index: u64, addr: u64| {
        move |_: &mut VirtioBlockMmio, memory: &GuestMemoryMmap| {
            memory.write_obj(addr, GuestAddress(DESC_TABLE + 16 * index)).expect("descriptor")
        }
    };
    assert_eq!(queue_error(at(0, BEYOND)).as_str(), refused(BEYOND));
    assert_eq!(queue_error(at(0, end - 8)).as_str(), refused(end));
    assert_eq!(queue_error(at(0, u64::MAX - 3)).as_str(), refused(u64::MAX - 3));
    assert_eq!(queue_error(|d, _| d.queue_avail = u64::MAX), BlockError::AvailRingOverflow);
    assert_eq!(queue_error(|d, _| d.queue_used = u64::MAX), BlockError::UsedRingOverflow);
    assert_eq!(
        BlockError::DescriptorOverflow.as_str(),
        "virtqueue descriptor address overflow"
    );
}

#[test]
fn the_driver_negotiates_through_the_registers() {
    let mut memory = guest();
    let mut device = VirtioBlockMmio::new();
    let set = |device: &mut VirtioBlockMmio, memory: &mut GuestMemoryMmap, offset: u64, value: u32| {
        device.mmio_write(offset, &value.to_le_bytes(), memory)
    };
    let get = |device: &VirtioBlockMmio, offset: u64| -> u32 {
        let mut data = [0_u8; 4];
        device.mmio_read(offset, 0x2_0000_0001, &mut data);
        u32::from_le_bytes(data)
    };
    assert_eq!(get(&device, 0x004), 2);
    assert_eq!(get(&device, 0x034), 8);
    assert_eq!(get(&device, 0x010), 0);
    assert!(set(&mut device, &mut memory, 0x014, 1).is_none());
    assert_eq!(get(&device, 0x010), 1);
    assert_eq!(get(&device, 0x100), 1);
    assert_eq!(get(&device, 0x104), 2);
    set(&mut device, &mut memory, 0x080, 0x1000);
    set(&mut device, &mut memory, 0x084, 0x1);
    assert_eq!(device.queue_desc, 0x1_0000_1000);
    set(&mut device, &mut memory, 0x084, 0);
    set(&mut device, &mut memory, 0x090, AVAIL_RING as u32);
    set(&mut device, &mut memory, 0x0a0, USED_RING as u32);
    set(&mut device, &mut memory, 0x038, 8);
    set(&mut device, &mut memory, 0x044, 1);
    publish_request(&memory, 4, 0, 0, true);
    let action = set(&mut device, &mut memory, 0x050, 0).expect("the queue was notified");
    assert!(matches!(action, QueueAction::FlushDisk));
    let _ = device.disk_answered(&mut memory, &DiskReply::Done);
    assert_eq!(get(&device, 0x060), 1);
    set(&mut device, &mut memory, 0x064, 1);
    assert_eq!(get(&device, 0x060), 0);
}

#[test]
fn addresses_are_computed_without_overflow() {
    assert_eq!(ring_slot(9, 8), 1);
    assert_eq!(descriptor_addr(0x1000, 3), Some(0x1030));
    assert_eq!(descriptor_addr(u64::MAX, 1), None);
    assert_eq!(ring_addr(0x2000, 4), Some(0x2004));
    assert_eq!(ring_addr(u64::MAX, 1), None);
    let mut word = 0_u64;
    write_high(&mut word, 2);
    write_low(&mut word, 1);
    assert_eq!(word, 0x2_0000_0001);
    assert_eq!(capacity_sectors(1023), 1);
}

/// Test device: a read echoes the low byte of the offset it was given; a
/// write records that offset into a shared cell the test can inspect.
struct OffsetRecorder {
    seen_offset: Arc<AtomicU64>,
}

impl MmioDevice for OffsetRecorder {
    fn mmio_read(&mut self, offset: u64, data: &mut [u8]) {
        if let Some(first) = data.first_mut() {
            *first = offset as u8;
        }
    }

    fn mmio_write(&mut self, offset: u64, _data: &[u8], _guest_memory: &mut GuestMemoryMmap) {
        self.seen_offset.store(offset, Ordering::SeqCst);
    }
}

/// A small host-side guest memory, enough for the routing tests.
fn test_memory() -> GuestMemoryMmap {
    GuestMemoryMmap::<()>::from_ranges(&[(GuestAddress(0), 0x1000)]).expect("test memory")
}

#[test]
fn read_routes_to_device_with_base_relative_offset() {
    let mut bus = MmioBus::new();
    bus.register(
        0x1000,
        0x100,
        OffsetRecorder {
            seen_offset: Arc::new(AtomicU64::new(0)),
        },
    );
    let mut data = [0_u8; 1];
    assert!(bus.read(0x1042, &mut data));
    assert_eq!(data[0], 0x42);
}

#[test]
fn write_routes_to_device_with_base_relative_offset() {
    let seen = Arc::new(AtomicU64::new(0));
    let mut bus = MmioBus::new();
    bus.register(
        0x2000,
        0x100,
        OffsetRecorder {
            seen_offset: Arc::clone(&seen),
        },
    );
    assert!(bus.write(0x2055, &[0xff], &mut test_memory()));
    assert_eq!(seen.load(Ordering::SeqCst), 0x55);
}

#[test]
fn unknown_address_is_not_routed() {
    let mut bus = MmioBus::new();
    bus.register(
        0x1000,
        0x100,
        OffsetRecorder {
            seen_offset: Arc::new(AtomicU64::new(0)),
        },
    );
    let mut data = [0_u8; 4];
    assert!(!bus.read(0x9999, &mut data));
    assert!(!bus.write(0x9999, &[0_u8; 4], &mut test_memory()));
}

#[test]
fn an_unowned_address_reads_as_zeros() {
    let mut bus = MmioBus::new();
    bus.register(
        u64::MAX,
        1,
        OffsetRecorder {
            seen_offset: Arc::new(AtomicU64::new(0)),
        },
    );
    let mut data = [7_u8; 4];
    assert!(!read_bus(&mut bus, 0x9999, &mut data));
    assert_eq!(data, [0; 4]);
    assert!(read_bus(&mut bus, u64::MAX, &mut data));
    assert!(region_contains(u64::MAX, 1, u64::MAX));
    assert!(!region_contains(0x1000, 0x100, 0x1100));
    assert!(!region_contains(0x1000, 0, 0x1000));
}
