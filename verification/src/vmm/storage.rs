//! virtio-mmio block device: register file, identity and virtqueue datapath.
//!
//! [`VirtioBlockMmio`] is the device as the guest sees it. It decides; the disk
//! image and the interrupt line belong to the caller. A notification starts the
//! queue with [`VirtioBlockMmio::process_virtqueue`], which answers with the next
//! [`QueueAction`]; the caller performs it and reports back with
//! [`VirtioBlockMmio::disk_answered`] or [`VirtioBlockMmio::interrupt_raised`]
//! until the action is `Finished` or `Failed`.
//!
//! Every access to guest memory is bounds-checked against the regions that back
//! it. A guest can make a request fail; it cannot reach anything else.

use vm_memory::GuestMemoryMmap;
use vstd::prelude::*;

use crate::bytes::{
    byte_range, from_le_bytes, le_bytes, le_value, lemma_byte_ranges, lemma_le_bytes_len,
    lemma_le_bytes_of_value, lemma_le_round_trip, to_le_bytes,
};
use crate::vmm::memory::{
    backed, bytes_at, guest_bytes, lemma_read_back, lemma_write_elsewhere, loaded, read_number,
    read_slice, refusal, write_number, write_slice, written,
};

verus! {

/// virtio block sector size, in bytes.
pub const SECTOR_SIZE: u64 = 512;

/// Largest single request the device services.
pub const MAX_REQUEST_BYTES: u32 = 0x10_0000;

pub const REG_MAGIC: u64 = 0x000;

pub const REG_VERSION: u64 = 0x004;

pub const REG_DEVICE_ID: u64 = 0x008;

pub const REG_VENDOR_ID: u64 = 0x00c;

pub const REG_DEVICE_FEATURES: u64 = 0x010;

pub const REG_DEVICE_FEATURES_SEL: u64 = 0x014;

pub const REG_QUEUE_NUM_MAX: u64 = 0x034;

pub const REG_QUEUE_NUM: u64 = 0x038;

pub const REG_QUEUE_READY: u64 = 0x044;

pub const REG_QUEUE_NOTIFY: u64 = 0x050;

pub const REG_INTERRUPT_STATUS: u64 = 0x060;

pub const REG_INTERRUPT_ACK: u64 = 0x064;

pub const REG_STATUS: u64 = 0x070;

pub const REG_QUEUE_DESC_LOW: u64 = 0x080;

pub const REG_QUEUE_DESC_HIGH: u64 = 0x084;

pub const REG_QUEUE_AVAIL_LOW: u64 = 0x090;

pub const REG_QUEUE_AVAIL_HIGH: u64 = 0x094;

pub const REG_QUEUE_USED_LOW: u64 = 0x0a0;

pub const REG_QUEUE_USED_HIGH: u64 = 0x0a4;

/// Device configuration space: capacity in sectors, low 32-bit word.
pub const REG_CONFIG_CAPACITY_LOW: u64 = 0x100;

/// Capacity in sectors, high 32-bit word.
pub const REG_CONFIG_CAPACITY_HIGH: u64 = 0x104;

/// MagicValue: the little-endian ASCII "virt".
pub const VIRTIO_MMIO_MAGIC: u32 = 0x7472_6976;

/// Modern virtio-mmio transport version.
pub const VIRTIO_MMIO_VERSION: u32 = 2;

/// virtio device ID for a block device.
pub const VIRTIO_ID_BLOCK: u32 = 2;

/// Vendor ID reported to the guest.
pub const VIRTIO_VENDOR_ID: u32 = 0x1af4;

/// `VIRTIO_F_VERSION_1` is feature bit 32: bit 0 of feature word 1.
pub const VIRTIO_F_VERSION_1_WORD1: u32 = 1;

/// Largest virtqueue the device supports.
pub const QUEUE_SIZE_MAX: u32 = 8;

/// Size of one descriptor, in bytes.
pub const VIRTQ_DESC_SIZE: u64 = 16;

/// Descriptor flag: the chain continues at the `next` index.
pub const VIRTQ_DESC_F_NEXT: u16 = 1;

/// Descriptor flag: the device writes the buffer.
pub const VIRTQ_DESC_F_WRITE: u16 = 2;

/// Request type: read from disk into guest memory.
pub const VIRTIO_BLK_T_IN: u32 = 0;

/// Request type: write guest memory out to disk.
pub const VIRTIO_BLK_T_OUT: u32 = 1;

/// Request type: flush the disk image to stable storage.
pub const VIRTIO_BLK_T_FLUSH: u32 = 4;

/// Request type: read the device's identity string.
pub const VIRTIO_BLK_T_GET_ID: u32 = 8;

/// Request status: success.
pub const VIRTIO_BLK_S_OK: u8 = 0;

/// Request status: a host-side I/O error.
pub const VIRTIO_BLK_S_IOERR: u8 = 1;

/// Request status: the request type is not supported.
pub const VIRTIO_BLK_S_UNSUPP: u8 = 2;

/// The identity string "ai-vmm-virtio-blk".
pub open spec fn identity() -> Seq<u8> {
    seq![
        0x61u8, 0x69, 0x2d, 0x76, 0x6d, 0x6d, 0x2d, 0x76, 0x69, 0x72, 0x74, 0x69, 0x6f, 0x2d, 0x62,
        0x6c, 0x6b,
    ]
}

/// One decoded split-virtqueue descriptor.
#[derive(Clone, Copy, Debug, PartialEq, Eq)]
pub struct VirtqDesc {
    pub addr: u64,
    pub len: u32,
    pub flags: u16,
    pub next: u16,
}

/// Why processing the virtqueue stopped.
#[derive(Debug, PartialEq, Eq)]
pub enum BlockError {
    /// An address in a descriptor, or in what it points to, does not fit in 64 bits.
    DescriptorOverflow,
    /// An address in the available ring does not fit in 64 bits.
    AvailRingOverflow,
    /// An address in the used ring does not fit in 64 bits.
    UsedRingOverflow,
    /// Guest memory refused an access, and why.
    GuestMemory(String),
    /// The descriptor chain ends with the request header.
    NoStatusDescriptor,
    /// The descriptor chain is cyclic or longer than the queue.
    ChainTooLong,
    /// The completion interrupt could not be raised, and why.
    Interrupt(String),
}

/// What a [`BlockError`] is.
pub enum BlockFailure {
    DescriptorOverflow,
    AvailRingOverflow,
    UsedRingOverflow,
    GuestMemory(Seq<char>),
    NoStatusDescriptor,
    ChainTooLong,
    Interrupt(Seq<char>),
}

impl View for BlockError {
    type V = BlockFailure;

    open spec fn view(&self) -> BlockFailure {
        match self {
            BlockError::DescriptorOverflow => BlockFailure::DescriptorOverflow,
            BlockError::AvailRingOverflow => BlockFailure::AvailRingOverflow,
            BlockError::UsedRingOverflow => BlockFailure::UsedRingOverflow,
            BlockError::GuestMemory(reason) => BlockFailure::GuestMemory(reason@),
            BlockError::NoStatusDescriptor => BlockFailure::NoStatusDescriptor,
            BlockError::ChainTooLong => BlockFailure::ChainTooLong,
            BlockError::Interrupt(reason) => BlockFailure::Interrupt(reason@),
        }
    }
}

impl BlockFailure {
    /// The text of the message.
    pub open spec fn text(self) -> Seq<char> {
        match self {
            BlockFailure::DescriptorOverflow => "virtqueue descriptor address overflow"@,
            BlockFailure::AvailRingOverflow => "virtqueue avail-ring address overflow"@,
            BlockFailure::UsedRingOverflow => "virtqueue used-ring address overflow"@,
            BlockFailure::GuestMemory(reason) => reason,
            BlockFailure::NoStatusDescriptor => "virtio-blk request chain has no status descriptor"@,
            BlockFailure::ChainTooLong => "virtio-blk descriptor chain is cyclic or too long"@,
            BlockFailure::Interrupt(reason) => reason,
        }
    }
}

impl BlockError {
    /// The message that reports this error.
    pub fn as_str(&self) -> (text: &str)
        ensures
            text@ == self@.text(),
    {
        match self {
            BlockError::DescriptorOverflow => "virtqueue descriptor address overflow",
            BlockError::AvailRingOverflow => "virtqueue avail-ring address overflow",
            BlockError::UsedRingOverflow => "virtqueue used-ring address overflow",
            BlockError::GuestMemory(reason) => reason.as_str(),
            BlockError::NoStatusDescriptor => "virtio-blk request chain has no status descriptor",
            BlockError::ChainTooLong => "virtio-blk descriptor chain is cyclic or too long",
            BlockError::Interrupt(reason) => reason.as_str(),
        }
    }
}

/// What the outcome of reading from guest memory is.
pub open spec fn read_model<T>(outcome: Result<T, BlockError>) -> Result<T, BlockFailure> {
    match outcome {
        Ok(value) => Ok(value),
        Err(error) => Err(error@),
    }
}

/// What a request that waits for the disk will do with the answer.
#[derive(Clone, Copy, Debug, PartialEq, Eq)]
pub enum DiskUse {
    /// Copy the `len` bytes read to guest address `dest`.
    Read { dest: u64, len: u32 },
    /// Report whether the write went through.
    Write,
    /// Report whether the flush went through.
    Flush,
}

/// Where the device stands in its queue.
#[derive(Clone, Copy, Debug, PartialEq, Eq)]
pub enum QueueState {
    /// No request is in progress.
    Idle,
    /// The request whose chain starts at `head` waits for the disk.
    AwaitDisk { avail_idx: u16, head: u16, status_addr: u64, use_of: DiskUse },
    /// A request was completed and its interrupt has yet to be raised.
    AwaitInterrupt { avail_idx: u16 },
}

/// What the device asks of its caller.
#[derive(Debug)]
pub enum QueueAction {
    /// Read `len` bytes of the disk image from `offset` on.
    ReadDisk { offset: u64, len: u32 },
    /// Write `data` to the disk image from `offset` on.
    WriteDisk { offset: u64, data: Vec<u8> },
    /// Flush the disk image to stable storage.
    FlushDisk,
    /// Signal the device's interrupt line.
    RaiseInterrupt,
    /// Every published request has been serviced.
    Finished,
    /// Processing stopped with an error.
    Failed(BlockError),
}

/// A [`QueueAction`] with its data as a sequence.
pub enum ActionModel {
    ReadDisk { offset: u64, len: u32 },
    WriteDisk { offset: u64, data: Seq<u8> },
    FlushDisk,
    RaiseInterrupt,
    Finished,
    Failed(BlockFailure),
}

impl View for QueueAction {
    type V = ActionModel;

    open spec fn view(&self) -> ActionModel {
        match self {
            QueueAction::ReadDisk { offset, len } => ActionModel::ReadDisk { offset: *offset, len: *len },
            QueueAction::WriteDisk { offset, data } => ActionModel::WriteDisk { offset: *offset, data: data@ },
            QueueAction::FlushDisk => ActionModel::FlushDisk,
            QueueAction::RaiseInterrupt => ActionModel::RaiseInterrupt,
            QueueAction::Finished => ActionModel::Finished,
            QueueAction::Failed(error) => ActionModel::Failed(error@),
        }
    }
}

/// What the disk answered.
#[derive(Debug)]
pub enum DiskReply {
    /// The operation failed.
    Failed,
    /// A write or a flush went through.
    Done,
    /// The bytes that were read.
    Data(Vec<u8>),
}

/// A [`DiskReply`] with its data as a sequence.
pub enum ReplyModel {
    Failed,
    Done,
    Data(Seq<u8>),
}

impl View for DiskReply {
    type V = ReplyModel;

    open spec fn view(&self) -> ReplyModel {
        match self {
            DiskReply::Failed => ReplyModel::Failed,
            DiskReply::Done => ReplyModel::Done,
            DiskReply::Data(bytes) => ReplyModel::Data(bytes@),
        }
    }
}

/// A virtio-mmio block device.
#[derive(Clone, Copy, Debug, PartialEq, Eq)]
pub struct VirtioBlockMmio {
    /// Selects which 32-bit word the `DeviceFeatures` register reads back.
    pub device_features_sel: u32,
    /// virtio device status register.
    pub status: u32,
    /// virtio interrupt-status register.
    pub interrupt_status: u32,
    /// Negotiated virtqueue size (entry count).
    pub queue_size: u16,
    /// `1` once the driver has marked the virtqueue ready.
    pub queue_ready: u32,
    /// Guest-physical address of the descriptor table.
    pub queue_desc: u64,
    /// Guest-physical address of the available ring.
    pub queue_avail: u64,
    /// Guest-physical address of the used ring.
    pub queue_used: u64,
    /// Next available-ring index this device has yet to consume.
    pub last_avail_idx: u16,
    /// Next used-ring index this device will write.
    pub used_idx: u16,
    /// Where the device stands in its queue.
    pub queue_state: QueueState,
}

/// The slot a ring index maps to.
pub open spec fn slot_of(index: u16, queue_size: u16) -> int {
    if queue_size == 0 {
        0
    } else {
        index as int % queue_size as int
    }
}

/// Returns the slot a ring index maps to, wrapping within `queue_size`.
pub fn ring_slot(index: u16, queue_size: u16) -> (slot: u16)
    ensures
        slot == slot_of(index, queue_size),
        queue_size == 0 ==> slot == 0,
        queue_size != 0 ==> slot < queue_size,
{
    if queue_size == 0 {
        0
    } else {
        index % queue_size
    }
}

/// Returns the guest-physical address of descriptor `index` in a table based at
/// `table`, or `None` if it does not fit in 64 bits.
pub fn descriptor_addr(table: u64, index: u16) -> (addr: Option<u64>)
    ensures
        match addr {
            Some(a) => a == table + index * VIRTQ_DESC_SIZE && a >= table,
            None => table + index * VIRTQ_DESC_SIZE > u64::MAX,
        },
{
    table.checked_add(index as u64 * VIRTQ_DESC_SIZE)
}

/// Adds `offset` to a virtqueue ring base, or `None` if the sum does not fit.
pub fn ring_addr(base: u64, offset: u64) -> (addr: Option<u64>)
    ensures
        match addr {
            Some(a) => a == base + offset && a >= base && a >= offset,
            None => base + offset > u64::MAX,
        },
{
    base.checked_add(offset)
}

/// The number in the `n` bytes from `addr` on.
pub open spec fn number_at(bytes: Map<int, u8>, addr: int, n: nat) -> Result<nat, BlockFailure> {
    if addr > u64::MAX {
        Err(BlockFailure::DescriptorOverflow)
    } else {
        match loaded(bytes, addr, n) {
            Some(value) => Ok(value),
            None => Err(BlockFailure::GuestMemory(refusal(bytes, addr, n))),
        }
    }
}

/// Descriptor `index` of the table at `table`; the first of its fields that cannot be
/// read decides.
pub open spec fn descriptor_at(bytes: Map<int, u8>, table: u64, index: u16) -> Result<
    VirtqDesc,
    BlockFailure,
> {
    let base = table + index * VIRTQ_DESC_SIZE;
    match (
        number_at(bytes, base, 8),
        number_at(bytes, base + 8, 4),
        number_at(bytes, base + 12, 2),
        number_at(bytes, base + 14, 2),
    ) {
        (Err(error), _, _, _) => Err(error),
        (_, Err(error), _, _) => Err(error),
        (_, _, Err(error), _) => Err(error),
        (_, _, _, Err(error)) => Err(error),
        (Ok(addr), Ok(len), Ok(flags), Ok(next)) => Ok(
            VirtqDesc { addr: addr as u64, len: len as u32, flags: flags as u16, next: next as u16 },
        ),
    }
}

/// The rest of a chain that has reached `current` after `steps` continuations:
/// the last data buffer, if there is one, and the status descriptor that ends it.
pub open spec fn chain_from(
    bytes: Map<int, u8>,
    table: u64,
    queue_size: u16,
    current: VirtqDesc,
    data: Option<VirtqDesc>,
    steps: int,
) -> Result<(Option<VirtqDesc>, VirtqDesc), BlockFailure>
    decreases queue_size - steps,
{
    if current.flags & VIRTQ_DESC_F_NEXT == 0 {
        Ok((data, current))
    } else if steps + 1 >= queue_size {
        Err(BlockFailure::ChainTooLong)
    } else {
        match descriptor_at(bytes, table, current.next) {
            Ok(next) => chain_from(bytes, table, queue_size, next, Some(current), steps + 1),
            Err(error) => Err(error),
        }
    }
}

/// A parsed request.
#[derive(Clone, Copy, Debug, PartialEq, Eq)]
pub struct BlockRequest {
    pub request_type: u32,
    pub sector: u64,
    pub data: Option<VirtqDesc>,
    pub status_addr: u64,
}

/// The request whose descriptor chain starts at `head`: a 16-byte header, at most
/// one data buffer that counts, and a one-byte status.
pub open spec fn request_at(bytes: Map<int, u8>, table: u64, queue_size: u16, head: u16) -> Result<
    BlockRequest,
    BlockFailure,
> {
    match descriptor_at(bytes, table, head) {
        Err(error) => Err(error),
        Ok(header) => match (
            number_at(bytes, header.addr as int, 4),
            number_at(bytes, header.addr + 8, 8),
        ) {
            (Err(error), _) => Err(error),
            (_, Err(error)) => Err(error),
            (Ok(request_type), Ok(sector)) => if header.flags & VIRTQ_DESC_F_NEXT == 0 {
                Err(BlockFailure::NoStatusDescriptor)
            } else {
                match descriptor_at(bytes, table, header.next) {
                    Err(error) => Err(error),
                    Ok(second) => match chain_from(bytes, table, queue_size, second, None, 0) {
                        Err(error) => Err(error),
                        Ok((data, status)) => Ok(
                            BlockRequest {
                                request_type: request_type as u32,
                                sector: sector as u64,
                                data,
                                status_addr: status.addr,
                            },
                        ),
                    },
                }
            },
        },
    }
}

/// What servicing a request takes.
pub enum ServiceModel {
    /// Nothing more: the request ends with this status.
    Settled { status: u8 },
    /// Copy the first `count` bytes of the identity string to `dest`.
    Identify { dest: u64, count: int },
    /// Read the disk.
    Read { offset: u64, len: u32, dest: u64 },
    /// Write the disk.
    Write { offset: u64, data: Seq<u8> },
    /// Flush the disk.
    Flush,
}

/// What servicing `request` takes. A read needs a device-writable data buffer, a
/// write a readable one; neither may exceed [`MAX_REQUEST_BYTES`] nor start at a
/// disk offset beyond 64 bits.
pub open spec fn service_of(bytes: Map<int, u8>, request: BlockRequest) -> ServiceModel {
    let failed = ServiceModel::Settled { status: VIRTIO_BLK_S_IOERR };
    let offset = request.sector * SECTOR_SIZE;
    if request.request_type == VIRTIO_BLK_T_IN {
        match request.data {
            Some(data) if data.flags & VIRTQ_DESC_F_WRITE != 0 && data.len <= MAX_REQUEST_BYTES
                && offset <= u64::MAX => ServiceModel::Read {
                offset: offset as u64,
                len: data.len,
                dest: data.addr,
            },
            _ => failed,
        }
    } else if request.request_type == VIRTIO_BLK_T_OUT {
        match request.data {
            Some(data) if data.len <= MAX_REQUEST_BYTES && offset <= u64::MAX && backed(
                bytes,
                data.addr as int,
                data.len as int,
            ) => ServiceModel::Write {
                offset: offset as u64,
                data: bytes_at(bytes, data.addr as int, data.len as nat),
            },
            _ => failed,
        }
    } else if request.request_type == VIRTIO_BLK_T_FLUSH {
        ServiceModel::Flush
    } else if request.request_type == VIRTIO_BLK_T_GET_ID {
        match request.data {
            Some(data) => ServiceModel::Identify {
                dest: data.addr,
                count: if data.len < identity().len() {
                    data.len as int
                } else {
                    identity().len() as int
                },
            },
            None => failed,
        }
    } else {
        ServiceModel::Settled { status: VIRTIO_BLK_S_UNSUPP }
    }
}

/// The device, guest memory and the next action after a step.
pub struct QueueOutcome {
    pub device: VirtioBlockMmio,
    pub bytes: Map<int, u8>,
    pub action: ActionModel,
}

/// A step that ends in an error, with the queue left idle.
pub open spec fn failed(device: VirtioBlockMmio, bytes: Map<int, u8>, error: BlockFailure) -> QueueOutcome {
    QueueOutcome {
        device: VirtioBlockMmio { queue_state: QueueState::Idle, ..device },
        bytes,
        action: ActionModel::Failed(error),
    }
}

/// Completing a request: its status byte is written, then its used-ring entry,
/// then the used-ring index, and the interrupt is due.
pub open spec fn completed(
    device: VirtioBlockMmio,
    bytes: Map<int, u8>,
    avail_idx: u16,
    head: u16,
    status_addr: u64,
    status: u8,
    used_len: u32,
) -> QueueOutcome {
    let with_status = written(bytes, status_addr as int, seq![status]);
    let id_addr = device.queue_used + 4 + slot_of(device.used_idx, device.queue_size) * 8;
    let with_id = written(with_status, id_addr, le_bytes(head as nat, 4));
    let with_len = written(with_id, id_addr + 4, le_bytes(used_len as nat, 4));
    let advanced = VirtioBlockMmio {
        used_idx: ((device.used_idx + 1) % 0x1_0000) as u16,
        ..device
    };
    let with_idx = written(with_len, device.queue_used + 2, le_bytes(advanced.used_idx as nat, 2));
    if !backed(bytes, status_addr as int, 1) {
        failed(device, with_status, BlockFailure::GuestMemory(refusal(bytes, status_addr as int, 1)))
    } else if id_addr + 4 > u64::MAX {
        failed(device, with_status, BlockFailure::UsedRingOverflow)
    } else if !backed(with_status, id_addr, 4) {
        failed(device, with_id, BlockFailure::GuestMemory(refusal(with_status, id_addr, 4)))
    } else if !backed(with_id, id_addr + 4, 4) {
        failed(device, with_len, BlockFailure::GuestMemory(refusal(with_id, id_addr + 4, 4)))
    } else if !backed(with_len, device.queue_used + 2, 2) {
        failed(
            advanced,
            with_idx,
            BlockFailure::GuestMemory(refusal(with_len, device.queue_used + 2, 2)),
        )
    } else {
        QueueOutcome {
            device: VirtioBlockMmio {
                interrupt_status: device.interrupt_status | 1,
                queue_state: QueueState::AwaitInterrupt { avail_idx },
                ..advanced
            },
            bytes: with_idx,
            action: ActionModel::RaiseInterrupt,
        }
    }
}

/// Completing a request whose data goes to the guest first: the request succeeds
/// if guest memory takes all of it.
pub open spec fn delivered(
    device: VirtioBlockMmio,
    bytes: Map<int, u8>,
    avail_idx: u16,
    head: u16,
    status_addr: u64,
    dest: u64,
    data: Seq<u8>,
) -> QueueOutcome {
    let with_data = written(bytes, dest as int, data);
    if backed(bytes, dest as int, data.len() as int) {
        completed(device, with_data, avail_idx, head, status_addr, VIRTIO_BLK_S_OK, data.len() as u32)
    } else {
        completed(device, with_data, avail_idx, head, status_addr, VIRTIO_BLK_S_IOERR, 0)
    }
}

/// Taking up the request whose chain starts at `head`.
#[verifier::opaque]
pub open spec fn request_taken(
    device: VirtioBlockMmio,
    bytes: Map<int, u8>,
    avail_idx: u16,
    head: u16,
) -> QueueOutcome {
    match request_at(bytes, device.queue_desc, device.queue_size, head) {
        Err(error) => failed(device, bytes, error),
        Ok(request) => {
            let status_addr = request.status_addr;
            match service_of(bytes, request) {
                ServiceModel::Settled { status } => completed(
                    device,
                    bytes,
                    avail_idx,
                    head,
                    status_addr,
                    status,
                    0,
                ),
                ServiceModel::Identify { dest, count } => delivered(
                    device,
                    bytes,
                    avail_idx,
                    head,
                    status_addr,
                    dest,
                    identity().take(count),
                ),
                ServiceModel::Read { offset, len, dest } => QueueOutcome {
                    device: VirtioBlockMmio {
                        queue_state: QueueState::AwaitDisk {
                            avail_idx,
                            head,
                            status_addr,
                            use_of: DiskUse::Read { dest, len },
                        },
                        ..device
                    },
                    bytes,
                    action: ActionModel::ReadDisk { offset, len },
                },
                ServiceModel::Write { offset, data } => QueueOutcome {
                    device: VirtioBlockMmio {
                        queue_state: QueueState::AwaitDisk {
                            avail_idx,
                            head,
                            status_addr,
                            use_of: DiskUse::Write,
                        },
                        ..device
                    },
                    bytes,
                    action: ActionModel::WriteDisk { offset, data },
                },
                ServiceModel::Flush => QueueOutcome {
                    device: VirtioBlockMmio {
                        queue_state: QueueState::AwaitDisk {
                            avail_idx,
                            head,
                            status_addr,
                            use_of: DiskUse::Flush,
                        },
                        ..device
                    },
                    bytes,
                    action: ActionModel::FlushDisk,
                },
            }
        },
    }
}

/// Going on with the queue up to the driver's index `avail_idx`.
pub open spec fn queue_continued(
    device: VirtioBlockMmio,
    bytes: Map<int, u8>,
    avail_idx: u16,
) -> QueueOutcome {
    let entry_addr = device.queue_avail + 4 + slot_of(device.last_avail_idx, device.queue_size) * 2;
    if device.last_avail_idx == avail_idx {
        QueueOutcome {
            device: VirtioBlockMmio { queue_state: QueueState::Idle, ..device },
            bytes,
            action: ActionModel::Finished,
        }
    } else if entry_addr > u64::MAX {
        failed(device, bytes, BlockFailure::AvailRingOverflow)
    } else {
        match loaded(bytes, entry_addr, 2) {
            None => failed(device, bytes, BlockFailure::GuestMemory(refusal(bytes, entry_addr, 2))),
            Some(head) => request_taken(device, bytes, avail_idx, head as u16),
        }
    }
}

/// Starting on the queue: nothing happens unless the driver has made it ready.
pub open spec fn queue_started(device: VirtioBlockMmio, bytes: Map<int, u8>) -> QueueOutcome {
    if device.queue_ready != 1 || device.queue_size == 0 || device.queue_desc == 0 {
        QueueOutcome {
            device: VirtioBlockMmio { queue_state: QueueState::Idle, ..device },
            bytes,
            action: ActionModel::Finished,
        }
    } else if device.queue_avail + 2 > u64::MAX {
        failed(device, bytes, BlockFailure::AvailRingOverflow)
    } else {
        match loaded(bytes, device.queue_avail + 2, 2) {
            None => failed(
                device,
                bytes,
                BlockFailure::GuestMemory(refusal(bytes, device.queue_avail + 2, 2)),
            ),
            Some(avail_idx) => queue_continued(device, bytes, avail_idx as u16),
        }
    }
}

/// What the device does with the disk's answer. An answer that nothing waits for
/// changes nothing.
pub open spec fn answer_taken(
    device: VirtioBlockMmio,
    bytes: Map<int, u8>,
    reply: ReplyModel,
) -> QueueOutcome {
    match device.queue_state {
        QueueState::AwaitDisk { avail_idx, head, status_addr, use_of } => match (use_of, reply) {
            (DiskUse::Read { dest, len }, ReplyModel::Data(data)) if data.len() == len => delivered(
                device,
                bytes,
                avail_idx,
                head,
                status_addr,
                dest,
                data,
            ),
            (DiskUse::Write, ReplyModel::Done) => completed(
                device,
                bytes,
                avail_idx,
                head,
                status_addr,
                VIRTIO_BLK_S_OK,
                0,
            ),
            (DiskUse::Flush, ReplyModel::Done) => completed(
                device,
                bytes,
                avail_idx,
                head,
                status_addr,
                VIRTIO_BLK_S_OK,
                0,
            ),
            _ => completed(device, bytes, avail_idx, head, status_addr, VIRTIO_BLK_S_IOERR, 0),
        },
        _ => QueueOutcome { device, bytes, action: ActionModel::Finished },
    }
}

/// What the device does once its interrupt was raised, or could not be. A report
/// that nothing waits for changes nothing.
pub open spec fn interrupt_reported(
    device: VirtioBlockMmio,
    bytes: Map<int, u8>,
    raised: Result<(), Seq<char>>,
) -> QueueOutcome {
    match device.queue_state {
        QueueState::AwaitInterrupt { avail_idx } => match raised {
            Ok(_) => queue_continued(
                VirtioBlockMmio {
                    last_avail_idx: ((device.last_avail_idx + 1) % 0x1_0000) as u16,
                    ..device
                },
                bytes,
                avail_idx,
            ),
            Err(reason) => failed(device, bytes, BlockFailure::Interrupt(reason)),
        },
        _ => QueueOutcome { device, bytes, action: ActionModel::Finished },
    }
}

/// What servicing a request takes.
enum Service {
    Settled { status: u8 },
    Identify { dest: u64, count: usize },
    Read { offset: u64, len: u32, dest: u64 },
    Write { offset: u64, data: Vec<u8> },
    Flush,
}

impl View for Service {
    type V = ServiceModel;

    closed spec fn view(&self) -> ServiceModel {
        match self {
            Service::Settled { status } => ServiceModel::Settled { status: *status },
            Service::Identify { dest, count } => ServiceModel::Identify {
                dest: *dest,
                count: *count as int,
            },
            Service::Read { offset, len, dest } => ServiceModel::Read {
                offset: *offset,
                len: *len,
                dest: *dest,
            },
            Service::Write { offset, data } => ServiceModel::Write { offset: *offset, data: data@ },
            Service::Flush => ServiceModel::Flush,
        }
    }
}

fn device_identity() -> (bytes: Vec<u8>)
    ensures
        bytes@ == identity(),
{
    vec![
        0x61, 0x69, 0x2d, 0x76, 0x6d, 0x6d, 0x2d, 0x76, 0x69, 0x72, 0x74, 0x69, 0x6f, 0x2d, 0x62,
        0x6c, 0x6b,
    ]
}

impl VirtioBlockMmio {
    /// A device fresh out of reset.
    pub fn new() -> (device: VirtioBlockMmio)
        ensures
            device == (VirtioBlockMmio {
                device_features_sel: 0,
                status: 0,
                interrupt_status: 0,
                queue_size: 0,
                queue_ready: 0,
                queue_desc: 0,
                queue_avail: 0,
                queue_used: 0,
                last_avail_idx: 0,
                used_idx: 0,
                queue_state: QueueState::Idle,
            }),
    {
        VirtioBlockMmio {
            device_features_sel: 0,
            status: 0,
            interrupt_status: 0,
            queue_size: 0,
            queue_ready: 0,
            queue_desc: 0,
            queue_avail: 0,
            queue_used: 0,
            last_avail_idx: 0,
            used_idx: 0,
            queue_state: QueueState::Idle,
        }
    }

    /// Reads descriptor `index` out of the guest's descriptor table, field by field.
    fn read_descriptor(&self, guest_memory: &GuestMemoryMmap, index: u16) -> (desc: Result<
        VirtqDesc,
        BlockError,
    >)
        ensures
            read_model(desc) == descriptor_at(guest_bytes(*guest_memory), self.queue_desc, index),
    {
        let base: u64 = match descriptor_addr(self.queue_desc, index) {
            Some(base) => base,
            None => return Err(BlockError::DescriptorOverflow),
        };
        proof {
            lemma_byte_ranges();
        }
        let addr: u64 = match read_field(guest_memory, base, 0, 8) {
            Ok(value) => value,
            Err(error) => return Err(error),
        };
        let len: u64 = match read_field(guest_memory, base, 8, 4) {
            Ok(value) => value,
            Err(error) => return Err(error),
        };
        let flags: u64 = match read_field(guest_memory, base, 12, 2) {
            Ok(value) => value,
            Err(error) => return Err(error),
        };
        let next: u64 = match read_field(guest_memory, base, 14, 2) {
            Ok(value) => value,
            Err(error) => return Err(error),
        };
        Ok(VirtqDesc { addr, len: len as u32, flags: flags as u16, next: next as u16 })
    }

    /// Reads the request whose descriptor chain starts at `head`.
    ///
    /// A well-formed chain visits each descriptor at most once, so it is never
    /// longer than the queue; a longer one is cyclic and is refused.
    fn read_request(&self, guest_memory: &GuestMemoryMmap, head: u16) -> (request: Result<
        BlockRequest,
        BlockError,
    >)
        ensures
            read_model(request) == request_at(
                guest_bytes(*guest_memory),
                self.queue_desc,
                self.queue_size,
                head,
            ),
    {
        let ghost bytes = guest_bytes(*guest_memory);
        let header = match self.read_descriptor(guest_memory, head) {
            Ok(desc) => desc,
            Err(error) => return Err(error),
        };
        proof {
            lemma_byte_ranges();
        }
        let request_type: u32 = match read_field(guest_memory, header.addr, 0, 4) {
            Ok(value) => value as u32,
            Err(error) => return Err(error),
        };
        let sector: u64 = match read_field(guest_memory, header.addr, 8, 8) {
            Ok(value) => value,
            Err(error) => return Err(error),
        };
        if header.flags & VIRTQ_DESC_F_NEXT == 0 {
            return Err(BlockError::NoStatusDescriptor);
        }
        let mut data: Option<VirtqDesc> = None;
        let mut current = match self.read_descriptor(guest_memory, header.next) {
            Ok(desc) => desc,
            Err(error) => return Err(error),
        };
        let ghost second = current;
        let mut steps: u16 = 0;
        while current.flags & VIRTQ_DESC_F_NEXT != 0
            invariant
                bytes == guest_bytes(*guest_memory),
                steps == 0 || steps < self.queue_size,
                chain_from(bytes, self.queue_desc, self.queue_size, current, data, steps as int)
                    == chain_from(bytes, self.queue_desc, self.queue_size, second, None, 0),
                descriptor_at(bytes, self.queue_desc, head) == Ok::<VirtqDesc, BlockFailure>(header),
                descriptor_at(bytes, self.queue_desc, header.next) == Ok::<VirtqDesc, BlockFailure>(
                    second,
                ),
                header.flags & VIRTQ_DESC_F_NEXT != 0,
                number_at(bytes, header.addr as int, 4) == Ok::<nat, BlockFailure>(request_type as nat),
                number_at(bytes, header.addr + 8, 8) == Ok::<nat, BlockFailure>(sector as nat),
            decreases self.queue_size - steps,
        {
            if steps >= self.queue_size || steps + 1 >= self.queue_size {
                return Err(BlockError::ChainTooLong);
            }
            steps = steps + 1;
            let next = match self.read_descriptor(guest_memory, current.next) {
                Ok(desc) => desc,
                Err(error) => return Err(error),
            };
            data = Some(current);
            current = next;
        }
        Ok(BlockRequest { request_type, sector, data, status_addr: current.addr })
    }

    /// Decides what servicing `request` takes.
    ///
    /// A read, write, flush, identity query or unknown request type all resolve
    /// to a status byte, at once or after the disk has answered; the request is
    /// then completed whatever the status.
    fn service_request(&self, guest_memory: &GuestMemoryMmap, request: &BlockRequest) -> (service: Service)
        ensures
            service@ == service_of(guest_bytes(*guest_memory), *request),
    {
        let failed = Service::Settled { status: VIRTIO_BLK_S_IOERR };
        if request.request_type == VIRTIO_BLK_T_IN {
            let data = match request.data {
                Some(data) => data,
                None => return failed,
            };
            if data.flags & VIRTQ_DESC_F_WRITE == 0 || data.len > MAX_REQUEST_BYTES {
                return failed;
            }
            match request.sector.checked_mul(SECTOR_SIZE) {
                Some(offset) => Service::Read { offset, len: data.len, dest: data.addr },
                None => failed,
            }
        } else if request.request_type == VIRTIO_BLK_T_OUT {
            let data = match request.data {
                Some(data) => data,
                None => return failed,
            };
            if data.len > MAX_REQUEST_BYTES {
                return failed;
            }
            let offset: u64 = match request.sector.checked_mul(SECTOR_SIZE) {
                Some(offset) => offset,
                None => return failed,
            };
            match read_slice(guest_memory, data.addr, data.len as usize) {
                Ok(buffer) => Service::Write { offset, data: buffer },
                Err(_) => failed,
            }
        } else if request.request_type == VIRTIO_BLK_T_FLUSH {
            Service::Flush
        } else if request.request_type == VIRTIO_BLK_T_GET_ID {
            match request.data {
                Some(data) => Service::Identify {
                    dest: data.addr,
                    count: if data.len < 17 {
                        data.len as usize
                    } else {
                        17
                    },
                },
                None => failed,
            }
        } else {
            Service::Settled { status: VIRTIO_BLK_S_UNSUPP }
        }
    }

    /// Leaves the queue idle and reports `error`.
    fn fail(&mut self, error: BlockError) -> (action: QueueAction)
        ensures
            *final(self) == (VirtioBlockMmio { queue_state: QueueState::Idle, ..*old(self) }),
            action@ == ActionModel::Failed(error@),
    {
        self.queue_state = QueueState::Idle;
        QueueAction::Failed(error)
    }

    /// Completes a request: writes its status byte and publishes it in the used
    /// ring.
    fn complete(
        &mut self,
        guest_memory: &mut GuestMemoryMmap,
        avail_idx: u16,
        head: u16,
        status_addr: u64,
        status: u8,
        used_len: u32,
    ) -> (action: QueueAction)
        ensures
            ({
                let outcome = completed(
                    *old(self),
                    guest_bytes(*old(guest_memory)),
                    avail_idx,
                    head,
                    status_addr,
                    status,
                    used_len,
                );
                &&& *final(self) == outcome.device
                &&& guest_bytes(*final(guest_memory)) == outcome.bytes
                &&& action@ == outcome.action
            }),
    {
        let status_byte: Vec<u8> = vec![status];
        assert(status_byte@ =~= seq![status]);
        if let Err(reason) = write_slice(guest_memory, status_addr, status_byte.as_slice()) {
            return self.fail(BlockError::GuestMemory(reason));
        }
        let used_slot: u16 = ring_slot(self.used_idx, self.queue_size);
        let id_offset: u64 = 4 + used_slot as u64 * 8;
        let id_addr: u64 = match ring_addr(self.queue_used, id_offset) {
            Some(addr) => addr,
            None => return self.fail(BlockError::UsedRingOverflow),
        };
        let len_addr: u64 = match ring_addr(self.queue_used, id_offset + 4) {
            Some(addr) => addr,
            None => return self.fail(BlockError::UsedRingOverflow),
        };
        let used_idx_addr: u64 = match ring_addr(self.queue_used, 2) {
            Some(addr) => addr,
            None => return self.fail(BlockError::UsedRingOverflow),
        };
        if let Err(reason) = write_number(guest_memory, id_addr, head as u64, 4) {
            return self.fail(BlockError::GuestMemory(reason));
        }
        if let Err(reason) = write_number(guest_memory, len_addr, used_len as u64, 4) {
            return self.fail(BlockError::GuestMemory(reason));
        }
        self.used_idx = self.used_idx.wrapping_add(1);
        if let Err(reason) = write_number(guest_memory, used_idx_addr, self.used_idx as u64, 2) {
            return self.fail(BlockError::GuestMemory(reason));
        }
        self.interrupt_status = self.interrupt_status | 1;
        self.queue_state = QueueState::AwaitInterrupt { avail_idx };
        QueueAction::RaiseInterrupt
    }

    /// Copies `data` into the guest's buffer and completes the request.
    fn deliver(
        &mut self,
        guest_memory: &mut GuestMemoryMmap,
        avail_idx: u16,
        head: u16,
        status_addr: u64,
        dest: u64,
        data: &[u8],
    ) -> (action: QueueAction)
        requires
            data@.len() <= u32::MAX,
        ensures
            ({
                let outcome = delivered(
                    *old(self),
                    guest_bytes(*old(guest_memory)),
                    avail_idx,
                    head,
                    status_addr,
                    dest,
                    data@,
                );
                &&& *final(self) == outcome.device
                &&& guest_bytes(*final(guest_memory)) == outcome.bytes
                &&& action@ == outcome.action
            }),
    {
        if write_slice(guest_memory, dest, data).is_ok() {
            self.complete(
                guest_memory,
                avail_idx,
                head,
                status_addr,
                VIRTIO_BLK_S_OK,
                data.len() as u32,
            )
        } else {
            self.complete(guest_memory, avail_idx, head, status_addr, VIRTIO_BLK_S_IOERR, 0)
        }
    }

    /// Takes up the request whose descriptor chain starts at `head`.
    ///
    /// The chain is `[header] [data?] [status]`. Once the chain has been read,
    /// the request is completed in the used ring whatever its outcome, so the
    /// guest's driver never waits for a reply in vain.
    pub fn process_request(
        &mut self,
        guest_memory: &mut GuestMemoryMmap,
        avail_idx: u16,
        head: u16,
    ) -> (action: QueueAction)
        ensures
            ({
                let outcome = request_taken(
                    *old(self),
                    guest_bytes(*old(guest_memory)),
                    avail_idx,
                    head,
                );
                &&& *final(self) == outcome.device
                &&& guest_bytes(*final(guest_memory)) == outcome.bytes
                &&& action@ == outcome.action
            }),
    {
        proof {
            reveal(request_taken);
        }
        let request = match self.read_request(guest_memory, head) {
            Ok(request) => request,
            Err(error) => return self.fail(error),
        };
        let status_addr: u64 = request.status_addr;
        match self.service_request(guest_memory, &request) {
            Service::Settled { status } => self.complete(
                guest_memory,
                avail_idx,
                head,
                status_addr,
                status,
                0,
            ),
            Service::Identify { dest, count } => {
                let id = device_identity();
                assert(identity().len() == 17);
                let part = &id.as_slice()[0..count];
                assert(part@ =~= identity().take(count as int));
                self.deliver(guest_memory, avail_idx, head, status_addr, dest, part)
            },
            Service::Read { offset, len, dest } => {
                self.queue_state = QueueState::AwaitDisk {
                    avail_idx,
                    head,
                    status_addr,
                    use_of: DiskUse::Read { dest, len },
                };
                QueueAction::ReadDisk { offset, len }
            },
            Service::Write { offset, data } => {
                self.queue_state = QueueState::AwaitDisk {
                    avail_idx,
                    head,
                    status_addr,
                    use_of: DiskUse::Write,
                };
                QueueAction::WriteDisk { offset, data }
            },
            Service::Flush => {
                self.queue_state = QueueState::AwaitDisk {
                    avail_idx,
                    head,
                    status_addr,
                    use_of: DiskUse::Flush,
                };
                QueueAction::FlushDisk
            },
        }
    }

    /// Takes up the next request that the driver has published before its index
    /// reached `avail_idx`.
    fn continue_queue(&mut self, guest_memory: &mut GuestMemoryMmap, avail_idx: u16) -> (action: QueueAction)
        ensures
            ({
                let outcome = queue_continued(
                    *old(self),
                    guest_bytes(*old(guest_memory)),
                    avail_idx,
                );
                &&& *final(self) == outcome.device
                &&& guest_bytes(*final(guest_memory)) == outcome.bytes
                &&& action@ == outcome.action
            }),
    {
        if self.last_avail_idx == avail_idx {
            self.queue_state = QueueState::Idle;
            return QueueAction::Finished;
        }
        let slot: u16 = ring_slot(self.last_avail_idx, self.queue_size);
        let entry_addr: u64 = match ring_addr(self.queue_avail, 4 + slot as u64 * 2) {
            Some(addr) => addr,
            None => return self.fail(BlockError::AvailRingOverflow),
        };
        proof {
            lemma_byte_ranges();
        }
        match read_number(guest_memory, entry_addr, 2) {
            Ok(head) => self.process_request(guest_memory, avail_idx, head as u16),
            Err(reason) => self.fail(BlockError::GuestMemory(reason)),
        }
    }

    /// Starts on the requests that the driver has published, as a write to the
    /// `QueueNotify` register asks.
    ///
    /// The driver's index is read once: what it publishes later belongs to its
    /// next notification.
    pub fn process_virtqueue(&mut self, guest_memory: &mut GuestMemoryMmap) -> (action: QueueAction)
        ensures
            ({
                let outcome = queue_started(*old(self), guest_bytes(*old(guest_memory)));
                &&& *final(self) == outcome.device
                &&& guest_bytes(*final(guest_memory)) == outcome.bytes
                &&& action@ == outcome.action
            }),
    {
        if self.queue_ready != 1 || self.queue_size == 0 || self.queue_desc == 0 {
            self.queue_state = QueueState::Idle;
            return QueueAction::Finished;
        }
        let avail_idx_addr: u64 = match ring_addr(self.queue_avail, 2) {
            Some(addr) => addr,
            None => return self.fail(BlockError::AvailRingOverflow),
        };
        proof {
            lemma_byte_ranges();
        }
        match read_number(guest_memory, avail_idx_addr, 2) {
            Ok(avail_idx) => self.continue_queue(guest_memory, avail_idx as u16),
            Err(reason) => self.fail(BlockError::GuestMemory(reason)),
        }
    }

    /// Takes the disk's answer to the last action.
    pub fn disk_answered(&mut self, guest_memory: &mut GuestMemoryMmap, reply: &DiskReply) -> (action:
        QueueAction)
        ensures
            ({
                let outcome = answer_taken(*old(self), guest_bytes(*old(guest_memory)), reply@);
                &&& *final(self) == outcome.device
                &&& guest_bytes(*final(guest_memory)) == outcome.bytes
                &&& action@ == outcome.action
            }),
    {
        match self.queue_state {
            QueueState::AwaitDisk { avail_idx, head, status_addr, use_of } => {
                let status: u8 = match (use_of, reply) {
                    (DiskUse::Read { dest, len }, DiskReply::Data(data)) => {
                        if data.len() == len as usize {
                            return self.deliver(
                                guest_memory,
                                avail_idx,
                                head,
                                status_addr,
                                dest,
                                data.as_slice(),
                            );
                        }
                        VIRTIO_BLK_S_IOERR
                    },
                    (DiskUse::Write, DiskReply::Done) => VIRTIO_BLK_S_OK,
                    (DiskUse::Flush, DiskReply::Done) => VIRTIO_BLK_S_OK,
                    _ => VIRTIO_BLK_S_IOERR,
                };
                self.complete(guest_memory, avail_idx, head, status_addr, status, 0)
            },
            _ => QueueAction::Finished,
        }
    }

    /// Takes the report of whether the interrupt line was signalled, or why it could not
    /// be, and goes on with the queue if it was.
    pub fn interrupt_raised(
        &mut self,
        guest_memory: &mut GuestMemoryMmap,
        raised: Result<(), String>,
    ) -> (action: QueueAction)
        ensures
            ({
                let outcome = interrupt_reported(
                    *old(self),
                    guest_bytes(*old(guest_memory)),
                    (match raised {
                        Ok(_) => Ok::<(), Seq<char>>(()),
                        Err(reason) => Err::<(), Seq<char>>(reason@),
                    }),
                );
                &&& *final(self) == outcome.device
                &&& guest_bytes(*final(guest_memory)) == outcome.bytes
                &&& action@ == outcome.action
            }),
    {
        match self.queue_state {
            QueueState::AwaitInterrupt { avail_idx } => {
                if let Err(reason) = raised {
                    return self.fail(BlockError::Interrupt(reason));
                }
                self.last_avail_idx = self.last_avail_idx.wrapping_add(1);
                self.continue_queue(guest_memory, avail_idx)
            },
            _ => QueueAction::Finished,
        }
    }
}

/// Reads the `n`-byte number at `offset` from `base`.
fn read_field(guest_memory: &GuestMemoryMmap, base: u64, offset: u64, n: usize) -> (value: Result<
    u64,
    BlockError,
>)
    requires
        n <= 8,
    ensures
        match value {
            Ok(number) => number_at(guest_bytes(*guest_memory), base + offset, n as nat) == Ok::<
                nat,
                BlockFailure,
            >(number as nat) && number < byte_range(n as nat),
            Err(error) => number_at(guest_bytes(*guest_memory), base + offset, n as nat) == Err::<
                nat,
                BlockFailure,
            >(error@),
        },
{
    match ring_addr(base, offset) {
        Some(addr) => match read_number(guest_memory, addr, n) {
            Ok(number) => Ok(number),
            Err(reason) => Err(BlockError::GuestMemory(reason)),
        },
        None => Err(BlockError::DescriptorOverflow),
    }
}

/// How many whole sectors a disk image of `image_len` bytes holds.
pub fn capacity_sectors(image_len: u64) -> (sectors: u64)
    ensures
        sectors == image_len / SECTOR_SIZE,
        sectors * 512 <= image_len < (sectors + 1) * 512,
{
    image_len / SECTOR_SIZE
}

/// `target` with its low 32 bits replaced by `value`.
pub open spec fn low_replaced(target: u64, value: u32) -> u64 {
    (target as int / 0x1_0000_0000 * 0x1_0000_0000 + value) as u64
}

/// `target` with its high 32 bits replaced by `value`.
pub open spec fn high_replaced(target: u64, value: u32) -> u64 {
    (value as int * 0x1_0000_0000 + target as int % 0x1_0000_0000) as u64
}

/// Replaces the low 32 bits of `target` with `value`.
pub fn write_low(target: &mut u64, value: u32)
    ensures
        *final(target) == low_replaced(*old(target), value),
{
    let before: u64 = *target;
    assert((before & 0xffff_ffff_0000_0000) | (value as u64) == before / 0x1_0000_0000
        * 0x1_0000_0000 + value) by (bit_vector);
    *target = (before & 0xffff_ffff_0000_0000) | value as u64;
}

/// Replaces the high 32 bits of `target` with `value`.
pub fn write_high(target: &mut u64, value: u32)
    ensures
        *final(target) == high_replaced(*old(target), value),
{
    let before: u64 = *target;
    assert((before & 0x0000_0000_ffff_ffff) | ((value as u64) << 32) == value * 0x1_0000_0000
        + before % 0x1_0000_0000) by (bit_vector);
    *target = (before & 0x0000_0000_ffff_ffff) | ((value as u64) << 32);
}

/// A register buffer after `value` was put into it: the low bytes of `value`, as
/// many as fit, and the rest of the buffer as it was.
pub open spec fn register_bytes(buffer: Seq<u8>, value: u32) -> Seq<u8> {
    Seq::new(
        buffer.len(),
        |i: int|
            if i < 4 {
                le_bytes(value as nat, 4)[i]
            } else {
                buffer[i]
            },
    )
}

/// The number in the first four bytes of a register buffer; missing bytes count
/// as zero.
pub open spec fn register_number(buffer: Seq<u8>) -> nat {
    le_value(
        buffer.take(
            if buffer.len() < 4 {
                buffer.len() as int
            } else {
                4
            },
        ),
    )
}

/// Writes the low `min(4, data.len())` bytes of `value` into `data`,
/// little-endian.
pub fn write_u32_le(data: &mut [u8], value: u32)
    ensures
        final(data)@ == register_bytes(old(data)@, value),
{
    let bytes = to_le_bytes(value as u64, 4);
    proof {
        lemma_le_bytes_len(value as nat, 4);
    }
    let ghost before = data@;
    let mut i: usize = 0;
    while i < 4 && i < data.len()
        invariant
            i <= 4,
            i <= data@.len(),
            bytes@ == le_bytes(value as nat, 4),
            bytes@.len() == 4,
            data@.len() == before.len(),
            forall|k: int| 0 <= k < i ==> data@[k] == le_bytes(value as nat, 4)[k],
            forall|k: int| i <= k < data@.len() ==> data@[k] == before[k],
        decreases 4 - i,
    {
        data[i] = bytes[i];
        i = i + 1;
    }
    assert(data@ =~= register_bytes(before, value));
}

/// Reads a little-endian `u32` from the first `min(4, data.len())` bytes of
/// `data`; missing bytes are treated as zero.
pub fn read_u32_le(data: &[u8]) -> (value: u32)
    ensures
        value == register_number(data@),
{
    let count: usize = if data.len() < 4 {
        data.len()
    } else {
        4
    };
    let part = &data[0..count];
    proof {
        assert(part@ =~= data@.take(count as int));
        lemma_le_bytes_of_value(part@);
        lemma_short_byte_range(part@.len());
    }
    from_le_bytes(part) as u32
}

proof fn lemma_short_byte_range(n: nat)
    requires
        n <= 4,
    ensures
        byte_range(n) <= 0x1_0000_0000,
{
    reveal_with_fuel(byte_range, 5);
}

/// The value of the 32-bit register at `offset`, for a disk of `capacity` sectors.
pub open spec fn register_value(device: VirtioBlockMmio, offset: u64, capacity: u64) -> u32 {
    if offset == REG_MAGIC {
        VIRTIO_MMIO_MAGIC
    } else if offset == REG_VERSION {
        VIRTIO_MMIO_VERSION
    } else if offset == REG_DEVICE_ID {
        VIRTIO_ID_BLOCK
    } else if offset == REG_VENDOR_ID {
        VIRTIO_VENDOR_ID
    } else if offset == REG_DEVICE_FEATURES {
        if device.device_features_sel == 1 {
            VIRTIO_F_VERSION_1_WORD1
        } else {
            0
        }
    } else if offset == REG_QUEUE_NUM_MAX {
        QUEUE_SIZE_MAX
    } else if offset == REG_QUEUE_READY {
        device.queue_ready
    } else if offset == REG_INTERRUPT_STATUS {
        device.interrupt_status
    } else if offset == REG_STATUS {
        device.status
    } else if offset == REG_CONFIG_CAPACITY_LOW {
        (capacity % 0x1_0000_0000) as u32
    } else if offset == REG_CONFIG_CAPACITY_HIGH {
        (capacity / 0x1_0000_0000) as u32
    } else {
        0
    }
}

/// The device after `value` was written to the register at `offset`, other than
/// `QueueNotify`.
pub open spec fn register_written(device: VirtioBlockMmio, offset: u64, value: u32) -> VirtioBlockMmio {
    if offset == REG_DEVICE_FEATURES_SEL {
        VirtioBlockMmio { device_features_sel: value, ..device }
    } else if offset == REG_STATUS {
        VirtioBlockMmio { status: value, ..device }
    } else if offset == REG_INTERRUPT_ACK {
        VirtioBlockMmio { interrupt_status: device.interrupt_status & !value, ..device }
    } else if offset == REG_QUEUE_NUM {
        VirtioBlockMmio { queue_size: (value % 0x1_0000) as u16, ..device }
    } else if offset == REG_QUEUE_READY {
        VirtioBlockMmio { queue_ready: value, ..device }
    } else if offset == REG_QUEUE_DESC_LOW {
        VirtioBlockMmio { queue_desc: low_replaced(device.queue_desc, value), ..device }
    } else if offset == REG_QUEUE_DESC_HIGH {
        VirtioBlockMmio { queue_desc: high_replaced(device.queue_desc, value), ..device }
    } else if offset == REG_QUEUE_AVAIL_LOW {
        VirtioBlockMmio { queue_avail: low_replaced(device.queue_avail, value), ..device }
    } else if offset == REG_QUEUE_AVAIL_HIGH {
        VirtioBlockMmio { queue_avail: high_replaced(device.queue_avail, value), ..device }
    } else if offset == REG_QUEUE_USED_LOW {
        VirtioBlockMmio { queue_used: low_replaced(device.queue_used, value), ..device }
    } else if offset == REG_QUEUE_USED_HIGH {
        VirtioBlockMmio { queue_used: high_replaced(device.queue_used, value), ..device }
    } else {
        device
    }
}

impl VirtioBlockMmio {
    /// The `DeviceFeatures` value for the currently selected feature word.
    pub fn device_features(&self) -> (features: u32)
        ensures
            features == register_value(*self, REG_DEVICE_FEATURES, 0),
    {
        if self.device_features_sel == 1 {
            VIRTIO_F_VERSION_1_WORD1
        } else {
            0
        }
    }

    /// Serves a guest read of the register at `offset`. `capacity` is the size of
    /// the disk, in sectors, at the time of the read.
    pub fn mmio_read(&self, offset: u64, capacity: u64, data: &mut [u8])
        ensures
            final(data)@ == register_bytes(old(data)@, register_value(*self, offset, capacity)),
    {
        let value: u32 = if offset == REG_MAGIC {
            VIRTIO_MMIO_MAGIC
        } else if offset == REG_VERSION {
            VIRTIO_MMIO_VERSION
        } else if offset == REG_DEVICE_ID {
            VIRTIO_ID_BLOCK
        } else if offset == REG_VENDOR_ID {
            VIRTIO_VENDOR_ID
        } else if offset == REG_DEVICE_FEATURES {
            self.device_features()
        } else if offset == REG_QUEUE_NUM_MAX {
            QUEUE_SIZE_MAX
        } else if offset == REG_QUEUE_READY {
            self.queue_ready
        } else if offset == REG_INTERRUPT_STATUS {
            self.interrupt_status
        } else if offset == REG_STATUS {
            self.status
        } else if offset == REG_CONFIG_CAPACITY_LOW {
            (capacity % 0x1_0000_0000) as u32
        } else if offset == REG_CONFIG_CAPACITY_HIGH {
            (capacity / 0x1_0000_0000) as u32
        } else {
            0
        };
        write_u32_le(data, value);
    }

    /// Serves a guest write of the register at `offset`. A write to `QueueNotify`
    /// starts the queue, and its first action is returned.
    pub fn mmio_write(&mut self, offset: u64, data: &[u8], guest_memory: &mut GuestMemoryMmap) -> (action:
        Option<QueueAction>)
        ensures
            action is Some <==> offset == 0x050,
            offset != REG_QUEUE_NOTIFY ==> action is None && *final(self) == register_written(
                *old(self),
                offset,
                register_number(data@) as u32,
            ) && guest_bytes(*final(guest_memory)) == guest_bytes(*old(guest_memory)),
            offset == REG_QUEUE_NOTIFY ==> ({
                let outcome = queue_started(*old(self), guest_bytes(*old(guest_memory)));
                &&& *final(self) == outcome.device
                &&& guest_bytes(*final(guest_memory)) == outcome.bytes
                &&& action is Some
                &&& action->Some_0@ == outcome.action
            }),
    {
        let value: u32 = read_u32_le(data);
        if offset == REG_QUEUE_NOTIFY {
            return Some(self.process_virtqueue(guest_memory));
        }
        if offset == REG_DEVICE_FEATURES_SEL {
            self.device_features_sel = value;
        } else if offset == REG_STATUS {
            self.status = value;
        } else if offset == REG_INTERRUPT_ACK {
            self.interrupt_status = self.interrupt_status & !value;
        } else if offset == REG_QUEUE_NUM {
            self.queue_size = (value % 0x1_0000) as u16;
        } else if offset == REG_QUEUE_READY {
            self.queue_ready = value;
        } else if offset == REG_QUEUE_DESC_LOW {
            write_low(&mut self.queue_desc, value);
        } else if offset == REG_QUEUE_DESC_HIGH {
            write_high(&mut self.queue_desc, value);
        } else if offset == REG_QUEUE_AVAIL_LOW {
            write_low(&mut self.queue_avail, value);
        } else if offset == REG_QUEUE_AVAIL_HIGH {
            write_high(&mut self.queue_avail, value);
        } else if offset == REG_QUEUE_USED_LOW {
            write_low(&mut self.queue_used, value);
        } else if offset == REG_QUEUE_USED_HIGH {
            write_high(&mut self.queue_used, value);
        }
        None
    }
}

/// The register codec round-trips: a `u32` written into a buffer of four bytes or
/// more reads back unchanged.
pub proof fn law_register_codec_round_trips(buffer: Seq<u8>, value: u32)
    requires
        buffer.len() >= 4,
    ensures
        register_number(register_bytes(buffer, value)) == value,
{
    lemma_le_bytes_len(value as nat, 4);
    lemma_byte_ranges();
    lemma_le_round_trip(value as nat, 4);
    assert(register_bytes(buffer, value).take(4) =~= le_bytes(value as nat, 4));
}

/// Setting both halves of a queue address, in either order, sets the address.
pub proof fn law_queue_address_halves(target: u64, low: u32, high: u32)
    ensures
        high_replaced(low_replaced(target, low), high) == high * 0x1_0000_0000 + low,
        low_replaced(high_replaced(target, high), low) == high * 0x1_0000_0000 + low,
{
}

/// The bytes that completing a request may change: the status byte, the request's
/// used-ring entry and the used-ring index.
pub open spec fn completion_area(device: VirtioBlockMmio, status_addr: u64, a: int) -> bool {
    let id_addr = device.queue_used + 4 + slot_of(device.used_idx, device.queue_size) * 8;
    ||| a == status_addr
    ||| id_addr <= a < id_addr + 8
    ||| device.queue_used + 2 <= a < device.queue_used + 4
}

/// Completing a request never changes which addresses are backed, nor any byte
/// outside the request's status byte, its used-ring entry and the used-ring index.
pub proof fn law_completion_is_confined(
    device: VirtioBlockMmio,
    bytes: Map<int, u8>,
    avail_idx: u16,
    head: u16,
    status_addr: u64,
    status: u8,
    used_len: u32,
)
    ensures
        ({
            let after = completed(device, bytes, avail_idx, head, status_addr, status, used_len).bytes;
            &&& after.dom() =~= bytes.dom()
            &&& forall|a: int|
                bytes.contains_key(a) && !completion_area(device, status_addr, a)
                    ==> #[trigger] after[a] == bytes[a]
        }),
{
    lemma_le_bytes_len(head as nat, 4);
    lemma_le_bytes_len(used_len as nat, 4);
    lemma_le_bytes_len(((device.used_idx + 1) % 0x1_0000) as nat, 2);
}

/// Whenever guest memory backs the status byte and the used ring, a request is
/// completed: its status stands in guest memory, its used-ring entry names it and
/// the length it was given, the used index has advanced by one and the interrupt
/// is due.
pub proof fn law_request_is_always_completed(
    device: VirtioBlockMmio,
    bytes: Map<int, u8>,
    avail_idx: u16,
    head: u16,
    status_addr: u64,
    status: u8,
    used_len: u32,
)
    requires
        backed(bytes, status_addr as int, 1),
        backed(
            bytes,
            device.queue_used as int,
            12 + slot_of(device.used_idx, device.queue_size) * 8,
        ),
        device.queue_used + 12 + slot_of(device.used_idx, device.queue_size) * 8 <= u64::MAX,
        !(device.queue_used <= status_addr < device.queue_used + 12 + slot_of(
            device.used_idx,
            device.queue_size,
        ) * 8),
    ensures
        ({
            let outcome = completed(device, bytes, avail_idx, head, status_addr, status, used_len);
            let id_addr = device.queue_used + 4 + slot_of(device.used_idx, device.queue_size) * 8;
            let used_idx = ((device.used_idx + 1) % 0x1_0000) as u16;
            &&& outcome.action is RaiseInterrupt
            &&& outcome.device.used_idx == used_idx
            &&& outcome.device.interrupt_status == device.interrupt_status | 1
            &&& outcome.bytes[status_addr as int] == status
            &&& loaded(outcome.bytes, id_addr, 4) == Some(head as nat)
            &&& loaded(outcome.bytes, id_addr + 4, 4) == Some(used_len as nat)
            &&& loaded(outcome.bytes, device.queue_used + 2, 2) == Some(used_idx as nat)
        }),
{
    let slot = slot_of(device.used_idx, device.queue_size);
    let id_addr = device.queue_used + 4 + slot * 8;
    let used_idx = ((device.used_idx + 1) % 0x1_0000) as u16;
    let id_bytes = le_bytes(head as nat, 4);
    let len_bytes = le_bytes(used_len as nat, 4);
    let idx_bytes = le_bytes(used_idx as nat, 2);
    lemma_byte_ranges();
    lemma_le_bytes_len(head as nat, 4);
    lemma_le_bytes_len(used_len as nat, 4);
    lemma_le_bytes_len(used_idx as nat, 2);
    lemma_le_round_trip(head as nat, 4);
    lemma_le_round_trip(used_len as nat, 4);
    lemma_le_round_trip(used_idx as nat, 2);
    assert(slot >= 0);
    let with_status = written(bytes, status_addr as int, seq![status]);
    lemma_read_back(bytes, status_addr as int, seq![status]);
    lemma_write_elsewhere(bytes, status_addr as int, seq![status]);
    assert(bytes_at(with_status, status_addr as int, 1)[0] == status);
    assert(backed(with_status, id_addr, 4)) by {
        assert forall|a: int| id_addr <= a < id_addr + 4 implies with_status.contains_key(a) by {
            assert(bytes.contains_key(a));
        }
    }
    let with_id = written(with_status, id_addr, id_bytes);
    lemma_read_back(with_status, id_addr, id_bytes);
    lemma_write_elsewhere(with_status, id_addr, id_bytes);
    assert(backed(with_id, id_addr + 4, 4)) by {
        assert forall|a: int| id_addr + 4 <= a < id_addr + 8 implies with_id.contains_key(a) by {
            assert(bytes.contains_key(a));
        }
    }
    let with_len = written(with_id, id_addr + 4, len_bytes);
    lemma_read_back(with_id, id_addr + 4, len_bytes);
    lemma_write_elsewhere(with_id, id_addr + 4, len_bytes);
    let idx_addr = device.queue_used + 2;
    assert(backed(with_len, idx_addr, 2)) by {
        assert forall|a: int| idx_addr <= a < idx_addr + 2 implies with_len.contains_key(a) by {
            assert(bytes.contains_key(a));
        }
    }
    let with_idx = written(with_len, idx_addr, idx_bytes);
    lemma_read_back(with_len, idx_addr, idx_bytes);
    lemma_write_elsewhere(with_len, idx_addr, idx_bytes);
    assert(bytes_at(with_idx, id_addr, 4) =~= bytes_at(with_id, id_addr, 4)) by {
        assert forall|i: int| 0 <= i < 4 implies #[trigger] with_idx[id_addr + i] == with_id[id_addr + i] by {
            assert(bytes.contains_key(id_addr + i));
            assert(with_len[id_addr + i] == with_id[id_addr + i]);
        }
    }
    assert(bytes_at(with_idx, id_addr + 4, 4) =~= bytes_at(with_len, id_addr + 4, 4)) by {
        assert forall|i: int| 0 <= i < 4 implies #[trigger] with_idx[id_addr + 4 + i] == with_len[id_addr + 4 + i] by {
            assert(bytes.contains_key(id_addr + 4 + i));
        }
    }
    assert(with_idx[status_addr as int] == status) by {
        assert(bytes.contains_key(status_addr as int));
        assert(with_id[status_addr as int] == with_status[status_addr as int]);
        assert(with_len[status_addr as int] == with_id[status_addr as int]);
    }
    assert(backed(with_idx, id_addr, 4));
    assert(backed(with_idx, id_addr + 4, 4));
}

/// A read request that the disk answers brings the disk's bytes into the guest's
/// buffer, wherever that buffer keeps clear of the status byte and the used ring.
pub proof fn law_read_delivers_the_disk_data(
    device: VirtioBlockMmio,
    bytes: Map<int, u8>,
    data: Seq<u8>,
)
    requires
        device.queue_state matches QueueState::AwaitDisk { status_addr, use_of, .. } && use_of matches DiskUse::Read {
            dest,
            len,
        } && data.len() == len && backed(bytes, dest as int, len as int) && forall|a: int|
            dest <= a < dest + len ==> !#[trigger] completion_area(device, status_addr, a),
    ensures
        device.queue_state matches QueueState::AwaitDisk { use_of, .. } && use_of matches DiskUse::Read {
            dest,
            len,
        } && bytes_at(answer_taken(device, bytes, ReplyModel::Data(data)).bytes, dest as int, len as nat)
            =~= data,
{
    match device.queue_state {
        QueueState::AwaitDisk { avail_idx, head, status_addr, use_of } => match use_of {
            DiskUse::Read { dest, len } => {
                let with_data = written(bytes, dest as int, data);
                lemma_read_back(bytes, dest as int, data);
                law_completion_is_confined(
                    device,
                    with_data,
                    avail_idx,
                    head,
                    status_addr,
                    VIRTIO_BLK_S_OK,
                    data.len() as u32,
                );
                let after = answer_taken(device, bytes, ReplyModel::Data(data)).bytes;
                assert forall|i: int| 0 <= i < len implies #[trigger] after[dest + i] == data[i] by {
                    assert(!completion_area(device, status_addr, dest + i));
                    assert(with_data.contains_key(dest + i));
                    assert(bytes_at(with_data, dest as int, data.len())[i] == data[i]);
                }
            },
            _ => {},
        },
        _ => {},
    }
}

/// A write request asks the disk to store exactly the bytes of the guest's buffer,
/// at the request's sector, and leaves guest memory alone until the disk answers.
pub proof fn law_write_takes_the_guest_data(
    device: VirtioBlockMmio,
    bytes: Map<int, u8>,
    avail_idx: u16,
    head: u16,
    request: BlockRequest,
    data: VirtqDesc,
)
    requires
        request_at(bytes, device.queue_desc, device.queue_size, head) == Ok::<BlockRequest, BlockFailure>(
            request,
        ),
        request.request_type == VIRTIO_BLK_T_OUT,
        request.data == Some(data),
        data.len <= MAX_REQUEST_BYTES,
        request.sector * SECTOR_SIZE <= u64::MAX,
        backed(bytes, data.addr as int, data.len as int),
    ensures
        request_taken(device, bytes, avail_idx, head).action == (ActionModel::WriteDisk {
            offset: (request.sector * SECTOR_SIZE) as u64,
            data: bytes_at(bytes, data.addr as int, data.len as nat),
        }),
        request_taken(device, bytes, avail_idx, head).bytes == bytes,
{
    reveal(request_taken);
}

/// Whatever the disk answers to a request that waits for it, the request ends in
/// one and the same way: completed with a status, or stopped because guest memory
/// does not back what completing it takes. No answer leaves it waiting.
pub proof fn law_no_answer_leaves_a_request_waiting(
    device: VirtioBlockMmio,
    bytes: Map<int, u8>,
    reply: ReplyModel,
)
    requires
        device.queue_state is AwaitDisk,
    ensures
        ({
            let outcome = answer_taken(device, bytes, reply);
            ||| outcome.action is RaiseInterrupt && outcome.device.queue_state is AwaitInterrupt
            ||| outcome.action is Failed && outcome.device.queue_state is Idle
        }),
{
}

/// How many published requests the device has yet to consume.
pub open spec fn requests_left(device: VirtioBlockMmio, avail_idx: u16) -> int {
    (avail_idx - device.last_avail_idx) % 0x1_0000
}

proof fn lemma_request_keeps_its_place(device: VirtioBlockMmio, bytes: Map<int, u8>, avail_idx: u16, head: u16)
    ensures
        request_taken(device, bytes, avail_idx, head).device.last_avail_idx == device.last_avail_idx,
{
    reveal(request_taken);
}

/// The queue comes to an end: each interrupt that is raised brings the device one
/// request closer to the driver's index, and at the index it is finished.
pub proof fn law_queue_comes_to_an_end(device: VirtioBlockMmio, bytes: Map<int, u8>, avail_idx: u16)
    requires
        device.queue_state == (QueueState::AwaitInterrupt { avail_idx }),
        device.last_avail_idx != avail_idx,
    ensures
        ({
            let outcome = interrupt_reported(device, bytes, Ok(()));
            &&& requests_left(outcome.device, avail_idx) == requests_left(device, avail_idx) - 1
            &&& requests_left(outcome.device, avail_idx) == 0 ==> outcome.action is Finished
        }),
{
    let next = VirtioBlockMmio {
        last_avail_idx: ((device.last_avail_idx + 1) % 0x1_0000) as u16,
        ..device
    };
    let entry_addr = next.queue_avail + 4 + slot_of(next.last_avail_idx, next.queue_size) * 2;
    if let Some(head) = loaded(bytes, entry_addr, 2) {
        lemma_request_keeps_its_place(next, bytes, avail_idx, head as u16);
    }
}

/// A chain whose second descriptor links to itself is refused, whatever the size
/// of the queue.
pub proof fn law_self_linked_chain_is_refused(
    bytes: Map<int, u8>,
    table: u64,
    queue_size: u16,
    current: VirtqDesc,
    data: Option<VirtqDesc>,
    steps: int,
)
    requires
        current.flags & VIRTQ_DESC_F_NEXT != 0,
        descriptor_at(bytes, table, current.next) == Ok::<VirtqDesc, BlockFailure>(current),
    ensures
        chain_from(bytes, table, queue_size, current, data, steps) == Err::<
            (Option<VirtqDesc>, VirtqDesc),
            BlockFailure,
        >(BlockFailure::ChainTooLong),
    decreases queue_size - steps,
{
    if steps + 1 < queue_size {
        law_self_linked_chain_is_refused(bytes, table, queue_size, current, Some(current), steps + 1);
    }
}

proof fn lemma_loaded_fits(bytes: Map<int, u8>, addr: int, n: nat)
    ensures
        loaded(bytes, addr, n) matches Some(value) ==> value < byte_range(n),
{
    lemma_le_bytes_of_value(bytes_at(bytes, addr, n));
}

/// A descriptor is the four little-endian numbers at its place in the table, where each
/// descriptor takes sixteen bytes: an address, a length, flags and the index of the next.
/// It can be read exactly if guest memory backs all of them.
pub proof fn law_descriptor_layout(bytes: Map<int, u8>, table: u64, index: u16)
    ensures
        descriptor_at(bytes, table, index) is Ok <==> table + 16 * index + 14 <= u64::MAX && backed(
            bytes,
            table + 16 * index,
            16,
        ),
        descriptor_at(bytes, table, index) matches Ok(desc) ==> {
            &&& loaded(bytes, table + 16 * index, 8) == Some(desc.addr as nat)
            &&& loaded(bytes, table + 16 * index + 8, 4) == Some(desc.len as nat)
            &&& loaded(bytes, table + 16 * index + 12, 2) == Some(desc.flags as nat)
            &&& loaded(bytes, table + 16 * index + 14, 2) == Some(desc.next as nat)
        },
{
    let base = table + 16 * index;
    lemma_byte_ranges();
    lemma_loaded_fits(bytes, base, 8);
    lemma_loaded_fits(bytes, base + 8, 4);
    lemma_loaded_fits(bytes, base + 12, 2);
    lemma_loaded_fits(bytes, base + 14, 2);
    if backed(bytes, base, 8) && backed(bytes, base + 8, 4) && backed(bytes, base + 12, 2) && backed(
        bytes,
        base + 14,
        2,
    ) {
        assert forall|a: int| base <= a < base + 16 implies #[trigger] bytes.contains_key(a) by {}
        assert(backed(bytes, base, 16));
    }
}

/// The descriptors of `chain` follow each other in the table, and the last one ends the
/// chain.
pub open spec fn linked(bytes: Map<int, u8>, table: u64, chain: Seq<VirtqDesc>) -> bool {
    &&& chain.len() > 0
    &&& chain.last().flags & 1 == 0
    &&& forall|i: int|
        0 <= i < chain.len() - 1 ==> (#[trigger] chain[i]).flags & 1 != 0 && descriptor_at(
            bytes,
            table,
            chain[i].next,
        ) == Ok::<VirtqDesc, BlockFailure>(chain[i + 1])
}

proof fn lemma_chain_is_followed(
    bytes: Map<int, u8>,
    table: u64,
    queue_size: u16,
    chain: Seq<VirtqDesc>,
    data: Option<VirtqDesc>,
    steps: int,
)
    requires
        linked(bytes, table, chain),
        chain.len() == 1 || steps + chain.len() <= queue_size,
    ensures
        chain_from(bytes, table, queue_size, chain[0], data, steps) == Ok::<
            (Option<VirtqDesc>, VirtqDesc),
            BlockFailure,
        >(
            (
                if chain.len() == 1 {
                    data
                } else {
                    Some(chain[chain.len() - 2])
                },
                chain.last(),
            ),
        ),
    decreases chain.len(),
{
    if chain.len() > 1 {
        let rest = chain.drop_first();
        assert(chain[0].flags & 1 != 0);
        assert(rest.last() == chain.last());
        assert forall|i: int| 0 <= i < rest.len() - 1 implies (#[trigger] rest[i]).flags & 1 != 0 && descriptor_at(
            bytes,
            table,
            rest[i].next,
        ) == Ok::<VirtqDesc, BlockFailure>(rest[i + 1]) by {
            assert(rest[i] == chain[i + 1]);
            assert(chain[i + 1].flags & 1 != 0);
        }
        lemma_chain_is_followed(bytes, table, queue_size, rest, Some(chain[0]), steps + 1);
        if rest.len() > 1 {
            assert(rest[rest.len() - 2] == chain[chain.len() - 2]);
        }
    }
}

/// A request is what its chain of descriptors says: the first points to the type and, at
/// offset 8, the sector; the last is where the status goes; and the one before the last,
/// if that is not the first, is the data buffer.
pub proof fn law_request_follows_its_chain(
    bytes: Map<int, u8>,
    table: u64,
    queue_size: u16,
    head: u16,
    header: VirtqDesc,
    rest: Seq<VirtqDesc>,
    request_type: u32,
    sector: u64,
)
    requires
        descriptor_at(bytes, table, head) == Ok::<VirtqDesc, BlockFailure>(header),
        header.addr + 8 <= u64::MAX,
        loaded(bytes, header.addr as int, 4) == Some(request_type as nat),
        loaded(bytes, header.addr + 8, 8) == Some(sector as nat),
        header.flags & 1 != 0,
        linked(bytes, table, rest),
        descriptor_at(bytes, table, header.next) == Ok::<VirtqDesc, BlockFailure>(rest[0]),
        rest.len() == 1 || rest.len() <= queue_size,
    ensures
        request_at(bytes, table, queue_size, head) == Ok::<BlockRequest, BlockFailure>(
            BlockRequest {
                request_type,
                sector,
                data: if rest.len() == 1 {
                    None
                } else {
                    Some(rest[rest.len() - 2])
                },
                status_addr: rest.last().addr,
            },
        ),
{
    lemma_chain_is_followed(bytes, table, queue_size, rest, None, 0);
}

/// A chain that goes on beyond the size of the queue is refused, wherever it leads.
pub proof fn law_long_chain_is_refused(
    bytes: Map<int, u8>,
    table: u64,
    queue_size: u16,
    chain: Seq<VirtqDesc>,
    data: Option<VirtqDesc>,
    steps: int,
)
    requires
        chain.len() >= 2,
        steps + chain.len() > queue_size,
        forall|i: int|
            0 <= i < chain.len() - 1 ==> (#[trigger] chain[i]).flags & 1 != 0 && descriptor_at(
                bytes,
                table,
                chain[i].next,
            ) == Ok::<VirtqDesc, BlockFailure>(chain[i + 1]),
    ensures
        chain_from(bytes, table, queue_size, chain[0], data, steps) == Err::<
            (Option<VirtqDesc>, VirtqDesc),
            BlockFailure,
        >(BlockFailure::ChainTooLong),
    decreases chain.len(),
{
    assert(chain[0].flags & 1 != 0);
    if steps + 1 < queue_size {
        let rest = chain.drop_first();
        assert forall|i: int| 0 <= i < rest.len() - 1 implies (#[trigger] rest[i]).flags & 1 != 0 && descriptor_at(
            bytes,
            table,
            rest[i].next,
        ) == Ok::<VirtqDesc, BlockFailure>(rest[i + 1]) by {
            assert(rest[i] == chain[i + 1]);
            assert(chain[i + 1].flags & 1 != 0);
        }
        law_long_chain_is_refused(bytes, table, queue_size, rest, Some(chain[0]), steps + 1);
    }
}

/// A request whose header ends its chain has nowhere to put a status, and is refused.
pub proof fn law_request_needs_a_status(
    bytes: Map<int, u8>,
    table: u64,
    queue_size: u16,
    head: u16,
    header: VirtqDesc,
)
    requires
        descriptor_at(bytes, table, head) == Ok::<VirtqDesc, BlockFailure>(header),
        header.addr + 8 <= u64::MAX,
        loaded(bytes, header.addr as int, 4) is Some,
        loaded(bytes, header.addr + 8, 8) is Some,
        header.flags & 1 == 0,
    ensures
        request_at(bytes, table, queue_size, head) == Err::<BlockRequest, BlockFailure>(
            BlockFailure::NoStatusDescriptor,
        ),
{
}

/// A read request asks the disk for as many bytes as its buffer holds, from 512 times its
/// sector on, and waits for them; its buffer is where they will go. Guest memory stays as
/// it is meanwhile. A buffer that the device may not write, one of more than a mebibyte,
/// and a sector beyond 64 bits of offset are answered with an I/O error at once.
pub proof fn law_read_asks_for_its_sector(
    device: VirtioBlockMmio,
    bytes: Map<int, u8>,
    avail_idx: u16,
    head: u16,
    request: BlockRequest,
    data: VirtqDesc,
)
    requires
        request_at(bytes, device.queue_desc, device.queue_size, head) == Ok::<BlockRequest, BlockFailure>(
            request,
        ),
        request.request_type == 0,
        request.data == Some(data),
    ensures
        ({
            let outcome = request_taken(device, bytes, avail_idx, head);
            if data.flags & 2 != 0 && data.len <= 0x10_0000 && request.sector * 512 <= u64::MAX {
                &&& outcome.action matches ActionModel::ReadDisk { offset, len } && offset == request.sector * 512
                    && len == data.len
                &&& outcome.bytes == bytes
                &&& outcome.device == (VirtioBlockMmio {
                    queue_state: QueueState::AwaitDisk {
                        avail_idx,
                        head,
                        status_addr: request.status_addr,
                        use_of: DiskUse::Read { dest: data.addr, len: data.len },
                    },
                    ..device
                })
            } else {
                outcome == completed(device, bytes, avail_idx, head, request.status_addr, 1, 0)
            }
        }),
{
    reveal(request_taken);
}

/// A write request waits for the disk to store its data; one of more than a mebibyte, one
/// whose sector lies beyond 64 bits of offset, and one whose buffer guest memory does not
/// back are answered with an I/O error at once.
pub proof fn law_write_waits_or_is_refused(
    device: VirtioBlockMmio,
    bytes: Map<int, u8>,
    avail_idx: u16,
    head: u16,
    request: BlockRequest,
    data: VirtqDesc,
)
    requires
        request_at(bytes, device.queue_desc, device.queue_size, head) == Ok::<BlockRequest, BlockFailure>(
            request,
        ),
        request.request_type == 1,
        request.data == Some(data),
    ensures
        ({
            let outcome = request_taken(device, bytes, avail_idx, head);
            if data.len <= 0x10_0000 && request.sector * 512 <= u64::MAX && backed(
                bytes,
                data.addr as int,
                data.len as int,
            ) {
                &&& outcome.action matches ActionModel::WriteDisk { offset, data: stored } && offset
                    == request.sector * 512 && stored == bytes_at(bytes, data.addr as int, data.len as nat)
                &&& outcome.bytes == bytes
                &&& outcome.device == (VirtioBlockMmio {
                    queue_state: QueueState::AwaitDisk {
                        avail_idx,
                        head,
                        status_addr: request.status_addr,
                        use_of: DiskUse::Write,
                    },
                    ..device
                })
            } else {
                outcome == completed(device, bytes, avail_idx, head, request.status_addr, 1, 0)
            }
        }),
{
    reveal(request_taken);
}

/// Reads and writes agree on where a sector lies: a read asks the disk for the very place
/// that a write to the same sector filled, and for places that keep the distance of their
/// sectors otherwise.
pub proof fn law_reads_and_writes_agree(
    writer: VirtioBlockMmio,
    written_from: Map<int, u8>,
    write_head: u16,
    write: BlockRequest,
    source: VirtqDesc,
    reader: VirtioBlockMmio,
    read_into: Map<int, u8>,
    read_head: u16,
    read: BlockRequest,
    target: VirtqDesc,
    avail_idx: u16,
)
    requires
        request_at(written_from, writer.queue_desc, writer.queue_size, write_head) == Ok::<
            BlockRequest,
            BlockFailure,
        >(write),
        write.request_type == VIRTIO_BLK_T_OUT,
        write.data == Some(source),
        request_taken(writer, written_from, avail_idx, write_head).action is WriteDisk,
        request_at(read_into, reader.queue_desc, reader.queue_size, read_head) == Ok::<
            BlockRequest,
            BlockFailure,
        >(read),
        read.request_type == VIRTIO_BLK_T_IN,
        read.data == Some(target),
        request_taken(reader, read_into, avail_idx, read_head).action is ReadDisk,
    ensures
        ({
            let stored = request_taken(writer, written_from, avail_idx, write_head).action;
            let asked = request_taken(reader, read_into, avail_idx, read_head).action;
            asked->ReadDisk_offset - stored->WriteDisk_offset == 512 * (read.sector - write.sector)
        }),
{
    reveal(request_taken);
}

/// Every other request: a read, a write or an identity query without a data buffer is an
/// I/O error, a flush is handed to the disk, and a type that is none of these is not
/// supported. An identity query gets as much of the identity as its buffer holds.
pub proof fn law_other_requests(
    device: VirtioBlockMmio,
    bytes: Map<int, u8>,
    avail_idx: u16,
    head: u16,
    request: BlockRequest,
)
    requires
        request_at(bytes, device.queue_desc, device.queue_size, head) == Ok::<BlockRequest, BlockFailure>(
            request,
        ),
    ensures
        ({
            let outcome = request_taken(device, bytes, avail_idx, head);
            let kind = request.request_type;
            &&& (kind == 0 || kind == 1 || kind == 8) && request.data is None ==> outcome == completed(
                device,
                bytes,
                avail_idx,
                head,
                request.status_addr,
                1,
                0,
            )
            &&& kind == 4 ==> outcome.action is FlushDisk && outcome.bytes == bytes && outcome.device == (
            VirtioBlockMmio {
                queue_state: QueueState::AwaitDisk {
                    avail_idx,
                    head,
                    status_addr: request.status_addr,
                    use_of: DiskUse::Flush,
                },
                ..device
            })
            &&& kind == 8 && request.data is Some ==> exists|part: Seq<u8>|
                #[trigger] part.is_prefix_of(identity()) && (part.len() == request.data->Some_0.len || (part
                    == identity() && request.data->Some_0.len > part.len())) && outcome == delivered(
                    device,
                    bytes,
                    avail_idx,
                    head,
                    request.status_addr,
                    request.data->Some_0.addr,
                    part,
                )
            &&& kind != 0 && kind != 1 && kind != 4 && kind != 8 ==> outcome == completed(
                device,
                bytes,
                avail_idx,
                head,
                request.status_addr,
                2,
                0,
            )
        }),
{
    reveal(request_taken);
    if request.request_type == 8 && request.data is Some {
        let data = request.data->Some_0;
        let count = if data.len < 17 {
            data.len as int
        } else {
            17
        };
        let part = identity().take(count);
        assert(part.is_prefix_of(identity()));
        if count == 17 {
            assert(part =~= identity());
        }
        assert(request_taken(device, bytes, avail_idx, head) == delivered(
            device,
            bytes,
            avail_idx,
            head,
            request.status_addr,
            data.addr,
            part,
        ));
    }
}

/// The identity is the ASCII text of the device's name.
pub proof fn law_identity_is_the_device_name()
    ensures
        identity().len() == "ai-vmm-virtio-blk"@.len(),
        forall|i: int| 0 <= i < identity().len() ==> #[trigger] identity()[i] as char == "ai-vmm-virtio-blk"@[i],
{
    reveal_strlit("ai-vmm-virtio-blk");
}

/// The disk's answer decides how a request ends: the data that was asked for goes to the
/// guest, and the request succeeds with its length; a write or a flush that went through
/// succeeds with none; a failure, or anything else, is an I/O error.
pub proof fn law_disk_answer_decides(
    device: VirtioBlockMmio,
    bytes: Map<int, u8>,
    reply: ReplyModel,
    avail_idx: u16,
    head: u16,
    status_addr: u64,
    use_of: DiskUse,
)
    requires
        device.queue_state == (QueueState::AwaitDisk { avail_idx, head, status_addr, use_of }),
    ensures
        ({
            let outcome = answer_taken(device, bytes, reply);
            let ended = |memory: Map<int, u8>, status: u8, len: u32|
                completed(device, memory, avail_idx, head, status_addr, status, len);
            &&& reply is Failed ==> outcome == ended(bytes, 1, 0)
            &&& use_of is Write || use_of is Flush ==> outcome == ended(
                bytes,
                if reply is Done {
                    0
                } else {
                    1
                },
                0,
            )
            &&& use_of matches DiskUse::Read { dest, len } ==> match reply {
                ReplyModel::Data(data) => if data.len() != len {
                    outcome == ended(bytes, 1, 0)
                } else if backed(bytes, dest as int, len as int) {
                    outcome == ended(written(bytes, dest as int, data), 0, len)
                } else {
                    outcome == ended(written(bytes, dest as int, data), 1, 0)
                },
                _ => outcome == ended(bytes, 1, 0),
            }
        }),
{
}

/// What is delivered to the guest is written to its buffer, and the request succeeds with
/// its length exactly if guest memory takes all of it.
pub proof fn law_delivery_needs_the_whole_buffer(
    device: VirtioBlockMmio,
    bytes: Map<int, u8>,
    avail_idx: u16,
    head: u16,
    status_addr: u64,
    dest: u64,
    data: Seq<u8>,
)
    requires
        data.len() <= u32::MAX,
    ensures
        backed(bytes, dest as int, data.len() as int) ==> delivered(
            device,
            bytes,
            avail_idx,
            head,
            status_addr,
            dest,
            data,
        ) == completed(
            device,
            written(bytes, dest as int, data),
            avail_idx,
            head,
            status_addr,
            0,
            data.len() as u32,
        ),
        !backed(bytes, dest as int, data.len() as int) ==> delivered(
            device,
            bytes,
            avail_idx,
            head,
            status_addr,
            dest,
            data,
        ) == completed(
            device,
            written(bytes, dest as int, data),
            avail_idx,
            head,
            status_addr,
            1,
            0,
        ),
{
}

/// Completing a request either raises the interrupt or fails with the queue idle and no
/// interrupt pending that was not pending before; the registers that the driver set stay
/// as they are.
pub proof fn law_completion_keeps_the_registers(
    device: VirtioBlockMmio,
    bytes: Map<int, u8>,
    avail_idx: u16,
    head: u16,
    status_addr: u64,
    status: u8,
    used_len: u32,
)
    ensures
        ({
            let outcome = completed(device, bytes, avail_idx, head, status_addr, status, used_len);
            let after = outcome.device;
            &&& outcome.action is RaiseInterrupt && after.queue_state == (QueueState::AwaitInterrupt { avail_idx })
                || outcome.action is Failed && after.queue_state is Idle && after.interrupt_status
                == device.interrupt_status
            &&& after == (VirtioBlockMmio {
                interrupt_status: after.interrupt_status,
                used_idx: after.used_idx,
                queue_state: after.queue_state,
                ..device
            })
        }),
{
}

/// The next request is the one that the driver published: its index in the available ring
/// is two bytes in, its entries follow two bytes later, two bytes each, and the entry is
/// that of the next index modulo the size of the queue. Once the interrupt of a request
/// was raised, the one after it is next.
pub proof fn law_next_request_is_the_published_one(
    device: VirtioBlockMmio,
    bytes: Map<int, u8>,
    avail_idx: u16,
    head: u16,
)
    requires
        device.queue_size != 0,
        device.queue_avail + 4 + 2 * device.queue_size <= u64::MAX,
        device.last_avail_idx != avail_idx,
        loaded(
            bytes,
            device.queue_avail + 4 + 2 * (device.last_avail_idx as int % device.queue_size as int),
            2,
        ) == Some(head as nat),
    ensures
        queue_continued(device, bytes, avail_idx) == request_taken(device, bytes, avail_idx, head),
        device.queue_ready == 1 && device.queue_desc != 0 && loaded(bytes, device.queue_avail + 2, 2) == Some(
            avail_idx as nat,
        ) ==> queue_started(device, bytes) == request_taken(device, bytes, avail_idx, head),
        forall|before: VirtioBlockMmio|
            before.queue_state == (QueueState::AwaitInterrupt { avail_idx }) && device == (VirtioBlockMmio {
                last_avail_idx: device.last_avail_idx,
                ..before
            }) && (before.last_avail_idx + 1) % 0x1_0000 == device.last_avail_idx as int
                ==> #[trigger] interrupt_reported(before, bytes, Ok(())) == request_taken(
                device,
                bytes,
                avail_idx,
                head,
            ),
{
    assert(slot_of(device.last_avail_idx, device.queue_size) < device.queue_size);
}

/// A queue that the driver has not made ready, or in which nothing new is published, is
/// left alone.
pub proof fn law_nothing_published_nothing_done(device: VirtioBlockMmio, bytes: Map<int, u8>)
    requires
        device.queue_ready != 1 || device.queue_size == 0 || device.queue_desc == 0 || (device.queue_avail + 2
            <= u64::MAX && loaded(bytes, device.queue_avail + 2, 2) == Some(device.last_avail_idx as nat)),
    ensures
        queue_started(device, bytes).action is Finished,
        queue_started(device, bytes).bytes == bytes,
        queue_started(device, bytes).device == (VirtioBlockMmio { queue_state: QueueState::Idle, ..device }),
{
}

/// What the registers read as: the magic "virt", version 2, device 2, the vendor, the
/// feature bit of version 1 in word 1, a queue of at most eight, and, as two words, the
/// capacity; a place without a register reads as zero.
pub proof fn law_registers_describe_the_device(device: VirtioBlockMmio, capacity: u64, offset: u64)
    ensures
        register_value(device, 0x000, capacity) == 0x7472_6976,
        register_value(device, 0x004, capacity) == 2,
        register_value(device, 0x008, capacity) == 2,
        register_value(device, 0x00c, capacity) == 0x1af4,
        device.device_features_sel == 1 ==> register_value(device, 0x010, capacity) == 1,
        device.device_features_sel != 1 ==> register_value(device, 0x010, capacity) == 0,
        register_value(device, 0x034, capacity) == 8,
        register_value(device, 0x044, capacity) == device.queue_ready,
        register_value(device, 0x060, capacity) == device.interrupt_status,
        register_value(device, 0x070, capacity) == device.status,
        register_value(device, 0x100, capacity) + 0x1_0000_0000 * register_value(device, 0x104, capacity)
            == capacity,
        offset != 0x000 && offset != 0x004 && offset != 0x008 && offset != 0x00c && offset != 0x010 && offset
            != 0x034 && offset != 0x044 && offset != 0x060 && offset != 0x070 && offset != 0x100 && offset
            != 0x104 ==> register_value(device, offset, capacity) == 0,
{
}

/// What the driver writes to a register takes effect there and nowhere else: the status
/// and the ready flag read back, an acknowledged interrupt is no longer pending while
/// others stay so, and a place without a register takes nothing.
pub proof fn law_register_writes_take_effect(
    device: VirtioBlockMmio,
    offset: u64,
    value: u32,
    capacity: u64,
)
    ensures
        register_written(device, 0x014, value) == (VirtioBlockMmio { device_features_sel: value, ..device }),
        register_written(device, 0x038, value) == (VirtioBlockMmio {
            queue_size: (value as int % 0x1_0000) as u16,
            ..device
        }),
        register_written(device, 0x044, value) == (VirtioBlockMmio { queue_ready: value, ..device }),
        register_value(register_written(device, 0x044, value), 0x044, capacity) == value,
        register_written(device, 0x070, value) == (VirtioBlockMmio { status: value, ..device }),
        register_value(register_written(device, 0x070, value), 0x070, capacity) == value,
        ({
            let pending = register_written(device, 0x064, value).interrupt_status;
            &&& pending & value == 0
            &&& pending | (device.interrupt_status & value) == device.interrupt_status
            &&& register_written(device, 0x064, value) == (VirtioBlockMmio { interrupt_status: pending, ..device })
        }),
        offset != 0x014 && offset != 0x038 && offset != 0x044 && offset != 0x064 && offset != 0x070 && offset
            != 0x080 && offset != 0x084 && offset != 0x090 && offset != 0x094 && offset != 0x0a0 && offset != 0x0a4
            ==> register_written(device, offset, value) == device,
{
    let pending = device.interrupt_status;
    assert((pending & !value) & value == 0) by (bit_vector);
    assert((pending & !value) | (pending & value) == pending) by (bit_vector);
}

/// The driver sets each of the three queue addresses by its two halves, in either order,
/// and nothing else by them.
pub proof fn law_queue_addresses_are_set_by_halves(device: VirtioBlockMmio, low: u32, high: u32)
    ensures
        ({
            let addr = (high * 0x1_0000_0000 + low) as u64;
            &&& register_written(register_written(device, 0x080, low), 0x084, high) == (VirtioBlockMmio {
                queue_desc: addr,
                ..device
            })
            &&& register_written(register_written(device, 0x084, high), 0x080, low) == (VirtioBlockMmio {
                queue_desc: addr,
                ..device
            })
            &&& register_written(register_written(device, 0x090, low), 0x094, high) == (VirtioBlockMmio {
                queue_avail: addr,
                ..device
            })
            &&& register_written(register_written(device, 0x094, high), 0x090, low) == (VirtioBlockMmio {
                queue_avail: addr,
                ..device
            })
            &&& register_written(register_written(device, 0x0a0, low), 0x0a4, high) == (VirtioBlockMmio {
                queue_used: addr,
                ..device
            })
            &&& register_written(register_written(device, 0x0a4, high), 0x0a0, low) == (VirtioBlockMmio {
                queue_used: addr,
                ..device
            })
        }),
{
    law_queue_address_halves(device.queue_desc, low, high);
    law_queue_address_halves(device.queue_avail, low, high);
    law_queue_address_halves(device.queue_used, low, high);
}

/// A register is served byte by byte, least significant first, into as much of the buffer
/// as there is, and nothing beyond its four bytes is touched.
pub proof fn law_register_bytes_are_little_endian(buffer: Seq<u8>, value: u32, i: int)
    requires
        0 <= i < buffer.len(),
    ensures
        register_bytes(buffer, value).len() == buffer.len(),
        i == 0 ==> register_bytes(buffer, value)[i] == value as nat % 256,
        i == 1 ==> register_bytes(buffer, value)[i] == value as nat / 0x100 % 256,
        i == 2 ==> register_bytes(buffer, value)[i] == value as nat / 0x1_0000 % 256,
        i == 3 ==> register_bytes(buffer, value)[i] == value as nat / 0x100_0000 % 256,
        i > 3 ==> register_bytes(buffer, value)[i] == buffer[i],
{
    crate::bytes::law_bytes_are_little_endian(value as nat, 4);
}

/// A register is written by its first four bytes, least significant first; bytes that are
/// missing count as zero, and any beyond the fourth do not count.
pub proof fn law_register_numbers_are_little_endian(buffer: Seq<u8>)
    ensures
        ({
            let byte = |i: int|
                if i < buffer.len() {
                    buffer[i] as int
                } else {
                    0
                };
            register_number(buffer) == byte(0) + 0x100 * byte(1) + 0x1_0000 * byte(2) + 0x100_0000 * byte(3)
        }),
{
    let count = if buffer.len() < 4 {
        buffer.len() as int
    } else {
        4
    };
    let part = buffer.take(count);
    reveal_with_fuel(le_value, 5);
    if count > 0 {
        let one = part.drop_first();
        if count > 1 {
            assert(one[0] == buffer[1]);
            let two = one.drop_first();
            if count > 2 {
                assert(two[0] == buffer[2]);
                let three = two.drop_first();
                if count > 3 {
                    assert(three[0] == buffer[3]);
                    assert(three.drop_first().len() == 0);
                }
            }
        }
    }
}

/// Whatever goes wrong, the queue is left idle and guest memory as it was: a request that
/// cannot be read, an available ring that cannot, and an interrupt that could not be
/// raised. An answer or a report that nothing waits for changes nothing at all.
pub proof fn law_failures_leave_the_queue_idle(
    device: VirtioBlockMmio,
    bytes: Map<int, u8>,
    avail_idx: u16,
    head: u16,
    reply: ReplyModel,
    reason: Seq<char>,
    raised: Result<(), Seq<char>>,
)
    ensures
        request_at(bytes, device.queue_desc, device.queue_size, head) matches Err(error) ==> request_taken(
            device,
            bytes,
            avail_idx,
            head,
        ) == (QueueOutcome {
            device: VirtioBlockMmio { queue_state: QueueState::Idle, ..device },
            bytes,
            action: ActionModel::Failed(error),
        }),
        device.queue_state is AwaitInterrupt ==> interrupt_reported(device, bytes, Err(reason)) == (QueueOutcome {
            device: VirtioBlockMmio { queue_state: QueueState::Idle, ..device },
            bytes,
            action: ActionModel::Failed(BlockFailure::Interrupt(reason)),
        }),
        device.queue_state !is AwaitDisk ==> answer_taken(device, bytes, reply) == (QueueOutcome {
            device,
            bytes,
            action: ActionModel::Finished,
        }),
        device.queue_state !is AwaitInterrupt ==> interrupt_reported(device, bytes, raised) == (QueueOutcome {
            device,
            bytes,
            action: ActionModel::Finished,
        }),
{
    reveal(request_taken);
}

/// An address of a descriptor or of the available ring that does not fit in 64 bits, or
/// that guest memory does not back, is reported as such.
pub proof fn law_unreadable_rings_are_reported(
    device: VirtioBlockMmio,
    bytes: Map<int, u8>,
    index: u16,
    avail_idx: u16,
)
    requires
        device.queue_ready == 1,
        device.queue_size != 0,
        device.queue_desc != 0,
        device.last_avail_idx != avail_idx,
    ensures
        device.queue_desc + 16 * index > u64::MAX ==> descriptor_at(bytes, device.queue_desc, index) == Err::<
            VirtqDesc,
            BlockFailure,
        >(BlockFailure::DescriptorOverflow),
        device.queue_desc + 16 * index <= u64::MAX && !backed(bytes, device.queue_desc + 16 * index, 8)
            ==> descriptor_at(bytes, device.queue_desc, index) == Err::<VirtqDesc, BlockFailure>(
            BlockFailure::GuestMemory(refusal(bytes, device.queue_desc + 16 * index, 8)),
        ),
        device.queue_avail + 2 > u64::MAX ==> queue_started(device, bytes).action == ActionModel::Failed(
            BlockFailure::AvailRingOverflow,
        ),
        device.queue_avail + 2 <= u64::MAX && !backed(bytes, device.queue_avail + 2, 2) ==> queue_started(
            device,
            bytes,
        ).action == ActionModel::Failed(
            BlockFailure::GuestMemory(refusal(bytes, device.queue_avail + 2, 2)),
        ),
        ({
            let entry = device.queue_avail + 4 + 2 * (device.last_avail_idx as int % device.queue_size as int);
            &&& entry > u64::MAX ==> queue_continued(device, bytes, avail_idx).action == ActionModel::Failed(
                BlockFailure::AvailRingOverflow,
            )
            &&& entry <= u64::MAX && !backed(bytes, entry, 2) ==> queue_continued(device, bytes, avail_idx).action
                == ActionModel::Failed(BlockFailure::GuestMemory(refusal(bytes, entry, 2)))
        }),
{
}

/// A request whose status byte has nowhere to go is not completed: the driver's used ring
/// is left as it was.
pub proof fn law_no_completion_without_a_status(
    device: VirtioBlockMmio,
    bytes: Map<int, u8>,
    avail_idx: u16,
    head: u16,
    status_addr: u64,
    status: u8,
    used_len: u32,
)
    requires
        !backed(bytes, status_addr as int, 1),
    ensures
        ({
            let outcome = completed(device, bytes, avail_idx, head, status_addr, status, used_len);
            &&& outcome.action == ActionModel::Failed(
                BlockFailure::GuestMemory(refusal(bytes, status_addr as int, 1)),
            )
            &&& outcome.bytes == bytes
            &&& outcome.device.used_idx == device.used_idx
        }),
{
    let with_status = written(bytes, status_addr as int, seq![status]);
    assert(with_status =~= bytes) by {
        assert forall|a: int| bytes.contains_key(a) implies with_status[a] == bytes[a] by {
            if a == status_addr {
                assert(backed(bytes, status_addr as int, 1));
            }
        }
    }
}

} // verus!
