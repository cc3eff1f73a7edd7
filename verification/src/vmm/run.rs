//! The run loop of a vCPU: what each exit of `KVM_RUN` calls for.
//!
//! The guest sends its log to COM1, a 16550A UART. Before each byte the kernel's
//! driver polls the line status register and waits for the transmitter; a UART
//! that reported it busy would stall the guest for ever.

use vstd::prelude::*;
use vstd::string::StringExecFns;

use crate::vmm::mmio::{only_device_changed, routes_to, MmioBus, MmioDevice};

verus! {

/// COM1 transmit holding register.
pub const COM1_THR: u16 = 0x3f8;

/// COM1 line status register.
pub const COM1_LSR: u16 = 0x3fd;

/// LSR value reporting the transmitter ready: THR-empty (bit 5) and TEMT (bit 6).
pub const LSR_TRANSMITTER_READY: u8 = 0x60;

/// `EINTR`: a host signal cut `KVM_RUN` short.
pub const EINTR: i32 = 4;

/// `EAGAIN`: the vCPU is not runnable yet.
pub const EAGAIN: i32 = 11;

/// How long an idle guest is paused, in milliseconds.
pub const HALT_PAUSE_MS: u64 = 2;

/// How long a vCPU that could not run is paused, in milliseconds.
pub const RETRY_PAUSE_MS: u64 = 1;

/// The byte the UART yields for a read of `port`.
pub open spec fn uart_byte(port: u16) -> u8 {
    if port == COM1_LSR {
        LSR_TRANSMITTER_READY
    } else {
        0
    }
}

/// Returns the byte the emulated 16550A UART yields for a read of `port`.
pub fn uart_input_byte(port: u16) -> (byte: u8)
    ensures
        byte == uart_byte(port),
{
    if port == COM1_LSR {
        LSR_TRANSMITTER_READY
    } else {
        0
    }
}

/// A read of the line status register reports the transmitter ready: both its bits
/// are set.
pub proof fn law_uart_reports_transmitter_ready()
    ensures
        uart_byte(COM1_LSR) & 0x20 != 0,
        uart_byte(COM1_LSR) & 0x40 != 0,
{
    assert(0x60u8 & 0x20 != 0) by (bit_vector);
    assert(0x60u8 & 0x40 != 0) by (bit_vector);
}

/// What a turn of the run loop finds: that the VM is being wound down, or how one
/// `KVM_RUN` ended.
#[derive(Clone, Copy, Debug, PartialEq, Eq)]
pub enum VcpuEvent {
    /// The VM-wide stop flag is raised: the operator, or another vCPU that stopped, winds
    /// the VM down.
    StopRaised,
    /// The call itself failed with this error number.
    RunFailed { errno: i32 },
    /// The guest wrote to a port.
    IoOut { port: u16 },
    /// The guest reads from a port.
    IoIn { port: u16 },
    /// The guest reads an address that no memory backs.
    MmioRead { addr: u64 },
    /// The guest writes an address that no memory backs.
    MmioWrite { addr: u64 },
    /// The guest is idle.
    Hlt,
    /// The guest triple-faulted.
    Shutdown,
    /// KVM could not enter the guest.
    FailEntry,
    /// KVM reported an internal error.
    InternalError,
    /// The guest asked for a reboot or a shutdown.
    SystemEvent,
    /// Any other exit.
    Other,
}

/// Why a vCPU stopped.
#[derive(Clone, Copy, Debug, PartialEq, Eq)]
pub enum RunError {
    /// `KVM_RUN` failed.
    RunFailed { errno: i32 },
    TripleFault,
    FailEntry,
    InternalError,
    /// Another vCPU's thread died while it held the device bus.
    BusPoisoned,
    /// The guest's output could not be brought to the console.
    ConsoleFailed,
}

impl RunError {
    /// The text of the message. `os_error` is what the host says of its own failure.
    pub open spec fn text(self, os_error: Seq<char>) -> Seq<char> {
        match self {
            RunError::RunFailed { .. } => os_error,
            RunError::TripleFault => "guest triple-faulted (VcpuExit::Shutdown)"@,
            RunError::FailEntry => "KVM could not enter the guest (VcpuExit::FailEntry)"@,
            RunError::InternalError => "KVM reported an internal error (VcpuExit::InternalError)"@,
            RunError::BusPoisoned => "MMIO bus mutex poisoned"@,
            RunError::ConsoleFailed => os_error,
        }
    }

    /// The message that reports this error. `os_error` is what the host says of its own
    /// failure, where that is what happened.
    pub fn message(self, os_error: &str) -> (message: String)
        ensures
            message@ == self.text(os_error@),
    {
        match self {
            RunError::RunFailed { .. } => os_error.to_owned(),
            RunError::TripleFault => String::from_str("guest triple-faulted (VcpuExit::Shutdown)"),
            RunError::FailEntry => String::from_str("KVM could not enter the guest (VcpuExit::FailEntry)"),
            RunError::InternalError => String::from_str(
                "KVM reported an internal error (VcpuExit::InternalError)",
            ),
            RunError::BusPoisoned => String::from_str("MMIO bus mutex poisoned"),
            RunError::ConsoleFailed => os_error.to_owned(),
        }
    }
}

/// What the run loop does next.
#[derive(Debug)]
pub enum RunAction {
    /// Run the vCPU again.
    Continue,
    /// Print this text, then run the vCPU again.
    Print(Vec<char>),
    /// Serve the read of this address from the device bus.
    ReadBus(u64),
    /// Serve the write to this address on the device bus.
    WriteBus(u64),
    /// Wait this many milliseconds.
    Pause(u64),
    /// The vCPU stops in good order.
    Finished,
    /// The vCPU stops with an error.
    Failed(RunError),
}

/// A [`RunAction`] with its text as a sequence.
pub enum RunActionModel {
    Continue,
    Print(Seq<char>),
    ReadBus(u64),
    WriteBus(u64),
    Pause(u64),
    Finished,
    Failed(RunError),
}

impl View for RunAction {
    type V = RunActionModel;

    open spec fn view(&self) -> RunActionModel {
        match self {
            RunAction::Continue => RunActionModel::Continue,
            RunAction::Print(text) => RunActionModel::Print(text@),
            RunAction::ReadBus(addr) => RunActionModel::ReadBus(*addr),
            RunAction::WriteBus(addr) => RunActionModel::WriteBus(*addr),
            RunAction::Pause(millis) => RunActionModel::Pause(*millis),
            RunAction::Finished => RunActionModel::Finished,
            RunAction::Failed(error) => RunActionModel::Failed(*error),
        }
    }
}

/// What an exit calls for. COM1 output is printed, each byte as the character of
/// that code; output to other ports and all other exits are passed over.
pub open spec fn response(event: VcpuEvent, data: Seq<u8>) -> RunActionModel {
    match event {
        VcpuEvent::StopRaised => RunActionModel::Finished,
        VcpuEvent::RunFailed { errno } => if errno == EINTR || errno == EAGAIN {
            RunActionModel::Pause(RETRY_PAUSE_MS)
        } else {
            RunActionModel::Failed(RunError::RunFailed { errno })
        },
        VcpuEvent::IoOut { port } => if port == COM1_THR {
            RunActionModel::Print(data.map_values(|b: u8| b as char))
        } else {
            RunActionModel::Continue
        },
        VcpuEvent::IoIn { .. } => RunActionModel::Continue,
        VcpuEvent::MmioRead { addr } => RunActionModel::ReadBus(addr),
        VcpuEvent::MmioWrite { addr } => RunActionModel::WriteBus(addr),
        VcpuEvent::Hlt => RunActionModel::Pause(HALT_PAUSE_MS),
        VcpuEvent::Shutdown => RunActionModel::Failed(RunError::TripleFault),
        VcpuEvent::FailEntry => RunActionModel::Failed(RunError::FailEntry),
        VcpuEvent::InternalError => RunActionModel::Failed(RunError::InternalError),
        VcpuEvent::SystemEvent => RunActionModel::Finished,
        VcpuEvent::Other => RunActionModel::Continue,
    }
}

/// The exit's data once it was handled: a port read has its first byte filled in.
pub open spec fn answered(event: VcpuEvent, data: Seq<u8>) -> Seq<u8> {
    match event {
        VcpuEvent::IoIn { port } if data.len() > 0 => data.update(0, uart_byte(port)),
        _ => data,
    }
}

/// The characters with the codes `data`.
fn console_chars(data: &[u8]) -> (text: Vec<char>)
    ensures
        text@ == data@.map_values(|b: u8| b as char),
{
    let mut text: Vec<char> = Vec::new();
    let mut i: usize = 0;
    while i < data.len()
        invariant
            i <= data@.len(),
            text@ == data@.map_values(|b: u8| b as char).take(i as int),
        decreases data@.len() - i,
    {
        text.push(data[i] as char);
        i = i + 1;
        assert(text@ =~= data@.map_values(|b: u8| b as char).take(i as int));
    }
    assert(text@ =~= data@.map_values(|b: u8| b as char));
    text
}

/// Decides what one exit of a vCPU calls for. `data` is the data of the exit: what
/// the guest wrote, or the buffer that answers its read.
pub fn drive_vcpu(event: VcpuEvent, data: &mut [u8]) -> (action: RunAction)
    ensures
        action@ == response(event, old(data)@),
        final(data)@ == answered(event, old(data)@),
{
    match event {
        VcpuEvent::StopRaised => RunAction::Finished,
        VcpuEvent::RunFailed { errno } => {
            if errno == EINTR || errno == EAGAIN {
                RunAction::Pause(RETRY_PAUSE_MS)
            } else {
                RunAction::Failed(RunError::RunFailed { errno })
            }
        },
        VcpuEvent::IoOut { port } => {
            if port == COM1_THR {
                RunAction::Print(console_chars(data))
            } else {
                RunAction::Continue
            }
        },
        VcpuEvent::IoIn { port } => {
            if data.len() > 0 {
                data[0] = uart_input_byte(port);
            }
            RunAction::Continue
        },
        VcpuEvent::MmioRead { addr } => RunAction::ReadBus(addr),
        VcpuEvent::MmioWrite { addr } => RunAction::WriteBus(addr),
        VcpuEvent::Hlt => RunAction::Pause(HALT_PAUSE_MS),
        VcpuEvent::Shutdown => RunAction::Failed(RunError::TripleFault),
        VcpuEvent::FailEntry => RunAction::Failed(RunError::FailEntry),
        VcpuEvent::InternalError => RunAction::Failed(RunError::InternalError),
        VcpuEvent::SystemEvent => RunAction::Finished,
        VcpuEvent::Other => RunAction::Continue,
    }
}

/// Serves a guest read of an MMIO address; an address that no device owns reads as
/// zeros. Returns whether a device owned it.
pub fn read_bus<D: MmioDevice>(bus: &mut MmioBus<D>, addr: u64, data: &mut [u8]) -> (handled: bool)
    ensures
        handled <==> exists|i: int| routes_to(old(bus)@, addr, i),
        !handled ==> final(bus)@ == old(bus)@ && final(data)@ == Seq::new(old(data)@.len(), |i: int| 0u8),
        handled ==> exists|i: int|
            {
                &&& #[trigger] routes_to(old(bus)@, addr, i)
                &&& only_device_changed(old(bus)@, final(bus)@, i)
                &&& D::reads(
                    old(bus)@[i].device,
                    (addr - old(bus)@[i].base) as u64,
                    old(data)@,
                    final(bus)@[i].device,
                    final(data)@,
                )
            },
{
    let handled: bool = bus.read(addr, data);
    if !handled {
        let ghost before = data@;
        let mut i: usize = 0;
        while i < data.len()
            invariant
                i <= data@.len(),
                data@.len() == before.len(),
                forall|k: int| 0 <= k < i ==> data@[k] == 0,
            decreases data@.len() - i,
        {
            data[i] = 0;
            i = i + 1;
        }
        assert(data@ =~= Seq::new(before.len(), |i: int| 0u8));
    }
    handled
}

/// A vCPU stops with an error on a triple fault, on a failed entry and on an
/// internal error of KVM, stops in good order when the guest asks for it or the VM is
/// being wound down, and runs on after every other exit; a call that was merely cut short is retried.
pub proof fn law_when_a_vcpu_stops(event: VcpuEvent, data: Seq<u8>)
    ensures
        response(event, data) is Finished <==> event is SystemEvent || event is StopRaised,
        response(event, data) is Failed <==> event is Shutdown || event is FailEntry || event is InternalError
            || (event matches VcpuEvent::RunFailed { errno } && errno != EINTR && errno != EAGAIN),
{
}

/// What the guest writes to its first serial port, 0x3f8, is printed, each byte as the
/// character of that code; what it writes to any other port is passed over.
pub proof fn law_serial_output_is_printed(port: u16, data: Seq<u8>, i: int)
    requires
        0 <= i < data.len(),
    ensures
        response(VcpuEvent::IoOut { port: 0x3f8 }, data) matches RunActionModel::Print(text) && text.len()
            == data.len() && text[i] == data[i] as char,
        port != 0x3f8 ==> response(VcpuEvent::IoOut { port }, data) is Continue,
        answered(VcpuEvent::IoOut { port }, data) == data,
{
}

/// A read of a port yields one byte: the transmitter is ready at 0x3fd, and every other
/// port reads as zero. The rest of the buffer, and that of any other exit, stays as it is.
pub proof fn law_port_reads_are_answered(port: u16, data: Seq<u8>, i: int, event: VcpuEvent)
    requires
        0 <= i < data.len(),
    ensures
        response(VcpuEvent::IoIn { port }, data) is Continue,
        ({
            let result = answered(VcpuEvent::IoIn { port }, data);
            &&& result.len() == data.len()
            &&& port == 0x3fd ==> result[0] == 0x60
            &&& port != 0x3fd ==> result[0] == 0
            &&& i > 0 ==> result[i] == data[i]
        }),
        event !is IoIn ==> answered(event, data) == data,
{
}

/// Every other exit: an access to an address that no memory backs goes to the device bus,
/// an idle guest and a call that was cut short are paused, and a vCPU that cannot go on
/// stops for the reason that it has.
pub proof fn law_exits_are_answered(addr: u64, errno: i32, data: Seq<u8>)
    ensures
        response(VcpuEvent::MmioRead { addr }, data) == RunActionModel::ReadBus(addr),
        response(VcpuEvent::MmioWrite { addr }, data) == RunActionModel::WriteBus(addr),
        response(VcpuEvent::Hlt, data) == RunActionModel::Pause(2),
        errno == 4 || errno == 11 ==> response(VcpuEvent::RunFailed { errno }, data) == RunActionModel::Pause(1),
        errno != 4 && errno != 11 ==> response(VcpuEvent::RunFailed { errno }, data) == RunActionModel::Failed(
            RunError::RunFailed { errno },
        ),
        response(VcpuEvent::Shutdown, data) == RunActionModel::Failed(RunError::TripleFault),
        response(VcpuEvent::FailEntry, data) == RunActionModel::Failed(RunError::FailEntry),
        response(VcpuEvent::InternalError, data) == RunActionModel::Failed(RunError::InternalError),
        response(VcpuEvent::SystemEvent, data) is Finished,
        response(VcpuEvent::StopRaised, data) is Finished,
        response(VcpuEvent::Other, data) is Continue,
{
}

} // verus!
