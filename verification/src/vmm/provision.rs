//! Provisioning a VM: the checks it has to pass and the order of its steps.
//!
//! [`provision_kvm_machine_native`] accepts or refuses a request and hands out a
//! [`Provisioning`]. Its [`Provisioning::stage`] says which step is next; the caller
//! performs it against KVM and reports back with [`Provisioning::advance`].

use vstd::prelude::*;
use vstd::string::StringExecFns;

use crate::text::{
    decimal, decimal_digits, signed_decimal, signed_digits, slice_text_of, text_of, texts, trim, trimmed,
};
use crate::vmm::network::{
    derive_tap_name, setup_tap_interface, tap_name_of, valid_ifname, NetworkError, TapSetup, TapState,
};
use crate::vmm::{
    bridge_of, effective_memory_cap, effective_vcpu_cap, memory_bytes, memory_cap, path_of, spec_error, validate_spec,
    vcpu_cap, SpecError, VmSpec, HOST_RESERVE_MB,
};

verus! {

/// Guest-physical base address of the virtio-mmio block device.
pub const VIRTIO_BLK_MMIO_BASE: u64 = 0xd000_0000;

/// Size of the virtio-mmio device's register window.
pub const VIRTIO_BLK_MMIO_SIZE: u64 = 0x1000;

/// Guest interrupt line of the virtio-mmio block device.
pub const VIRTIO_BLK_GSI: u32 = 5;

/// Address of the three-page region that Intel VT-x needs, clear of guest RAM and
/// of the virtio window.
pub const KVM_TSS_ADDRESS: usize = 0xfffb_d000;

/// The KVM API version this monitor is written for.
pub const KVM_API_VERSION: i32 = 12;

/// One step of provisioning.
#[derive(Clone, Copy, Debug, PartialEq, Eq)]
pub enum Stage {
    /// Read how much memory the host has available.
    HostMemory,
    /// Open `/dev/kvm` and ask for its maximum number of vCPUs.
    OpenKvm,
    /// Ask for KVM's API version.
    ApiVersion,
    CreateVm,
    /// Reserve the region at [`KVM_TSS_ADDRESS`].
    SetTss,
    /// Create the in-kernel interrupt controllers.
    CreateIrqChip,
    /// Create the in-kernel timer, with the speaker port emulated.
    CreatePit,
    AllocateMemory,
    /// Register guest memory with KVM as slot 0.
    RegisterMemory,
    /// Ask for the CPUID that the host supports.
    QueryCpuid,
    CreateVcpu(u32),
    /// Give a vCPU the host's CPUID.
    SetCpuid(u32),
    /// Set up the TAP interface on the requested bridge.
    SetupTap,
    /// Find out whether the kernel image exists.
    FindKernel,
    LoadKernel,
    /// Write the GDT and the page tables.
    BootMemory,
    /// Put a vCPU into 64-bit long mode.
    VcpuRegisters(u32),
    /// Put a vCPU's local APIC into virtual wire mode.
    VcpuLapic(u32),
    ZeroPage,
    /// Write the MP table.
    MpTable,
    /// Open the disk image as a block device.
    OpenDisk,
    /// Wire the block device's interrupt to [`VIRTIO_BLK_GSI`].
    RegisterIrqfd,
    /// Run every vCPU until the guest stops.
    Run,
    Finished,
}

/// How a step went.
#[derive(Clone, Copy, Debug, PartialEq, Eq)]
pub enum StepReport {
    /// The step went through.
    Done,
    /// The step failed.
    Failed,
    /// The host's available memory in MiB, if it could be read.
    HostMemory(Option<u32>),
    /// `/dev/kvm` is open, and its maximum number of vCPUs.
    MaxVcpus(u32),
    /// KVM's API version.
    ApiVersion(i32),
    /// Whether the kernel image exists.
    KernelFound(bool),
}

/// Why a VM is not provisioned.
#[derive(Clone, Copy, Debug, PartialEq, Eq)]
pub enum ProvisionError {
    /// The VM name is empty.
    EmptyName,
    /// The request is out of bounds.
    Spec(SpecError),
    /// The host cannot safely grant the requested memory.
    HostMemory { requested: u32, cap: u32, available: u32 },
    /// The host's KVM cannot run the requested number of vCPUs.
    HostVcpus { requested: u32, cap: u32 },
    /// The host's KVM speaks another API version.
    ApiVersion { found: i32 },
    /// The kernel image does not exist.
    KernelMissing,
    /// A step failed.
    Step(Stage),
}

impl Stage {
    /// What a report that the step failed starts with. Where it is empty, the cause
    /// says it all.
    pub open spec fn failure_text(self) -> Seq<char> {
        match self {
            Stage::SetTss => "failed to set the KVM TSS address: "@,
            Stage::CreateIrqChip => "failed to create the in-kernel IRQCHIP: "@,
            Stage::CreatePit => "failed to create the in-kernel PIT (i8254): "@,
            Stage::AllocateMemory => "guest memory allocation failed: "@,
            Stage::QueryCpuid => "failed to query the host's supported CPUID: "@,
            Stage::SetCpuid(index) => "failed to set guest CPUID on vCPU "@ + decimal_digits(index as nat)
                + ": "@,
            Stage::RegisterIrqfd => "failed to register the virtio-blk irqfd: "@,
            _ => ""@,
        }
    }

    /// What a report that the step failed starts with.
    fn failure(self) -> (text: String)
        ensures
            text@ == self.failure_text(),
    {
        match self {
            Stage::SetTss => String::from_str("failed to set the KVM TSS address: "),
            Stage::CreateIrqChip => String::from_str("failed to create the in-kernel IRQCHIP: "),
            Stage::CreatePit => String::from_str("failed to create the in-kernel PIT (i8254): "),
            Stage::AllocateMemory => String::from_str("guest memory allocation failed: "),
            Stage::QueryCpuid => String::from_str("failed to query the host's supported CPUID: "),
            Stage::SetCpuid(index) => {
                let mut text = String::from_str("failed to set guest CPUID on vCPU ");
                text.append(decimal(index as u64).as_str());
                text.append(": ");
                text
            },
            Stage::RegisterIrqfd => String::from_str("failed to register the virtio-blk irqfd: "),
            _ => String::from_str(""),
        }
    }
}

impl ProvisionError {
    /// The text of the message. `cause` is what is known of the failure of a step.
    pub open spec fn text(self, kernel_path: Seq<char>, cause: Seq<char>) -> Seq<char> {
        match self {
            ProvisionError::EmptyName => "the VM name must not be empty"@,
            ProvisionError::Spec(error) => error.text(),
            ProvisionError::HostMemory { requested, cap, available } => "requested "@ + decimal_digits(
                requested as nat,
            ) + " MiB of RAM but this host can safely grant at most "@ + decimal_digits(cap as nat)
                + " MiB ("@ + decimal_digits(available as nat) + " MiB available, "@ + decimal_digits(
                HOST_RESERVE_MB as nat,
            ) + " MiB reserved for the host)"@,
            ProvisionError::HostVcpus { requested, cap } => "requested "@ + decimal_digits(requested as nat)
                + " vCPU(s) but this host's KVM supports at most "@ + decimal_digits(cap as nat),
            ProvisionError::ApiVersion { found } => "incompatible KVM API version: expected "@
                + signed_digits(KVM_API_VERSION as int) + ", got "@ + signed_digits(found as int),
            ProvisionError::KernelMissing => "kernel image '"@ + kernel_path
                + "' not found. Point ai-vmm at a vmlinux (ELF) kernel: set the AI_VMM_KERNEL environment variable, add a `kernel_path` entry to credentials.toml, or place a 'vmlinux' file in the working directory. The README explains how to obtain a kernel image."@,
            ProvisionError::Step(stage) => stage.failure_text() + cause,
        }
    }

    /// The message that reports this error. `kernel_path` is where the kernel image was
    /// looked for, and `cause` what is known of the failure of a step.
    pub fn message(self, kernel_path: &str, cause: &str) -> (message: String)
        ensures
            message@ == self.text(kernel_path@, cause@),
    {
        match self {
            ProvisionError::EmptyName => String::from_str("the VM name must not be empty"),
            ProvisionError::Spec(error) => String::from_str(error.as_str()),
            ProvisionError::HostMemory { requested, cap, available } => {
                let mut message = String::from_str("requested ");
                message.append(decimal(requested as u64).as_str());
                message.append(" MiB of RAM but this host can safely grant at most ");
                message.append(decimal(cap as u64).as_str());
                message.append(" MiB (");
                message.append(decimal(available as u64).as_str());
                message.append(" MiB available, ");
                message.append(decimal(HOST_RESERVE_MB as u64).as_str());
                message.append(" MiB reserved for the host)");
                message
            },
            ProvisionError::HostVcpus { requested, cap } => {
                let mut message = String::from_str("requested ");
                message.append(decimal(requested as u64).as_str());
                message.append(" vCPU(s) but this host's KVM supports at most ");
                message.append(decimal(cap as u64).as_str());
                message
            },
            ProvisionError::ApiVersion { found } => {
                let mut message = String::from_str("incompatible KVM API version: expected ");
                message.append(signed_decimal(KVM_API_VERSION).as_str());
                message.append(", got ");
                message.append(signed_decimal(found).as_str());
                message
            },
            ProvisionError::KernelMissing => {
                let mut message = String::from_str("kernel image '");
                message.append(kernel_path);
                message.append(
                    "' not found. Point ai-vmm at a vmlinux (ELF) kernel: set the AI_VMM_KERNEL environment variable, add a `kernel_path` entry to credentials.toml, or place a 'vmlinux' file in the working directory. The README explains how to obtain a kernel image.",
                );
                message
            },
            ProvisionError::Step(stage) => {
                let mut message = stage.failure();
                message.append(cause);
                message
            },
        }
    }
}

/// What the order of the steps depends on.
pub struct ProvisionShape {
    pub vcpus: u32,
    pub memory_mb: u32,
    pub has_bridge: bool,
    pub has_disk: bool,
}

/// The step after the zero page: the MP table for more than one vCPU only.
pub open spec fn after_zero_page(shape: ProvisionShape) -> Stage {
    if shape.vcpus > 1 {
        Stage::MpTable
    } else {
        after_mp_table(shape)
    }
}

/// The step after the MP table: the disk if there is one.
pub open spec fn after_mp_table(shape: ProvisionShape) -> Stage {
    if shape.has_disk {
        Stage::OpenDisk
    } else {
        Stage::Run
    }
}

/// The step after the vCPUs: the TAP interface if a bridge was asked for.
pub open spec fn after_vcpus(shape: ProvisionShape) -> Stage {
    if shape.has_bridge {
        Stage::SetupTap
    } else {
        Stage::FindKernel
    }
}

/// What follows `stage` once `report` is known: the next step, or the error that
/// provisioning ends with. Reading the host's memory is best effort: if it cannot
/// be read, provisioning goes on.
pub open spec fn stage_next(shape: ProvisionShape, stage: Stage, report: StepReport) -> Result<
    Stage,
    ProvisionError,
> {
    if report is Failed && stage !is HostMemory {
        Err(ProvisionError::Step(stage))
    } else {
        match stage {
            Stage::HostMemory => match report {
                StepReport::HostMemory(Some(available)) if shape.memory_mb > memory_cap(available) => Err(
                    ProvisionError::HostMemory {
                        requested: shape.memory_mb,
                        cap: memory_cap(available),
                        available,
                    },
                ),
                _ => Ok(Stage::OpenKvm),
            },
            Stage::OpenKvm => match report {
                StepReport::MaxVcpus(host_max) => if shape.vcpus > vcpu_cap(host_max) {
                    Err(ProvisionError::HostVcpus { requested: shape.vcpus, cap: vcpu_cap(host_max) })
                } else {
                    Ok(Stage::ApiVersion)
                },
                _ => Err(ProvisionError::Step(stage)),
            },
            Stage::ApiVersion => match report {
                StepReport::ApiVersion(found) => if found != KVM_API_VERSION {
                    Err(ProvisionError::ApiVersion { found })
                } else {
                    Ok(Stage::CreateVm)
                },
                _ => Err(ProvisionError::Step(stage)),
            },
            Stage::CreateVm => Ok(Stage::SetTss),
            Stage::SetTss => Ok(Stage::CreateIrqChip),
            Stage::CreateIrqChip => Ok(Stage::CreatePit),
            Stage::CreatePit => Ok(Stage::AllocateMemory),
            Stage::AllocateMemory => Ok(Stage::RegisterMemory),
            Stage::RegisterMemory => Ok(Stage::QueryCpuid),
            Stage::QueryCpuid => Ok(
                if shape.vcpus > 0 {
                    Stage::CreateVcpu(0)
                } else {
                    after_vcpus(shape)
                },
            ),
            Stage::CreateVcpu(index) => Ok(Stage::SetCpuid(index)),
            Stage::SetCpuid(index) => Ok(
                if index + 1 < shape.vcpus {
                    Stage::CreateVcpu((index + 1) as u32)
                } else {
                    after_vcpus(shape)
                },
            ),
            Stage::SetupTap => Ok(Stage::FindKernel),
            Stage::FindKernel => match report {
                StepReport::KernelFound(true) => Ok(Stage::LoadKernel),
                _ => Err(ProvisionError::KernelMissing),
            },
            Stage::LoadKernel => Ok(Stage::BootMemory),
            Stage::BootMemory => Ok(
                if shape.vcpus > 0 {
                    Stage::VcpuRegisters(0)
                } else {
                    Stage::ZeroPage
                },
            ),
            Stage::VcpuRegisters(index) => Ok(Stage::VcpuLapic(index)),
            Stage::VcpuLapic(index) => Ok(
                if index + 1 < shape.vcpus {
                    Stage::VcpuRegisters((index + 1) as u32)
                } else {
                    Stage::ZeroPage
                },
            ),
            Stage::ZeroPage => Ok(after_zero_page(shape)),
            Stage::MpTable => Ok(after_mp_table(shape)),
            Stage::OpenDisk => Ok(Stage::RegisterIrqfd),
            Stage::RegisterIrqfd => Ok(Stage::Run),
            Stage::Run => Ok(Stage::Finished),
            Stage::Finished => Ok(Stage::Finished),
        }
    }
}

/// Whether the step comes after the one that sets up the TAP interface.
pub open spec fn past_tap(stage: Stage) -> bool {
    match stage {
        Stage::FindKernel => true,
        Stage::LoadKernel => true,
        Stage::BootMemory => true,
        Stage::VcpuRegisters(_) => true,
        Stage::VcpuLapic(_) => true,
        Stage::ZeroPage => true,
        Stage::MpTable => true,
        Stage::OpenDisk => true,
        Stage::RegisterIrqfd => true,
        Stage::Run => true,
        Stage::Finished => true,
        _ => false,
    }
}

/// The `ip` command that removes the TAP interface `tap` if it is up.
pub open spec fn cleanup_command(tap_up: bool, tap: Seq<char>) -> Seq<Seq<char>> {
    if tap_up {
        seq!["link"@, "del"@, tap]
    } else {
        Seq::empty()
    }
}

/// A VM being provisioned.
pub struct Provisioning {
    vm_name: String,
    spec: VmSpec,
    stage: Stage,
    tap_up: bool,
}

impl Provisioning {
    /// The name of the VM.
    pub closed spec fn name(&self) -> Seq<char> {
        self.vm_name@
    }

    /// The validated request.
    pub closed spec fn request(&self) -> VmSpec {
        self.spec
    }

    /// The step that is next.
    pub closed spec fn at(&self) -> Stage {
        self.stage
    }

    /// The TAP interface of this VM was set up.
    pub closed spec fn tap_up(&self) -> bool {
        self.tap_up
    }

    /// What the order of the steps depends on.
    pub open spec fn shape(&self) -> ProvisionShape {
        ProvisionShape {
            vcpus: self.request().vcpus,
            memory_mb: self.request().memory_mb,
            has_bridge: self.request().network_bridge is Some,
            has_disk: self.request().disk_image_path is Some,
        }
    }

    /// The request is within bounds, and a TAP interface is up exactly if a bridge was
    /// asked for and the step that sets it up is over.
    pub open spec fn well_formed(&self) -> bool {
        &&& self.request().well_formed()
        &&& self.at() is SetupTap ==> self.shape().has_bridge
        &&& self.tap_up() == (self.shape().has_bridge && past_tap(self.at()))
    }

    /// The validated request.
    pub fn spec(&self) -> (spec: &VmSpec)
        ensures
            *spec == self.request(),
    {
        &self.spec
    }

    /// The step that is next.
    pub fn stage(&self) -> (stage: Stage)
        ensures
            stage == self.at(),
    {
        self.stage
    }

    /// Starts setting up the TAP interface of this VM on the bridge that was asked for;
    /// none is set up if none was.
    pub fn tap_setup(&self) -> (setup: Option<Result<TapSetup, NetworkError>>)
        ensures
            match (self.request().network_bridge, setup) {
                (None, None) => true,
                (Some(bridge), Some(Err(error))) => !valid_ifname(bridge@) && error
                    == NetworkError::UnsafeBridgeName,
                (Some(bridge), Some(Ok(started))) => {
                    &&& valid_ifname(bridge@)
                    &&& started.well_formed()
                    &&& started.tap() == tap_name_of(self.name())
                    &&& started.bridge() == bridge@
                    &&& started.stage() == TapState::Probing
                },
                _ => false,
            },
    {
        match &self.spec.network_bridge {
            Some(bridge) => Some(setup_tap_interface(self.vm_name.as_str(), bridge.as_str())),
            None => None,
        }
    }

    /// The `ip` command to run once provisioning is over, whether it went through or
    /// failed: it removes the TAP interface of this VM if that was set up, and there is
    /// none otherwise.
    pub fn cleanup(&self) -> (command: Vec<String>)
        ensures
            texts(command@) == cleanup_command(self.tap_up(), tap_name_of(self.name())),
    {
        let mut command: Vec<String> = Vec::new();
        if self.tap_up {
            command.push(String::from_str("link"));
            command.push(String::from_str("del"));
            command.push(derive_tap_name(self.vm_name.as_str()));
        }
        assert(texts(command@) =~= cleanup_command(self.tap_up(), tap_name_of(self.name())));
        command
    }

    /// Takes the report on the current step and moves on to the next one.
    pub fn advance(&mut self, report: StepReport) -> (result: Result<(), ProvisionError>)
        ensures
            final(self).name() == old(self).name(),
            final(self).request() == old(self).request(),
            final(self).tap_up() == (old(self).tap_up() || (old(self).at() is SetupTap && result is Ok)),
            old(self).well_formed() ==> final(self).well_formed(),
            match stage_next(old(self).shape(), old(self).at(), report) {
                Ok(next) => result is Ok && final(self).at() == next,
                Err(error) => result == Err::<(), ProvisionError>(error) && final(self).at() == old(self).at(),
            },
    {
        let stage = self.stage;
        if let StepReport::Failed = report {
            match stage {
                Stage::HostMemory => {},
                _ => return Err(ProvisionError::Step(stage)),
            }
        }
        let vcpus: u32 = self.spec.vcpus;
        let after_vcpus = if self.spec.network_bridge.is_some() {
            Stage::SetupTap
        } else {
            Stage::FindKernel
        };
        let after_mp_table = if self.spec.disk_image_path.is_some() {
            Stage::OpenDisk
        } else {
            Stage::Run
        };
        let next: Stage = match stage {
            Stage::HostMemory => {
                if let StepReport::HostMemory(Some(available)) = report {
                    let cap: u32 = effective_memory_cap(available);
                    if self.spec.memory_mb > cap {
                        return Err(
                            ProvisionError::HostMemory { requested: self.spec.memory_mb, cap, available },
                        );
                    }
                }
                Stage::OpenKvm
            },
            Stage::OpenKvm => match report {
                StepReport::MaxVcpus(host_max) => {
                    let cap: u32 = effective_vcpu_cap(host_max);
                    if vcpus > cap {
                        return Err(ProvisionError::HostVcpus { requested: vcpus, cap });
                    }
                    Stage::ApiVersion
                },
                _ => return Err(ProvisionError::Step(stage)),
            },
            Stage::ApiVersion => match report {
                StepReport::ApiVersion(found) => {
                    if found != KVM_API_VERSION {
                        return Err(ProvisionError::ApiVersion { found });
                    }
                    Stage::CreateVm
                },
                _ => return Err(ProvisionError::Step(stage)),
            },
            Stage::CreateVm => Stage::SetTss,
            Stage::SetTss => Stage::CreateIrqChip,
            Stage::CreateIrqChip => Stage::CreatePit,
            Stage::CreatePit => Stage::AllocateMemory,
            Stage::AllocateMemory => Stage::RegisterMemory,
            Stage::RegisterMemory => Stage::QueryCpuid,
            Stage::QueryCpuid => {
                if vcpus > 0 {
                    Stage::CreateVcpu(0)
                } else {
                    after_vcpus
                }
            },
            Stage::CreateVcpu(index) => Stage::SetCpuid(index),
            Stage::SetCpuid(index) => {
                if index < vcpus && index + 1 < vcpus {
                    Stage::CreateVcpu(index + 1)
                } else {
                    after_vcpus
                }
            },
            Stage::SetupTap => Stage::FindKernel,
            Stage::FindKernel => match report {
                StepReport::KernelFound(true) => Stage::LoadKernel,
                _ => return Err(ProvisionError::KernelMissing),
            },
            Stage::LoadKernel => Stage::BootMemory,
            Stage::BootMemory => {
                if vcpus > 0 {
                    Stage::VcpuRegisters(0)
                } else {
                    Stage::ZeroPage
                }
            },
            Stage::VcpuRegisters(index) => Stage::VcpuLapic(index),
            Stage::VcpuLapic(index) => {
                if index < vcpus && index + 1 < vcpus {
                    Stage::VcpuRegisters(index + 1)
                } else {
                    Stage::ZeroPage
                }
            },
            Stage::ZeroPage => {
                if vcpus > 1 {
                    Stage::MpTable
                } else {
                    after_mp_table
                }
            },
            Stage::MpTable => after_mp_table,
            Stage::OpenDisk => Stage::RegisterIrqfd,
            Stage::RegisterIrqfd => Stage::Run,
            Stage::Run => Stage::Finished,
            Stage::Finished => Stage::Finished,
        };
        if let Stage::SetupTap = stage {
            self.tap_up = true;
        }
        self.stage = next;
        Ok(())
    }
}

/// What is wrong with a request, if anything is: the name first, then the bounds.
pub open spec fn request_error(vcpus: u32, memory_mb: u32, vm_name: Seq<char>) -> Option<ProvisionError> {
    if trimmed(vm_name).len() == 0 {
        Some(ProvisionError::EmptyName)
    } else {
        match spec_error(vcpus, memory_mb) {
            Some(error) => Some(ProvisionError::Spec(error)),
            None => None,
        }
    }
}

/// Accepts a request for a VM and starts provisioning it.
///
/// This is the single check point: no value that was not validated reaches KVM.
pub fn provision_kvm_machine_native(
    vcpus: u32,
    memory_mb: u32,
    vm_name: &str,
    network_bridge: Option<&str>,
    disk_image_path: Option<&str>,
) -> (provisioning: Result<Provisioning, ProvisionError>)
    ensures
        match request_error(vcpus, memory_mb, vm_name@) {
            Some(error) => provisioning == Err::<Provisioning, ProvisionError>(error),
            None => {
                &&& provisioning is Ok
                &&& provisioning->Ok_0.well_formed()
                &&& provisioning->Ok_0.at() == Stage::HostMemory
                &&& !provisioning->Ok_0.tap_up()
                &&& provisioning->Ok_0.name() == vm_name@
                &&& provisioning->Ok_0.request().vcpus == vcpus
                &&& provisioning->Ok_0.request().memory_mb == memory_mb
                &&& text_of(provisioning->Ok_0.request().network_bridge) == bridge_of(
                    slice_text_of(network_bridge),
                )
                &&& text_of(provisioning->Ok_0.request().disk_image_path) == path_of(
                    slice_text_of(disk_image_path),
                )
            },
        },
{
    if trim(vm_name).is_empty() {
        return Err(ProvisionError::EmptyName);
    }
    match validate_spec(vcpus, memory_mb, network_bridge, disk_image_path) {
        Ok(spec) => Ok(
            Provisioning { vm_name: vm_name.to_owned(), spec, stage: Stage::HostMemory, tap_up: false },
        ),
        Err(error) => Err(ProvisionError::Spec(error)),
    }
}

/// What is reported of a request on a host without KVM: what is wrong with it, or else
/// what it asked for and where it can be had.
pub open spec fn unavailable_text(
    vcpus: u32,
    memory_mb: u32,
    vm_name: Seq<char>,
    bridge: Option<Seq<char>>,
    platform: Seq<char>,
) -> Seq<char> {
    match request_error(vcpus, memory_mb, vm_name) {
        Some(error) => error.text(Seq::empty(), Seq::empty()),
        None => "KVM unavailable: VM '"@ + vm_name + "' ("@ + decimal_digits(vcpus as nat) + " vCPU / "@
            + decimal_digits(memory_mb as nat) + " MiB, i.e. "@ + decimal_digits(
            ((memory_mb * 1048576) as usize) as nat,
        ) + " bytes, "@ + (match bridge {
            Some(name) => "bridge '"@ + name + "'"@,
            None => "no bridge"@,
        })
            + ") can only be provisioned on a Linux host that exposes /dev/kvm. Current platform: "@ + platform
            + "."@,
    }
}

/// Refuses a request on a host without KVM. The request is checked all the same, so
/// that the message is a precise one.
pub fn unavailable_message(
    vcpus: u32,
    memory_mb: u32,
    vm_name: &str,
    network_bridge: Option<&str>,
    disk_image_path: Option<&str>,
    platform: &str,
) -> (message: String)
    ensures
        message@ == unavailable_text(
            vcpus,
            memory_mb,
            vm_name@,
            bridge_of(slice_text_of(network_bridge)),
            platform@,
        ),
{
    proof {
        reveal_strlit("");
        assert(""@ =~= Seq::<char>::empty());
    }
    let accepted = match provision_kvm_machine_native(vcpus, memory_mb, vm_name, network_bridge, disk_image_path) {
        Ok(accepted) => accepted,
        Err(error) => return error.message("", ""),
    };
    let mut message = String::from_str("KVM unavailable: VM '");
    message.append(vm_name);
    message.append("' (");
    message.append(decimal(vcpus as u64).as_str());
    message.append(" vCPU / ");
    message.append(decimal(memory_mb as u64).as_str());
    message.append(" MiB, i.e. ");
    message.append(decimal(memory_bytes(memory_mb) as u64).as_str());
    message.append(" bytes, ");
    let summary = match &accepted.spec.network_bridge {
        Some(name) => {
            let mut summary = String::from_str("bridge '");
            summary.append(name.as_str());
            summary.append("'");
            summary
        },
        None => String::from_str("no bridge"),
    };
    message.append(summary.as_str());
    message.append(") can only be provisioned on a Linux host that exposes /dev/kvm. Current platform: ");
    message.append(platform);
    message.append(".");
    message
}

/// What is reported once the guest has stopped.
pub open spec fn exit_text(vm_name: Seq<char>) -> Seq<char> {
    "VM '"@ + vm_name + "' guest has exited."@
}

/// The message that reports that a VM's guest has stopped.
pub fn exit_message(vm_name: &str) -> (message: String)
    ensures
        message@ == exit_text(vm_name@),
{
    let mut message = String::from_str("VM '");
    message.append(vm_name);
    message.append("' guest has exited.");
    message
}

/// How many reports lead from `stage` to the end, at most.
pub open spec fn steps_left(shape: ProvisionShape, stage: Stage) -> int {
    let n = shape.vcpus as int;
    match stage {
        Stage::HostMemory => 20 + 4 * n,
        Stage::OpenKvm => 19 + 4 * n,
        Stage::ApiVersion => 18 + 4 * n,
        Stage::CreateVm => 17 + 4 * n,
        Stage::SetTss => 16 + 4 * n,
        Stage::CreateIrqChip => 15 + 4 * n,
        Stage::CreatePit => 14 + 4 * n,
        Stage::AllocateMemory => 13 + 4 * n,
        Stage::RegisterMemory => 12 + 4 * n,
        Stage::QueryCpuid => 11 + 4 * n,
        Stage::CreateVcpu(index) => 10 + 4 * n - 2 * index,
        Stage::SetCpuid(index) => 9 + 4 * n - 2 * index,
        Stage::SetupTap => 10 + 2 * n,
        Stage::FindKernel => 9 + 2 * n,
        Stage::LoadKernel => 8 + 2 * n,
        Stage::BootMemory => 7 + 2 * n,
        Stage::VcpuRegisters(index) => 6 + 2 * n - 2 * index,
        Stage::VcpuLapic(index) => 5 + 2 * n - 2 * index,
        Stage::ZeroPage => 6,
        Stage::MpTable => 5,
        Stage::OpenDisk => 4,
        Stage::RegisterIrqfd => 3,
        Stage::Run => 2,
        Stage::Finished => 0,
    }
}

/// A stage that speaks of a vCPU speaks of one that was asked for.
pub open spec fn stage_in_range(shape: ProvisionShape, stage: Stage) -> bool {
    match stage {
        Stage::CreateVcpu(index) => index < shape.vcpus,
        Stage::SetCpuid(index) => index < shape.vcpus,
        Stage::VcpuRegisters(index) => index < shape.vcpus,
        Stage::VcpuLapic(index) => index < shape.vcpus,
        _ => true,
    }
}

/// Provisioning ends: each report that is accepted brings it closer to its end, and
/// it never speaks of a vCPU that was not asked for.
pub proof fn law_provisioning_ends(shape: ProvisionShape, stage: Stage, report: StepReport)
    requires
        stage !is Finished,
        stage_in_range(shape, stage),
    ensures
        stage_next(shape, stage, report) matches Ok(next) ==> 0 <= steps_left(shape, next) < steps_left(
            shape,
            stage,
        ) && stage_in_range(shape, next),
{
}

/// The only way into each step. A vCPU is created only once the interrupt
/// controllers and the timer exist, and after its predecessor got its CPUID; the
/// MP table is written for more than one vCPU only; the disk is opened only if
/// there is one; and nothing runs before the zero page is written.
pub proof fn law_steps_come_in_order(shape: ProvisionShape, stage: Stage, report: StepReport)
    requires
        stage !is Finished,
        stage_in_range(shape, stage),
    ensures
        stage_next(shape, stage, report) matches Ok(next) ==> match next {
            Stage::HostMemory => false,
            Stage::OpenKvm => stage == Stage::HostMemory,
            Stage::ApiVersion => stage == Stage::OpenKvm,
            Stage::CreateVm => stage == Stage::ApiVersion,
            Stage::SetTss => stage == Stage::CreateVm,
            Stage::CreateIrqChip => stage == Stage::SetTss,
            Stage::CreatePit => stage == Stage::CreateIrqChip,
            Stage::AllocateMemory => stage == Stage::CreatePit,
            Stage::RegisterMemory => stage == Stage::AllocateMemory,
            Stage::QueryCpuid => stage == Stage::RegisterMemory,
            Stage::CreateVcpu(index) => if index == 0 {
                stage == Stage::QueryCpuid
            } else {
                stage == Stage::SetCpuid((index - 1) as u32)
            },
            Stage::SetCpuid(index) => stage == Stage::CreateVcpu(index),
            Stage::SetupTap => shape.has_bridge && (stage is SetCpuid || stage is QueryCpuid),
            Stage::FindKernel => if shape.has_bridge {
                stage == Stage::SetupTap
            } else {
                stage is SetCpuid || stage is QueryCpuid || stage is SetupTap
            },
            Stage::LoadKernel => stage == Stage::FindKernel,
            Stage::BootMemory => stage == Stage::LoadKernel,
            Stage::VcpuRegisters(index) => if index == 0 {
                stage == Stage::BootMemory
            } else {
                stage == Stage::VcpuLapic((index - 1) as u32)
            },
            Stage::VcpuLapic(index) => stage == Stage::VcpuRegisters(index),
            Stage::ZeroPage => stage is VcpuLapic || stage is BootMemory,
            Stage::MpTable => shape.vcpus > 1 && stage == Stage::ZeroPage,
            Stage::OpenDisk => shape.has_disk && (stage == Stage::ZeroPage || stage == Stage::MpTable),
            Stage::RegisterIrqfd => stage == Stage::OpenDisk,
            Stage::Run => stage == Stage::ZeroPage || stage == Stage::MpTable || stage == Stage::RegisterIrqfd,
            Stage::Finished => stage == Stage::Run,
        },
{
}

/// Every vCPU that was asked for is created and configured before the guest is
/// prepared: the loop over them is left only after the last one.
pub proof fn law_every_vcpu_is_created(shape: ProvisionShape, index: u32, report: StepReport)
    requires
        index < shape.vcpus,
        stage_next(shape, Stage::SetCpuid(index), report) matches Ok(next) && next !is CreateVcpu,
    ensures
        index + 1 == shape.vcpus,
{
}

/// Where provisioning stands after `reports`, from its start on, and whether the TAP
/// interface is up: once it has failed, no report changes anything.
pub open spec fn after_reports(shape: ProvisionShape, reports: Seq<StepReport>) -> (
    Result<Stage, ProvisionError>,
    bool,
)
    decreases reports.len(),
{
    if reports.len() == 0 {
        (Ok(Stage::HostMemory), false)
    } else {
        let (before, up) = after_reports(shape, reports.drop_last());
        match before {
            Err(error) => (Err(error), up),
            Ok(stage) => {
                let next = stage_next(shape, stage, reports.last());
                (next, up || (stage is SetupTap && next is Ok))
            },
        }
    }
}

/// Report `i` says that the TAP interface was set up.
pub open spec fn sets_up_tap(shape: ProvisionShape, reports: Seq<StepReport>, i: int) -> bool {
    &&& 0 <= i < reports.len()
    &&& after_reports(shape, reports.take(i)).0 == Ok::<Stage, ProvisionError>(Stage::SetupTap)
    &&& after_reports(shape, reports.take(i + 1)).0 is Ok
}

proof fn lemma_tap_stays_up(shape: ProvisionShape, reports: Seq<StepReport>, i: int)
    requires
        sets_up_tap(shape, reports, i),
    ensures
        after_reports(shape, reports).1,
    decreases reports.len(),
{
    if i + 1 == reports.len() {
        assert(reports.take(i) =~= reports.drop_last());
        assert(reports.take(i + 1) =~= reports);
    } else {
        assert(reports.drop_last().take(i) =~= reports.take(i));
        assert(reports.drop_last().take(i + 1) =~= reports.take(i + 1));
        lemma_tap_stays_up(shape, reports.drop_last(), i);
    }
}

proof fn lemma_tap_was_set_up(shape: ProvisionShape, reports: Seq<StepReport>) -> (i: int)
    requires
        after_reports(shape, reports).1,
    ensures
        sets_up_tap(shape, reports, i),
    decreases reports.len(),
{
    let earlier = reports.drop_last();
    if after_reports(shape, earlier).1 {
        let i = lemma_tap_was_set_up(shape, earlier);
        assert(earlier.take(i) =~= reports.take(i));
        assert(earlier.take(i + 1) =~= reports.take(i + 1));
        i
    } else {
        let i = reports.len() - 1;
        assert(reports.take(i) =~= earlier);
        assert(reports.take(i + 1) =~= reports);
        i
    }
}

/// However provisioning ends, a TAP interface that it set up is removed, and nothing is
/// removed that it did not set up.
pub proof fn law_tap_is_removed_on_every_way_out(shape: ProvisionShape, reports: Seq<StepReport>, tap: Seq<char>)
    ensures
        ({
            let command = cleanup_command(after_reports(shape, reports).1, tap);
            if exists|i: int| #[trigger] sets_up_tap(shape, reports, i) {
                command == seq!["link"@, "del"@, tap]
            } else {
                command.len() == 0
            }
        }),
{
    if exists|i: int| #[trigger] sets_up_tap(shape, reports, i) {
        let i = choose|i: int| #[trigger] sets_up_tap(shape, reports, i);
        lemma_tap_stays_up(shape, reports, i);
    } else if after_reports(shape, reports).1 {
        let i = lemma_tap_was_set_up(shape, reports);
        assert(sets_up_tap(shape, reports, i));
    }
}

/// A VM with a bridge never gets as far as its kernel without a TAP interface, and one
/// without a bridge never gets one.
pub proof fn law_tap_comes_with_the_bridge(shape: ProvisionShape, reports: Seq<StepReport>)
    ensures
        after_reports(shape, reports).1 ==> shape.has_bridge,
        after_reports(shape, reports).0 matches Ok(stage) ==> {
            &&& stage is SetupTap ==> shape.has_bridge
            &&& after_reports(shape, reports).1 == (shape.has_bridge && past_tap(stage))
        },
    decreases reports.len(),
{
    if reports.len() > 0 {
        law_tap_comes_with_the_bridge(shape, reports.drop_last());
    }
}

/// A VM that the host cannot safely hold is refused before KVM is opened, and one
/// with more vCPUs than the host's KVM supports before the VM is created; if the
/// available memory is not known, the request's own bound is the only one.
pub proof fn law_host_limits_are_enforced(shape: ProvisionShape, available: u32, host_max: u32)
    ensures
        stage_next(shape, Stage::HostMemory, StepReport::HostMemory(Some(available))) is Ok
            <==> shape.memory_mb <= memory_cap(available),
        stage_next(shape, Stage::HostMemory, StepReport::HostMemory(None)) == Ok::<Stage, ProvisionError>(
            Stage::OpenKvm,
        ),
        stage_next(shape, Stage::OpenKvm, StepReport::MaxVcpus(host_max)) is Ok <==> shape.vcpus <= vcpu_cap(
            host_max,
        ),
{
}

/// No step is left out: the vCPUs are left only after the last one, the MP table is
/// skipped only for a single vCPU, the TAP interface only without a bridge, and a guest
/// with a disk runs only once the disk's interrupt is wired.
pub proof fn law_no_step_is_left_out(shape: ProvisionShape, stage: Stage, report: StepReport)
    requires
        stage !is Finished,
        stage_in_range(shape, stage),
    ensures
        stage_next(shape, stage, report) matches Ok(next) ==> {
            &&& stage matches Stage::SetCpuid(index) ==> if index + 1 < shape.vcpus {
                next == Stage::CreateVcpu((index + 1) as u32)
            } else if shape.has_bridge {
                next is SetupTap
            } else {
                next is FindKernel
            }
            &&& stage matches Stage::VcpuLapic(index) ==> if index + 1 < shape.vcpus {
                next == Stage::VcpuRegisters((index + 1) as u32)
            } else {
                next is ZeroPage
            }
            &&& stage is QueryCpuid && shape.vcpus > 0 ==> next == Stage::CreateVcpu(0)
            &&& stage is BootMemory && shape.vcpus > 0 ==> next == Stage::VcpuRegisters(0)
            &&& stage is ZeroPage && shape.vcpus > 1 ==> next is MpTable
            &&& stage is MpTable || (stage is ZeroPage && shape.vcpus <= 1) ==> if shape.has_disk {
                next is OpenDisk
            } else {
                next is Run
            }
            &&& next is Run && shape.has_disk ==> stage is RegisterIrqfd
            &&& stage is OpenDisk ==> next is RegisterIrqfd
            &&& next is Finished ==> stage is Run
        },
{
}

/// A step that fails ends provisioning with that step; only the available memory may
/// stay unknown.
pub proof fn law_failed_step_ends_provisioning(shape: ProvisionShape, stage: Stage)
    ensures
        stage !is HostMemory ==> stage_next(shape, stage, StepReport::Failed) == Err::<Stage, ProvisionError>(
            ProvisionError::Step(stage),
        ),
        stage_next(shape, Stage::HostMemory, StepReport::Failed) == Ok::<Stage, ProvisionError>(Stage::OpenKvm),
{
}

/// A step that goes through leads on: the ones that are merely done, a KVM of API version
/// 12, and a kernel image that exists. Any other version is refused with what was found,
/// and a kernel image that does not exist as missing.
pub proof fn law_step_that_goes_through_leads_on(shape: ProvisionShape, stage: Stage, found: i32, exists_: bool)
    ensures
        stage !is OpenKvm && stage !is ApiVersion && stage !is FindKernel ==> stage_next(
            shape,
            stage,
            StepReport::Done,
        ) is Ok,
        stage_next(shape, Stage::ApiVersion, StepReport::ApiVersion(found)) == (if found == 12 {
            Ok::<Stage, ProvisionError>(Stage::CreateVm)
        } else {
            Err::<Stage, ProvisionError>(ProvisionError::ApiVersion { found })
        }),
        stage_next(shape, Stage::FindKernel, StepReport::KernelFound(exists_)) == (if exists_ {
            Ok::<Stage, ProvisionError>(Stage::LoadKernel)
        } else {
            Err::<Stage, ProvisionError>(ProvisionError::KernelMissing)
        }),
{
}

/// What the host cannot grant is refused with what was asked for and what could be had.
pub proof fn law_refusals_say_what_could_be_had(shape: ProvisionShape, available: u32, host_max: u32)
    ensures
        shape.memory_mb > memory_cap(available) ==> stage_next(
            shape,
            Stage::HostMemory,
            StepReport::HostMemory(Some(available)),
        ) == Err::<Stage, ProvisionError>(
            ProvisionError::HostMemory { requested: shape.memory_mb, cap: memory_cap(available), available },
        ),
        shape.vcpus > vcpu_cap(host_max) ==> stage_next(
            shape,
            Stage::OpenKvm,
            StepReport::MaxVcpus(host_max),
        ) == Err::<Stage, ProvisionError>(
            ProvisionError::HostVcpus { requested: shape.vcpus, cap: vcpu_cap(host_max) },
        ),
        shape.vcpus <= vcpu_cap(host_max) ==> stage_next(
            shape,
            Stage::OpenKvm,
            StepReport::MaxVcpus(host_max),
        ) == Ok::<Stage, ProvisionError>(Stage::ApiVersion),
{
}

/// A request is accepted exactly if its name is not blank and its resources are within
/// bounds; a blank name is reported before anything else.
pub proof fn law_requests_are_checked(vcpus: u32, memory_mb: u32, vm_name: Seq<char>)
    ensures
        request_error(vcpus, memory_mb, vm_name) is None <==> trimmed(vm_name).len() > 0 && 1 <= vcpus <= 255 && 8
            <= memory_mb <= 1048576,
        trimmed(vm_name).len() == 0 ==> request_error(vcpus, memory_mb, vm_name) == Some(
            ProvisionError::EmptyName,
        ),
        trimmed(vm_name).len() > 0 ==> match spec_error(vcpus, memory_mb) {
            Some(error) => request_error(vcpus, memory_mb, vm_name) == Some(ProvisionError::Spec(error)),
            None => request_error(vcpus, memory_mb, vm_name) is None,
        },
{
}

} // verus!
