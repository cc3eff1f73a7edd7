use ai_vmm::vmm::network::{
    derive_tap_name, fnv1a_64, hex_digit, is_valid_ifname, render_tap_name, setup_tap_interface, NetworkError,
    TapFailure, TapReport, TapState, MAX_IFNAME_LEN,
};
use ai_vmm::vmm::provision::{exit_message, unavailable_message, ProvisionError, Provisioning, Stage, StepReport};
use ai_vmm::vmm::run::{
    drive_vcpu, uart_input_byte, RunAction, RunError, VcpuEvent, COM1_LSR, COM1_THR, LSR_TRANSMITTER_READY,
};
use ai_vmm::vmm::{
    effective_memory_cap, effective_vcpu_cap, memory_bytes, normalize_bridge, parse_available_memory_mb,
    parse_memory_mb, provision_kvm_machine_native, scaled_mib, validate_spec, MemInfoError, MemorySizeError,
    SpecError, HOST_RESERVE_MB, MAX_MEMORY_MB, MAX_VCPUS, MIN_MEMORY_MB,
};

#[test]
fn rejects_zero_vcpu() {
    assert!(validate_spec(0, 2048, None, None).is_err());
}

#[test]
fn rejects_too_many_vcpus() {
    assert!(validate_spec(MAX_VCPUS + 1, 2048, None, None).is_err());
}

#[test]
fn rejects_insufficient_memory() {
    assert!(validate_spec(2, MIN_MEMORY_MB - 1, None, None).is_err());
}

#[test]
fn rejects_excessive_memory() {
    assert!(validate_spec(2, MAX_MEMORY_MB + 1, None, None).is_err());
}

#[test]
fn accepts_a_valid_spec() {
    let spec = validate_spec(2, 2048, None, None).expect("2 vCPU / 2048 MiB must be valid");
    assert_eq!(spec.vcpus, 2);
    assert_eq!(spec.memory_mb, 2048);
    assert_eq!(spec.network_bridge, None);
    assert_eq!(spec.disk_image_path, None);
}

#[test]
fn memory_size_is_page_aligned() {
    let bytes = memory_bytes(2048);
    assert_eq!(bytes, 2048 * 1024 * 1024);
    assert_eq!(bytes % 4096, 0);
}

#[test]
fn rejects_empty_vm_name() {
    assert!(provision_kvm_machine_native(2, 256, "   ", None, None).is_err());
}

#[test]
fn trims_and_keeps_named_bridge() {
    let spec = validate_spec(2, 2048, Some("  br0  "), None).expect("valid spec");
    assert_eq!(spec.network_bridge.as_deref(), Some("br0"));
}

#[test]
fn normalizes_blank_bridge_to_none() {
    let spec = validate_spec(2, 2048, Some("   "), None).expect("valid spec");
    assert_eq!(spec.network_bridge, None);
}

#[test]
fn treats_literal_none_bridge_as_no_bridge() {
    let spec = validate_spec(2, 2048, Some("none"), None).expect("valid spec");
    assert_eq!(spec.network_bridge, None);
}

#[test]
fn trims_and_keeps_disk_image_path() {
    let spec = validate_spec(2, 2048, None, Some("  ./rootfs.ext4  ")).expect("valid spec");
    assert_eq!(spec.disk_image_path.as_deref(), Some("./rootfs.ext4"));
}

#[test]
fn normalizes_blank_disk_image_path_to_none() {
    let spec = validate_spec(2, 2048, None, Some("   ")).expect("valid spec");
    assert_eq!(spec.disk_image_path, None);
}

#[test]
fn effective_vcpu_cap_is_the_tighter_limit() {
    assert_eq!(effective_vcpu_cap(4), 4); // host below our ceiling
    assert_eq!(effective_vcpu_cap(10_000), MAX_VCPUS); // host above -> clamped
    assert_eq!(effective_vcpu_cap(MAX_VCPUS), MAX_VCPUS);
}

#[test]
fn effective_memory_cap_reserves_host_headroom() {
    // A roomy host: capped by the architectural maximum.
    assert_eq!(effective_memory_cap(u32::MAX), MAX_MEMORY_MB);
    // A host with no spare RAM: nothing is granted, the reserve is kept.
    assert_eq!(effective_memory_cap(HOST_RESERVE_MB), 0);
    assert_eq!(effective_memory_cap(0), 0);
    // A modest host: available memory minus the reserve.
    assert_eq!(
        effective_memory_cap(HOST_RESERVE_MB + 512),
        512.min(MAX_MEMORY_MB)
    );
}

#[test]
fn provisioning_rejects_a_vm_larger_than_the_host() {
    let mut provisioning =
        provision_kvm_machine_native(1, MAX_MEMORY_MB, "oversized", None, None).expect("within bounds");
    assert_eq!(provisioning.stage(), Stage::HostMemory);
    let result = provisioning.advance(StepReport::HostMemory(Some(16384)));
    assert!(result.is_err(), "an oversized VM must be rejected");
    assert_eq!(
        result,
        Err(ProvisionError::HostMemory { requested: MAX_MEMORY_MB, cap: 16128, available: 16384 })
    );
}

#[test]
fn parses_memory_sizes_and_rejects_bad_input() {
    assert_eq!(parse_memory_mb("2048").expect("plain MiB"), 2048);
    assert_eq!(parse_memory_mb("512M").expect("M suffix"), 512);
    assert_eq!(parse_memory_mb("512MiB").expect("MiB suffix"), 512);
    assert_eq!(parse_memory_mb("2G").expect("G suffix"), 2048);
    assert_eq!(parse_memory_mb("  4gb ").expect("GB suffix, padded"), 4096);
    assert_eq!(parse_memory_mb("1T").expect("T suffix"), 1024 * 1024);
    // Malformed input and an overflowing size are clean errors, not panics.
    assert!(parse_memory_mb("abc").is_err());
    assert!(parse_memory_mb("").is_err());
    assert!(parse_memory_mb("99999999T").is_err());
}

#[test]
fn each_size_error_has_its_input() {
    assert_eq!(parse_memory_mb("abc"), Err(MemorySizeError::Malformed));
    assert_eq!(parse_memory_mb("99999999T"), Err(MemorySizeError::TooLarge));
    assert_eq!(parse_memory_mb("99999999999999999999"), Err(MemorySizeError::Malformed));
    assert_eq!(parse_memory_mb("+3 g"), Ok(3072));
    // Only the documented units are units.
    for size in ["512B", "512i", "512ib", "512Mi", "2Gi", "1Ti", "512bm", "512mm", "512 m b", "512K", "g", "mb"] {
        assert_eq!(parse_memory_mb(size), Err(MemorySizeError::Malformed), "{size}");
    }
    for (size, mib) in [("1m", 1), ("2MB", 2), ("3mIb", 3), ("1g", 1024), ("1GIB", 1024), ("2TB", 2097152), ("1tib", 1048576)] {
        assert_eq!(parse_memory_mb(size), Ok(mib), "{size}");
    }
    assert_eq!(
        MemorySizeError::Malformed.message("12\"Q"),
        "invalid memory size \"12\\\"Q\" — use e.g. 2048, 512M or 2G"
    );
    assert_eq!(MemorySizeError::TooLarge.message("9T"), "memory size \"9T\" is too large");
    assert_eq!(MemorySizeError::TooLarge.message_for("<9T>"), "memory size <9T> is too large");
    assert_eq!(scaled_mib(4095, 1048576), Some(4293918720));
    assert_eq!(scaled_mib(4096, 1048576), None);
}

#[test]
fn each_spec_error_has_its_input() {
    assert_eq!(validate_spec(0, 0, None, None), Err(SpecError::ZeroVcpu));
    assert_eq!(validate_spec(256, 0, None, None), Err(SpecError::TooManyVcpus));
    assert_eq!(validate_spec(255, 7, None, None), Err(SpecError::MemoryTooLow));
    assert_eq!(validate_spec(255, 1048577, None, None), Err(SpecError::MemoryTooHigh));
    for error in vec![
        SpecError::ZeroVcpu,
        SpecError::TooManyVcpus,
        SpecError::MemoryTooLow,
        SpecError::MemoryTooHigh,
    ] {
        assert!(!error.as_str().is_empty());
    }
    assert_eq!(normalize_bridge(Some(" None ")), None);
    assert_eq!(normalize_bridge(Some(" nones ")).as_deref(), Some("nones"));
}

#[test]
fn validating_a_valid_spec_changes_nothing() {
    let spec = validate_spec(2, 2048, Some(" br0 "), Some(" /disk ")).expect("valid spec");
    let again = validate_spec(
        spec.vcpus,
        spec.memory_mb,
        spec.network_bridge.as_deref(),
        spec.disk_image_path.as_deref(),
    );
    assert_eq!(again, Ok(spec));
    assert_eq!(memory_bytes(MAX_MEMORY_MB), 1 << 40);
}

#[test]
fn available_memory_is_read_from_meminfo() {
    let meminfo = "MemTotal:       32768000 kB\nMemFree:         1000000 kB\nMemAvailable:   16777216 kB\n";
    assert_eq!(parse_available_memory_mb(meminfo), Ok(16384));
    assert!(matches!(parse_available_memory_mb("MemTotal: 1 kB\n"), Err(MemInfoError::Missing)));
    assert!(parse_available_memory_mb("MemAvailable: lots kB\n").is_err());
}

#[test]
fn lsr_read_reports_transmitter_ready() {
    assert_eq!(uart_input_byte(COM1_LSR), LSR_TRANSMITTER_READY);
}

#[test]
fn non_status_ports_read_back_zero() {
    assert_eq!(uart_input_byte(COM1_THR), 0);
    assert_eq!(uart_input_byte(0x0000), 0);
    assert_eq!(uart_input_byte(0xffff), 0);
}

#[test]
fn a_vcpu_prints_waits_and_stops() {
    let mut text = [0x4f_u8, 0x4b, 0xe9];
    match drive_vcpu(VcpuEvent::IoOut { port: COM1_THR }, &mut text) {
        RunAction::Print(chars) => assert_eq!(chars, vec!['O', 'K', 'é']),
        other => panic!("expected output, got {other:?}"),
    }
    assert!(matches!(drive_vcpu(VcpuEvent::IoOut { port: 0x80 }, &mut text), RunAction::Continue));
    let mut answer = [7_u8, 7];
    assert!(matches!(drive_vcpu(VcpuEvent::IoIn { port: COM1_LSR }, &mut answer), RunAction::Continue));
    assert_eq!(answer, [0x60, 7]);
    assert!(matches!(drive_vcpu(VcpuEvent::Hlt, &mut []), RunAction::Pause(2)));
    assert!(matches!(drive_vcpu(VcpuEvent::RunFailed { errno: 4 }, &mut []), RunAction::Pause(1)));
    assert!(matches!(drive_vcpu(VcpuEvent::RunFailed { errno: 11 }, &mut []), RunAction::Pause(1)));
    assert!(matches!(
        drive_vcpu(VcpuEvent::RunFailed { errno: 5 }, &mut []),
        RunAction::Failed(RunError::RunFailed { errno: 5 })
    ));
    assert!(matches!(drive_vcpu(VcpuEvent::Shutdown, &mut []), RunAction::Failed(RunError::TripleFault)));
    assert!(matches!(drive_vcpu(VcpuEvent::FailEntry, &mut []), RunAction::Failed(RunError::FailEntry)));
    assert!(matches!(
        drive_vcpu(VcpuEvent::InternalError, &mut []),
        RunAction::Failed(RunError::InternalError)
    ));
    assert!(matches!(drive_vcpu(VcpuEvent::SystemEvent, &mut []), RunAction::Finished));
    assert!(matches!(drive_vcpu(VcpuEvent::StopRaised, &mut []), RunAction::Finished));
    assert!(matches!(drive_vcpu(VcpuEvent::Other, &mut []), RunAction::Continue));
    assert!(matches!(drive_vcpu(VcpuEvent::MmioRead { addr: 9 }, &mut []), RunAction::ReadBus(9)));
    assert!(matches!(drive_vcpu(VcpuEvent::MmioWrite { addr: 9 }, &mut []), RunAction::WriteBus(9)));
}

#[test]
fn accepts_real_interface_names() {
    assert!(is_valid_ifname("br0"));
    assert!(is_valid_ifname("virbr0"));
    assert!(is_valid_ifname("eth0"));
    assert!(is_valid_ifname("tap-db-prod"));
    assert!(is_valid_ifname("eth0.100"));
}

#[test]
fn rejects_empty_and_overlong_names() {
    assert!(!is_valid_ifname(""));
    assert!(!is_valid_ifname(&"a".repeat(MAX_IFNAME_LEN + 1)));
}

#[test]
fn rejects_option_injection() {
    // A name starting with '-' could be parsed by `ip` as an option.
    assert!(!is_valid_ifname("-x"));
    assert!(!is_valid_ifname("--help"));
}

#[test]
fn rejects_metacharacters_and_separators() {
    assert!(!is_valid_ifname("br0; rm -rf /"));
    assert!(!is_valid_ifname("a b"));
    assert!(!is_valid_ifname("a/b"));
    assert!(!is_valid_ifname("a$b"));
    assert!(!is_valid_ifname("a\nb"));
    assert!(!is_valid_ifname("."));
}

#[test]
fn derive_tap_name_is_valid_deterministic_and_collision_free() {
    // Deterministic: the same VM name always derives the same TAP name.
    assert_eq!(derive_tap_name("db-prod"), derive_tap_name("db-prod"));
    // Always a valid, injection-safe interface name starting with `tap-`.
    let tap = derive_tap_name("db-prod");
    assert!(is_valid_ifname(&tap));
    assert!(tap.starts_with("tap-"));
    // Two VM names sharing an 11-character prefix differ.
    assert_ne!(
        derive_tap_name("database-server-one"),
        derive_tap_name("database-server-two")
    );
}

#[test]
fn fnv1a_matches_known_vectors() {
    // Reference values for the 64-bit FNV-1a hash.
    assert_eq!(fnv1a_64(b""), 0xcbf2_9ce4_8422_2325);
    assert_eq!(fnv1a_64(b"a"), 0xaf63_dc4c_8601_ec8c);
    assert_eq!(fnv1a_64(b"foobar"), 0x8594_4171_f739_67e8);
}

#[test]
fn derived_tap_name_is_always_a_valid_ifname() {
    for vm in [
        "db-prod",
        "a",
        "VeryLongVirtualMachineName",
        "weird name!!",
        "日本語",
        "",
    ] {
        let tap = derive_tap_name(vm);
        assert!(
            is_valid_ifname(&tap),
            "derived tap name {tap:?} from {vm:?} must be a valid ifname"
        );
    }
}

#[test]
fn rejects_unsafe_bridge_name_before_running_ip() {
    // Validation fails before any `ip` process is spawned.
    assert!(setup_tap_interface("db-prod", "br0; rm -rf /").is_err());
    assert!(setup_tap_interface("db-prod", "-x").is_err());
    assert!(setup_tap_interface("db-prod", "").is_err());
}

#[test]
fn tap_names_are_the_low_digits_of_the_hash() {
    assert_eq!(hex_digit(0), 48);
    assert_eq!(hex_digit(15), 102);
    assert_eq!(render_tap_name(0x1234_5678_9abc_def0), b"tap-6789abcdef0".to_vec());
    assert_eq!(derive_tap_name("a"), "tap-c4c8601ec8c");
}

#[test]
fn an_existing_tap_is_attached_and_brought_up() {
    let mut setup = setup_tap_interface("a", "br0").expect("safe bridge");
    assert_eq!(setup.tap_name(), "tap-c4c8601ec8c");
    assert_eq!(setup.state(), TapState::Probing);
    assert_eq!(setup.command(), vec!["link", "show", "dev", "tap-c4c8601ec8c"]);
    setup.advance(TapReport::Present);
    assert_eq!(setup.state(), TapState::Attaching { created_here: false });
    assert_eq!(setup.command(), vec!["link", "set", "tap-c4c8601ec8c", "master", "br0"]);
    setup.advance(TapReport::Done);
    assert_eq!(setup.command(), vec!["link", "set", "dev", "tap-c4c8601ec8c", "up"]);
    setup.advance(TapReport::Done);
    assert_eq!(setup.state(), TapState::Ready);
    assert!(setup.command().is_empty());
}

#[test]
fn a_tap_created_here_is_removed_on_failure() {
    let mut setup = setup_tap_interface("a", "br0").expect("safe bridge");
    setup.advance(TapReport::Absent);
    assert_eq!(setup.state(), TapState::Creating);
    assert_eq!(setup.command(), vec!["tuntap", "add", "mode", "tap", "name", "tap-c4c8601ec8c"]);
    setup.advance(TapReport::Done);
    setup.advance(TapReport::Failed);
    assert_eq!(setup.state(), TapState::RollingBack { failure: TapFailure::Attach });
    assert_eq!(setup.command(), vec!["link", "del", "tap-c4c8601ec8c"]);
    setup.advance(TapReport::Done);
    assert_eq!(setup.state(), TapState::Failed { failure: TapFailure::Attach });
    assert!(matches!(setup_tap_interface("a", "b r"), Err(NetworkError::UnsafeBridgeName)));
}

#[test]
fn a_tap_that_was_there_is_left_alone_on_failure() {
    let mut setup = setup_tap_interface("a", "br0").expect("safe bridge");
    setup.advance(TapReport::Present);
    setup.advance(TapReport::Done);
    setup.advance(TapReport::Failed);
    assert_eq!(setup.state(), TapState::Failed { failure: TapFailure::Activate });

    let mut unknown = setup_tap_interface("a", "br0").expect("safe bridge");
    unknown.advance(TapReport::Failed);
    assert_eq!(unknown.state(), TapState::Failed { failure: TapFailure::Probe });

    let mut refused = setup_tap_interface("a", "br0").expect("safe bridge");
    refused.advance(TapReport::Absent);
    refused.advance(TapReport::Failed);
    assert_eq!(refused.state(), TapState::Rechecking);
    refused.advance(TapReport::Absent);
    assert_eq!(refused.state(), TapState::Failed { failure: TapFailure::Create });
}

#[test]
fn a_tap_that_another_actor_made_meanwhile_is_left_alone_on_failure() {
    let mut setup = setup_tap_interface("a", "br0").expect("safe bridge");
    setup.advance(TapReport::Absent);
    setup.advance(TapReport::Failed);
    setup.advance(TapReport::Present);
    assert_eq!(setup.state(), TapState::Attaching { created_here: false });
    setup.advance(TapReport::Failed);
    assert_eq!(setup.state(), TapState::Failed { failure: TapFailure::Attach });
    assert!(setup.command().is_empty());
}

#[test]
fn an_unsafe_bridge_name_is_quoted_in_its_message() {
    assert_eq!(
        NetworkError::UnsafeBridgeName.message("b\tr"),
        "refusing unsafe bridge name \"b\\tr\": a bridge name must be 1 to 15 characters, start with a letter \
         or digit, and contain only letters, digits, '_', '-' or '.'"
    );
    assert!(NetworkError::UnsafeBridgeName.message_for("<x>").starts_with("refusing unsafe bridge name <x>: "));
}

/// Takes provisioning to `stage`, with reports that all go through.
fn provisioned_up_to(bridge: Option<&str>, stage: Stage) -> Provisioning {
    let mut provisioning =
        provision_kvm_machine_native(1, 256, "web", bridge, None).expect("within bounds");
    while provisioning.stage() != stage {
        let report = match provisioning.stage() {
            Stage::HostMemory => StepReport::HostMemory(None),
            Stage::OpenKvm => StepReport::MaxVcpus(8),
            Stage::ApiVersion => StepReport::ApiVersion(12),
            Stage::FindKernel => StepReport::KernelFound(true),
            _ => StepReport::Done,
        };
        provisioning.advance(report).expect("accepted");
    }
    provisioning
}

#[test]
fn a_tap_that_was_set_up_is_removed_on_every_way_out() {
    let tap = derive_tap_name("web");
    let removal = vec!["link", "del", tap.as_str()];
    assert!(provisioned_up_to(Some("br0"), Stage::SetupTap).cleanup().is_empty());
    assert_eq!(provisioned_up_to(Some("br0"), Stage::Finished).cleanup(), removal);
    assert!(provisioned_up_to(None, Stage::Finished).cleanup().is_empty());

    let mut no_tap = provisioned_up_to(Some("br0"), Stage::SetupTap);
    assert_eq!(no_tap.advance(StepReport::Failed), Err(ProvisionError::Step(Stage::SetupTap)));
    assert!(no_tap.cleanup().is_empty());
    let mut no_kernel = provisioned_up_to(Some("br0"), Stage::FindKernel);
    assert_eq!(no_kernel.advance(StepReport::KernelFound(false)), Err(ProvisionError::KernelMissing));
    assert_eq!(no_kernel.cleanup(), removal);
    let mut crashed = provisioned_up_to(Some("br0"), Stage::Run);
    assert_eq!(crashed.advance(StepReport::Failed), Err(ProvisionError::Step(Stage::Run)));
    assert_eq!(crashed.cleanup(), removal);
}

#[test]
fn each_provisioning_error_has_its_message() {
    let blank = provision_kvm_machine_native(2, 256, "   ", None, None).map(|_| ()).expect_err("blank name");
    assert_eq!(blank.message("./vmlinux", ""), "the VM name must not be empty");
    assert_eq!(
        ProvisionError::Spec(SpecError::ZeroVcpu).message("", ""),
        "vCPU count must be at least 1"
    );
    assert_eq!(
        ProvisionError::HostMemory { requested: 900, cap: 744, available: 1000 }.message("", ""),
        "requested 900 MiB of RAM but this host can safely grant at most 744 MiB (1000 MiB available, 256 MiB \
         reserved for the host)"
    );
    assert_eq!(
        ProvisionError::HostVcpus { requested: 8, cap: 4 }.message("", ""),
        "requested 8 vCPU(s) but this host's KVM supports at most 4"
    );
    assert_eq!(
        ProvisionError::ApiVersion { found: -1 }.message("", ""),
        "incompatible KVM API version: expected 12, got -1"
    );
    assert_eq!(
        ProvisionError::KernelMissing.message("/k", ""),
        "kernel image '/k' not found. Point ai-vmm at a vmlinux (ELF) kernel: set the AI_VMM_KERNEL environment \
         variable, add a `kernel_path` entry to credentials.toml, or place a 'vmlinux' file in the working \
         directory. The README explains how to obtain a kernel image."
    );
    for (stage, text) in [
        (Stage::SetTss, "failed to set the KVM TSS address: why"),
        (Stage::CreateIrqChip, "failed to create the in-kernel IRQCHIP: why"),
        (Stage::CreatePit, "failed to create the in-kernel PIT (i8254): why"),
        (Stage::AllocateMemory, "guest memory allocation failed: why"),
        (Stage::QueryCpuid, "failed to query the host's supported CPUID: why"),
        (Stage::SetCpuid(13), "failed to set guest CPUID on vCPU 13: why"),
        (Stage::RegisterIrqfd, "failed to register the virtio-blk irqfd: why"),
        (Stage::Run, "why"),
    ] {
        assert_eq!(ProvisionError::Step(stage).message("", "why"), text);
    }
}

#[test]
fn the_tap_that_is_set_up_is_the_one_that_is_removed() {
    let provisioning = provisioned_up_to(Some(" br0 "), Stage::SetupTap);
    let setup = provisioning.tap_setup().expect("a bridge").expect("a safe name");
    assert_eq!(setup.tap_name(), derive_tap_name("web"));
    assert_eq!(setup.state(), TapState::Probing);
    assert!(provisioned_up_to(None, Stage::FindKernel).tap_setup().is_none());
    let bad_name = provisioned_up_to(Some("b/r"), Stage::SetupTap);
    assert!(matches!(bad_name.tap_setup(), Some(Err(NetworkError::UnsafeBridgeName))));
}

#[test]
fn a_host_without_kvm_says_what_was_asked_for() {
    assert_eq!(
        unavailable_message(2, 512, "web", Some(" br0 "), None, "macos"),
        "KVM unavailable: VM 'web' (2 vCPU / 512 MiB, i.e. 536870912 bytes, bridge 'br0') can only be \
         provisioned on a Linux host that exposes /dev/kvm. Current platform: macos."
    );
    assert!(unavailable_message(1, 8, "a", None, None, "x").contains("8388608 bytes, no bridge)"));
    assert_eq!(unavailable_message(1, 8, " ", None, None, "x"), "the VM name must not be empty");
    assert_eq!(unavailable_message(0, 8, "a", None, None, "x"), "vCPU count must be at least 1");
}

#[test]
fn each_run_error_has_its_message() {
    assert_eq!(RunError::ConsoleFailed.message("Broken pipe"), "Broken pipe");
    assert_eq!(RunError::RunFailed { errno: 5 }.message("I/O error"), "I/O error");
    assert_eq!(RunError::TripleFault.message(""), "guest triple-faulted (VcpuExit::Shutdown)");
    assert_eq!(RunError::FailEntry.message(""), "KVM could not enter the guest (VcpuExit::FailEntry)");
    assert_eq!(
        RunError::InternalError.message(""),
        "KVM reported an internal error (VcpuExit::InternalError)"
    );
    assert_eq!(RunError::BusPoisoned.message(""), "MMIO bus mutex poisoned");
}

#[test]
fn each_meminfo_error_has_its_message() {
    assert_eq!(MemInfoError::Missing.as_str(), "MemAvailable not found in /proc/meminfo");
    assert_eq!(MemInfoError::Malformed.as_str(), "malformed MemAvailable line in /proc/meminfo");
    // A number that is none is reported as std's integer parser reports it.
    for word in ["x", "12x", "-5", "+", "99999999999999999999", "99999999999999999999x", "+18446744073709551616"] {
        let error = parse_available_memory_mb(&format!("MemAvailable: {word} kB\n")).expect_err("no number");
        assert_eq!(error.as_str(), word.parse::<u64>().expect_err("no number").to_string(), "{word}");
    }
}

#[test]
fn provisioning_takes_its_steps_in_order() {
    let mut provisioning =
        provision_kvm_machine_native(2, 256, "web", Some("br0"), Some("/disk")).expect("within bounds");
    assert_eq!(provisioning.spec().vcpus, 2);
    let reports = vec![
        (Stage::HostMemory, StepReport::HostMemory(Some(4096))),
        (Stage::OpenKvm, StepReport::MaxVcpus(1024)),
        (Stage::ApiVersion, StepReport::ApiVersion(12)),
        (Stage::CreateVm, StepReport::Done),
        (Stage::SetTss, StepReport::Done),
        (Stage::CreateIrqChip, StepReport::Done),
        (Stage::CreatePit, StepReport::Done),
        (Stage::AllocateMemory, StepReport::Done),
        (Stage::RegisterMemory, StepReport::Done),
        (Stage::QueryCpuid, StepReport::Done),
        (Stage::CreateVcpu(0), StepReport::Done),
        (Stage::SetCpuid(0), StepReport::Done),
        (Stage::CreateVcpu(1), StepReport::Done),
        (Stage::SetCpuid(1), StepReport::Done),
        (Stage::SetupTap, StepReport::Done),
        (Stage::FindKernel, StepReport::KernelFound(true)),
        (Stage::LoadKernel, StepReport::Done),
        (Stage::BootMemory, StepReport::Done),
        (Stage::VcpuRegisters(0), StepReport::Done),
        (Stage::VcpuLapic(0), StepReport::Done),
        (Stage::VcpuRegisters(1), StepReport::Done),
        (Stage::VcpuLapic(1), StepReport::Done),
        (Stage::ZeroPage, StepReport::Done),
        (Stage::MpTable, StepReport::Done),
        (Stage::OpenDisk, StepReport::Done),
        (Stage::RegisterIrqfd, StepReport::Done),
        (Stage::Run, StepReport::Done),
    ];
    for (stage, report) in reports {
        assert_eq!(provisioning.stage(), stage);
        assert_eq!(provisioning.advance(report), Ok(()));
    }
    assert_eq!(provisioning.stage(), Stage::Finished);
    assert!(exit_message("web").contains("web"));
}

#[test]
fn each_provisioning_error_has_its_input() {
    assert_eq!(
        provision_kvm_machine_native(2, 256, " ", None, None).map(|_| ()),
        Err(ProvisionError::EmptyName)
    );
    assert_eq!(
        provision_kvm_machine_native(0, 256, "x", None, None).map(|_| ()),
        Err(ProvisionError::Spec(SpecError::ZeroVcpu))
    );
    let mut few = provision_kvm_machine_native(8, 256, "x", None, None).expect("within bounds");
    assert_eq!(few.advance(StepReport::HostMemory(None)), Ok(()));
    assert_eq!(
        few.advance(StepReport::MaxVcpus(4)),
        Err(ProvisionError::HostVcpus { requested: 8, cap: 4 })
    );
    let mut old = provision_kvm_machine_native(1, 256, "x", None, None).expect("within bounds");
    assert_eq!(old.advance(StepReport::HostMemory(None)), Ok(()));
    assert_eq!(old.advance(StepReport::MaxVcpus(4)), Ok(()));
    assert_eq!(old.advance(StepReport::ApiVersion(11)), Err(ProvisionError::ApiVersion { found: 11 }));
    let mut failing = provision_kvm_machine_native(1, 256, "x", None, None).expect("within bounds");
    assert_eq!(failing.advance(StepReport::HostMemory(None)), Ok(()));
    assert_eq!(failing.advance(StepReport::Failed), Err(ProvisionError::Step(Stage::OpenKvm)));
}
