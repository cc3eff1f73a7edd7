use ai_vmm::agent::ExecutionPlan;
use ai_vmm::console::{
    direct_plan, display_plan, finalize_plan, forget_vm, inspect_vm, is_approval, list_vms, mark_vm_state,
    outcome_state, text_reply_lines, NO_DISK_MESSAGE,
};
use ai_vmm::registry::{Ledger, VmLifecycle};
use ai_vmm::vmm::MemorySizeError;

fn plan() -> ExecutionPlan {
    direct_plan("web".to_string(), 2, "2G", None, Some(" /disk ".to_string())).expect("plan")
}

#[test]
fn explicit_flags_make_a_plan() {
    let made = plan();
    assert_eq!(made.memory_mb, 2048);
    assert_eq!(made.vcpus, 2);
    assert_eq!(made.vm_name, "web");
    assert!(matches!(
        direct_plan("web".to_string(), 2, "lots", None, None),
        Err(MemorySizeError::Malformed)
    ));
}

#[test]
fn a_plan_needs_a_disk() {
    let mut made = plan();
    let kernel = finalize_plan(&mut made, None, None, None, None).expect("disk");
    assert_eq!(kernel, "./vmlinux");
    assert_eq!(made.disk_image_path.as_deref(), Some("/disk"));

    let mut bare = ExecutionPlan { disk_image_path: Some("none".to_string()), ..plan() };
    assert_eq!(finalize_plan(&mut bare, None, None, None, None), Err(NO_DISK_MESSAGE));
    assert_eq!(bare.disk_image_path, None);
    let kernel = finalize_plan(
        &mut bare,
        Some("/env".to_string()),
        Some("/stored".to_string()),
        Some("/kernel".to_string()),
        None,
    )
    .expect("disk");
    assert_eq!(kernel, "/kernel");
    assert_eq!(bare.disk_image_path.as_deref(), Some("/env"));
}

#[test]
fn the_plan_is_shown_for_review() {
    let lines = display_plan(&ExecutionPlan { disk_image_path: None, ..plan() });
    assert_eq!(lines.len(), 8);
    assert_eq!(lines[0], "");
    assert_eq!(lines[2], "  🟢 Action      CREATE");
    assert_eq!(lines[3], "  🖥️  VM          web");
    assert_eq!(lines[4], "  ⚙️  Resources   2 vCPU, 2048 MiB RAM");
    assert_eq!(lines[5], "  🌐 Network     none (isolated VM)");
    assert_eq!(lines[6], "  💾 Storage     none");
}

#[test]
fn only_an_explicit_yes_approves() {
    for answer in vec!["y", "Y", "yes", "YES\r\n", "  yEs  "] {
        assert!(is_approval(answer));
    }
    for answer in vec!["", "\n", "n", "no", "yep", "y e s", "yes!"] {
        assert!(!is_approval(answer));
    }
}

#[test]
fn the_outcome_is_recorded() {
    let mut ledger = Ledger::default();
    ledger.record_at(&plan(), 7);
    assert_eq!(outcome_state(false), VmLifecycle::Failed);
    let line = mark_vm_state(&mut ledger, "web", outcome_state(true)).expect("changed");
    assert_eq!(line, "[ledger] VM 'web' is now stopped.");
    assert_eq!(mark_vm_state(&mut ledger, "web", VmLifecycle::Running), None);
    assert_eq!(mark_vm_state(&mut ledger, "db", VmLifecycle::Running), None);
}

#[test]
fn the_ledger_is_listed() {
    let mut ledger = Ledger::default();
    assert_eq!(list_vms(&ledger), vec!["No VMs recorded yet — run: ai-vmm run \"<intent>\""]);
    ledger.record_at(&plan(), 7);
    ledger.record_at(
        &ExecutionPlan { vm_name: "a-name-of-more-than-24-letters".to_string(), disk_image_path: None, ..plan() },
        7,
    );
    assert_eq!(
        list_vms(&ledger),
        vec![
            "2 VM(s) in the ledger:",
            "  • web                      [booting] 2 vCPU, 2048 MiB RAM, storage:  /disk ",
            "  • a-name-of-more-than-24-letters [booting] 2 vCPU, 2048 MiB RAM, storage: none",
        ]
    );
}

#[test]
fn one_vm_is_shown_and_forgotten() {
    let mut ledger = Ledger::default();
    ledger.record_at(&ExecutionPlan { network_bridge: Some("br0".to_string()), ..plan() }, 1700000000);
    assert_eq!(
        inspect_vm(&ledger, "web").expect("recorded"),
        vec![
            "VM 'web'",
            "  🔄 State       booting",
            "  ⚙️  Resources   2 vCPU, 2048 MiB RAM",
            "  🌐 Network     br0",
            "  💾 Storage      /disk ",
            "  🕐 Applied at  1700000000 (Unix time)",
        ]
    );
    assert_eq!(forget_vm(&mut ledger, "web"), Ok("VM 'web' removed from the ledger.".to_string()));
    assert_eq!(forget_vm(&mut ledger, "web"), Err("no VM named 'web' in the ledger".to_string()));
    assert_eq!(inspect_vm(&ledger, "web"), Err("no VM named 'web' in the ledger".to_string()));
}

#[test]
fn a_text_reply_is_passed_on() {
    assert_eq!(text_reply_lines(" \n").len(), 1);
    assert_eq!(
        text_reply_lines(" hello \n"),
        vec!["[agent] the model did not request any provisioning.", "[agent] reply: hello"]
    );
}
