use ai_vmm::agent::ExecutionPlan;
use ai_vmm::registry::{
    first_kept_index, time_since_epoch, unix_now, Ledger, VmLifecycle, VmRecord, MAX_RECORDS,
};

/// Builds a minimal plan with the given VM name.
fn plan(name: &str) -> ExecutionPlan {
    ExecutionPlan {
        vcpus: 2,
        memory_mb: 2048,
        vm_name: name.to_string(),
        network_bridge: None,
        disk_image_path: None,
    }
}

#[test]
fn record_then_get_round_trips() {
    let mut ledger = Ledger::default();
    ledger.record(&plan("db-prod"));
    let record = ledger.get("db-prod").expect("record present");
    assert_eq!(record.vcpus, 2);
    assert_eq!(record.memory_mb, 2048);
}

#[test]
fn recording_the_same_name_replaces_not_duplicates() {
    let mut ledger = Ledger::default();
    ledger.record(&plan("web"));
    ledger.record(&plan("web"));
    assert_eq!(ledger.records().len(), 1);
}

#[test]
fn ledger_is_capped_at_max_records() {
    let mut ledger = Ledger::default();
    for index in 0..(MAX_RECORDS + 20) {
        ledger.record(&plan(&format!("vm-{index}")));
    }
    assert_eq!(ledger.records().len(), MAX_RECORDS);
    // The oldest record rolled off; the newest survived.
    assert!(ledger.get("vm-0").is_none());
    assert!(ledger.get(&format!("vm-{}", MAX_RECORDS + 19)).is_some());
}

#[test]
fn forget_removes_a_record() {
    let mut ledger = Ledger::default();
    ledger.record(&plan("temp"));
    assert!(ledger.forget("temp"));
    assert!(!ledger.forget("temp"));
    assert!(ledger.get("temp").is_none());
}

#[test]
fn lifecycle_transitions_are_forward_only() {
    // Valid forward edges.
    assert!(VmLifecycle::Booting.can_transition_to(VmLifecycle::Running));
    assert!(VmLifecycle::Booting.can_transition_to(VmLifecycle::Stopped));
    assert!(VmLifecycle::Booting.can_transition_to(VmLifecycle::Failed));
    assert!(VmLifecycle::Running.can_transition_to(VmLifecycle::Stopped));
    assert!(VmLifecycle::Running.can_transition_to(VmLifecycle::Failed));
    // Terminal states are final; nothing returns to Booting; no self-loop.
    assert!(!VmLifecycle::Stopped.can_transition_to(VmLifecycle::Running));
    assert!(!VmLifecycle::Failed.can_transition_to(VmLifecycle::Running));
    assert!(!VmLifecycle::Running.can_transition_to(VmLifecycle::Booting));
    assert!(!VmLifecycle::Running.can_transition_to(VmLifecycle::Running));
}

#[test]
fn set_state_advances_a_record_and_rejects_invalid_transitions() {
    let mut ledger = Ledger::default();
    ledger.record(&plan("api"));
    // A freshly recorded VM starts in `Booting`.
    assert_eq!(ledger.get("api").expect("record").state, VmLifecycle::Booting);
    // A valid forward transition is applied.
    assert!(ledger.set_state("api", VmLifecycle::Stopped));
    assert_eq!(ledger.get("api").expect("record").state, VmLifecycle::Stopped);
    // An invalid transition out of a terminal state is refused.
    assert!(!ledger.set_state("api", VmLifecycle::Running));
    assert_eq!(ledger.get("api").expect("record").state, VmLifecycle::Stopped);
    // An unknown VM is not updated.
    assert!(!ledger.set_state("ghost", VmLifecycle::Failed));
}

#[test]
fn a_record_carries_the_whole_plan() {
    let mut ledger = Ledger::default();
    let full = ExecutionPlan {
        network_bridge: Some("br0".to_string()),
        disk_image_path: Some("/disk".to_string()),
        ..plan("full")
    };
    ledger.record_at(&full, 77);
    let record = ledger.get("full").expect("record");
    assert_eq!(record.network_bridge.as_deref(), Some("br0"));
    assert_eq!(record.disk_image_path.as_deref(), Some("/disk"));
    assert_eq!(record.applied_at, 77);
    assert_eq!(record.state.as_str(), "booting");
}

#[test]
fn records_stay_in_order_and_loaded_ledgers_are_trimmed() {
    let mut ledger = Ledger::default();
    ledger.record_at(&plan("a"), 1);
    ledger.record_at(&plan("b"), 2);
    ledger.record_at(&plan("a"), 3);
    let names: Vec<&str> = ledger.records().iter().map(|r| r.vm_name.as_str()).collect();
    assert_eq!(names, vec!["b", "a"]);

    let many: Vec<VmRecord> = (0..100).map(|i| VmRecord::from_plan(&plan(&format!("vm-{i}")), 0)).collect();
    let mut loaded = Ledger::from_records(many);
    assert_eq!(loaded.records().len(), 100);
    loaded.record_at(&plan("new"), 9);
    assert_eq!(loaded.records().len(), MAX_RECORDS);
    assert_eq!(loaded.records()[0].vm_name, "vm-37");
    assert_eq!(loaded.records()[MAX_RECORDS - 1].vm_name, "new");
}

#[test]
fn room_is_made_for_one_more() {
    assert_eq!(first_kept_index(0), 0);
    assert_eq!(first_kept_index(MAX_RECORDS - 1), 0);
    assert_eq!(first_kept_index(MAX_RECORDS), 1);
    assert_eq!(first_kept_index(MAX_RECORDS + 10), 11);
}

#[test]
fn time_saturates_at_the_epoch() {
    assert_eq!(time_since_epoch(Some(1_700_000_000)), 1_700_000_000);
    assert_eq!(time_since_epoch(Some(u64::MAX)), u64::MAX);
    assert_eq!(time_since_epoch(Some(0)), 0);
    assert_eq!(time_since_epoch(None), 0);
}

#[test]
fn the_clock_is_past_the_epoch() {
    // 2020-09-13; the recorded time is that of the host's clock, in seconds.
    let now = unix_now();
    assert!(now > 1_600_000_000);
    assert!(now < 100_000_000_000);
}

#[test]
fn a_record_without_a_state_counts_as_stopped() {
    assert_eq!(VmLifecycle::default(), VmLifecycle::Stopped);
    assert_eq!(VmLifecycle::Running.as_str(), "running");
    assert_eq!(VmLifecycle::Failed.as_str(), "failed");
    assert_eq!(VmLifecycle::Stopped.as_str(), "stopped");
}
