use ai_vmm::agent::{AgentReply, ExecutionPlan};
use ai_vmm::registry::Ledger;
use ai_vmm::server::{
    check_auth, constant_time_eq, delete_vm, deleted, extract_bearer_token, get_vm, healthz,
    interrupt_arguments, is_valid_vm_name, list_vms, log_file_name, plan, provision_vm,
    request_is_authorized, screen, server_token, stop_target, stop_vm, ApiRequest, Body, Deletion,
    ProvisionRequest, Reply, SignalReport, Supervisor, WorkerStart,
};
use ai_vmm::vmm::parse_memory_mb;

#[test]
fn constant_time_eq_matches_byte_equality() {
    assert!(constant_time_eq(b"secret-token", b"secret-token"));
    assert!(!constant_time_eq(b"secret-token", b"secret-toxen"));
    assert!(!constant_time_eq(b"short", b"longer-value"));
    assert!(constant_time_eq(b"", b""));
}

#[test]
fn extract_bearer_token_requires_the_exact_prefix() {
    assert_eq!(extract_bearer_token("Bearer abc123"), Some("abc123"));
    assert_eq!(extract_bearer_token("Bearer "), Some(""));
    // The prefix is exact and case-sensitive.
    assert_eq!(extract_bearer_token("bearer abc123"), None);
    assert_eq!(extract_bearer_token("Basic abc123"), None);
    assert_eq!(extract_bearer_token("abc123"), None);
    assert_eq!(extract_bearer_token(""), None);
}

#[test]
fn authorization_requires_an_exact_token_match() {
    assert!(request_is_authorized(Some("right-token"), "right-token"));
    assert!(!request_is_authorized(Some("wrong-token"), "right-token"));
    assert!(!request_is_authorized(None, "right-token"));
    // An unset (empty) server token authorizes nobody.
    assert!(!request_is_authorized(Some(""), ""));
    assert!(!request_is_authorized(None, ""));
}

#[test]
fn vm_name_validation_accepts_safe_names_and_rejects_unsafe() {
    assert!(is_valid_vm_name("db-prod"));
    assert!(is_valid_vm_name("web01"));
    assert!(is_valid_vm_name("vm.test_3"));
    // Empty, over-long, or a non-alphanumeric first byte are rejected.
    assert!(!is_valid_vm_name(""));
    assert!(!is_valid_vm_name(&"a".repeat(65)));
    assert!(!is_valid_vm_name("-rf")); // would be parsed as a flag
    assert!(!is_valid_vm_name(".hidden"));
    // Path separators and metacharacters are rejected.
    assert!(!is_valid_vm_name("a/b"));
    assert!(!is_valid_vm_name("a b"));
    assert!(!is_valid_vm_name("a;b"));
}

#[test]
fn the_longest_name_and_other_alphabets() {
    assert!(is_valid_vm_name(&"a".repeat(64)));
    assert!(!is_valid_vm_name("größe"));
    assert!(!is_valid_vm_name("a\0b"));
}

/// The JSON text of a body.
fn shown(reply: &Reply) -> String {
    reply.body.text().expect("a body")
}

fn wanted(name: &str, vcpus: u32, memory_mb: u32) -> ProvisionRequest {
    ProvisionRequest {
        name: name.to_string(),
        vcpus,
        memory_mb,
        disk_image_path: Some(" ./rootfs.ext4 ".to_string()),
    }
}

#[test]
fn only_the_probe_is_answered_without_a_token() {
    let probe = screen(&ApiRequest::Health, None, "t").expect("answered at once");
    assert_eq!(probe.status, 200);
    assert_eq!(shown(&probe), "{\"status\":\"ok\"}");
    assert_eq!(shown(&healthz()), "{\"status\":\"ok\"}");

    for request in vec![
        ApiRequest::Plan { intent: "x".to_string() },
        ApiRequest::ListVms,
        ApiRequest::GetVm { name: "x".to_string() },
        ApiRequest::DeleteVm { name: "x".to_string() },
        ApiRequest::ProvisionVm(wanted("-bad", 0, 0)),
        ApiRequest::StopVm { name: "x".to_string() },
    ] {
        for header in vec![None, Some("Bearer wrong"), Some("t"), Some("bearer t")] {
            let reply = screen(&request, header, "t").expect("refused");
            assert_eq!(reply.status, 401);
            assert_eq!(shown(&reply), "{\"error\":\"missing or invalid bearer token\"}");
        }
    }
    assert!(screen(&ApiRequest::ListVms, Some("Bearer t"), "t").is_none());
    assert!(check_auth(Some("Bearer t"), "t").is_none());
    assert!(check_auth(Some("Bearer "), "").is_some());
}

#[test]
fn senseless_requests_are_refused() {
    let token = Some("Bearer t");
    let blank = ApiRequest::Plan { intent: " \n".to_string() };
    let reply = screen(&blank, token, "t").expect("refused");
    assert_eq!(reply.status, 400);
    assert_eq!(shown(&reply), "{\"error\":\"the 'intent' field must not be empty\"}");

    let bad_name = screen(&ApiRequest::ProvisionVm(wanted("a/b", 2, 256)), token, "t").expect("refused");
    assert_eq!(bad_name.status, 400);
    assert_eq!(
        shown(&bad_name),
        "{\"error\":\"invalid VM name: 1-64 bytes, starting with a letter or digit, containing only letters, digits, '_', '-' or '.'\"}"
    );
    let bad_spec = screen(&ApiRequest::ProvisionVm(wanted("vm", 0, 256)), token, "t").expect("refused");
    assert_eq!(bad_spec.status, 400);
    assert!(screen(&ApiRequest::ProvisionVm(wanted("vm", 2, 256)), token, "t").is_none());
}

fn ledger_with(name: &str) -> Ledger {
    let mut ledger = Ledger::default();
    ledger.record_at(
        &ExecutionPlan {
            vcpus: 2,
            memory_mb: 2048,
            vm_name: name.to_string(),
            network_bridge: None,
            disk_image_path: None,
        },
        5,
    );
    ledger
}

#[test]
fn the_ledger_is_served() {
    let record = "{\"vm_name\":\"web\",\"vcpus\":2,\"memory_mb\":2048,\"network_bridge\":null,\"disk_image_path\":null,\"applied_at\":5,\"state\":\"booting\"}";
    let listed = list_vms(&Ok(ledger_with("web")));
    assert_eq!(listed.status, 200);
    assert_eq!(shown(&listed), format!("{{\"vms\":[{record}]}}"));
    assert_eq!(shown(&list_vms(&Ok(Ledger::default()))), "{\"vms\":[]}");
    let found = get_vm(&Ok(ledger_with("web")), "web");
    assert_eq!(found.status, 200);
    assert_eq!(shown(&found), record);
    let missing = get_vm(&Ok(ledger_with("web")), "db");
    assert_eq!(missing.status, 404);
    assert_eq!(shown(&missing), "{\"error\":\"no VM named 'db'\"}");
    let broken = list_vms(&Err("no ledger".to_string()));
    assert_eq!(broken.status, 500);
    assert_eq!(shown(&broken), "{\"error\":\"no ledger\"}");
    assert_eq!(get_vm(&Err("no ledger".to_string()), "web").status, 500);
}

#[test]
fn a_vm_is_deleted_once() {
    match delete_vm(Ok(ledger_with("web")), "web") {
        Deletion::Save(ledger) => assert!(ledger.records().is_empty()),
        Deletion::Reply(reply) => panic!("expected a change, got {reply:?}"),
    }
    match delete_vm(Ok(ledger_with("web")), "db") {
        Deletion::Reply(reply) => assert_eq!(reply.status, 404),
        Deletion::Save(_) => panic!("nothing to delete"),
    }
    match delete_vm(Err("no ledger".to_string()), "web") {
        Deletion::Reply(reply) => assert_eq!(reply.status, 500),
        Deletion::Save(_) => panic!("nothing to save"),
    }
    let done = deleted(Ok(()));
    assert_eq!(done.status, 204);
    assert!(matches!(done.body, Body::Empty));
    assert_eq!(deleted(Err("disk full".to_string())).status, 500);
}

#[test]
fn a_plan_a_message_or_a_bad_gateway() {
    let made = ExecutionPlan {
        vcpus: 1,
        memory_mb: 64,
        vm_name: "x".to_string(),
        network_bridge: Some("br\"0".to_string()),
        disk_image_path: None,
    };
    let planned = plan(Ok(AgentReply::Plan(made)));
    assert_eq!(planned.status, 200);
    assert_eq!(
        shown(&planned),
        "{\"kind\":\"plan\",\"plan\":{\"vcpus\":1,\"memory_mb\":64,\"vm_name\":\"x\",\"network_bridge\":\"br\\\"0\",\"disk_image_path\":null}}"
    );
    let said = plan(Ok(AgentReply::Text("  hello \n".to_string())));
    assert_eq!(said.status, 200);
    assert_eq!(shown(&said), "{\"kind\":\"message\",\"message\":\"hello\"}");
    let failed = plan(Err("timeout".to_string()));
    assert_eq!(failed.status, 502);
    assert_eq!(shown(&failed), "{\"error\":\"timeout\"}");
}

const TOKEN: &str = "secret";
const HEADER: Option<&str> = Some("Bearer secret");

/// The worker of a VM called "web" that no other worker keeps from starting.
fn web_worker() -> WorkerStart {
    let log = Ok("/logs/web.log".to_string());
    provision_vm(&wanted("web", 2, 256), HEADER, TOKEN, None, None, log, Some(&Supervisor::new())).expect("start")
}

#[test]
fn a_vm_runs_at_most_once() {
    let mut supervisor = Supervisor::new();
    assert!(supervisor.reserve("web").is_none());
    let started = supervisor.started(&web_worker(), Ok(4711));
    assert_eq!(started.status, 202);
    assert_eq!(
        shown(&started),
        "{\"log\":\"/logs/web.log\",\"name\":\"web\",\"status\":\"provisioning\"}"
    );
    let again = supervisor.reserve("web").expect("refused");
    assert_eq!(again.status, 409);
    assert_eq!(shown(&again), "{\"error\":\"a VM named 'web' is already running\"}");
    assert!(supervisor.reserve("db").is_none());
    assert_eq!(stop_target("web", HEADER, TOKEN, Some(&supervisor)).expect("runs"), 4711);
    assert_eq!(stop_target("web", None, TOKEN, Some(&supervisor)).expect_err("no token").status, 401);
    supervisor.reaped("web");
    assert!(supervisor.reserve("web").is_none());
    let gone = stop_target("web", HEADER, TOKEN, Some(&supervisor)).expect_err("exited");
    assert_eq!(gone.status, 404);
    assert_eq!(shown(&gone), "{\"error\":\"no running VM named 'web'\"}");
}

#[test]
fn a_worker_that_does_not_start_leaves_no_trace() {
    let mut supervisor = Supervisor::new();
    let failed = supervisor.started(&web_worker(), Err("no such file".to_string()));
    assert_eq!(failed.status, 500);
    assert_eq!(shown(&failed), "{\"error\":\"no such file\"}");
    assert!(supervisor.reserve("web").is_none());
    let poisoned = stop_target("web", HEADER, TOKEN, None).expect_err("no registry");
    assert_eq!(poisoned.status, 500);
    assert_eq!(shown(&poisoned), "{\"error\":\"supervisor registry mutex poisoned\"}");
}

#[test]
fn worker_arguments_carry_the_request() {
    let start = web_worker();
    assert_eq!(start.name(), "web");
    assert_eq!(start.log_path(), "/logs/web.log");
    // The worker reads back what was asked for.
    let arguments = start.arguments();
    assert_eq!(
        *arguments,
        vec!["provision", "--name", "web", "--vcpus", "2", "--memory", "256", "--disk", "./rootfs.ext4"]
    );
    assert_eq!(arguments[4].parse(), Ok(2));
    assert_eq!(parse_memory_mb(&arguments[6]), Ok(256));
    assert_eq!(log_file_name("web"), "web.log");
    assert_eq!(interrupt_arguments(4711), vec!["-INT", "4711"]);
}

#[test]
fn a_requested_vm_is_started_or_refused() {
    let mut supervisor = Supervisor::new();
    let log = || Ok("/logs/web.log".to_string());
    let web = wanted("web", 2, 256);
    let bare = ProvisionRequest { disk_image_path: None, ..wanted("web", 2, 256) };
    let stored = Some("/default".to_string());
    let start = provision_vm(&bare, HEADER, TOKEN, None, stored, log(), Some(&supervisor)).expect("start");
    assert_eq!(start.arguments()[8], "/default");

    let no_disk = provision_vm(&bare, HEADER, TOKEN, None, None, Err("no directory".to_string()), None)
        .expect_err("no disk");
    assert_eq!(no_disk.status, 400);
    assert_eq!(
        shown(&no_disk),
        "{\"error\":\"no root-filesystem disk: set disk_image_path, or configure a default\"}"
    );
    let no_log = provision_vm(&web, HEADER, TOKEN, None, None, Err("no directory".to_string()), None)
        .expect_err("no log");
    assert_eq!(shown(&no_log), "{\"error\":\"no directory\"}");
    let poisoned = provision_vm(&web, HEADER, TOKEN, None, None, log(), None).expect_err("no registry");
    assert_eq!(shown(&poisoned), "{\"error\":\"supervisor registry mutex poisoned\"}");
    supervisor.started(&start, Ok(1));
    let again = provision_vm(&web, HEADER, TOKEN, None, None, log(), Some(&supervisor)).expect_err("runs");
    assert_eq!(again.status, 409);
}

#[test]
fn no_worker_is_started_for_a_request_that_is_screened_out() {
    let supervisor = Supervisor::new();
    let refused = |request: &ProvisionRequest, header: Option<&str>, token: &str| {
        let log = Ok("/logs/x.log".to_string());
        provision_vm(request, header, token, None, None, log, Some(&supervisor)).expect_err("refused")
    };
    assert_eq!(refused(&wanted("web", 2, 256), None, TOKEN).status, 401);
    assert_eq!(refused(&wanted("web", 2, 256), Some("Bearer wrong"), TOKEN).status, 401);
    assert_eq!(refused(&wanted("web", 2, 256), Some("Bearer "), "").status, 401);
    assert_eq!(refused(&wanted("../web", 2, 256), HEADER, TOKEN).status, 400);
    assert_eq!(refused(&wanted("web", 0, 256), HEADER, TOKEN).status, 400);
}

#[test]
fn stopping_reports_how_it_went() {
    let sent = stop_vm("web", SignalReport::Sent);
    assert_eq!(sent.status, 202);
    assert_eq!(shown(&sent), "{\"name\":\"web\",\"status\":\"stopping\"}");
    let refused = stop_vm("web", SignalReport::Refused(" no such process\n".to_string()));
    assert_eq!(refused.status, 500);
    assert_eq!(shown(&refused), "{\"error\":\"could not signal the VM worker: no such process\"}");
    let not_run = stop_vm("web", SignalReport::NotRun("not found".to_string()));
    assert_eq!(not_run.status, 500);
    assert_eq!(shown(&not_run), "{\"error\":\"could not run 'kill': not found\"}");
}

#[test]
fn the_server_needs_a_secret() {
    assert_eq!(server_token(Some("  secret \n".to_string())), Ok("secret".to_string()));
    assert!(server_token(Some("  ".to_string())).is_err());
    assert_eq!(
        server_token(None),
        Err("set AI_VMM_API_TOKEN to a non-empty secret before starting the server")
    );
}
