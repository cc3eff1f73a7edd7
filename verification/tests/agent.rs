use ai_vmm::agent::prompts::{tool_specs, SYSTEM_PROMPT};
use ai_vmm::agent::{
    accept_response, anthropic_tools, append_tool_results, build_plan, build_request, default_model, execute_local_tool,
    normalize_optional, openai_tools, parse_anthropic_turn, parse_openai_turn, parse_turn, read_response,
    run_local_tool, AgentError, AgentReply, Conversation, ExecutionPlan, ModelTurn, PlanError, ToolCall,
    TurnOutcome, MAX_TURNS,
};
use ai_vmm::config::{AiProvider, ProviderSettings};
use ai_vmm::json::{parse_json, render_json, Json};
use ai_vmm::registry::Ledger;

fn json(text: &str) -> Json {
    parse_json(text).expect("valid JSON")
}

#[test]
fn normalizes_model_supplied_optionals() {
    assert_eq!(normalize_optional(None), None);
    assert_eq!(normalize_optional(Some("")), None);
    assert_eq!(normalize_optional(Some("   ")), None);
    assert_eq!(normalize_optional(Some("none")), None);
    assert_eq!(normalize_optional(Some("NONE")), None);
    assert_eq!(
        normalize_optional(Some("  ./rootfs.ext4  ")),
        Some("./rootfs.ext4".to_string())
    );
}

#[test]
fn build_plan_extracts_every_field() {
    let plan = build_plan(&json(
        "{\"vcpus\": 4, \"memory_mb\": 8192, \"vm_name\": \"db-prod\", \"network_bridge\": \"br0\", \"disk_image_path\": \"./rootfs.ext4\"}",
    ))
    .expect("a complete tool call yields a plan");
    assert_eq!(plan.vcpus, 4);
    assert_eq!(plan.memory_mb, 8192);
    assert_eq!(plan.vm_name, "db-prod");
    assert_eq!(plan.network_bridge.as_deref(), Some("br0"));
    assert_eq!(plan.disk_image_path.as_deref(), Some("./rootfs.ext4"));
}

#[test]
fn build_plan_rejects_missing_required_field() {
    assert!(build_plan(&json("{ \"memory_mb\": 2048, \"vm_name\": \"x\" }")).is_err());
}

#[test]
fn parses_an_anthropic_tool_call() {
    let response = json(
        "{\"stop_reason\": \"tool_use\", \"content\": [
            { \"type\": \"text\", \"text\": \"Checking the registry.\" },
            { \"type\": \"tool_use\", \"id\": \"tu_1\", \"name\": \"list_vms\", \"input\": {} }
        ]}",
    );
    match parse_anthropic_turn(&response).expect("parse") {
        ModelTurn::Calls { calls, .. } => {
            assert_eq!(calls.len(), 1);
            assert_eq!(calls[0].name, "list_vms");
            assert_eq!(calls[0].id, "tu_1");
        },
        ModelTurn::Text(_) => panic!("expected a tool call"),
    }
}

#[test]
fn parses_an_anthropic_text_reply() {
    let response = json(
        "{\"stop_reason\": \"end_turn\", \"content\": [{ \"type\": \"text\", \"text\": \"Hello operator.\" }]}",
    );
    match parse_anthropic_turn(&response).expect("parse") {
        ModelTurn::Text(text) => assert_eq!(text, "Hello operator."),
        ModelTurn::Calls { .. } => panic!("expected a text reply"),
    }
}

#[test]
fn parses_an_openai_tool_call_with_string_arguments() {
    let response = json(
        "{\"choices\": [{ \"message\": {
            \"role\": \"assistant\",
            \"content\": null,
            \"tool_calls\": [{
                \"id\": \"call_1\",
                \"type\": \"function\",
                \"function\": { \"name\": \"inspect_vm\", \"arguments\": \"{\\\"name\\\":\\\"db-prod\\\"}\" }
            }]
        }}]}",
    );
    match parse_openai_turn(&response).expect("parse") {
        ModelTurn::Calls { calls, .. } => {
            assert_eq!(calls.len(), 1);
            assert_eq!(calls[0].name, "inspect_vm");
            // OpenAI ships arguments as a JSON string; it must be decoded.
            assert_eq!(
                calls[0].arguments.get("name").and_then(|v| v.as_str()),
                Some("db-prod")
            );
        },
        ModelTurn::Text(_) => panic!("expected a tool call"),
    }
}

#[test]
fn parses_an_openai_text_reply() {
    let response = json(
        "{\"choices\": [{ \"message\": { \"role\": \"assistant\", \"content\": \"Nothing to do.\" } }]}",
    );
    match parse_openai_turn(&response).expect("parse") {
        ModelTurn::Text(text) => assert_eq!(text, "Nothing to do."),
        ModelTurn::Calls { .. } => panic!("expected a text reply"),
    }
}

#[test]
fn both_tool_formats_expose_the_three_tools() {
    let anthropic = anthropic_tools();
    let openai = openai_tools();
    assert_eq!(anthropic.as_array().map(Vec::len), Some(3));
    assert_eq!(openai.as_array().map(Vec::len), Some(3));
    // Anthropic uses `input_schema`; OpenAI nests under `function`.
    let first_anthropic = &anthropic.as_array().expect("list")[0];
    let first_openai = &openai.as_array().expect("list")[0];
    assert!(first_anthropic.get("input_schema").is_some());
    assert_eq!(
        first_openai.get("type").and_then(|v| v.as_str()),
        Some("function")
    );
    assert!(first_openai.get("function").is_some());
}

#[test]
fn every_plan_error_has_its_input() {
    let cases = vec![
        ("{}", PlanError::MissingVcpus, "missing or non-integer 'vcpus' argument"),
        ("{\"vcpus\": \"2\"}", PlanError::MissingVcpus, "missing or non-integer 'vcpus' argument"),
        ("{\"vcpus\": 1.5}", PlanError::MissingVcpus, "missing or non-integer 'vcpus' argument"),
        ("{\"vcpus\": -1}", PlanError::MissingVcpus, "missing or non-integer 'vcpus' argument"),
        ("{\"vcpus\": 4294967296}", PlanError::VcpusOutOfRange, "'vcpus' argument out of 32-bit integer range"),
        ("{\"vcpus\": 1}", PlanError::MissingMemory, "missing or non-integer 'memory_mb' argument"),
        (
            "{\"vcpus\": 1, \"memory_mb\": 4294967296}",
            PlanError::MemoryOutOfRange,
            "'memory_mb' argument out of 32-bit integer range",
        ),
        (
            "{\"vcpus\": 1, \"memory_mb\": 4294967295, \"vm_name\": 7}",
            PlanError::MissingName,
            "missing or non-string 'vm_name' argument",
        ),
    ];
    for (text, error, message) in cases {
        let found = build_plan(&json(text)).expect_err("no plan");
        assert_eq!(found, error);
        assert_eq!(found.as_str(), message);
    }
    let plan = build_plan(&json(
        "{\"vcpus\": 1, \"memory_mb\": 8, \"vm_name\": \"x\", \"network_bridge\": null, \"disk_image_path\": \" NONE \"}",
    ))
    .expect("a plan");
    assert_eq!(plan.network_bridge, None);
    assert_eq!(plan.disk_image_path, None);
}

#[test]
fn malformed_responses_are_reported() {
    let no_content = parse_turn(AiProvider::Anthropic, &json("{\"content\": 3}")).expect_err("malformed");
    assert_eq!(no_content.message(), "invalid Anthropic response: missing or malformed 'content' field");
    let no_call = parse_turn(
        AiProvider::Anthropic,
        &json("{\"stop_reason\": \"tool_use\", \"content\": [{\"type\": \"text\", \"text\": \"hm\"}]}"),
    )
    .expect_err("malformed");
    assert_eq!(
        no_call.message(),
        "Anthropic stop_reason is 'tool_use' but no tool_use block was found"
    );
    for text in vec!["{}", "{\"choices\": []}", "{\"choices\": [{}]}", "{\"choices\": {}}"] {
        let error = parse_turn(AiProvider::OpenAiCompatible, &json(text)).expect_err("malformed");
        assert_eq!(error.message(), "invalid OpenAI response: missing 'choices[0].message'");
    }
    let no_function = parse_openai_turn(&json(
        "{\"choices\": [{\"message\": {\"tool_calls\": [{\"id\": \"c\"}]}}]}",
    ))
    .expect_err("malformed");
    assert_eq!(no_function.message(), "an OpenAI tool_call is missing its 'function' field");
    let bad_arguments = parse_openai_turn(&json(
        "{\"choices\": [{\"message\": {\"tool_calls\": [{\"function\": {\"name\": \"f\", \"arguments\": \"{\"}}]}}]}",
    ))
    .expect_err("malformed");
    assert!(bad_arguments.message().starts_with("OpenAI tool 'f' sent malformed arguments: "));
}

#[test]
fn the_arguments_of_a_tool_call_are_an_object() {
    for arguments in ["[]", "7", "null", "\\\"x\\\""] {
        let error = parse_openai_turn(&json(&format!(
            "{{\"choices\": [{{\"message\": {{\"tool_calls\": [{{\"function\": {{\"name\": \"f\", \"arguments\": \"{arguments}\"}}}}]}}}}]}}"
        )))
        .expect_err("not an object");
        assert!(matches!(error, AgentError::MalformedArguments { .. }));
        assert_eq!(error.message(), "OpenAI tool 'f' sent malformed arguments: not a JSON object");
    }
    for input in ["[]", "7", "null", "\"x\""] {
        let error = parse_anthropic_turn(&json(&format!(
            "{{\"stop_reason\": \"tool_use\", \"content\": [{{\"type\": \"tool_use\", \"name\": \"f\", \"input\": {input}}}]}}"
        )))
        .expect_err("not an object");
        assert!(matches!(error, AgentError::ArgumentsNotObject { .. }));
        assert_eq!(error.message(), "Anthropic tool 'f' sent malformed arguments: not a JSON object");
    }
    // A block that is no tool call may hold anything.
    let turn = parse_anthropic_turn(&json(
        "{\"stop_reason\": \"tool_use\", \"content\": [{\"type\": \"text\", \"input\": 7}, {\"type\": \"tool_use\", \"input\": {\"a\": 1}}]}",
    ))
    .expect("a call");
    match turn {
        ModelTurn::Calls { calls, .. } => assert_eq!(render_json(&calls[0].arguments), "{\"a\":1}"),
        other => panic!("expected a tool call, got {other:?}"),
    }
}

#[test]
fn defaults_of_a_tool_call() {
    match parse_openai_turn(&json("{\"choices\": [{\"message\": {\"tool_calls\": [{\"function\": {}}]}}]}")) {
        Ok(ModelTurn::Calls { calls, assistant_message }) => {
            assert_eq!(calls[0].id, "");
            assert_eq!(calls[0].name, "");
            assert_eq!(render_json(&calls[0].arguments), "{}");
            assert!(assistant_message.get("tool_calls").is_some());
        },
        other => panic!("expected a tool call, got {other:?}"),
    }
    match parse_anthropic_turn(&json("{\"stop_reason\": \"tool_use\", \"content\": [{\"type\": \"tool_use\"}]}")) {
        Ok(ModelTurn::Calls { calls, assistant_message }) => {
            assert_eq!(render_json(&calls[0].arguments), "{}");
            assert_eq!(
                render_json(&assistant_message),
                "{\"content\":[{\"type\":\"tool_use\"}],\"role\":\"assistant\"}"
            );
        },
        other => panic!("expected a tool call, got {other:?}"),
    }
}

#[test]
fn text_blocks_are_joined_by_lines() {
    let response = json(
        "{\"content\": [{\"type\": \"text\", \"text\": \"a\"}, {\"type\": \"image\"}, {\"type\": \"text\"}, {\"type\": \"text\", \"text\": \"b\"}]}",
    );
    match parse_anthropic_turn(&response).expect("parse") {
        ModelTurn::Text(text) => assert_eq!(text, "a\nb"),
        ModelTurn::Calls { .. } => panic!("expected a text reply"),
    }
}

fn settings(provider: AiProvider) -> ProviderSettings {
    ProviderSettings { provider, api_key: None, base_url: None, model: None }
}

#[test]
fn the_hosted_request_carries_key_version_and_conversation() {
    let conversation = Conversation::begin(AiProvider::Anthropic, "make a VM");
    let missing = conversation.request(&settings(AiProvider::Anthropic), "hosted-1").expect_err("no key");
    assert_eq!(missing.message(), "the Anthropic provider requires an API key");

    let keyed = ProviderSettings { api_key: Some("sk".to_string()), ..settings(AiProvider::Anthropic) };
    let request = conversation.request(&keyed, "hosted-1").expect("request");
    assert_eq!(request.url, "https://api.anthropic.com/v1/messages");
    assert_eq!(
        request.headers,
        vec![
            ("x-api-key".to_string(), "sk".to_string()),
            ("anthropic-version".to_string(), "2023-06-01".to_string()),
        ]
    );
    let body = json(&request.body);
    assert_eq!(body.text_field("model"), Some("hosted-1"));
    assert_eq!(body.number_field("max_tokens"), Some(1024));
    assert_eq!(body.text_field("system"), Some(SYSTEM_PROMPT));
    assert_eq!(body.list_field("tools").map(Vec::len), Some(3));
    let messages = body.list_field("messages").expect("messages");
    assert_eq!(messages.len(), 1);
    assert_eq!(render_json(&messages[0]), "{\"content\":\"make a VM\",\"role\":\"user\"}");

    let chosen = ProviderSettings { model: Some("m".to_string()), ..keyed };
    let body = json(&conversation.request(&chosen, "hosted-1").expect("request").body);
    assert_eq!(body.text_field("model"), Some("m"));
}

#[test]
fn the_local_request_carries_the_prompt_as_a_message() {
    let messages = vec![json("{\"role\":\"user\",\"content\":\"hi\"}")];
    let missing = build_request(&settings(AiProvider::OpenAiCompatible), "hosted-1", &messages).expect_err("no model");
    assert!(missing.message().starts_with("the OpenAI-compatible provider needs a model"));

    let local = ProviderSettings {
        model: Some("llama3.1".to_string()),
        ..settings(AiProvider::OpenAiCompatible)
    };
    let request = build_request(&local, "hosted-1", &messages).expect("request");
    assert_eq!(request.url, "http://localhost:11434/v1/chat/completions");
    assert!(request.headers.is_empty());
    let body = json(&request.body);
    assert_eq!(body.text_field("model"), Some("llama3.1"));
    assert_eq!(body.text_field("tool_choice"), Some("auto"));
    let sent = body.list_field("messages").expect("messages");
    assert_eq!(sent.len(), 2);
    assert_eq!(sent[0].text_field("role"), Some("system"));
    assert_eq!(sent[0].text_field("content"), Some(SYSTEM_PROMPT));
    assert_eq!(sent[1].text_field("content"), Some("hi"));

    let hosted = ProviderSettings {
        api_key: Some("secret".to_string()),
        base_url: Some("https://host/v1//".to_string()),
        model: Some("m".to_string()),
        provider: AiProvider::OpenAiCompatible,
    };
    let request = build_request(&hosted, "hosted-1", &messages).expect("request");
    assert_eq!(request.url, "https://host/v1/chat/completions");
    assert_eq!(request.headers, vec![("authorization".to_string(), "Bearer secret".to_string())]);
}

#[test]
fn a_response_is_a_success_and_json() {
    assert!(read_response("u", true, "200 OK", "{\"a\": 1}").is_ok());
    let refused = read_response("http://u", false, "500 Internal Server Error", "boom").expect_err("status");
    assert_eq!(
        refused.message(),
        "the AI provider returned HTTP 500 Internal Server Error from http://u: boom"
    );
    let garbled = read_response("http://u", true, "200 OK", "<html>").expect_err("not JSON");
    assert!(garbled.message().starts_with("unreadable AI response from http://u: "));
    assert!(garbled.message().ends_with(" — body: <html>"));
    let given = accept_response("http://u", "x", Err("why".to_string())).expect_err("not JSON");
    assert_eq!(given.message(), "unreadable AI response from http://u: why — body: x");
}

fn ledger() -> Ledger {
    let mut ledger = Ledger::default();
    for name in vec!["db", "web"] {
        ledger.record_at(
            &ExecutionPlan {
                vcpus: 2,
                memory_mb: 512,
                vm_name: name.to_string(),
                network_bridge: None,
                disk_image_path: None,
            },
            1,
        );
    }
    ledger
}

#[test]
fn only_the_hosted_provider_without_a_model_needs_a_default() {
    let settings = |provider, model: Option<&str>| ProviderSettings {
        provider,
        api_key: Some("sk-ant-example".to_string()),
        base_url: None,
        model: model.map(str::to_string),
    };
    let hosted = settings(AiProvider::Anthropic, None);
    assert_eq!(default_model(&hosted, Some("m-1")).expect("a default"), "m-1");
    let missing = default_model(&hosted, None).expect_err("no default");
    assert_eq!(
        missing.message(),
        "this build has no default model — set AI_VMM_MODEL or the `model` field in credentials.toml"
    );
    assert!(default_model(&settings(AiProvider::Anthropic, Some("m-2")), None).is_ok());
    assert!(default_model(&settings(AiProvider::OpenAiCompatible, None), None).is_ok());
}

#[test]
fn registry_tools_read_the_ledger() {
    let loaded = Ok(ledger());
    assert_eq!(execute_local_tool("list_vms", &json("{}"), &loaded), "{\"vms\":[\"db\",\"web\"]}");
    let record = execute_local_tool("inspect_vm", &json("{\"name\":\"db\"}"), &loaded);
    assert!(record.starts_with("{\"vm_name\":\"db\",\"vcpus\":"), "{record}");
    assert!(record.contains(",\"memory_mb\":512,\"network_bridge\":"), "{record}");
    assert!(record.ends_with(",\"state\":\"booting\"}"), "{record}");
    assert_eq!(
        execute_local_tool("inspect_vm", &json("{\"name\":\"x\"}"), &loaded),
        "{\"error\":\"no VM named 'x' in the registry\"}"
    );
    assert_eq!(
        execute_local_tool("inspect_vm", &json("{}"), &loaded),
        "{\"error\":\"inspect_vm requires a string 'name' argument\"}"
    );
    assert_eq!(
        execute_local_tool("rm", &json("{}"), &loaded),
        "{\"error\":\"the model called an unknown tool: 'rm'\"}"
    );
    assert_eq!(
        execute_local_tool("list_vms", &json("{}"), &Err("no ledger".to_string())),
        "{\"error\":\"no ledger\"}"
    );
    assert_eq!(
        run_local_tool("rm", &json("{}"), &ledger()).expect_err("unknown"),
        "the model called an unknown tool: 'rm'"
    );
}

fn consulting() -> ModelTurn {
    ModelTurn::Calls {
        assistant_message: json("{\"role\":\"assistant\",\"content\":\"…\"}"),
        calls: vec![ToolCall {
            id: "c1".to_string(),
            name: "list_vms".to_string(),
            arguments: json("{}"),
        }],
    }
}

#[test]
fn results_go_back_in_the_providers_shape() {
    let calls = vec![
        ToolCall { id: "a".to_string(), name: "list_vms".to_string(), arguments: json("{}") },
        ToolCall { id: "b".to_string(), name: "list_vms".to_string(), arguments: json("{}") },
    ];
    let results = vec!["1".to_string(), "2".to_string()];
    let mut messages = Vec::new();
    append_tool_results(AiProvider::Anthropic, &mut messages, &calls, &results);
    assert_eq!(messages.len(), 1);
    assert_eq!(
        render_json(&messages[0]),
        "{\"content\":[{\"content\":\"1\",\"tool_use_id\":\"a\",\"type\":\"tool_result\"},{\"content\":\"2\",\"tool_use_id\":\"b\",\"type\":\"tool_result\"}],\"role\":\"user\"}"
    );
    append_tool_results(AiProvider::OpenAiCompatible, &mut messages, &calls, &results);
    assert_eq!(messages.len(), 3);
    assert_eq!(
        render_json(&messages[2]),
        "{\"content\":\"2\",\"role\":\"tool\",\"tool_call_id\":\"b\"}"
    );
}

#[test]
fn a_conversation_runs_out_of_turns() {
    let mut conversation = Conversation::begin(AiProvider::OpenAiCompatible, "x");
    for turn in 1..=MAX_TURNS {
        let round = match conversation.take_turn(consulting()).expect("turn") {
            TurnOutcome::Consult(round) => round,
            TurnOutcome::Reply(reply) => panic!("expected a consultation, got {reply:?}"),
        };
        assert_eq!(round.calls().len(), 1);
        match round.answer(vec!["{}".to_string()]) {
            Ok(next) => {
                assert!(turn < MAX_TURNS);
                conversation = next;
            },
            Err(error) => {
                assert_eq!(turn, MAX_TURNS);
                assert_eq!(
                    error.message(),
                    "the agent exhausted its tool-call budget without producing a plan"
                );
                return;
            },
        }
    }
    panic!("the budget was never exhausted");
}

#[test]
fn a_conversation_grows_by_the_turn_and_its_results() {
    let local = ProviderSettings {
        model: Some("m".to_string()),
        ..settings(AiProvider::OpenAiCompatible)
    };
    let conversation = Conversation::begin(AiProvider::OpenAiCompatible, "x");
    let round = match conversation.take_turn(consulting()).expect("turn") {
        TurnOutcome::Consult(round) => round,
        TurnOutcome::Reply(reply) => panic!("expected a consultation, got {reply:?}"),
    };
    let next = round.answer(vec!["result".to_string()]).expect("goes on");
    let body = json(&next.request(&local, "hosted-1").expect("request").body);
    let messages = body.list_field("messages").expect("messages");
    let roles: Vec<Option<&str>> = messages.iter().map(|m| m.text_field("role")).collect();
    assert_eq!(roles, vec![Some("system"), Some("user"), Some("assistant"), Some("tool")]);
    assert_eq!(messages[3].text_field("content"), Some("result"));
}

#[test]
fn a_provision_call_ends_the_conversation() {
    let with_plan = |arguments: &str| ModelTurn::Calls {
        assistant_message: json("{}"),
        calls: vec![
            ToolCall { id: "1".to_string(), name: "list_vms".to_string(), arguments: json("{}") },
            ToolCall {
                id: "2".to_string(),
                name: "provision_kvm_machine".to_string(),
                arguments: json(arguments),
            },
        ],
    };
    let begin = || Conversation::begin(AiProvider::Anthropic, "x");
    match begin().take_turn(with_plan("{\"vcpus\":1,\"memory_mb\":64,\"vm_name\":\"v\"}")) {
        Ok(TurnOutcome::Reply(AgentReply::Plan(plan))) => assert_eq!(plan.vm_name, "v"),
        other => panic!("expected a plan, got {other:?}"),
    }
    match begin().take_turn(with_plan("{}")) {
        Err(AgentError::Plan(PlanError::MissingVcpus)) => {},
        other => panic!("expected an error, got {other:?}"),
    }
    match begin().take_turn(ModelTurn::Text("no".to_string())) {
        Ok(TurnOutcome::Reply(AgentReply::Text(text))) => assert_eq!(text, "no"),
        other => panic!("expected a text, got {other:?}"),
    }
}

#[test]
fn tools_name_their_required_arguments() {
    let tools = tool_specs();
    let names: Vec<&str> = tools.iter().map(|tool| tool.name).collect();
    assert_eq!(names, vec!["provision_kvm_machine", "list_vms", "inspect_vm"]);
    let required = tools[0].parameters.list_field("required").expect("required");
    let required: Vec<Option<&str>> = required.iter().map(|r| r.as_str()).collect();
    assert_eq!(required, vec![Some("vcpus"), Some("memory_mb"), Some("vm_name")]);
    let vcpus = tools[0].parameters.get("properties").and_then(|p| p.get("vcpus")).expect("vcpus");
    assert_eq!(vcpus.number_field("minimum"), Some(1));
    assert_eq!(vcpus.number_field("maximum"), Some(255));
}
