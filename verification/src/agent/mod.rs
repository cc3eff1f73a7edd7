//! Agentic layer: turns a natural-language intent into a reviewable execution plan,
//! whatever the back end.
//!
//! The agent runs a bounded tool-use loop: the model may read the local VM registry
//! with `list_vms` and `inspect_vm` before it commits to a `provision_kvm_machine`
//! plan. [`Conversation`] is that loop; the caller sends the requests that
//! [`build_request`] makes and hands back the responses.

pub mod prompts;

use vstd::prelude::*;
use vstd::string::StringExecFns;

use crate::agent::prompts::{all_tools, tool_models, tool_specs, ToolModel, SYSTEM_PROMPT};
use crate::config::{AiProvider, ProviderSettings};
use crate::json::{
    field, found_model, json_parsed, law_field_is_the_first_of_its_name, list, models, number, object0,
    object1, object2, object3, object5, optional_model, optional_text, parse_json, render_in_order,
    render_json, rendered, text, text_in_order, Json, JsonModel,
};
use crate::registry::{record_model, record_named, Ledger, VmRecord};
use crate::text::{
    chars_of, keep_unless_none, same, slice_text_of, string_of, text_of, texts, unless_none,
};

verus! {

/// Endpoint of the hosted Anthropic Messages API.
pub const ANTHROPIC_API_URL: &'static str = "https://api.anthropic.com/v1/messages";

/// Targeted Anthropic API version.
pub const ANTHROPIC_VERSION: &'static str = "2023-06-01";

/// Default base URL for an OpenAI-compatible server.
pub const DEFAULT_OPENAI_BASE_URL: &'static str = "http://localhost:11434/v1";

/// Token budget for the model's response.
pub const MAX_TOKENS: u64 = 1024;

/// Hard cap on tool-use round-trips.
pub const MAX_TURNS: usize = 6;

/// Name of the terminal tool: calling it yields the execution plan itself.
pub const PROVISION_TOOL: &'static str = "provision_kvm_machine";

/// Why arguments that are JSON are malformed all the same.
pub const NOT_AN_OBJECT: &'static str = "not a JSON object";

/// A reviewable provisioning plan produced by the model.
///
/// The operator reviews it and approves it before it is applied.
#[derive(Debug)]
pub struct ExecutionPlan {
    /// Number of virtual cores requested.
    pub vcpus: u32,
    /// Amount of RAM requested, in mebibytes.
    pub memory_mb: u32,
    /// Name of the virtual machine to create.
    pub vm_name: String,
    /// Host bridge to attach to, or `None` for an isolated VM.
    pub network_bridge: Option<String>,
    /// Disk image to attach as the root filesystem, or `None` for a diskless VM.
    pub disk_image_path: Option<String>,
}

/// What a plan says.
pub struct PlanModel {
    pub vcpus: u32,
    pub memory_mb: u32,
    pub vm_name: Seq<char>,
    pub network_bridge: Option<Seq<char>>,
    pub disk_image_path: Option<Seq<char>>,
}

impl View for ExecutionPlan {
    type V = PlanModel;

    open spec fn view(&self) -> PlanModel {
        PlanModel {
            vcpus: self.vcpus,
            memory_mb: self.memory_mb,
            vm_name: self.vm_name@,
            network_bridge: text_of(self.network_bridge),
            disk_image_path: text_of(self.disk_image_path),
        }
    }
}

/// A plan as JSON.
pub open spec fn plan_json(plan: PlanModel) -> JsonModel {
    JsonModel::Object(
        seq![
            ("vcpus"@, JsonModel::Unsigned(plan.vcpus as u64)),
            ("memory_mb"@, JsonModel::Unsigned(plan.memory_mb as u64)),
            ("vm_name"@, JsonModel::Text(plan.vm_name)),
            ("network_bridge"@, optional_model(plan.network_bridge)),
            ("disk_image_path"@, optional_model(plan.disk_image_path)),
        ],
    )
}

impl ExecutionPlan {
    /// This plan as JSON.
    pub fn to_json(&self) -> (json: Json)
        ensures
            json@ == plan_json(self@),
    {
        object5(
            field("vcpus", number(self.vcpus as u64)),
            field("memory_mb", number(self.memory_mb as u64)),
            field("vm_name", text(self.vm_name.as_str())),
            field("network_bridge", optional_text(&self.network_bridge)),
            field("disk_image_path", optional_text(&self.disk_image_path)),
        )
    }
}

/// One tool call requested by the model, in a provider-neutral form.
#[derive(Debug)]
pub struct ToolCall {
    /// Provider-assigned call id, echoed back with the result.
    pub id: String,
    /// Tool name.
    pub name: String,
    /// Decoded arguments: a JSON object in every call that a response is parsed into.
    pub arguments: Json,
}

/// What a tool call is.
pub struct CallModel {
    pub id: Seq<char>,
    pub name: Seq<char>,
    pub arguments: JsonModel,
}

impl View for ToolCall {
    type V = CallModel;

    open spec fn view(&self) -> CallModel {
        CallModel { id: self.id@, name: self.name@, arguments: self.arguments@ }
    }
}

/// What the calls in a list are.
pub open spec fn call_models(calls: Seq<ToolCall>) -> Seq<CallModel> {
    calls.map_values(|call: ToolCall| call@)
}

/// The outcome of one model turn.
#[derive(Debug)]
pub enum ModelTurn {
    /// The model replied with text only: no provisioning was requested.
    Text(String),
    /// The model requested one or more tool calls. `assistant_message` is the turn
    /// to replay into the conversation, already in the provider's shape.
    Calls { assistant_message: Json, calls: Vec<ToolCall> },
}

/// What a model turn is.
pub enum TurnModel {
    Text(Seq<char>),
    Calls { assistant_message: JsonModel, calls: Seq<CallModel> },
}

impl View for ModelTurn {
    type V = TurnModel;

    open spec fn view(&self) -> TurnModel {
        match self {
            ModelTurn::Text(text) => TurnModel::Text(text@),
            ModelTurn::Calls { assistant_message, calls } => TurnModel::Calls {
                assistant_message: assistant_message@,
                calls: call_models(calls@),
            },
        }
    }
}

/// The control plane's answer to a natural-language intent.
#[derive(Debug)]
pub enum AgentReply {
    /// The model produced a provisioning plan.
    Plan(ExecutionPlan),
    /// The model replied with text only: no provisioning was requested.
    Text(String),
}

/// What is wrong with the arguments of `provision_kvm_machine`.
#[derive(Debug, Clone, Copy, PartialEq, Eq)]
pub enum PlanError {
    MissingVcpus,
    VcpusOutOfRange,
    MissingMemory,
    MemoryOutOfRange,
    MissingName,
}

impl PlanError {
    /// The text of the message.
    pub open spec fn text(self) -> Seq<char> {
        match self {
            PlanError::MissingVcpus => "missing or non-integer 'vcpus' argument"@,
            PlanError::VcpusOutOfRange => "'vcpus' argument out of 32-bit integer range"@,
            PlanError::MissingMemory => "missing or non-integer 'memory_mb' argument"@,
            PlanError::MemoryOutOfRange => "'memory_mb' argument out of 32-bit integer range"@,
            PlanError::MissingName => "missing or non-string 'vm_name' argument"@,
        }
    }

    /// The message that reports this error.
    pub fn as_str(self) -> (text: &'static str)
        ensures
            text@ == self.text(),
    {
        match self {
            PlanError::MissingVcpus => "missing or non-integer 'vcpus' argument",
            PlanError::VcpusOutOfRange => "'vcpus' argument out of 32-bit integer range",
            PlanError::MissingMemory => "missing or non-integer 'memory_mb' argument",
            PlanError::MemoryOutOfRange => "'memory_mb' argument out of 32-bit integer range",
            PlanError::MissingName => "missing or non-string 'vm_name' argument",
        }
    }
}

/// Why the agent could not answer.
#[derive(Debug)]
pub enum AgentError {
    /// An Anthropic response has no list of content blocks.
    MissingContent,
    /// An Anthropic response announces a tool call and holds none.
    MissingToolUse,
    /// An OpenAI-compatible response has no first message.
    MissingMessage,
    /// A tool call of an OpenAI-compatible response names no function.
    MissingFunction,
    /// The arguments of a tool call of an Anthropic response are no JSON object.
    ArgumentsNotObject { tool: String },
    /// The arguments of a tool call of an OpenAI-compatible response are not the text of
    /// a JSON object.
    MalformedArguments { tool: String, reason: String },
    /// The arguments of `provision_kvm_machine` make no plan.
    Plan(PlanError),
    /// The Anthropic provider has no API key.
    MissingKey,
    /// The OpenAI-compatible provider has no model.
    MissingModel,
    /// The Anthropic provider has neither a model nor a default.
    MissingDefaultModel,
    /// The provider answered with an error status.
    HttpStatus { status: String, url: String, body: String },
    /// The provider's answer is not JSON.
    UnreadableResponse { url: String, reason: String, body: String },
    /// The model kept calling tools without producing a plan.
    BudgetExhausted,
}

/// What an agent error is.
pub enum AgentErrorModel {
    MissingContent,
    MissingToolUse,
    MissingMessage,
    MissingFunction,
    ArgumentsNotObject { tool: Seq<char> },
    MalformedArguments { tool: Seq<char>, reason: Seq<char> },
    Plan(PlanError),
    MissingKey,
    MissingModel,
    MissingDefaultModel,
    HttpStatus { status: Seq<char>, url: Seq<char>, body: Seq<char> },
    UnreadableResponse { url: Seq<char>, reason: Seq<char>, body: Seq<char> },
    BudgetExhausted,
}

impl View for AgentError {
    type V = AgentErrorModel;

    open spec fn view(&self) -> AgentErrorModel {
        match self {
            AgentError::MissingContent => AgentErrorModel::MissingContent,
            AgentError::MissingToolUse => AgentErrorModel::MissingToolUse,
            AgentError::MissingMessage => AgentErrorModel::MissingMessage,
            AgentError::MissingFunction => AgentErrorModel::MissingFunction,
            AgentError::ArgumentsNotObject { tool } => AgentErrorModel::ArgumentsNotObject { tool: tool@ },
            AgentError::MalformedArguments { tool, reason } => AgentErrorModel::MalformedArguments {
                tool: tool@,
                reason: reason@,
            },
            AgentError::Plan(error) => AgentErrorModel::Plan(*error),
            AgentError::MissingKey => AgentErrorModel::MissingKey,
            AgentError::MissingModel => AgentErrorModel::MissingModel,
            AgentError::MissingDefaultModel => AgentErrorModel::MissingDefaultModel,
            AgentError::HttpStatus { status, url, body } => AgentErrorModel::HttpStatus {
                status: status@,
                url: url@,
                body: body@,
            },
            AgentError::UnreadableResponse { url, reason, body } => AgentErrorModel::UnreadableResponse {
                url: url@,
                reason: reason@,
                body: body@,
            },
            AgentError::BudgetExhausted => AgentErrorModel::BudgetExhausted,
        }
    }
}

impl AgentErrorModel {
    /// The message that reports an error.
    pub open spec fn message(self) -> Seq<char> {
        match self {
            AgentErrorModel::MissingContent =>
                "invalid Anthropic response: missing or malformed 'content' field"@,
            AgentErrorModel::MissingToolUse =>
                "Anthropic stop_reason is 'tool_use' but no tool_use block was found"@,
            AgentErrorModel::MissingMessage => "invalid OpenAI response: missing 'choices[0].message'"@,
            AgentErrorModel::MissingFunction => "an OpenAI tool_call is missing its 'function' field"@,
            AgentErrorModel::ArgumentsNotObject { tool } => "Anthropic tool '"@ + tool
                + "' sent malformed arguments: not a JSON object"@,
            AgentErrorModel::MalformedArguments { tool, reason } => "OpenAI tool '"@ + tool
                + "' sent malformed arguments: "@ + reason,
            AgentErrorModel::Plan(error) => error.text(),
            AgentErrorModel::MissingKey => "the Anthropic provider requires an API key"@,
            AgentErrorModel::MissingModel =>
                "the OpenAI-compatible provider needs a model — set AI_VMM_MODEL or the `model` field in credentials.toml (e.g. \"llama3.1\")"@,
            AgentErrorModel::MissingDefaultModel =>
                "this build has no default model — set AI_VMM_MODEL or the `model` field in credentials.toml"@,
            AgentErrorModel::HttpStatus { status, url, body } => "the AI provider returned HTTP "@ + status
                + " from "@ + url + ": "@ + body,
            AgentErrorModel::UnreadableResponse { url, reason, body } => "unreadable AI response from "@
                + url + ": "@ + reason + " — body: "@ + body,
            AgentErrorModel::BudgetExhausted =>
                "the agent exhausted its tool-call budget without producing a plan"@,
        }
    }
}

impl AgentError {
    /// The message that reports this error.
    pub fn message(&self) -> (message: String)
        ensures
            message@ == self@.message(),
    {
        match self {
            AgentError::MissingContent => String::from_str(
                "invalid Anthropic response: missing or malformed 'content' field",
            ),
            AgentError::MissingToolUse => String::from_str(
                "Anthropic stop_reason is 'tool_use' but no tool_use block was found",
            ),
            AgentError::MissingMessage => String::from_str(
                "invalid OpenAI response: missing 'choices[0].message'",
            ),
            AgentError::MissingFunction => String::from_str(
                "an OpenAI tool_call is missing its 'function' field",
            ),
            AgentError::ArgumentsNotObject { tool } => {
                let mut message = String::from_str("Anthropic tool '");
                message.append(tool.as_str());
                message.append("' sent malformed arguments: not a JSON object");
                message
            },
            AgentError::MalformedArguments { tool, reason } => {
                let mut message = String::from_str("OpenAI tool '");
                message.append(tool.as_str());
                message.append("' sent malformed arguments: ");
                message.append(reason.as_str());
                message
            },
            AgentError::Plan(error) => String::from_str(error.as_str()),
            AgentError::MissingKey => String::from_str("the Anthropic provider requires an API key"),
            AgentError::MissingModel => String::from_str(
                "the OpenAI-compatible provider needs a model — set AI_VMM_MODEL or the `model` field in credentials.toml (e.g. \"llama3.1\")",
            ),
            AgentError::MissingDefaultModel => String::from_str(
                "this build has no default model — set AI_VMM_MODEL or the `model` field in credentials.toml",
            ),
            AgentError::HttpStatus { status, url, body } => {
                let mut message = String::from_str("the AI provider returned HTTP ");
                message.append(status.as_str());
                message.append(" from ");
                message.append(url.as_str());
                message.append(": ");
                message.append(body.as_str());
                message
            },
            AgentError::UnreadableResponse { url, reason, body } => {
                let mut message = String::from_str("unreadable AI response from ");
                message.append(url.as_str());
                message.append(": ");
                message.append(reason.as_str());
                message.append(" — body: ");
                message.append(body.as_str());
                message
            },
            AgentError::BudgetExhausted => String::from_str(
                "the agent exhausted its tool-call budget without producing a plan",
            ),
        }
    }
}

/// What a parsed turn, or the failure to parse one, is.
pub open spec fn turn_result(result: Result<ModelTurn, AgentError>) -> Result<TurnModel, AgentErrorModel> {
    match result {
        Ok(turn) => Ok(turn@),
        Err(error) => Err(error@),
    }
}

/// The text, or the empty text if there is none.
pub open spec fn text_or_empty(text: Option<Seq<char>>) -> Seq<char> {
    match text {
        Some(t) => t,
        None => Seq::empty(),
    }
}

fn owned_or_empty(text: Option<&str>) -> (owned: String)
    ensures
        owned@ == text_or_empty(slice_text_of(text)),
{
    match text {
        Some(t) => t.to_owned(),
        None => String::new(),
    }
}

/// A content block is of this type.
pub open spec fn is_block(block: JsonModel, kind: Seq<char>) -> bool {
    block.text_field("type"@) == Some(kind)
}

fn block_is(block: &Json, kind: &str) -> (is: bool)
    ensures
        is == is_block(block@, kind@),
{
    match block.text_field("type") {
        Some(found) => same(found, kind),
        None => false,
    }
}

/// The texts of the text blocks, in order.
pub open spec fn block_texts(content: Seq<JsonModel>) -> Seq<Seq<char>>
    decreases content.len(),
{
    if content.len() == 0 {
        Seq::empty()
    } else {
        let earlier = block_texts(content.drop_last());
        let block = content.last();
        if is_block(block, "text"@) && block.text_field("text"@) is Some {
            earlier.push(block.text_field("text"@)->Some_0)
        } else {
            earlier
        }
    }
}

/// `texts` one after the other, a line break between each two.
pub open spec fn joined_lines(texts: Seq<Seq<char>>) -> Seq<char>
    decreases texts.len(),
{
    if texts.len() == 0 {
        Seq::empty()
    } else if texts.len() == 1 {
        texts[0]
    } else {
        joined_lines(texts.drop_last()) + "\n"@ + texts.last()
    }
}

/// Concatenates all text blocks of an Anthropic response.
pub fn text_of_anthropic(content: &Vec<Json>) -> (joined: String)
    ensures
        joined@ == joined_lines(block_texts(models(content@))),
{
    let ghost all = models(content@);
    let mut joined = String::new();
    let mut count: usize = 0;
    let mut i: usize = 0;
    assert(all.take(0) =~= Seq::<JsonModel>::empty());
    while i < content.len()
        invariant
            i <= content@.len(),
            all == models(content@),
            count <= i,
            count == block_texts(all.take(i as int)).len(),
            joined@ == joined_lines(block_texts(all.take(i as int))),
        decreases content@.len() - i,
    {
        let block = &content[i];
        let ghost earlier = block_texts(all.take(i as int));
        assert(all.take(i + 1).drop_last() =~= all.take(i as int));
        assert(all.take(i + 1).last() == block@);
        if block_is(block, "text") {
            match block.text_field("text") {
                Some(part) => {
                    if count > 0 {
                        joined.append("\n");
                    }
                    joined.append(part);
                    count = count + 1;
                    assert(earlier.push(part@).drop_last() =~= earlier);
                    assert(Seq::<char>::empty() + part@ =~= part@);
                },
                None => {},
            }
        }
        i = i + 1;
    }
    assert(all.take(i as int) =~= all);
    joined
}

/// The arguments of a `tool_use` block: none are an empty object.
pub open spec fn block_arguments(block: JsonModel) -> JsonModel {
    match block.field("input"@) {
        Some(input) => input,
        None => JsonModel::Object(Seq::empty()),
    }
}

/// The call that a `tool_use` block makes: its arguments are an object.
pub open spec fn call_of_block(block: JsonModel) -> Result<CallModel, AgentErrorModel> {
    let name = text_or_empty(block.text_field("name"@));
    if block_arguments(block) is Object {
        Ok(
            CallModel {
                id: text_or_empty(block.text_field("id"@)),
                name,
                arguments: block_arguments(block),
            },
        )
    } else {
        Err(AgentErrorModel::ArgumentsNotObject { tool: name })
    }
}

/// The calls that the `tool_use` blocks make, in order; the first that makes none
/// decides.
pub open spec fn block_calls(content: Seq<JsonModel>) -> Result<Seq<CallModel>, AgentErrorModel>
    decreases content.len(),
{
    if content.len() == 0 {
        Ok(Seq::empty())
    } else {
        match block_calls(content.drop_last()) {
            Err(error) => Err(error),
            Ok(earlier) => if is_block(content.last(), "tool_use"@) {
                match call_of_block(content.last()) {
                    Err(error) => Err(error),
                    Ok(call) => Ok(earlier.push(call)),
                }
            } else {
                Ok(earlier)
            },
        }
    }
}

/// The turn that an Anthropic response stands for.
pub open spec fn anthropic_turn(response: JsonModel) -> Result<TurnModel, AgentErrorModel> {
    match response.list_field("content"@) {
        None => Err(AgentErrorModel::MissingContent),
        Some(content) => if text_or_empty(response.text_field("stop_reason"@)) != "tool_use"@ {
            Ok(TurnModel::Text(joined_lines(block_texts(content))))
        } else {
            match block_calls(content) {
                Err(error) => Err(error),
                Ok(calls) => if calls.len() == 0 {
                    Err(AgentErrorModel::MissingToolUse)
                } else {
                    Ok(
                        TurnModel::Calls {
                            assistant_message: JsonModel::Object(
                                seq![
                                    ("role"@, JsonModel::Text("assistant"@)),
                                    ("content"@, JsonModel::List(content)),
                                ],
                            ),
                            calls,
                        },
                    )
                },
            }
        },
    }
}

/// Copies a list of values.
fn copy_list(items: &Vec<Json>) -> (copies: Vec<Json>)
    ensures
        models(copies@) == models(items@),
{
    let mut copies: Vec<Json> = Vec::new();
    let mut i: usize = 0;
    while i < items.len()
        invariant
            i <= items@.len(),
            models(copies@) == models(items@).take(i as int),
        decreases items@.len() - i,
    {
        let ghost before = copies@;
        copies.push(items[i].clone());
        i = i + 1;
        assert(models(copies@) =~= models(before).push(models(items@)[i - 1]));
        assert(models(copies@) =~= models(items@).take(i as int));
    }
    assert(models(copies@) =~= models(items@));
    copies
}

/// What a call, or the failure to make one, is.
pub open spec fn call_result(call: Result<ToolCall, AgentError>) -> Result<CallModel, AgentErrorModel> {
    match call {
        Ok(made) => Ok(made@),
        Err(error) => Err(error@),
    }
}

/// Whether the value is a JSON object.
fn is_object(value: &Json) -> (is: bool)
    ensures
        is == (value@ is Object),
{
    match value {
        Json::Object(_) => true,
        _ => false,
    }
}

/// Builds the call that a `tool_use` block makes.
pub fn build_block_call(block: &Json) -> (call: Result<ToolCall, AgentError>)
    ensures
        call_result(call) == call_of_block(block@),
{
    let name = owned_or_empty(block.text_field("name"));
    let arguments = match block.get("input") {
        Some(input) => input.clone(),
        None => object0(),
    };
    if is_object(&arguments) {
        Ok(ToolCall { id: owned_or_empty(block.text_field("id")), name, arguments })
    } else {
        Err(AgentError::ArgumentsNotObject { tool: name })
    }
}

/// Parses an Anthropic Messages API response into a [`ModelTurn`].
pub fn parse_anthropic_turn(response: &Json) -> (turn: Result<ModelTurn, AgentError>)
    ensures
        turn_result(turn) == anthropic_turn(response@),
        turn matches Ok(parsed) ==> sound_turn(parsed@),
{
    let content = match response.list_field("content") {
        Some(content) => content,
        None => return Err(AgentError::MissingContent),
    };
    let stop_reason = owned_or_empty(response.text_field("stop_reason"));
    if !same(stop_reason.as_str(), "tool_use") {
        return Ok(ModelTurn::Text(text_of_anthropic(content)));
    }
    let ghost all = models(content@);
    let mut calls: Vec<ToolCall> = Vec::new();
    let mut i: usize = 0;
    assert(all.take(0) =~= Seq::<JsonModel>::empty());
    assert(call_models(calls@) =~= Seq::<CallModel>::empty());
    while i < content.len()
        invariant
            i <= content@.len(),
            all == models(content@),
            response@.list_field("content"@) == Some(all),
            text_or_empty(response@.text_field("stop_reason"@)) == "tool_use"@,
            block_calls(all.take(i as int)) == Ok::<Seq<CallModel>, AgentErrorModel>(call_models(calls@)),
        decreases content@.len() - i,
    {
        let block = &content[i];
        assert(all.take(i + 1).drop_last() =~= all.take(i as int));
        assert(all.take(i + 1).last() == block@);
        if block_is(block, "tool_use") {
            let ghost before = calls@;
            match build_block_call(block) {
                Ok(call) => {
                    calls.push(call);
                    assert(call_models(calls@) =~= call_models(before).push(call@));
                },
                Err(error) => {
                    proof {
                        lemma_block_error(all, i + 1);
                    }
                    return Err(error);
                },
            }
        }
        i = i + 1;
    }
    assert(all.take(i as int) =~= all);
    assert(call_models(calls@).len() == calls@.len());
    if calls.len() == 0 {
        return Err(AgentError::MissingToolUse);
    }
    proof {
        lemma_block_calls(all);
    }
    let assistant_message = object2(
        field("role", text("assistant")),
        field("content", list(copy_list(content))),
    );
    Ok(ModelTurn::Calls { assistant_message, calls })
}

/// An error among the first blocks decides for all.
proof fn lemma_block_error(content: Seq<JsonModel>, n: int)
    requires
        0 <= n <= content.len(),
        block_calls(content.take(n)) is Err,
    ensures
        block_calls(content) == block_calls(content.take(n)),
    decreases content.len() - n,
{
    if n < content.len() {
        assert(content.take(n + 1).drop_last() =~= content.take(n));
        lemma_block_error(content, n + 1);
    } else {
        assert(content.take(n) =~= content);
    }
}

/// Every call is made with an object.
pub open spec fn with_objects(calls: Seq<CallModel>) -> bool {
    forall|i: int| 0 <= i < calls.len() ==> (#[trigger] calls[i]).arguments is Object
}

/// A turn asks for no tool call, or for some, each with an object as its arguments.
pub open spec fn sound_turn(turn: TurnModel) -> bool {
    turn matches TurnModel::Calls { calls, .. } ==> calls.len() > 0 && with_objects(calls)
}

proof fn lemma_block_calls(content: Seq<JsonModel>)
    ensures
        block_calls(content) matches Ok(calls) ==> with_objects(calls),
    decreases content.len(),
{
    if content.len() > 0 {
        lemma_block_calls(content.drop_last());
    }
}

proof fn lemma_openai_calls(raw_calls: Seq<JsonModel>)
    ensures
        openai_calls(raw_calls) matches Ok(calls) ==> calls.len() == raw_calls.len() && with_objects(calls),
    decreases raw_calls.len(),
{
    if raw_calls.len() > 0 {
        lemma_openai_calls(raw_calls.drop_last());
    }
}

/// Whatever a provider answers, a turn that is accepted and asks for tool calls asks for
/// at least one, and the arguments of each are a JSON object.
pub proof fn law_tool_arguments_are_objects(provider: AiProvider, response: JsonModel)
    ensures
        turn_of(provider, response) matches Ok(turn) ==> sound_turn(turn),
{
    match provider {
        AiProvider::Anthropic => {
            if let Some(content) = response.list_field("content"@) {
                lemma_block_calls(content);
            }
        },
        AiProvider::OpenAiCompatible => {
            if let Some(message) = openai_message(response) {
                if let Some(raw_calls) = message.list_field("tool_calls"@) {
                    lemma_openai_calls(raw_calls);
                }
            }
        },
    }
}

/// The text of the arguments that a function of an OpenAI-compatible response is
/// called with.
pub open spec fn arguments_text(function: JsonModel) -> Seq<char> {
    match function.text_field("arguments"@) {
        Some(arguments) => arguments,
        None => "{}"@,
    }
}

/// The call that a tool call of an OpenAI-compatible response makes, once its
/// arguments, which come as JSON text, have been parsed: they are an object.
pub open spec fn openai_call_with(
    raw: JsonModel,
    function: JsonModel,
    parsed: Result<JsonModel, Seq<char>>,
) -> Result<CallModel, AgentErrorModel> {
    match parsed {
        Ok(arguments) => if arguments is Object {
            Ok(
                CallModel {
                    id: text_or_empty(raw.text_field("id"@)),
                    name: text_or_empty(function.text_field("name"@)),
                    arguments,
                },
            )
        } else {
            Err(
                AgentErrorModel::MalformedArguments {
                    tool: text_or_empty(function.text_field("name"@)),
                    reason: NOT_AN_OBJECT@,
                },
            )
        },
        Err(reason) => Err(
            AgentErrorModel::MalformedArguments {
                tool: text_or_empty(function.text_field("name"@)),
                reason,
            },
        ),
    }
}

/// The call that a tool call of an OpenAI-compatible response makes.
pub open spec fn openai_call(raw: JsonModel) -> Result<CallModel, AgentErrorModel> {
    match raw.field("function"@) {
        None => Err(AgentErrorModel::MissingFunction),
        Some(function) => openai_call_with(raw, function, json_parsed(arguments_text(function))),
    }
}

/// The calls that the tool calls of an OpenAI-compatible response make, in order; the
/// first that makes none decides.
pub open spec fn openai_calls(raw_calls: Seq<JsonModel>) -> Result<Seq<CallModel>, AgentErrorModel>
    decreases raw_calls.len(),
{
    if raw_calls.len() == 0 {
        Ok(Seq::empty())
    } else {
        match openai_calls(raw_calls.drop_last()) {
            Err(error) => Err(error),
            Ok(earlier) => match openai_call(raw_calls.last()) {
                Err(error) => Err(error),
                Ok(call) => Ok(earlier.push(call)),
            },
        }
    }
}

/// The first message of an OpenAI-compatible response.
pub open spec fn openai_message(response: JsonModel) -> Option<JsonModel> {
    match response.list_field("choices"@) {
        Some(choices) if choices.len() > 0 => choices[0].field("message"@),
        _ => None,
    }
}

/// The turn that an OpenAI-compatible response stands for.
pub open spec fn openai_turn(response: JsonModel) -> Result<TurnModel, AgentErrorModel> {
    match openai_message(response) {
        None => Err(AgentErrorModel::MissingMessage),
        Some(message) => match message.list_field("tool_calls"@) {
            Some(raw_calls) if raw_calls.len() > 0 => match openai_calls(raw_calls) {
                Err(error) => Err(error),
                Ok(calls) => Ok(TurnModel::Calls { assistant_message: message, calls }),
            },
            _ => Ok(TurnModel::Text(text_or_empty(message.text_field("content"@)))),
        },
    }
}

/// What the outcome of parsing a JSON text is.
pub open spec fn parse_model(parsed: Result<Json, String>) -> Result<JsonModel, Seq<char>> {
    match parsed {
        Ok(value) => Ok(value@),
        Err(reason) => Err(reason@),
    }
}

/// Builds the call that a tool call of an OpenAI-compatible response makes from the
/// outcome of parsing its arguments.
pub fn build_openai_call(raw: &Json, function: &Json, parsed: Result<Json, String>) -> (call: Result<
    ToolCall,
    AgentError,
>)
    ensures
        call_result(call) == openai_call_with(raw@, function@, parse_model(parsed)),
{
    let name = owned_or_empty(function.text_field("name"));
    match parsed {
        Ok(arguments) => if is_object(&arguments) {
            Ok(ToolCall { id: owned_or_empty(raw.text_field("id")), name, arguments })
        } else {
            Err(AgentError::MalformedArguments { tool: name, reason: String::from_str(NOT_AN_OBJECT) })
        },
        Err(reason) => Err(AgentError::MalformedArguments { tool: name, reason }),
    }
}

/// Parses an OpenAI-compatible `/v1/chat/completions` response into a [`ModelTurn`].
pub fn parse_openai_turn(response: &Json) -> (turn: Result<ModelTurn, AgentError>)
    ensures
        turn_result(turn) == openai_turn(response@),
        turn matches Ok(parsed) ==> sound_turn(parsed@),
{
    let choices = match response.list_field("choices") {
        Some(choices) => choices,
        None => return Err(AgentError::MissingMessage),
    };
    assert(models(choices@).len() == choices@.len());
    if choices.len() == 0 {
        return Err(AgentError::MissingMessage);
    }
    assert(models(choices@)[0] == choices@[0]@);
    let message = match choices[0].get("message") {
        Some(message) => message,
        None => return Err(AgentError::MissingMessage),
    };
    let raw_calls = match message.list_field("tool_calls") {
        Some(raw_calls) => {
            assert(models(raw_calls@).len() == raw_calls@.len());
            if raw_calls.len() == 0 {
                return Ok(ModelTurn::Text(owned_or_empty(message.text_field("content"))));
            }
            raw_calls
        },
        None => return Ok(ModelTurn::Text(owned_or_empty(message.text_field("content")))),
    };
    let ghost all = models(raw_calls@);
    let mut calls: Vec<ToolCall> = Vec::new();
    let mut i: usize = 0;
    assert(all.take(0) =~= Seq::<JsonModel>::empty());
    assert(call_models(calls@) =~= Seq::<CallModel>::empty());
    while i < raw_calls.len()
        invariant
            i <= raw_calls@.len(),
            0 < raw_calls@.len(),
            all == models(raw_calls@),
            openai_message(response@) == Some(message@),
            message@.list_field("tool_calls"@) == Some(all),
            openai_calls(all.take(i as int)) == Ok::<Seq<CallModel>, AgentErrorModel>(call_models(calls@)),
        decreases raw_calls@.len() - i,
    {
        let raw = &raw_calls[i];
        assert(all.take(i + 1).drop_last() =~= all.take(i as int));
        assert(all.take(i + 1).last() == raw@);
        let function = match raw.get("function") {
            Some(function) => function,
            None => {
                proof {
                    lemma_openai_error(all, i + 1);
                }
                return Err(AgentError::MissingFunction);
            },
        };
        let parsed = match function.text_field("arguments") {
            Some(arguments) => parse_json(arguments),
            None => parse_json("{}"),
        };
        assert(parse_model(parsed) == json_parsed(arguments_text(function@)));
        let ghost before = calls@;
        match build_openai_call(raw, function, parsed) {
            Ok(call) => {
                calls.push(call);
                assert(call_models(calls@) =~= call_models(before).push(call@));
            },
            Err(error) => {
                proof {
                    lemma_openai_error(all, i + 1);
                }
                return Err(error);
            },
        }
        i = i + 1;
    }
    assert(all.take(i as int) =~= all);
    proof {
        lemma_openai_calls(all);
    }
    Ok(ModelTurn::Calls { assistant_message: message.clone(), calls })
}

/// An error among the first calls decides for all.
proof fn lemma_openai_error(raw_calls: Seq<JsonModel>, n: int)
    requires
        0 <= n <= raw_calls.len(),
        openai_calls(raw_calls.take(n)) is Err,
    ensures
        openai_calls(raw_calls) == openai_calls(raw_calls.take(n)),
    decreases raw_calls.len() - n,
{
    if n < raw_calls.len() {
        assert(raw_calls.take(n + 1).drop_last() =~= raw_calls.take(n));
        lemma_openai_error(raw_calls, n + 1);
    } else {
        assert(raw_calls.take(n) =~= raw_calls);
    }
}

/// The turn that a provider's response stands for.
pub open spec fn turn_of(provider: AiProvider, response: JsonModel) -> Result<TurnModel, AgentErrorModel> {
    match provider {
        AiProvider::Anthropic => anthropic_turn(response),
        AiProvider::OpenAiCompatible => openai_turn(response),
    }
}

/// Parses one model turn from a provider's response.
pub fn parse_turn(provider: AiProvider, response: &Json) -> (turn: Result<ModelTurn, AgentError>)
    ensures
        turn_result(turn) == turn_of(provider, response@),
        turn matches Ok(parsed) ==> sound_turn(parsed@),
{
    match provider {
        AiProvider::Anthropic => parse_anthropic_turn(response),
        AiProvider::OpenAiCompatible => parse_openai_turn(response),
    }
}

/// The plan that the arguments of `provision_kvm_machine` make. A missing optional
/// argument, one that is not a text, a blank one and `none` all count as none.
pub open spec fn plan_of(input: JsonModel) -> Result<PlanModel, PlanError> {
    match input.number_field("vcpus"@) {
        None => Err(PlanError::MissingVcpus),
        Some(vcpus) => if vcpus > u32::MAX {
            Err(PlanError::VcpusOutOfRange)
        } else {
            match input.number_field("memory_mb"@) {
                None => Err(PlanError::MissingMemory),
                Some(memory_mb) => if memory_mb > u32::MAX {
                    Err(PlanError::MemoryOutOfRange)
                } else {
                    match input.text_field("vm_name"@) {
                        None => Err(PlanError::MissingName),
                        Some(vm_name) => Ok(
                            PlanModel {
                                vcpus: vcpus as u32,
                                memory_mb: memory_mb as u32,
                                vm_name,
                                network_bridge: unless_none(input.text_field("network_bridge"@)),
                                disk_image_path: unless_none(input.text_field("disk_image_path"@)),
                            },
                        ),
                    }
                },
            }
        },
    }
}

/// Converts the `provision_kvm_machine` arguments into an execution plan.
pub fn build_plan(input: &Json) -> (plan: Result<ExecutionPlan, PlanError>)
    ensures
        (match plan {
            Ok(made) => Ok::<PlanModel, PlanError>(made@),
            Err(error) => Err::<PlanModel, PlanError>(error),
        }) == plan_of(input@),
{
    let vcpus: u32 = match input.number_field("vcpus") {
        None => return Err(PlanError::MissingVcpus),
        Some(vcpus) => {
            if vcpus > u32::MAX as u64 {
                return Err(PlanError::VcpusOutOfRange);
            }
            vcpus as u32
        },
    };
    let memory_mb: u32 = match input.number_field("memory_mb") {
        None => return Err(PlanError::MissingMemory),
        Some(memory_mb) => {
            if memory_mb > u32::MAX as u64 {
                return Err(PlanError::MemoryOutOfRange);
            }
            memory_mb as u32
        },
    };
    let vm_name = match input.text_field("vm_name") {
        None => return Err(PlanError::MissingName),
        Some(vm_name) => vm_name,
    };
    Ok(
        ExecutionPlan {
            vcpus,
            memory_mb,
            vm_name: vm_name.to_owned(),
            network_bridge: normalize_optional(input.text_field("network_bridge")),
            disk_image_path: normalize_optional(input.text_field("disk_image_path")),
        },
    )
}

/// Normalizes an optional text argument coming from the model: a missing value, a
/// blank text and `none` in any case become `None`; otherwise the trimmed value is
/// kept.
pub fn normalize_optional(value: Option<&str>) -> (normal: Option<String>)
    ensures
        text_of(normal) == unless_none(slice_text_of(value)),
{
    keep_unless_none(value)
}

/// A tool in the Anthropic format.
pub open spec fn anthropic_tool(tool: ToolModel) -> JsonModel {
    JsonModel::Object(
        seq![
            ("name"@, JsonModel::Text(tool.name)),
            ("description"@, JsonModel::Text(tool.description)),
            ("input_schema"@, tool.parameters),
        ],
    )
}

/// A tool in the OpenAI `function` format.
pub open spec fn openai_tool(tool: ToolModel) -> JsonModel {
    JsonModel::Object(
        seq![
            ("type"@, JsonModel::Text("function"@)),
            (
                "function"@,
                JsonModel::Object(
                    seq![
                        ("name"@, JsonModel::Text(tool.name)),
                        ("description"@, JsonModel::Text(tool.description)),
                        ("parameters"@, tool.parameters),
                    ],
                ),
            ),
        ],
    )
}

/// Every tool, in the Anthropic format.
pub open spec fn anthropic_tool_list() -> JsonModel {
    JsonModel::List(all_tools().map_values(|tool: ToolModel| anthropic_tool(tool)))
}

/// Every tool, in the OpenAI format.
pub open spec fn openai_tool_list() -> JsonModel {
    JsonModel::List(all_tools().map_values(|tool: ToolModel| openai_tool(tool)))
}

/// Wraps the neutral tool specs into the Anthropic tool format.
pub fn anthropic_tools() -> (tools: Json)
    ensures
        tools@ == anthropic_tool_list(),
{
    let specs = tool_specs();
    let mut tools: Vec<Json> = Vec::new();
    let mut i: usize = 0;
    while i < specs.len()
        invariant
            i <= specs@.len(),
            tools@.len() == i,
            forall|k: int| 0 <= k < i ==> (#[trigger] tools@[k])@ == anthropic_tool(specs@[k]@),
        decreases specs@.len() - i,
    {
        let spec_i = &specs[i];
        tools.push(
            object3(
                field("name", text(spec_i.name)),
                field("description", text(spec_i.description)),
                field("input_schema", spec_i.parameters.clone()),
            ),
        );
        i = i + 1;
    }
    proof {
        let wrapped = all_tools().map_values(|tool: ToolModel| anthropic_tool(tool));
        assert(tool_models(specs@).len() == specs@.len());
        assert forall|k: int| 0 <= k < tools@.len() implies models(tools@)[k] == wrapped[k] by {
            assert(tool_models(specs@)[k] == specs@[k]@);
        }
        assert(models(tools@) =~= wrapped);
    }
    list(tools)
}

/// Wraps the neutral tool specs into the OpenAI `function` tool format.
pub fn openai_tools() -> (tools: Json)
    ensures
        tools@ == openai_tool_list(),
{
    let specs = tool_specs();
    let mut tools: Vec<Json> = Vec::new();
    let mut i: usize = 0;
    while i < specs.len()
        invariant
            i <= specs@.len(),
            tools@.len() == i,
            forall|k: int| 0 <= k < i ==> (#[trigger] tools@[k])@ == openai_tool(specs@[k]@),
        decreases specs@.len() - i,
    {
        let spec_i = &specs[i];
        let function = object3(
            field("name", text(spec_i.name)),
            field("description", text(spec_i.description)),
            field("parameters", spec_i.parameters.clone()),
        );
        tools.push(object2(field("type", text("function")), field("function", function)));
        i = i + 1;
    }
    proof {
        let wrapped = all_tools().map_values(|tool: ToolModel| openai_tool(tool));
        assert(tool_models(specs@).len() == specs@.len());
        assert forall|k: int| 0 <= k < tools@.len() implies models(tools@)[k] == wrapped[k] by {
            assert(tool_models(specs@)[k] == specs@[k]@);
        }
        assert(models(tools@) =~= wrapped);
    }
    list(tools)
}

/// A message of the conversation.
pub open spec fn message(role: Seq<char>, content: JsonModel) -> JsonModel {
    JsonModel::Object(seq![("role"@, JsonModel::Text(role)), ("content"@, content)])
}

/// The request body for the Anthropic Messages API. A configured model comes before
/// the default one.
pub open spec fn anthropic_body(
    model: Option<Seq<char>>,
    default_model: Seq<char>,
    messages: Seq<JsonModel>,
) -> JsonModel {
    JsonModel::Object(
        seq![
            (
                "model"@,
                JsonModel::Text(
                    match model {
                        Some(configured) => configured,
                        None => default_model,
                    },
                ),
            ),
            ("max_tokens"@, JsonModel::Unsigned(MAX_TOKENS)),
            ("system"@, JsonModel::Text(SYSTEM_PROMPT@)),
            ("tools"@, anthropic_tool_list()),
            ("messages"@, JsonModel::List(messages)),
        ],
    )
}

/// The request body for an OpenAI-compatible endpoint: the system prompt is the first
/// message.
pub open spec fn openai_body(model: Seq<char>, messages: Seq<JsonModel>) -> JsonModel {
    JsonModel::Object(
        seq![
            ("model"@, JsonModel::Text(model)),
            ("max_tokens"@, JsonModel::Unsigned(MAX_TOKENS)),
            ("tools"@, openai_tool_list()),
            ("tool_choice"@, JsonModel::Text("auto"@)),
            (
                "messages"@,
                JsonModel::List(
                    seq![message("system"@, JsonModel::Text(SYSTEM_PROMPT@))] + messages,
                ),
            ),
        ],
    )
}

/// The hosted model that is asked where the settings name none: the one that the program
/// was built with. Only settings for the hosted provider without a model need it.
pub open spec fn default_for(settings: ProviderSettings, built_in: Option<Seq<char>>) -> Result<
    Seq<char>,
    AgentErrorModel,
> {
    match built_in {
        Some(model) => Ok(model),
        None => if settings.provider is Anthropic && settings.model is None {
            Err(AgentErrorModel::MissingDefaultModel)
        } else {
            Ok(Seq::empty())
        },
    }
}

/// Finds the default model for `settings`, given the one that the program was built with.
pub fn default_model<'a>(settings: &ProviderSettings, built_in: Option<&'a str>) -> (model: Result<
    &'a str,
    AgentError,
>)
    ensures
        (match model {
            Ok(name) => Ok::<Seq<char>, AgentErrorModel>(name@),
            Err(error) => Err::<Seq<char>, AgentErrorModel>(error@),
        }) == default_for(*settings, slice_text_of(built_in)),
{
    match built_in {
        Some(model) => Ok(model),
        None => {
            if settings.provider == AiProvider::Anthropic && settings.model.is_none() {
                return Err(AgentError::MissingDefaultModel);
            }
            proof {
                reveal_strlit("");
                assert(""@ =~= Seq::<char>::empty());
            }
            Ok("")
        },
    }
}

/// Builds the request body for the Anthropic Messages API. `default_model` is asked
/// where the settings name no model.
pub fn anthropic_request(settings: &ProviderSettings, default_model: &str, messages: &Vec<Json>) -> (body:
    Json)
    ensures
        body@ == anthropic_body(text_of(settings.model), default_model@, models(messages@)),
{
    let model = match &settings.model {
        Some(configured) => text(configured.as_str()),
        None => text(default_model),
    };
    let body = object5(
        field("model", model),
        field("max_tokens", number(MAX_TOKENS)),
        field("system", text(SYSTEM_PROMPT)),
        field("tools", anthropic_tools()),
        field("messages", list(copy_list(messages))),
    );
    assert(body@->Object_0 =~= anthropic_body(text_of(settings.model), default_model@, models(messages@))->Object_0);
    body
}

/// Builds the request body for an OpenAI-compatible `/v1/chat/completions` endpoint.
/// The model is mandatory here: a local server has no universal default.
pub fn openai_request(settings: &ProviderSettings, messages: &Vec<Json>) -> (body: Result<Json, AgentError>)
    ensures
        match body {
            Ok(json) => settings.model matches Some(model) && json@ == openai_body(model@, models(messages@)),
            Err(error) => settings.model is None && error is MissingModel,
        },
{
    let model = match &settings.model {
        Some(model) => text(model.as_str()),
        None => return Err(AgentError::MissingModel),
    };
    let system = object2(field("role", text("system")), field("content", text(SYSTEM_PROMPT)));
    let mut full_messages: Vec<Json> = vec![system];
    let mut copies = copy_list(messages);
    let ghost tail = copies@;
    full_messages.append(&mut copies);
    assert(models(full_messages@) =~= seq![message("system"@, JsonModel::Text(SYSTEM_PROMPT@))] + models(
        tail,
    ));
    Ok(
        object5(
            field("model", model),
            field("max_tokens", number(MAX_TOKENS)),
            field("tools", openai_tools()),
            field("tool_choice", text("auto")),
            field("messages", list(full_messages)),
        ),
    )
}

/// An HTTP request to the provider: a POST of a JSON text.
#[derive(Debug)]
pub struct ProviderRequest {
    /// Where to send it.
    pub url: String,
    /// Header names and values, besides the content type.
    pub headers: Vec<(String, String)>,
    /// The body, JSON.
    pub body: String,
}

/// What a request is.
pub struct RequestModel {
    pub url: Seq<char>,
    pub headers: Seq<(Seq<char>, Seq<char>)>,
    pub body: Seq<char>,
}

impl View for ProviderRequest {
    type V = RequestModel;

    open spec fn view(&self) -> RequestModel {
        RequestModel {
            url: self.url@,
            headers: self.headers@.map_values(|header: (String, String)| (header.0@, header.1@)),
            body: self.body@,
        }
    }
}

/// `s` without the slashes that it ends with.
pub open spec fn without_trailing_slashes(s: Seq<char>) -> Seq<char>
    decreases s.len(),
{
    if s.len() > 0 && s.last() == '/' {
        without_trailing_slashes(s.drop_last())
    } else {
        s
    }
}

/// Where an OpenAI-compatible server takes requests.
pub open spec fn openai_url(base_url: Option<Seq<char>>) -> Seq<char> {
    without_trailing_slashes(
        match base_url {
            Some(base) => base,
            None => DEFAULT_OPENAI_BASE_URL@,
        },
    ) + "/chat/completions"@
}

fn chat_url(base: &str) -> (url: String)
    ensures
        url@ == without_trailing_slashes(base@) + "/chat/completions"@,
{
    let mut chars = chars_of(base);
    while chars.len() > 0 && chars[chars.len() - 1] == '/'
        invariant
            without_trailing_slashes(chars@) == without_trailing_slashes(base@),
        decreases chars@.len(),
    {
        let ghost before = chars@;
        let _ = chars.pop();
        assert(chars@ =~= before.drop_last());
    }
    let mut url = string_of(chars.as_slice());
    url.append("/chat/completions");
    url
}

/// The request that sends one turn of the conversation: the hosted API needs a key,
/// and any other server a model, and it takes a key as a bearer token.
pub open spec fn turn_request(
    settings: ProviderSettings,
    default_model: Seq<char>,
    messages: Seq<JsonModel>,
) -> Result<RequestModel, AgentErrorModel> {
    match settings.provider {
        AiProvider::Anthropic => match settings.api_key {
            None => Err(AgentErrorModel::MissingKey),
            Some(key) => Ok(
                RequestModel {
                    url: ANTHROPIC_API_URL@,
                    headers: seq![("x-api-key"@, key@), ("anthropic-version"@, ANTHROPIC_VERSION@)],
                    body: rendered(anthropic_body(text_of(settings.model), default_model, messages)),
                },
            ),
        },
        AiProvider::OpenAiCompatible => match settings.model {
            None => Err(AgentErrorModel::MissingModel),
            Some(model) => Ok(
                RequestModel {
                    url: openai_url(text_of(settings.base_url)),
                    headers: match settings.api_key {
                        Some(key) => seq![("authorization"@, "Bearer "@ + key@)],
                        None => Seq::empty(),
                    },
                    body: rendered(openai_body(model@, messages)),
                },
            ),
        },
    }
}

/// Builds the request that sends one turn of the conversation to the configured
/// provider. `default_model` is the hosted model to ask where the settings name none.
pub fn build_request(settings: &ProviderSettings, default_model: &str, messages: &Vec<Json>) -> (request:
    Result<ProviderRequest, AgentError>)
    ensures
        (match request {
            Ok(made) => Ok::<RequestModel, AgentErrorModel>(made@),
            Err(error) => Err::<RequestModel, AgentErrorModel>(error@),
        }) == turn_request(*settings, default_model@, models(messages@)),
{
    match settings.provider {
        AiProvider::Anthropic => {
            let key = match &settings.api_key {
                Some(key) => key.clone(),
                None => return Err(AgentError::MissingKey),
            };
            let body = anthropic_request(settings, default_model, messages);
            let request = ProviderRequest {
                url: String::from_str(ANTHROPIC_API_URL),
                headers: vec![
                    (String::from_str("x-api-key"), key),
                    (String::from_str("anthropic-version"), String::from_str(ANTHROPIC_VERSION)),
                ],
                body: render_json(&body),
            };
            assert(request@.headers =~= seq![
                ("x-api-key"@, key@),
                ("anthropic-version"@, ANTHROPIC_VERSION@),
            ]);
            Ok(request)
        },
        AiProvider::OpenAiCompatible => {
            let url = match &settings.base_url {
                Some(base) => chat_url(base.as_str()),
                None => chat_url(DEFAULT_OPENAI_BASE_URL),
            };
            let body = match openai_request(settings, messages) {
                Ok(body) => body,
                Err(error) => return Err(error),
            };
            let mut headers: Vec<(String, String)> = Vec::new();
            if let Some(key) = &settings.api_key {
                let mut bearer = String::from_str("Bearer ");
                bearer.append(key.as_str());
                headers.push((String::from_str("authorization"), bearer));
            }
            let request = ProviderRequest { url, headers, body: render_json(&body) };
            match &settings.api_key {
                Some(key) => {
                    assert(request@.headers =~= seq![("authorization"@, "Bearer "@ + key@)]);
                },
                None => {
                    assert(request@.headers =~= Seq::<(Seq<char>, Seq<char>)>::empty());
                },
            }
            Ok(request)
        },
    }
}

/// What a response, or the failure to read one, is.
pub open spec fn response_result(result: Result<Json, AgentError>) -> Result<JsonModel, AgentErrorModel> {
    match result {
        Ok(response) => Ok(response@),
        Err(error) => Err(error@),
    }
}

/// The response that a body from `url` holds, once it has been parsed.
pub open spec fn response_with(
    url: Seq<char>,
    body: Seq<char>,
    parsed: Result<JsonModel, Seq<char>>,
) -> Result<JsonModel, AgentErrorModel> {
    match parsed {
        Ok(response) => Ok(response),
        Err(reason) => Err(AgentErrorModel::UnreadableResponse { url, reason, body }),
    }
}

/// Takes over a parsed response body, or reports that it could not be read.
pub fn accept_response(url: &str, body: &str, parsed: Result<Json, String>) -> (response: Result<
    Json,
    AgentError,
>)
    ensures
        response_result(response) == response_with(url@, body@, parse_model(parsed)),
{
    match parsed {
        Ok(response) => Ok(response),
        Err(reason) => Err(
            AgentError::UnreadableResponse { url: url.to_owned(), reason, body: body.to_owned() },
        ),
    }
}

/// Reads the provider's answer: the body of a success, which has to be JSON.
pub fn read_response(url: &str, success: bool, status: &str, body: &str) -> (response: Result<
    Json,
    AgentError,
>)
    ensures
        response_result(response) == if success {
            response_with(url@, body@, json_parsed(body@))
        } else {
            Err(AgentErrorModel::HttpStatus { status: status@, url: url@, body: body@ })
        },
{
    if !success {
        return Err(
            AgentError::HttpStatus {
                status: status.to_owned(),
                url: url.to_owned(),
                body: body.to_owned(),
            },
        );
    }
    accept_response(url, body, parse_json(body))
}

/// The names of the recorded VMs, oldest first, as JSON.
pub open spec fn name_list(records: Seq<VmRecord>) -> JsonModel {
    JsonModel::Object(
        seq![
            (
                "vms"@,
                JsonModel::List(records.map_values(|record: VmRecord| JsonModel::Text(record.vm_name@))),
            ),
        ],
    )
}

/// An error report for the model.
pub open spec fn error_report(reason: Seq<char>) -> JsonModel {
    JsonModel::Object(seq![("error"@, JsonModel::Text(reason))])
}

/// What a registry tool gives on a ledger, or why it gives nothing.
pub open spec fn tool_run(
    name: Seq<char>,
    arguments: JsonModel,
    records: Seq<VmRecord>,
) -> Result<Seq<char>, Seq<char>> {
    if name == "list_vms"@ {
        Ok(rendered(name_list(records)))
    } else if name == "inspect_vm"@ {
        match arguments.text_field("name"@) {
            None => Err("inspect_vm requires a string 'name' argument"@),
            Some(vm_name) => match record_named(records, vm_name) {
                Some(record) => Ok(text_in_order(record_model(record))),
                None => Ok(
                    rendered(error_report("no VM named '"@ + vm_name + "' in the registry"@)),
                ),
            },
        }
    } else {
        Err("the model called an unknown tool: '"@ + name + "'"@)
    }
}

/// Runs a registry tool on the VM ledger.
pub fn run_local_tool(name: &str, arguments: &Json, ledger: &Ledger) -> (output: Result<String, String>)
    ensures
        (match output {
            Ok(made) => Ok::<Seq<char>, Seq<char>>(made@),
            Err(reason) => Err::<Seq<char>, Seq<char>>(reason@),
        }) == tool_run(name@, arguments@, ledger@),
{
    if same(name, "list_vms") {
        let records = ledger.records();
        let mut names: Vec<Json> = Vec::new();
        let mut i: usize = 0;
        while i < records.len()
            invariant
                i <= records@.len(),
                names@.len() == i,
                forall|k: int|
                    0 <= k < i ==> (#[trigger] names@[k])@ == JsonModel::Text(records@[k].vm_name@),
            decreases records@.len() - i,
        {
            names.push(text(records[i].vm_name.as_str()));
            i = i + 1;
        }
        assert(models(names@) =~= ledger@.map_values(|record: VmRecord| JsonModel::Text(record.vm_name@)));
        return Ok(render_json(&object1(field("vms", list(names)))));
    }
    if same(name, "inspect_vm") {
        let vm_name = match arguments.text_field("name") {
            Some(vm_name) => vm_name,
            None => return Err(String::from_str("inspect_vm requires a string 'name' argument")),
        };
        return match ledger.get(vm_name) {
            Some(record) => Ok(render_in_order(&record.to_json())),
            None => {
                let mut reason = String::from_str("no VM named '");
                reason.append(vm_name);
                reason.append("' in the registry");
                Ok(render_json(&object1(field("error", text(reason.as_str())))))
            },
        };
    }
    let mut reason = String::from_str("the model called an unknown tool: '");
    reason.append(name);
    reason.append("'");
    Err(reason)
}

/// What a registry tool gives the model: any failure, a ledger that cannot be loaded
/// among them, is reported to the model rather than ending the conversation.
pub open spec fn tool_result(
    name: Seq<char>,
    arguments: JsonModel,
    ledger: Result<Seq<VmRecord>, Seq<char>>,
) -> Seq<char> {
    match ledger {
        Err(reason) => rendered(error_report(reason)),
        Ok(records) => match tool_run(name, arguments, records) {
            Ok(output) => output,
            Err(reason) => rendered(error_report(reason)),
        },
    }
}

/// Runs one registry tool on the ledger, or on the reason why there is none.
pub fn execute_local_tool(name: &str, arguments: &Json, ledger: &Result<Ledger, String>) -> (output:
    String)
    ensures
        output@ == tool_result(
            name@,
            arguments@,
            (match ledger {
                Ok(loaded) => Ok::<Seq<VmRecord>, Seq<char>>(loaded@),
                Err(reason) => Err::<Seq<VmRecord>, Seq<char>>(reason@),
            }),
        ),
{
    let run = match ledger {
        Ok(loaded) => run_local_tool(name, arguments, loaded),
        Err(reason) => Err(reason.clone()),
    };
    match run {
        Ok(output) => output,
        Err(reason) => render_json(&object1(field("error", text(reason.as_str())))),
    }
}

/// The result of a call, as a content block of an Anthropic message.
pub open spec fn result_block(call: CallModel, result: Seq<char>) -> JsonModel {
    JsonModel::Object(
        seq![
            ("type"@, JsonModel::Text("tool_result"@)),
            ("tool_use_id"@, JsonModel::Text(call.id)),
            ("content"@, JsonModel::Text(result)),
        ],
    )
}

/// The result of a call, as an OpenAI `tool` message.
pub open spec fn result_message(call: CallModel, result: Seq<char>) -> JsonModel {
    JsonModel::Object(
        seq![
            ("role"@, JsonModel::Text("tool"@)),
            ("tool_call_id"@, JsonModel::Text(call.id)),
            ("content"@, JsonModel::Text(result)),
        ],
    )
}

/// The messages that carry the results of `calls`: one message with a block for each,
/// or a message for each.
pub open spec fn result_messages(
    provider: AiProvider,
    calls: Seq<CallModel>,
    results: Seq<Seq<char>>,
) -> Seq<JsonModel> {
    match provider {
        AiProvider::Anthropic => seq![
            message(
                "user"@,
                JsonModel::List(Seq::new(calls.len(), |k: int| result_block(calls[k], results[k]))),
            ),
        ],
        AiProvider::OpenAiCompatible => Seq::new(
            calls.len(),
            |k: int| result_message(calls[k], results[k]),
        ),
    }
}

/// Appends the results of the tool calls to `messages` in the provider's own
/// conversation format.
pub fn append_tool_results(
    provider: AiProvider,
    messages: &mut Vec<Json>,
    calls: &Vec<ToolCall>,
    results: &Vec<String>,
)
    requires
        calls@.len() == results@.len(),
    ensures
        models(final(messages)@) == models(old(messages)@) + result_messages(
            provider,
            call_models(calls@),
            texts(results@),
        ),
{
    let ghost before = messages@;
    let ghost shown = call_models(calls@);
    let ghost given = texts(results@);
    match provider {
        AiProvider::Anthropic => {
            let mut blocks: Vec<Json> = Vec::new();
            let mut i: usize = 0;
            while i < calls.len()
                invariant
                    i <= calls@.len(),
                    calls@.len() == results@.len(),
                    blocks@.len() == i,
                    shown == call_models(calls@),
                    given == texts(results@),
                    forall|k: int|
                        0 <= k < i ==> (#[trigger] blocks@[k])@ == result_block(shown[k], given[k]),
                decreases calls@.len() - i,
            {
                blocks.push(
                    object3(
                        field("type", text("tool_result")),
                        field("tool_use_id", text(calls[i].id.as_str())),
                        field("content", text(results[i].as_str())),
                    ),
                );
                i = i + 1;
            }
            assert(models(blocks@) =~= Seq::new(
                shown.len(),
                |k: int| result_block(shown[k], given[k]),
            ));
            messages.push(object2(field("role", text("user")), field("content", list(blocks))));
            assert(models(messages@) =~= models(before) + result_messages(provider, shown, given));
        },
        AiProvider::OpenAiCompatible => {
            let mut i: usize = 0;
            while i < calls.len()
                invariant
                    i <= calls@.len(),
                    calls@.len() == results@.len(),
                    messages@.len() == before.len() + i,
                    shown == call_models(calls@),
                    given == texts(results@),
                    forall|k: int|
                        0 <= k < messages@.len() ==> (#[trigger] messages@[k])@ == if k < before.len() {
                            before[k]@
                        } else {
                            result_message(shown[k - before.len()], given[k - before.len()])
                        },
                decreases calls@.len() - i,
            {
                messages.push(
                    object3(
                        field("role", text("tool")),
                        field("tool_call_id", text(calls[i].id.as_str())),
                        field("content", text(results[i].as_str())),
                    ),
                );
                i = i + 1;
            }
            assert(models(messages@) =~= models(before) + result_messages(provider, shown, given));
        },
    }
}

/// What the arguments of the first call of `provision_kvm_machine` are, if there is
/// one.
pub open spec fn provision_arguments(calls: Seq<CallModel>) -> Option<JsonModel>
    decreases calls.len(),
{
    if calls.len() == 0 {
        None
    } else if calls[0].name == PROVISION_TOOL@ {
        Some(calls[0].arguments)
    } else {
        provision_arguments(calls.drop_first())
    }
}

fn find_provision(calls: &Vec<ToolCall>) -> (found: Option<&Json>)
    ensures
        found_model(found) == provision_arguments(call_models(calls@)),
{
    let ghost all = call_models(calls@);
    let mut i: usize = 0;
    assert(all.skip(0) =~= all);
    while i < calls.len()
        invariant
            i <= calls@.len(),
            all == call_models(calls@),
            provision_arguments(all.skip(i as int)) == provision_arguments(all),
        decreases calls@.len() - i,
    {
        assert(all.skip(i as int)[0] == calls@[i as int]@);
        if same(calls[i].name.as_str(), PROVISION_TOOL) {
            return Some(&calls[i].arguments);
        }
        assert(all.skip(i as int).drop_first() =~= all.skip(i + 1));
        i = i + 1;
    }
    assert(all.skip(i as int) =~= Seq::<CallModel>::empty());
    None
}

/// A conversation with the model that waits for its next turn.
#[derive(Debug)]
pub struct Conversation {
    provider: AiProvider,
    messages: Vec<Json>,
    turns_left: usize,
}

/// What a conversation is: with whom, what was said, and how many turns the model may
/// still take.
pub struct ConversationModel {
    pub provider: AiProvider,
    pub messages: Seq<JsonModel>,
    pub turns_left: nat,
}

impl View for Conversation {
    type V = ConversationModel;

    closed spec fn view(&self) -> ConversationModel {
        ConversationModel {
            provider: self.provider,
            messages: models(self.messages@),
            turns_left: self.turns_left as nat,
        }
    }
}

/// A turn in which the model consults the registry: the calls wait for their results.
#[derive(Debug)]
pub struct ToolRound {
    conversation: Conversation,
    calls: Vec<ToolCall>,
}

impl ToolRound {
    /// The conversation, with the model's turn in it.
    pub closed spec fn so_far(&self) -> ConversationModel {
        self.conversation@
    }

    /// The calls that wait for their results.
    pub closed spec fn waiting(&self) -> Seq<CallModel> {
        call_models(self.calls@)
    }
}

/// What a turn of the model comes to.
#[derive(Debug)]
pub enum TurnOutcome {
    /// The conversation is over.
    Reply(AgentReply),
    /// The model consults the registry.
    Consult(ToolRound),
}

/// What a turn of the model comes to.
pub enum OutcomeModel {
    Plan(PlanModel),
    Text(Seq<char>),
    Consult { so_far: ConversationModel, calls: Seq<CallModel> },
}

impl View for TurnOutcome {
    type V = OutcomeModel;

    open spec fn view(&self) -> OutcomeModel {
        match self {
            TurnOutcome::Reply(AgentReply::Plan(plan)) => OutcomeModel::Plan(plan@),
            TurnOutcome::Reply(AgentReply::Text(text)) => OutcomeModel::Text(text@),
            TurnOutcome::Consult(round) => OutcomeModel::Consult {
                so_far: round.so_far(),
                calls: round.waiting(),
            },
        }
    }
}

/// The conversation that an intent starts.
pub open spec fn conversation_about(provider: AiProvider, intent: Seq<char>) -> ConversationModel {
    ConversationModel {
        provider,
        messages: seq![message("user"@, JsonModel::Text(intent))],
        turns_left: MAX_TURNS as nat,
    }
}

/// What a turn comes to: a text ends the conversation, a call of
/// `provision_kvm_machine` ends it with the plan that its arguments make, and any
/// other calls are to be answered.
pub open spec fn outcome_of(conversation: ConversationModel, turn: TurnModel) -> Result<
    OutcomeModel,
    AgentErrorModel,
> {
    match turn {
        TurnModel::Text(text) => Ok(OutcomeModel::Text(text)),
        TurnModel::Calls { assistant_message, calls } => match provision_arguments(calls) {
            Some(arguments) => match plan_of(arguments) {
                Ok(plan) => Ok(OutcomeModel::Plan(plan)),
                Err(error) => Err(AgentErrorModel::Plan(error)),
            },
            None => Ok(
                OutcomeModel::Consult {
                    so_far: ConversationModel {
                        messages: conversation.messages.push(assistant_message),
                        ..conversation
                    },
                    calls,
                },
            ),
        },
    }
}

/// The conversation once the calls have been answered, unless the model has no turn
/// left.
pub open spec fn conversation_after(
    so_far: ConversationModel,
    calls: Seq<CallModel>,
    results: Seq<Seq<char>>,
) -> Result<ConversationModel, AgentErrorModel> {
    if so_far.turns_left <= 1 {
        Err(AgentErrorModel::BudgetExhausted)
    } else {
        Ok(
            ConversationModel {
                messages: so_far.messages + result_messages(so_far.provider, calls, results),
                turns_left: (so_far.turns_left - 1) as nat,
                ..so_far
            },
        )
    }
}

impl Conversation {
    /// Starts a conversation about a natural-language intent.
    pub fn begin(provider: AiProvider, intent: &str) -> (conversation: Conversation)
        ensures
            conversation@ == conversation_about(provider, intent@),
    {
        let first = object2(field("role", text("user")), field("content", text(intent)));
        let messages: Vec<Json> = vec![first];
        assert(models(messages@) =~= seq![message("user"@, JsonModel::Text(intent@))]);
        Conversation { provider, messages, turns_left: MAX_TURNS }
    }

    /// Builds the request for the model's next turn.
    pub fn request(&self, settings: &ProviderSettings, default_model: &str) -> (request: Result<
        ProviderRequest,
        AgentError,
    >)
        ensures
            (match request {
                Ok(made) => Ok::<RequestModel, AgentErrorModel>(made@),
                Err(error) => Err::<RequestModel, AgentErrorModel>(error@),
            }) == turn_request(*settings, default_model@, self@.messages),
    {
        build_request(settings, default_model, &self.messages)
    }

    /// Takes the model's turn.
    pub fn take_turn(self, turn: ModelTurn) -> (outcome: Result<TurnOutcome, AgentError>)
        ensures
            (match outcome {
                Ok(made) => Ok::<OutcomeModel, AgentErrorModel>(made@),
                Err(error) => Err::<OutcomeModel, AgentErrorModel>(error@),
            }) == outcome_of(self@, turn@),
    {
        match turn {
            ModelTurn::Text(text) => Ok(TurnOutcome::Reply(AgentReply::Text(text))),
            ModelTurn::Calls { assistant_message, calls } => {
                if let Some(arguments) = find_provision(&calls) {
                    return match build_plan(arguments) {
                        Ok(plan) => Ok(TurnOutcome::Reply(AgentReply::Plan(plan))),
                        Err(error) => Err(AgentError::Plan(error)),
                    };
                }
                let mut messages = self.messages;
                let ghost before = messages@;
                messages.push(assistant_message);
                assert(models(messages@) =~= models(before).push(assistant_message@));
                let conversation = Conversation {
                    provider: self.provider,
                    messages,
                    turns_left: self.turns_left,
                };
                Ok(TurnOutcome::Consult(ToolRound { conversation, calls }))
            },
        }
    }
}

impl ToolRound {
    /// The calls that wait for their results.
    pub fn calls(&self) -> (calls: &Vec<ToolCall>)
        ensures
            call_models(calls@) == self.waiting(),
    {
        &self.calls
    }

    /// Answers the calls and gives the conversation back to the model, unless it has
    /// no turn left.
    pub fn answer(self, results: Vec<String>) -> (conversation: Result<Conversation, AgentError>)
        requires
            results@.len() == self.waiting().len(),
        ensures
            (match conversation {
                Ok(made) => Ok::<ConversationModel, AgentErrorModel>(made@),
                Err(error) => Err::<ConversationModel, AgentErrorModel>(error@),
            }) == conversation_after(self.so_far(), self.waiting(), texts(results@)),
    {
        if self.conversation.turns_left <= 1 {
            return Err(AgentError::BudgetExhausted);
        }
        let mut messages = self.conversation.messages;
        append_tool_results(self.conversation.provider, &mut messages, &self.calls, &results);
        Ok(
            Conversation {
                provider: self.conversation.provider,
                messages,
                turns_left: self.conversation.turns_left - 1,
            },
        )
    }
}

/// One exchange with the model: its turn, and the results of the calls in it.
pub struct Exchange {
    pub turn: TurnModel,
    pub results: Seq<Seq<char>>,
}

/// How a conversation ends on these exchanges, if it does: with an outcome that is no
/// consultation, or with an error.
pub open spec fn ending(conversation: ConversationModel, exchanges: Seq<Exchange>) -> Option<
    Result<OutcomeModel, AgentErrorModel>,
>
    decreases exchanges.len(),
{
    if exchanges.len() == 0 {
        None
    } else {
        match outcome_of(conversation, exchanges[0].turn) {
            Err(error) => Some(Err(error)),
            Ok(OutcomeModel::Consult { so_far, calls }) => match conversation_after(
                so_far,
                calls,
                exchanges[0].results,
            ) {
                Err(error) => Some(Err(error)),
                Ok(next) => ending(next, exchanges.drop_first()),
            },
            Ok(outcome) => Some(Ok(outcome)),
        }
    }
}

/// A turn in which the model only consults the registry.
pub open spec fn only_consults(turn: TurnModel) -> bool {
    turn matches TurnModel::Calls { calls, .. } && provision_arguments(calls) is None
}

proof fn lemma_turns_run_out(conversation: ConversationModel, exchanges: Seq<Exchange>)
    requires
        conversation.turns_left >= 1,
        exchanges.len() >= conversation.turns_left,
    ensures
        ending(conversation, exchanges) is Some,
        (forall|k: int|
            0 <= k < conversation.turns_left ==> only_consults((#[trigger] exchanges[k]).turn)) ==> ending(
            conversation,
            exchanges,
        ) == Some(Err::<OutcomeModel, AgentErrorModel>(AgentErrorModel::BudgetExhausted)),
    decreases conversation.turns_left,
{
    let consults = forall|k: int|
        0 <= k < conversation.turns_left ==> only_consults((#[trigger] exchanges[k]).turn);
    if consults {
        assert(only_consults(exchanges[0].turn));
    }
    match outcome_of(conversation, exchanges[0].turn) {
        Ok(OutcomeModel::Consult { so_far, calls }) => {
            match conversation_after(so_far, calls, exchanges[0].results) {
                Ok(next) => {
                    let rest = exchanges.drop_first();
                    lemma_turns_run_out(next, rest);
                    if consults {
                        assert forall|k: int| 0 <= k < next.turns_left implies only_consults(
                            (#[trigger] rest[k]).turn,
                        ) by {
                            assert(rest[k] == exchanges[k + 1]);
                        }
                    }
                },
                Err(_) => {},
            }
        },
        _ => {},
    }
}

/// Whatever the model does, a conversation ends within [`MAX_TURNS`] turns.
pub proof fn law_conversation_ends(provider: AiProvider, intent: Seq<char>, exchanges: Seq<Exchange>)
    requires
        exchanges.len() >= MAX_TURNS,
    ensures
        ending(conversation_about(provider, intent), exchanges) is Some,
{
    lemma_turns_run_out(conversation_about(provider, intent), exchanges);
}

/// A model that does nothing but consult the registry is stopped after
/// [`MAX_TURNS`] turns, without a plan.
pub proof fn law_endless_consulting_is_stopped(
    provider: AiProvider,
    intent: Seq<char>,
    exchanges: Seq<Exchange>,
)
    requires
        exchanges.len() >= MAX_TURNS,
        forall|k: int| 0 <= k < MAX_TURNS ==> only_consults((#[trigger] exchanges[k]).turn),
    ensures
        ending(conversation_about(provider, intent), exchanges) == Some(
            Err::<OutcomeModel, AgentErrorModel>(AgentErrorModel::BudgetExhausted),
        ),
{
    lemma_turns_run_out(conversation_about(provider, intent), exchanges);
}

/// A call of `provision_kvm_machine` ends the conversation, whatever else the model
/// calls in the same turn: with the plan that its arguments make, or with what is
/// wrong with them.
pub proof fn law_provision_call_is_terminal(
    conversation: ConversationModel,
    assistant_message: JsonModel,
    calls: Seq<CallModel>,
    k: int,
)
    requires
        0 <= k < calls.len(),
        calls[k].name == PROVISION_TOOL@,
        forall|j: int| 0 <= j < k ==> (#[trigger] calls[j]).name != PROVISION_TOOL@,
    ensures
        outcome_of(conversation, TurnModel::Calls { assistant_message, calls }) == (match plan_of(
            calls[k].arguments,
        ) {
            Ok(plan) => Ok(OutcomeModel::Plan(plan)),
            Err(error) => Err(AgentErrorModel::Plan(error)),
        }),
{
    lemma_first_provision(calls, k);
}

proof fn lemma_first_provision(calls: Seq<CallModel>, k: int)
    requires
        0 <= k < calls.len(),
        calls[k].name == PROVISION_TOOL@,
        forall|j: int| 0 <= j < k ==> (#[trigger] calls[j]).name != PROVISION_TOOL@,
    ensures
        provision_arguments(calls) == Some(calls[k].arguments),
    decreases k,
{
    if k > 0 {
        assert(calls[0].name != PROVISION_TOOL@);
        let rest = calls.drop_first();
        assert forall|j: int| 0 <= j < k - 1 implies (#[trigger] rest[j]).name != PROVISION_TOOL@ by {
            assert(rest[j] == calls[j + 1]);
        }
        lemma_first_provision(rest, k - 1);
    }
}

/// A conversation only ever grows: consulting and answering leave what was said
/// before where it was.
pub proof fn law_conversation_only_grows(
    conversation: ConversationModel,
    turn: TurnModel,
    results: Seq<Seq<char>>,
    next: ConversationModel,
)
    requires
        outcome_of(conversation, turn) matches Ok(OutcomeModel::Consult { so_far, calls })
            && conversation_after(so_far, calls, results) == Ok::<ConversationModel, AgentErrorModel>(next),
    ensures
        conversation.messages.is_prefix_of(next.messages),
        next.provider == conversation.provider,
        next.turns_left + 1 == conversation.turns_left,
{
    assert(next.messages.take(conversation.messages.len() as int) =~= conversation.messages);
}

proof fn lemma_openai_call_at(raw_calls: Seq<JsonModel>, k: int)
    requires
        openai_calls(raw_calls) is Ok,
        0 <= k < raw_calls.len(),
    ensures
        openai_calls(raw_calls)->Ok_0.len() == raw_calls.len(),
        openai_call(raw_calls[k]) == Ok::<CallModel, AgentErrorModel>(openai_calls(raw_calls)->Ok_0[k]),
    decreases raw_calls.len(),
{
    lemma_openai_calls(raw_calls);
    lemma_openai_calls(raw_calls.drop_last());
    if k < raw_calls.len() - 1 {
        lemma_openai_call_at(raw_calls.drop_last(), k);
    }
}

/// Each tool call of an OpenAI-compatible response is taken over in its place: with the
/// id that stands next to its function, the name that stands in it, and the arguments
/// that its argument text parses to. A name or an id that is not there is empty.
pub proof fn law_openai_calls_are_taken_over(
    raw_calls: Seq<JsonModel>,
    calls: Seq<CallModel>,
    k: int,
    id: Seq<char>,
    name: Seq<char>,
)
    requires
        openai_calls(raw_calls) == Ok::<Seq<CallModel>, AgentErrorModel>(calls),
        0 <= k < raw_calls.len(),
    ensures
        calls.len() == raw_calls.len(),
        raw_calls[k].text_field("id"@) == Some(id) ==> calls[k].id == id,
        raw_calls[k].text_field("id"@) is None ==> calls[k].id.len() == 0,
        raw_calls[k].field("function"@) matches Some(function) && {
            &&& function.text_field("name"@) == Some(name) ==> calls[k].name == name
            &&& function.text_field("name"@) is None ==> calls[k].name.len() == 0
            &&& function.text_field("arguments"@) matches Some(arguments) ==> json_parsed(arguments) == Ok::<
                JsonModel,
                Seq<char>,
            >(calls[k].arguments)
            &&& function.text_field("arguments"@) is None ==> json_parsed("{}"@) == Ok::<JsonModel, Seq<char>>(
                calls[k].arguments,
            )
        },
{
    lemma_openai_call_at(raw_calls, k);
}

/// Tool calls that can all be made are all made, and of those that cannot the first one
/// decides what is reported.
pub proof fn law_first_bad_openai_call_is_reported(raw_calls: Seq<JsonModel>)
    ensures
        (forall|i: int| 0 <= i < raw_calls.len() ==> openai_call(#[trigger] raw_calls[i]) is Ok)
            <==> openai_calls(raw_calls) is Ok,
        openai_calls(raw_calls) matches Err(error) ==> exists|i: int|
            0 <= i < raw_calls.len() && openai_call(#[trigger] raw_calls[i]) == Err::<CallModel, AgentErrorModel>(
                error,
            ) && forall|j: int| 0 <= j < i ==> openai_call(#[trigger] raw_calls[j]) is Ok,
    decreases raw_calls.len(),
{
    if raw_calls.len() > 0 {
        let earlier = raw_calls.drop_last();
        law_first_bad_openai_call_is_reported(earlier);
        if openai_calls(earlier) is Ok {
            assert forall|i: int| 0 <= i < earlier.len() implies openai_call(#[trigger] raw_calls[i]) is Ok by {
                assert(earlier[i] == raw_calls[i]);
            }
            if openai_calls(raw_calls) is Err {
                assert(openai_call(raw_calls[raw_calls.len() - 1]) is Err);
            } else {
                assert forall|i: int| 0 <= i < raw_calls.len() implies openai_call(#[trigger] raw_calls[i]) is Ok by {
                    if i == raw_calls.len() - 1 {
                        assert(raw_calls[i] == raw_calls.last());
                    }
                }
            }
        } else {
            let error = openai_calls(earlier)->Err_0;
            let i = choose|i: int|
                0 <= i < earlier.len() && openai_call(#[trigger] earlier[i]) == Err::<CallModel, AgentErrorModel>(
                    error,
                ) && forall|j: int| 0 <= j < i ==> openai_call(#[trigger] earlier[j]) is Ok;
            assert(raw_calls[i] == earlier[i]);
            assert forall|j: int| 0 <= j < i implies openai_call(#[trigger] raw_calls[j]) is Ok by {
                assert(earlier[j] == raw_calls[j]);
            }
        }
    }
}

/// A tool call without a function is refused, and so is one whose argument text is no
/// JSON or not an object, under the name that the model called.
pub proof fn law_bad_openai_calls(raw: JsonModel, function: JsonModel, parsed: Result<JsonModel, Seq<char>>)
    ensures
        raw.field("function"@) is None ==> openai_call(raw) == Err::<CallModel, AgentErrorModel>(
            AgentErrorModel::MissingFunction,
        ),
        openai_call_with(raw, function, parsed) is Ok <==> (parsed matches Ok(arguments) && arguments is Object),
        parsed matches Err(why) ==> (openai_call_with(raw, function, parsed) matches Err(
            AgentErrorModel::MalformedArguments { tool, reason },
        ) && reason == why && (function.text_field("name"@) matches Some(name) ==> tool == name)),
        parsed matches Ok(arguments) && arguments !is Object ==> (openai_call_with(raw, function, parsed) matches Err(
            AgentErrorModel::MalformedArguments { tool, reason },
        ) && reason == "not a JSON object"@ && (function.text_field("name"@) matches Some(name) ==> tool
            == name)),
{
}

/// The `tool_use` blocks among `content`, in order.
pub open spec fn tool_blocks(content: Seq<JsonModel>) -> Seq<JsonModel> {
    content.filter(|block: JsonModel| block.text_field("type"@) == Some("tool_use"@))
}

/// Each `tool_use` block of an Anthropic response is taken over in its place, with its
/// id, its name and its input; blocks of other types make no call.
pub proof fn law_tool_use_blocks_are_taken_over(content: Seq<JsonModel>, calls: Seq<CallModel>, k: int)
    requires
        block_calls(content) == Ok::<Seq<CallModel>, AgentErrorModel>(calls),
        0 <= k < calls.len(),
    ensures
        calls.len() == tool_blocks(content).len(),
        ({
            let block = tool_blocks(content)[k];
            &&& block.text_field("id"@) matches Some(id) ==> calls[k].id == id
            &&& block.text_field("id"@) is None ==> calls[k].id.len() == 0
            &&& block.text_field("name"@) matches Some(name) ==> calls[k].name == name
            &&& block.text_field("name"@) is None ==> calls[k].name.len() == 0
            &&& block.field("input"@) matches Some(input) ==> calls[k].arguments == input
            &&& block.field("input"@) is None ==> calls[k].arguments == JsonModel::Object(seq![])
        }),
{
    lemma_block_call_at(content);
    assert(call_of_block(tool_blocks(content)[k]) == Ok::<CallModel, AgentErrorModel>(calls[k]));
}

proof fn lemma_block_call_at(content: Seq<JsonModel>)
    ensures
        block_calls(content) matches Ok(calls) ==> calls.len() == tool_blocks(content).len() && forall|k: int|
            0 <= k < calls.len() ==> call_of_block(tool_blocks(content)[k]) == Ok::<CallModel, AgentErrorModel>(
                #[trigger] calls[k],
            ),
    decreases content.len(),
{
    reveal(Seq::filter);
    if content.len() > 0 {
        lemma_block_call_at(content.drop_last());
        if block_calls(content) is Ok {
            let earlier = tool_blocks(content.drop_last());
            if is_block(content.last(), "tool_use"@) {
                assert(tool_blocks(content) =~= earlier.push(content.last()));
            } else {
                assert(tool_blocks(content) =~= earlier);
            }
        }
    }
}

/// A block whose input is not an object is refused under its name; any other makes a call.
pub proof fn law_bad_tool_use_block(block: JsonModel)
    ensures
        (block.field("input"@) matches Some(input) && input !is Object) <==> call_of_block(block) is Err,
        call_of_block(block) matches Err(error) ==> (error matches AgentErrorModel::ArgumentsNotObject { tool } && (
        block.text_field("name"@) matches Some(name) ==> tool == name)),
{
}

/// A turn of an OpenAI-compatible server is its first message: the tool calls in it, or
/// its text where there are none. The message is kept as it came.
pub proof fn law_openai_turn_is_the_first_message(
    response: JsonModel,
    choices: Seq<JsonModel>,
    said: JsonModel,
    raw_calls: Seq<JsonModel>,
)
    requires
        response.list_field("choices"@) == Some(choices),
        choices.len() > 0,
        choices[0].field("message"@) == Some(said),
        said.list_field("tool_calls"@) is Some ==> said.list_field("tool_calls"@) == Some(raw_calls),
    ensures
        said.list_field("tool_calls"@) is None || raw_calls.len() == 0 ==> (turn_of(
            AiProvider::OpenAiCompatible,
            response,
        ) matches Ok(TurnModel::Text(text)) && match said.text_field("content"@) {
            Some(content) => text == content,
            None => text.len() == 0,
        }),
        said.list_field("tool_calls"@) is Some && raw_calls.len() > 0 ==> match openai_calls(raw_calls) {
            Ok(calls) => turn_of(AiProvider::OpenAiCompatible, response) == Ok::<TurnModel, AgentErrorModel>(
                TurnModel::Calls { assistant_message: said, calls },
            ),
            Err(error) => turn_of(AiProvider::OpenAiCompatible, response) == Err::<TurnModel, AgentErrorModel>(
                error,
            ),
        },
{
}

/// A response without what its turn stands in is refused.
pub proof fn law_empty_responses_are_refused(response: JsonModel)
    ensures
        response.list_field("choices"@) is None ==> turn_of(AiProvider::OpenAiCompatible, response) == Err::<
            TurnModel,
            AgentErrorModel,
        >(AgentErrorModel::MissingMessage),
        response.list_field("choices"@) matches Some(choices) && (choices.len() == 0 || choices[0].field(
            "message"@,
        ) is None) ==> turn_of(AiProvider::OpenAiCompatible, response) == Err::<TurnModel, AgentErrorModel>(
            AgentErrorModel::MissingMessage,
        ),
        response.list_field("content"@) is None ==> turn_of(AiProvider::Anthropic, response) == Err::<
            TurnModel,
            AgentErrorModel,
        >(AgentErrorModel::MissingContent),
{
}

/// A turn of the hosted API is a text unless the model stopped to use tools; then it is
/// the calls of its blocks, of which there has to be one, and the whole content is kept
/// as the assistant's message.
pub proof fn law_anthropic_turn_follows_the_stop_reason(response: JsonModel, content: Seq<JsonModel>)
    requires
        response.list_field("content"@) == Some(content),
    ensures
        response.text_field("stop_reason"@) != Some("tool_use"@) ==> turn_of(AiProvider::Anthropic, response)
            == Ok::<TurnModel, AgentErrorModel>(TurnModel::Text(joined_lines(block_texts(content)))),
        response.text_field("stop_reason"@) == Some("tool_use"@) ==> match block_calls(content) {
            Err(error) => turn_of(AiProvider::Anthropic, response) == Err::<TurnModel, AgentErrorModel>(error),
            Ok(calls) => if calls.len() == 0 {
                turn_of(AiProvider::Anthropic, response) == Err::<TurnModel, AgentErrorModel>(
                    AgentErrorModel::MissingToolUse,
                )
            } else {
                turn_of(AiProvider::Anthropic, response) matches Ok(
                    TurnModel::Calls { assistant_message, calls: made },
                ) && made == calls && assistant_message.text_field("role"@) == Some("assistant"@)
                    && assistant_message.list_field("content"@) == Some(content)
            },
        },
{
    reveal_strlit("tool_use");
    assert("tool_use"@.len() == 8);
    reveal_strlit("role");
    assert("role"@.len() == 4);
    reveal_strlit("content");
    assert("content"@.len() == 7);
    let fields = seq![("role"@, JsonModel::Text("assistant"@)), ("content"@, JsonModel::List(content))];
    law_field_is_the_first_of_its_name(fields, "role"@, 0);
    law_field_is_the_first_of_its_name(fields, "content"@, 1);
}

/// The text of a response is that of its text blocks, in order, each on a line of its own.
pub proof fn law_text_blocks_are_joined(content: Seq<JsonModel>, texts: Seq<Seq<char>>, text: Seq<char>)
    ensures
        block_texts(content) == content.filter(
            |block: JsonModel| block.text_field("type"@) == Some("text"@) && block.text_field("text"@) is Some,
        ).map_values(|block: JsonModel| block.text_field("text"@)->Some_0),
        joined_lines(seq![]) == Seq::<char>::empty(),
        joined_lines(seq![text]) == text,
        texts.len() > 0 ==> joined_lines(texts.push(text)) == joined_lines(texts) + "\n"@ + text,
    decreases content.len(),
{
    reveal(Seq::filter);
    let wanted = |block: JsonModel|
        block.text_field("type"@) == Some("text"@) && block.text_field("text"@) is Some;
    let shown = |block: JsonModel| block.text_field("text"@)->Some_0;
    assert(texts.push(text).drop_last() =~= texts);
    if content.len() > 0 {
        let earlier = content.drop_last();
        law_text_blocks_are_joined(earlier, texts, text);
        assert(block_texts(content) =~= content.filter(wanted).map_values(shown));
    } else {
        assert(block_texts(content) =~= content.filter(wanted).map_values(shown));
    }
}

/// A result message of an OpenAI-compatible conversation says which call it answers.
proof fn lemma_result_message(call: CallModel, result: Seq<char>)
    ensures
        result_message(call, result).text_field("role"@) == Some("tool"@),
        result_message(call, result).text_field("tool_call_id"@) == Some(call.id),
        result_message(call, result).text_field("content"@) == Some(result),
{
    reveal_strlit("role");
    assert("role"@.len() == 4);
    reveal_strlit("tool_call_id");
    assert("tool_call_id"@.len() == 12);
    reveal_strlit("content");
    assert("content"@.len() == 7);
    let fields = result_message(call, result)->Object_0;
    law_field_is_the_first_of_its_name(fields, "role"@, 0);
    law_field_is_the_first_of_its_name(fields, "tool_call_id"@, 1);
    law_field_is_the_first_of_its_name(fields, "content"@, 2);
}

proof fn lemma_result_block(call: CallModel, result: Seq<char>)
    ensures
        result_block(call, result).text_field("type"@) == Some("tool_result"@),
        result_block(call, result).text_field("tool_use_id"@) == Some(call.id),
        result_block(call, result).text_field("content"@) == Some(result),
{
    reveal_strlit("type");
    assert("type"@.len() == 4);
    reveal_strlit("tool_use_id");
    assert("tool_use_id"@.len() == 11);
    reveal_strlit("content");
    assert("content"@.len() == 7);
    let fields = result_block(call, result)->Object_0;
    law_field_is_the_first_of_its_name(fields, "type"@, 0);
    law_field_is_the_first_of_its_name(fields, "tool_use_id"@, 1);
    law_field_is_the_first_of_its_name(fields, "content"@, 2);
}

proof fn lemma_message(role: Seq<char>, content: JsonModel)
    ensures
        message(role, content).text_field("role"@) == Some(role),
        message(role, content).field("content"@) == Some(content),
{
    reveal_strlit("role");
    assert("role"@.len() == 4);
    reveal_strlit("content");
    assert("content"@.len() == 7);
    let fields = message(role, content)->Object_0;
    law_field_is_the_first_of_its_name(fields, "role"@, 0);
    law_field_is_the_first_of_its_name(fields, "content"@, 1);
}

/// The results of the calls of an OpenAI-compatible server go back one message each, in
/// the order of the calls, and each says by its id which call of the replayed assistant
/// message it answers.
pub proof fn law_openai_results_answer_their_calls(
    conversation: ConversationModel,
    response: JsonModel,
    said: JsonModel,
    raw_calls: Seq<JsonModel>,
    results: Seq<Seq<char>>,
    next: ConversationModel,
    k: int,
)
    requires
        conversation.provider is OpenAiCompatible,
        response.list_field("choices"@) matches Some(choices) && choices.len() > 0 && choices[0].field("message"@)
            == Some(said),
        said.list_field("tool_calls"@) == Some(raw_calls),
        0 <= k < raw_calls.len(),
        turn_of(AiProvider::OpenAiCompatible, response) matches Ok(turn) && outcome_of(conversation, turn) matches Ok(
            OutcomeModel::Consult { so_far, calls },
        ) && conversation_after(so_far, calls, results) == Ok::<ConversationModel, AgentErrorModel>(next),
    ensures
        ({
            let at = conversation.messages.len() as int;
            let answer = next.messages[at + 1 + k];
            &&& next.messages.len() == at + 1 + raw_calls.len()
            &&& next.messages[at] == said
            &&& answer.text_field("role"@) == Some("tool"@)
            &&& raw_calls[k].text_field("id"@) matches Some(id) ==> answer.text_field("tool_call_id"@) == Some(id)
            &&& answer.text_field("content"@) == Some(results[k])
        }),
{
    lemma_openai_call_at(raw_calls, k);
    let calls = openai_calls(raw_calls)->Ok_0;
    lemma_result_message(calls[k], results[k]);
    let at = conversation.messages.len() as int;
    assert(next.messages[at + 1 + k] == result_message(calls[k], results[k]));
}

/// The results of the calls of the hosted API go back in one message of the user, a block
/// for each, in the order of the calls, and each says by its id which `tool_use` block of
/// the replayed assistant message it answers.
pub proof fn law_anthropic_results_answer_their_calls(
    conversation: ConversationModel,
    response: JsonModel,
    content: Seq<JsonModel>,
    results: Seq<Seq<char>>,
    next: ConversationModel,
    k: int,
)
    requires
        conversation.provider is Anthropic,
        response.list_field("content"@) == Some(content),
        0 <= k < tool_blocks(content).len(),
        turn_of(AiProvider::Anthropic, response) matches Ok(turn) && outcome_of(conversation, turn) matches Ok(
            OutcomeModel::Consult { so_far, calls },
        ) && conversation_after(so_far, calls, results) == Ok::<ConversationModel, AgentErrorModel>(next),
    ensures
        ({
            let at = conversation.messages.len() as int;
            &&& next.messages.len() == at + 2
            &&& next.messages[at].text_field("role"@) == Some("assistant"@)
            &&& next.messages[at].list_field("content"@) == Some(content)
            &&& next.messages[at + 1].text_field("role"@) == Some("user"@)
            &&& next.messages[at + 1].list_field("content"@) matches Some(blocks) && {
                &&& blocks.len() == tool_blocks(content).len()
                &&& blocks[k].text_field("type"@) == Some("tool_result"@)
                &&& tool_blocks(content)[k].text_field("id"@) matches Some(id) ==> blocks[k].text_field(
                    "tool_use_id"@,
                ) == Some(id)
                &&& blocks[k].text_field("content"@) == Some(results[k])
            }
        }),
{
    law_anthropic_turn_follows_the_stop_reason(response, content);
    lemma_block_call_at(content);
    let calls = block_calls(content)->Ok_0;
    law_tool_use_blocks_are_taken_over(content, calls, k);
    let blocks = Seq::new(calls.len(), |i: int| result_block(calls[i], results[i]));
    lemma_message("user"@, JsonModel::List(blocks));
    lemma_result_block(calls[k], results[k]);
    assert(blocks[k] == result_block(calls[k], results[k]));
}

/// A conversation starts with the user's intent and nothing else, and leaves the model
/// six turns.
pub proof fn law_conversation_starts_with_the_intent(provider: AiProvider, intent: Seq<char>)
    ensures
        ({
            let conversation = conversation_about(provider, intent);
            &&& conversation.provider == provider
            &&& conversation.messages.len() == 1
            &&& conversation.messages[0].text_field("role"@) == Some("user"@)
            &&& conversation.messages[0].text_field("content"@) == Some(intent)
            &&& conversation.turns_left == 6
        }),
{
    lemma_message("user"@, JsonModel::Text(intent));
}

/// A turn without a call of `provision_kvm_machine` makes no plan: a text is the reply,
/// and calls are to be answered, after the assistant's message was kept.
pub proof fn law_no_plan_without_a_provision_call(
    conversation: ConversationModel,
    said: JsonModel,
    calls: Seq<CallModel>,
    text: Seq<char>,
)
    requires
        forall|k: int| 0 <= k < calls.len() ==> (#[trigger] calls[k]).name != "provision_kvm_machine"@,
    ensures
        outcome_of(conversation, TurnModel::Text(text)) == Ok::<OutcomeModel, AgentErrorModel>(
            OutcomeModel::Text(text),
        ),
        outcome_of(conversation, TurnModel::Calls { assistant_message: said, calls }) matches Ok(
            OutcomeModel::Consult { so_far, calls: waiting },
        ) && waiting == calls && so_far.messages == conversation.messages.push(said) && so_far.provider
            == conversation.provider && so_far.turns_left == conversation.turns_left,
{
    lemma_no_provision(calls);
}

proof fn lemma_no_provision(calls: Seq<CallModel>)
    requires
        forall|k: int| 0 <= k < calls.len() ==> (#[trigger] calls[k]).name != PROVISION_TOOL@,
    ensures
        provision_arguments(calls) is None,
    decreases calls.len(),
{
    if calls.len() > 0 {
        let rest = calls.drop_first();
        assert(calls[0].name != PROVISION_TOOL@);
        assert forall|k: int| 0 <= k < rest.len() implies (#[trigger] rest[k]).name != PROVISION_TOOL@ by {
            assert(rest[k] == calls[k + 1]);
        }
        lemma_no_provision(rest);
    }
}

/// A plan says what the arguments say: the numbers and the name as they stand, and the
/// bridge and the disk unless they count as none. Arguments make a plan exactly if both
/// numbers are there and fit in 32 bits and the name is there; what is missing first is
/// reported.
pub proof fn law_plan_says_what_was_asked(input: JsonModel)
    ensures
        plan_of(input) is Ok <==> (input.number_field("vcpus"@) matches Some(vcpus) && vcpus <= 0xffff_ffff) && (
        input.number_field("memory_mb"@) matches Some(memory_mb) && memory_mb <= 0xffff_ffff)
            && input.text_field("vm_name"@) is Some,
        plan_of(input) matches Ok(plan) ==> {
            &&& input.number_field("vcpus"@) == Some(plan.vcpus as u64)
            &&& input.number_field("memory_mb"@) == Some(plan.memory_mb as u64)
            &&& input.text_field("vm_name"@) == Some(plan.vm_name)
            &&& plan.network_bridge == unless_none(input.text_field("network_bridge"@))
            &&& plan.disk_image_path == unless_none(input.text_field("disk_image_path"@))
        },
        plan_of(input) == Err::<PlanModel, PlanError>(PlanError::MissingVcpus) <==> input.number_field("vcpus"@)
            is None,
        plan_of(input) == Err::<PlanModel, PlanError>(PlanError::VcpusOutOfRange) <==> (input.number_field(
            "vcpus"@,
        ) matches Some(vcpus) && vcpus > 0xffff_ffff),
        plan_of(input) == Err::<PlanModel, PlanError>(PlanError::MissingMemory) ==> input.number_field(
            "memory_mb"@,
        ) is None,
        plan_of(input) == Err::<PlanModel, PlanError>(PlanError::MemoryOutOfRange) ==> (input.number_field(
            "memory_mb"@,
        ) matches Some(memory_mb) && memory_mb > 0xffff_ffff),
        plan_of(input) == Err::<PlanModel, PlanError>(PlanError::MissingName) ==> input.text_field("vm_name"@)
            is None,
{
}

/// A plan that is written as JSON says the same as arguments again.
pub proof fn law_plan_round_trips(plan: PlanModel)
    requires
        unless_none(plan.network_bridge) == plan.network_bridge,
        unless_none(plan.disk_image_path) == plan.disk_image_path,
    ensures
        plan_of(plan_json(plan)) == Ok::<PlanModel, PlanError>(plan),
{
    reveal_strlit("vcpus");
    assert("vcpus"@.len() == 5);
    reveal_strlit("memory_mb");
    assert("memory_mb"@.len() == 9);
    reveal_strlit("vm_name");
    assert("vm_name"@.len() == 7);
    reveal_strlit("network_bridge");
    assert("network_bridge"@.len() == 14);
    reveal_strlit("disk_image_path");
    assert("disk_image_path"@.len() == 15);
    let fields = plan_json(plan)->Object_0;
    law_field_is_the_first_of_its_name(fields, "vcpus"@, 0);
    law_field_is_the_first_of_its_name(fields, "memory_mb"@, 1);
    law_field_is_the_first_of_its_name(fields, "vm_name"@, 2);
    law_field_is_the_first_of_its_name(fields, "network_bridge"@, 3);
    law_field_is_the_first_of_its_name(fields, "disk_image_path"@, 4);
}

/// A request to the hosted API carries the configured model, or else the default one, the
/// system prompt, the tools and the whole conversation.
pub proof fn law_anthropic_request_carries_the_conversation(
    model: Option<Seq<char>>,
    default_model: Seq<char>,
    messages: Seq<JsonModel>,
)
    ensures
        ({
            let body = anthropic_body(model, default_model, messages);
            &&& model matches Some(configured) ==> body.text_field("model"@) == Some(configured)
            &&& model is None ==> body.text_field("model"@) == Some(default_model)
            &&& body.number_field("max_tokens"@) == Some(1024u64)
            &&& body.text_field("system"@) == Some(SYSTEM_PROMPT@)
            &&& body.field("tools"@) == Some(anthropic_tool_list())
            &&& body.list_field("messages"@) == Some(messages)
        }),
{
    reveal_strlit("model");
    assert("model"@.len() == 5);
    reveal_strlit("max_tokens");
    assert("max_tokens"@.len() == 10);
    reveal_strlit("system");
    assert("system"@.len() == 6);
    reveal_strlit("tools");
    assert("tools"@.len() == 5);
    reveal_strlit("messages");
    assert("messages"@.len() == 8);
    let fields = anthropic_body(model, default_model, messages)->Object_0;
    assert("model"@[0] != "tools"@[0]);
    law_field_is_the_first_of_its_name(fields, "model"@, 0);
    law_field_is_the_first_of_its_name(fields, "max_tokens"@, 1);
    law_field_is_the_first_of_its_name(fields, "system"@, 2);
    law_field_is_the_first_of_its_name(fields, "tools"@, 3);
    law_field_is_the_first_of_its_name(fields, "messages"@, 4);
}

/// A request to an OpenAI-compatible server carries the model, the tools, which it may
/// choose to use, and the system prompt before the whole conversation.
pub proof fn law_openai_request_carries_the_conversation(model: Seq<char>, messages: Seq<JsonModel>, k: int)
    requires
        0 <= k < messages.len(),
    ensures
        ({
            let body = openai_body(model, messages);
            &&& body.text_field("model"@) == Some(model)
            &&& body.number_field("max_tokens"@) == Some(1024u64)
            &&& body.text_field("tool_choice"@) == Some("auto"@)
            &&& body.field("tools"@) == Some(openai_tool_list())
            &&& body.list_field("messages"@) matches Some(sent) && {
                &&& sent.len() == messages.len() + 1
                &&& sent[0].text_field("role"@) == Some("system"@)
                &&& sent[0].text_field("content"@) == Some(SYSTEM_PROMPT@)
                &&& sent[k + 1] == messages[k]
            }
        }),
{
    reveal_strlit("model");
    assert("model"@.len() == 5);
    reveal_strlit("max_tokens");
    assert("max_tokens"@.len() == 10);
    reveal_strlit("tool_choice");
    assert("tool_choice"@.len() == 11);
    reveal_strlit("tools");
    assert("tools"@.len() == 5);
    reveal_strlit("messages");
    assert("messages"@.len() == 8);
    let fields = openai_body(model, messages)->Object_0;
    assert("model"@[0] != "tools"@[0]);
    lemma_message("system"@, JsonModel::Text(SYSTEM_PROMPT@));
    law_field_is_the_first_of_its_name(fields, "model"@, 0);
    law_field_is_the_first_of_its_name(fields, "max_tokens"@, 1);
    law_field_is_the_first_of_its_name(fields, "tools"@, 2);
    law_field_is_the_first_of_its_name(fields, "tool_choice"@, 3);
    law_field_is_the_first_of_its_name(fields, "messages"@, 4);
}

/// The slashes at the end of a base URL are dropped, all of them and nothing else.
pub proof fn law_trailing_slashes_are_dropped(s: Seq<char>, i: int)
    ensures
        without_trailing_slashes(s).is_prefix_of(s),
        without_trailing_slashes(s).len() > 0 ==> without_trailing_slashes(s).last() != '/',
        without_trailing_slashes(s).len() <= i < s.len() ==> s[i] == '/',
    decreases s.len(),
{
    if s.len() > 0 && s.last() == '/' {
        law_trailing_slashes_are_dropped(s.drop_last(), i);
        let short = without_trailing_slashes(s);
        assert(short =~= s.take(short.len() as int));
    } else {
        assert(s.take(s.len() as int) =~= s);
    }
}

/// Where a request goes and what it carries: the hosted API at its address, with the key
/// and the version of the API, and never without a key; any other server below its base
/// URL, with a bearer token exactly if there is a key, and never without a model.
pub proof fn law_requests_go_where_they_are_configured(
    settings: ProviderSettings,
    default_model: Seq<char>,
    messages: Seq<JsonModel>,
)
    ensures
        settings.provider is Anthropic ==> match settings.api_key {
            None => turn_request(settings, default_model, messages) == Err::<RequestModel, AgentErrorModel>(
                AgentErrorModel::MissingKey,
            ),
            Some(key) => turn_request(settings, default_model, messages) matches Ok(request) && {
                &&& request.url == "https://api.anthropic.com/v1/messages"@
                &&& request.headers == seq![("x-api-key"@, key@), ("anthropic-version"@, "2023-06-01"@)]
                &&& request.body == rendered(anthropic_body(text_of(settings.model), default_model, messages))
            },
        },
        settings.provider is OpenAiCompatible ==> match settings.model {
            None => turn_request(settings, default_model, messages) == Err::<RequestModel, AgentErrorModel>(
                AgentErrorModel::MissingModel,
            ),
            Some(model) => turn_request(settings, default_model, messages) matches Ok(request) && {
                &&& settings.base_url matches Some(base) ==> request.url == without_trailing_slashes(base@)
                    + "/chat/completions"@
                &&& settings.base_url is None ==> request.url == "http://localhost:11434/v1/chat/completions"@
                &&& settings.api_key matches Some(key) ==> request.headers == seq![
                    ("authorization"@, "Bearer "@ + key@),
                ]
                &&& settings.api_key is None ==> request.headers.len() == 0
                &&& request.body == rendered(openai_body(model@, messages))
            },
        },
{
    reveal_strlit("http://localhost:11434/v1");
    reveal_strlit("/chat/completions");
    reveal_strlit("http://localhost:11434/v1/chat/completions");
    assert("http://localhost:11434/v1"@ + "/chat/completions"@ =~= "http://localhost:11434/v1/chat/completions"@);
}

/// Listing gives the names of all records, oldest first; inspecting gives the record of
/// the name that was asked for, or says that there is none; anything else is no tool.
pub proof fn law_registry_tools_read_the_ledger(
    name: Seq<char>,
    arguments: JsonModel,
    records: Seq<VmRecord>,
    wanted: Seq<char>,
    k: int,
)
    ensures
        name_list(records).list_field("vms"@) matches Some(names) && names.len() == records.len() && (0 <= k
            < records.len() ==> names[k] == JsonModel::Text(records[k].vm_name@)),
        tool_run("list_vms"@, arguments, records) == Ok::<Seq<char>, Seq<char>>(rendered(name_list(records))),
        arguments.text_field("name"@) == Some(wanted) ==> match record_named(records, wanted) {
            Some(record) => tool_run("inspect_vm"@, arguments, records) == Ok::<Seq<char>, Seq<char>>(
                text_in_order(record_model(record)),
            ),
            None => tool_run("inspect_vm"@, arguments, records) == Ok::<Seq<char>, Seq<char>>(
                rendered(error_report("no VM named '"@ + wanted + "' in the registry"@)),
            ),
        },
        arguments.text_field("name"@) is None ==> tool_run("inspect_vm"@, arguments, records) is Err,
        name != "list_vms"@ && name != "inspect_vm"@ ==> tool_run(name, arguments, records) is Err,
{
    reveal_strlit("list_vms");
    assert("list_vms"@.len() == 8);
    reveal_strlit("inspect_vm");
    assert("inspect_vm"@.len() == 10);
    let fields = name_list(records)->Object_0;
    law_field_is_the_first_of_its_name(fields, "vms"@, 0);
}

/// A failure of a tool, or a ledger that cannot be loaded, is told to the model.
pub proof fn law_tool_failures_are_told(
    name: Seq<char>,
    arguments: JsonModel,
    records: Seq<VmRecord>,
    why: Seq<char>,
)
    ensures
        error_report(why).text_field("error"@) == Some(why),
        tool_result(name, arguments, Err(why)) == rendered(error_report(why)),
        tool_run(name, arguments, records) matches Ok(output) ==> tool_result(name, arguments, Ok(records))
            == output,
        tool_run(name, arguments, records) matches Err(reason) ==> tool_result(name, arguments, Ok(records))
            == rendered(error_report(reason)),
{
    law_field_is_the_first_of_its_name(error_report(why)->Object_0, "error"@, 0);
}

/// The default model is asked for only where one is needed: a hosted conversation without
/// a configured model cannot start without it.
pub proof fn law_default_model_is_needed_rarely(settings: ProviderSettings, built_in: Option<Seq<char>>)
    ensures
        built_in matches Some(model) ==> default_for(settings, built_in) == Ok::<Seq<char>, AgentErrorModel>(model),
        default_for(settings, built_in) is Err <==> built_in is None && settings.provider is Anthropic
            && settings.model is None,
{
}

/// A body that parses is the response; one that does not is reported with where it came
/// from and what it was.
pub proof fn law_unreadable_responses_are_reported(
    url: Seq<char>,
    body: Seq<char>,
    parsed: Result<JsonModel, Seq<char>>,
)
    ensures
        match parsed {
            Ok(response) => response_with(url, body, parsed) == Ok::<JsonModel, AgentErrorModel>(response),
            Err(why) => response_with(url, body, parsed) == Err::<JsonModel, AgentErrorModel>(
                AgentErrorModel::UnreadableResponse { url, reason: why, body },
            ),
        },
{
}

/// A tool is offered to each provider in its own format: with its name, what it does and
/// the schema of its arguments, and all of them in one order.
pub proof fn law_tools_are_offered_to_both_providers(tool: ToolModel, i: int)
    ensures
        anthropic_tool(tool).text_field("name"@) == Some(tool.name),
        anthropic_tool(tool).text_field("description"@) == Some(tool.description),
        anthropic_tool(tool).field("input_schema"@) == Some(tool.parameters),
        openai_tool(tool).text_field("type"@) == Some("function"@),
        openai_tool(tool).field("function"@) matches Some(function) && function.text_field("name"@) == Some(tool.name)
            && function.text_field("description"@) == Some(tool.description) && function.field("parameters"@) == Some(
            tool.parameters,
        ),
        anthropic_tool_list() matches JsonModel::List(offered) && offered.len() == all_tools().len() && (0 <= i
            < all_tools().len() ==> offered[i] == anthropic_tool(all_tools()[i])),
        openai_tool_list() matches JsonModel::List(offered) && offered.len() == all_tools().len() && (0 <= i
            < all_tools().len() ==> offered[i] == openai_tool(all_tools()[i])),
{
    reveal_strlit("name");
    reveal_strlit("description");
    reveal_strlit("input_schema");
    reveal_strlit("parameters");
    reveal_strlit("type");
    reveal_strlit("function");
    assert("name"@.len() == 4 && "name"@[0] == 'n');
    assert("description"@.len() == 11);
    assert("input_schema"@.len() == 12);
    assert("parameters"@.len() == 10);
    assert("type"@.len() == 4 && "type"@[0] == 't');
    assert("function"@.len() == 8);
    let hosted = anthropic_tool(tool)->Object_0;
    law_field_is_the_first_of_its_name(hosted, "name"@, 0);
    law_field_is_the_first_of_its_name(hosted, "description"@, 1);
    law_field_is_the_first_of_its_name(hosted, "input_schema"@, 2);
    let outer = openai_tool(tool)->Object_0;
    law_field_is_the_first_of_its_name(outer, "type"@, 0);
    law_field_is_the_first_of_its_name(outer, "function"@, 1);
    let inner = outer[1].1->Object_0;
    law_field_is_the_first_of_its_name(inner, "name"@, 0);
    law_field_is_the_first_of_its_name(inner, "description"@, 1);
    law_field_is_the_first_of_its_name(inner, "parameters"@, 2);
}

/// Answering the calls takes one turn off and is refused at the last one.
pub proof fn law_answers_take_a_turn(so_far: ConversationModel, calls: Seq<CallModel>, results: Seq<Seq<char>>)
    ensures
        so_far.turns_left <= 1 ==> conversation_after(so_far, calls, results) == Err::<
            ConversationModel,
            AgentErrorModel,
        >(AgentErrorModel::BudgetExhausted),
        so_far.turns_left > 1 ==> (conversation_after(so_far, calls, results) matches Ok(next) && next.turns_left
            == so_far.turns_left - 1 && next.provider == so_far.provider && so_far.messages.is_prefix_of(
            next.messages,
        )),
{
    if so_far.turns_left > 1 {
        let next = conversation_after(so_far, calls, results)->Ok_0;
        assert(next.messages.take(so_far.messages.len() as int) =~= so_far.messages);
    }
}

} // verus!
