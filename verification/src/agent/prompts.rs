//! Prompts and tool schemas for the agentic control plane.
//!
//! The contract between the hypervisor and the reasoning model: the system prompt
//! and the JSON schema of every tool exposed to it, in a provider-neutral form.

use vstd::prelude::*;

use crate::json::{
    field, law_absent_field_is_not_found, law_field_is_the_first_of_its_name, list, models, number, object1,
    object2, object3, object4, object5, text, Json, JsonModel,
};
use crate::vmm::spec_error;

verus! {

/// System prompt: positions the model as the infrastructure planner of a KVM
/// hypervisor. The model produces an execution plan; nothing is applied without
/// explicit human approval.
pub const SYSTEM_PROMPT: &'static str = "\
You are the control plane of an enterprise KVM hypervisor named `ai-vmm`. \
You act as an INFRASTRUCTURE PLANNER: you translate infrastructure operators' \
natural-language intents into a precise execution plan.

Crucial: calling the `provision_kvm_machine` tool does NOT immediately create \
anything. It produces a PLAN that a human operator reviews and must explicitly \
approve before it is applied to real hardware. Nothing runs without approval.

Strict rules:
- You have NO direct hardware access. The `provision_kvm_machine` tool is the \
only way to express a provisioning plan.
- As soon as a virtual-machine creation request is expressed, you MUST call \
`provision_kvm_machine` with the exact parameters derived from the intent.
- The hypervisor keeps a registry of VMs already provisioned. If the operator \
asks to CLONE, COPY, RESIZE, MODIFY, COMPARE or VERIFY an existing VM, you MUST \
FIRST call `list_vms` to see what exists and/or `inspect_vm` to read the exact \
recorded specification of the named VM. Build your `provision_kvm_machine` plan \
from the specification you actually read back — never from assumptions.
- `vcpus`: integer number of virtual cores (1 to 255).
- `memory_mb`: amount of RAM in mebibytes (8 MiB minimum).
- `vm_name`: a readable, non-empty identifier for the virtual machine.
- `network_bridge` (optional): the host bridge interface to attach the VM to \
(e.g. br0, virbr0). Omit it, or use \"none\", for an isolated VM with no network.
- `disk_image_path` (optional): the path to a disk image to attach as the VM's \
root filesystem over virtio-blk (e.g. ./rootfs.ext4). Set it to the disk the \
user names. If the user names none, omit it — the hypervisor then supplies its \
own configured default root filesystem. Every VM boots from a root filesystem.
- Convert units faithfully: 1 GiB = 1024 MiB, 1 TiB = 1048576 MiB.
- Never fabricate arbitrary values: derive them exactly from the request. When \
in doubt about a value, pick the most conservative option.
- If the intent is ambiguous or unrelated to provisioning a VM, do not call \
any tool and answer in plain text.

Final bound checking and memory safety are enforced by the hypervisor: your \
role is planning, not enforcing the limits.";

/// What `provision_kvm_machine` is for.
pub const PROVISION_DESCRIPTION: &'static str = "Describes a virtual machine to provision on the host's KVM \
hypervisor. Calling this tool produces an execution plan (vCPUs, memory, name, \
optional network bridge, optional root-filesystem disk) that a human operator \
reviews and approves before anything is applied. Use it as soon as an operator \
asks to create a VM.";

/// What `list_vms` is for.
pub const LIST_DESCRIPTION: &'static str = "Lists the names of every virtual machine already recorded \
in the local ai-vmm registry. Takes no arguments. Call it to discover what \
exists before cloning, comparing or modifying a VM.";

/// What `inspect_vm` is for.
pub const INSPECT_DESCRIPTION: &'static str = "Returns the recorded specification (vCPUs, memory, network \
bridge, disk image) of one virtual machine in the local ai-vmm registry, \
selected by name. Call it to read a VM's exact configuration before cloning or \
modifying it.";

/// What the `network_bridge` argument is.
pub const BRIDGE_DESCRIPTION: &'static str = "Optional host bridge interface to attach the VM to (e.g. br0, virbr0). Omit, or use \"none\", for an isolated VM with no network.";

/// What the `disk_image_path` argument is.
pub const DISK_DESCRIPTION: &'static str = "Optional path to a disk image to attach as the VM's root filesystem via virtio-blk (e.g. './rootfs.ext4'). Set it to the disk the user names; omit it if the user names none, and the hypervisor supplies its configured default root filesystem.";

/// A tool exposed to the model, in a provider-neutral form.
pub struct ToolSpec {
    /// Tool name, exactly as the model must call it.
    pub name: &'static str,
    /// Human-readable description shown to the model.
    pub description: &'static str,
    /// JSON Schema of the tool's arguments.
    pub parameters: Json,
}

/// What a tool is.
pub struct ToolModel {
    pub name: Seq<char>,
    pub description: Seq<char>,
    pub parameters: JsonModel,
}

impl View for ToolSpec {
    type V = ToolModel;

    open spec fn view(&self) -> ToolModel {
        ToolModel { name: self.name@, description: self.description@, parameters: self.parameters@ }
    }
}

/// What the tools in a list are.
pub open spec fn tool_models(tools: Seq<ToolSpec>) -> Seq<ToolModel> {
    tools.map_values(|tool: ToolSpec| tool@)
}

/// The schema of a text argument.
pub open spec fn text_schema(description: Seq<char>) -> JsonModel {
    JsonModel::Object(
        seq![("type"@, JsonModel::Text("string"@)), ("description"@, JsonModel::Text(description))],
    )
}

/// The schema of a text argument that must not be empty.
pub open spec fn name_schema(description: Seq<char>) -> JsonModel {
    JsonModel::Object(
        seq![
            ("type"@, JsonModel::Text("string"@)),
            ("description"@, JsonModel::Text(description)),
            ("minLength"@, JsonModel::Unsigned(1)),
        ],
    )
}

/// The schema of an integer argument within bounds.
pub open spec fn integer_schema(description: Seq<char>, minimum: u64, maximum: u64) -> JsonModel {
    JsonModel::Object(
        seq![
            ("type"@, JsonModel::Text("integer"@)),
            ("description"@, JsonModel::Text(description)),
            ("minimum"@, JsonModel::Unsigned(minimum)),
            ("maximum"@, JsonModel::Unsigned(maximum)),
        ],
    )
}

/// The tool `provision_kvm_machine`, whose arguments are the plan.
pub open spec fn provision_tool() -> ToolModel {
    ToolModel {
        name: "provision_kvm_machine"@,
        description: PROVISION_DESCRIPTION@,
        parameters: JsonModel::Object(
            seq![
                ("type"@, JsonModel::Text("object"@)),
                (
                    "properties"@,
                    JsonModel::Object(
                        seq![
                            (
                                "vcpus"@,
                                integer_schema("Number of virtual cores (vCPUs) to allocate."@, 1, 255),
                            ),
                            ("memory_mb"@, integer_schema("VM RAM, in mebibytes (MiB)."@, 8, 1048576)),
                            ("vm_name"@, name_schema("Readable, non-empty identifier for the VM."@)),
                            ("network_bridge"@, text_schema(BRIDGE_DESCRIPTION@)),
                            ("disk_image_path"@, text_schema(DISK_DESCRIPTION@)),
                        ],
                    ),
                ),
                (
                    "required"@,
                    JsonModel::List(
                        seq![
                            JsonModel::Text("vcpus"@),
                            JsonModel::Text("memory_mb"@),
                            JsonModel::Text("vm_name"@),
                        ],
                    ),
                ),
            ],
        ),
    }
}

/// The tool `list_vms`, which takes no arguments.
pub open spec fn list_tool() -> ToolModel {
    ToolModel {
        name: "list_vms"@,
        description: LIST_DESCRIPTION@,
        parameters: JsonModel::Object(
            seq![
                ("type"@, JsonModel::Text("object"@)),
                ("properties"@, JsonModel::Object(Seq::empty())),
            ],
        ),
    }
}

/// The tool `inspect_vm`, which takes a name.
pub open spec fn inspect_tool() -> ToolModel {
    ToolModel {
        name: "inspect_vm"@,
        description: INSPECT_DESCRIPTION@,
        parameters: JsonModel::Object(
            seq![
                ("type"@, JsonModel::Text("object"@)),
                (
                    "properties"@,
                    JsonModel::Object(
                        seq![
                            (
                                "name"@,
                                name_schema("Name of the VM to inspect, as returned by list_vms."@),
                            ),
                        ],
                    ),
                ),
                ("required"@, JsonModel::List(seq![JsonModel::Text("name"@)])),
            ],
        ),
    }
}

/// Every tool exposed to the model.
pub open spec fn all_tools() -> Seq<ToolModel> {
    seq![provision_tool(), list_tool(), inspect_tool()]
}

fn text_argument(description: &str) -> (schema: Json)
    ensures
        schema@ == text_schema(description@),
{
    object2(field("type", text("string")), field("description", text(description)))
}

fn name_argument(description: &str) -> (schema: Json)
    ensures
        schema@ == name_schema(description@),
{
    object3(
        field("type", text("string")),
        field("description", text(description)),
        field("minLength", number(1)),
    )
}

fn integer_argument(description: &str, minimum: u64, maximum: u64) -> (schema: Json)
    ensures
        schema@ == integer_schema(description@, minimum, maximum),
{
    object4(
        field("type", text("integer")),
        field("description", text(description)),
        field("minimum", number(minimum)),
        field("maximum", number(maximum)),
    )
}

/// Schema of `provision_kvm_machine`, the terminal tool that yields the plan.
pub fn provision_spec() -> (tool: ToolSpec)
    ensures
        tool@ == provision_tool(),
{
    let properties = object5(
        field("vcpus", integer_argument("Number of virtual cores (vCPUs) to allocate.", 1, 255)),
        field("memory_mb", integer_argument("VM RAM, in mebibytes (MiB).", 8, 1048576)),
        field("vm_name", name_argument("Readable, non-empty identifier for the VM.")),
        field("network_bridge", text_argument(BRIDGE_DESCRIPTION)),
        field("disk_image_path", text_argument(DISK_DESCRIPTION)),
    );
    let names: Vec<Json> = vec![text("vcpus"), text("memory_mb"), text("vm_name")];
    assert(models(names@) =~= seq![
        JsonModel::Text("vcpus"@),
        JsonModel::Text("memory_mb"@),
        JsonModel::Text("vm_name"@),
    ]);
    ToolSpec {
        name: "provision_kvm_machine",
        description: PROVISION_DESCRIPTION,
        parameters: object3(
            field("type", text("object")),
            field("properties", properties),
            field("required", list(names)),
        ),
    }
}

/// Schema of `list_vms`, which reads the names of every VM in the registry.
pub fn list_vms_spec() -> (tool: ToolSpec)
    ensures
        tool@ == list_tool(),
{
    ToolSpec {
        name: "list_vms",
        description: LIST_DESCRIPTION,
        parameters: object2(field("type", text("object")), field("properties", crate::json::object0())),
    }
}

/// Schema of `inspect_vm`, which reads one VM's recorded specification.
pub fn inspect_vm_spec() -> (tool: ToolSpec)
    ensures
        tool@ == inspect_tool(),
{
    let names: Vec<Json> = vec![text("name")];
    assert(models(names@) =~= seq![JsonModel::Text("name"@)]);
    ToolSpec {
        name: "inspect_vm",
        description: INSPECT_DESCRIPTION,
        parameters: object3(
            field("type", text("object")),
            field(
                "properties",
                object1(field("name", name_argument("Name of the VM to inspect, as returned by list_vms."))),
            ),
            field("required", list(names)),
        ),
    }
}

/// Returns every tool exposed to the model, provider-neutral.
pub fn tool_specs() -> (tools: Vec<ToolSpec>)
    ensures
        tool_models(tools@) == all_tools(),
{
    let tools: Vec<ToolSpec> = vec![provision_spec(), list_vms_spec(), inspect_vm_spec()];
    assert(tool_models(tools@) =~= all_tools());
    tools
}

/// A schema says the type of an argument and what it is; one of a name that it may not be
/// empty, and one of a number its bounds.
pub proof fn law_schemas_say_what_is_accepted(description: Seq<char>, minimum: u64, maximum: u64)
    ensures
        text_schema(description).text_field("type"@) == Some("string"@),
        text_schema(description).text_field("description"@) == Some(description),
        name_schema(description).text_field("type"@) == Some("string"@),
        name_schema(description).text_field("description"@) == Some(description),
        name_schema(description).number_field("minLength"@) == Some(1u64),
        integer_schema(description, minimum, maximum).text_field("type"@) == Some("integer"@),
        integer_schema(description, minimum, maximum).text_field("description"@) == Some(description),
        integer_schema(description, minimum, maximum).number_field("minimum"@) == Some(minimum),
        integer_schema(description, minimum, maximum).number_field("maximum"@) == Some(maximum),
{
    reveal_strlit("type");
    reveal_strlit("description");
    reveal_strlit("minLength");
    reveal_strlit("minimum");
    reveal_strlit("maximum");
    assert("type"@.len() == 4);
    assert("description"@.len() == 11);
    assert("minLength"@.len() == 9);
    assert("minimum"@.len() == 7 && "minimum"@[1] == 'i');
    assert("maximum"@.len() == 7 && "maximum"@[1] == 'a');
    law_field_is_the_first_of_its_name(text_schema(description)->Object_0, "type"@, 0);
    law_field_is_the_first_of_its_name(text_schema(description)->Object_0, "description"@, 1);
    law_field_is_the_first_of_its_name(name_schema(description)->Object_0, "type"@, 0);
    law_field_is_the_first_of_its_name(name_schema(description)->Object_0, "description"@, 1);
    law_field_is_the_first_of_its_name(name_schema(description)->Object_0, "minLength"@, 2);
    let bounds = integer_schema(description, minimum, maximum)->Object_0;
    law_field_is_the_first_of_its_name(bounds, "type"@, 0);
    law_field_is_the_first_of_its_name(bounds, "description"@, 1);
    law_field_is_the_first_of_its_name(bounds, "minimum"@, 2);
    law_field_is_the_first_of_its_name(bounds, "maximum"@, 3);
}

/// The model is offered three tools, under three names.
pub proof fn law_three_tools_are_offered()
    ensures
        all_tools().len() == 3,
        all_tools()[0].name == "provision_kvm_machine"@,
        all_tools()[1].name == "list_vms"@,
        all_tools()[2].name == "inspect_vm"@,
        forall|i: int| 0 <= i < 3 ==> (#[trigger] all_tools()[i]).parameters.text_field("type"@) == Some("object"@),
{
    assert forall|i: int| 0 <= i < 3 implies (#[trigger] all_tools()[i]).parameters.text_field("type"@) == Some(
        "object"@,
    ) by {
        law_field_is_the_first_of_its_name(all_tools()[i].parameters->Object_0, "type"@, 0);
    }
}

/// The arguments that the provisioning tool takes: the counts within exactly the bounds
/// that a request is accepted in, a name, and optionally a bridge and a disk; the first
/// three are required.
pub proof fn law_provision_tool_asks_for_a_plan(vcpus: u32, memory_mb: u32)
    ensures
        ({
            let parameters = provision_tool().parameters;
            &&& parameters.list_field("required"@) == Some(
                seq![JsonModel::Text("vcpus"@), JsonModel::Text("memory_mb"@), JsonModel::Text("vm_name"@)],
            )
            &&& parameters.field("properties"@) matches Some(properties) && {
                &&& properties.field("vcpus"@) matches Some(cores) && properties.field("memory_mb"@) matches Some(
                    memory,
                ) && (spec_error(vcpus, memory_mb) is None <==> cores.number_field("minimum"@)->Some_0 <= vcpus
                    <= cores.number_field("maximum"@)->Some_0 && memory.number_field("minimum"@)->Some_0 <= memory_mb
                    <= memory.number_field("maximum"@)->Some_0)
                &&& properties.field("vm_name"@) matches Some(name) && name.text_field("type"@) == Some("string"@)
                    && name.number_field("minLength"@) == Some(1u64)
                &&& properties.field("network_bridge"@) matches Some(bridge) && bridge.text_field("type"@) == Some(
                    "string"@,
                )
                &&& properties.field("disk_image_path"@) matches Some(disk) && disk.text_field("type"@) == Some(
                    "string"@,
                )
            }
        }),
{
    reveal_strlit("type");
    reveal_strlit("properties");
    reveal_strlit("required");
    assert("type"@.len() == 4);
    assert("properties"@.len() == 10);
    assert("required"@.len() == 8);
    let fields = provision_tool().parameters->Object_0;
    law_field_is_the_first_of_its_name(fields, "properties"@, 1);
    law_field_is_the_first_of_its_name(fields, "required"@, 2);
    reveal_strlit("vcpus");
    reveal_strlit("memory_mb");
    reveal_strlit("vm_name");
    reveal_strlit("network_bridge");
    reveal_strlit("disk_image_path");
    assert("vcpus"@.len() == 5);
    assert("memory_mb"@.len() == 9);
    assert("vm_name"@.len() == 7);
    assert("network_bridge"@.len() == 14);
    assert("disk_image_path"@.len() == 15);
    let arguments = provision_tool().parameters.field("properties"@)->Some_0->Object_0;
    law_field_is_the_first_of_its_name(arguments, "vcpus"@, 0);
    law_field_is_the_first_of_its_name(arguments, "memory_mb"@, 1);
    law_field_is_the_first_of_its_name(arguments, "vm_name"@, 2);
    law_field_is_the_first_of_its_name(arguments, "network_bridge"@, 3);
    law_field_is_the_first_of_its_name(arguments, "disk_image_path"@, 4);
    law_schemas_say_what_is_accepted("Number of virtual cores (vCPUs) to allocate."@, 1, 255);
    law_schemas_say_what_is_accepted("VM RAM, in mebibytes (MiB)."@, 8, 1048576);
    law_schemas_say_what_is_accepted("Readable, non-empty identifier for the VM."@, 0, 0);
    law_schemas_say_what_is_accepted(BRIDGE_DESCRIPTION@, 0, 0);
    law_schemas_say_what_is_accepted(DISK_DESCRIPTION@, 0, 0);
}

/// Listing takes no arguments, and inspecting requires the name of a VM.
pub proof fn law_registry_tools_ask_for_a_name()
    ensures
        list_tool().parameters.field("properties"@) == Some(JsonModel::Object(seq![])),
        list_tool().parameters.field("required"@) is None,
        inspect_tool().parameters.list_field("required"@) == Some(seq![JsonModel::Text("name"@)]),
        inspect_tool().parameters.field("properties"@) matches Some(properties) && properties.field("name"@) is Some,
{
    reveal_strlit("type");
    reveal_strlit("properties");
    reveal_strlit("required");
    assert("type"@.len() == 4);
    assert("properties"@.len() == 10);
    assert("required"@.len() == 8);
    let nothing = list_tool().parameters->Object_0;
    law_field_is_the_first_of_its_name(nothing, "properties"@, 1);
    law_absent_field_is_not_found(nothing, "required"@, JsonModel::Null);
    let fields = inspect_tool().parameters->Object_0;
    law_field_is_the_first_of_its_name(fields, "properties"@, 1);
    law_field_is_the_first_of_its_name(fields, "required"@, 2);
    let arguments = inspect_tool().parameters.field("properties"@)->Some_0->Object_0;
    law_field_is_the_first_of_its_name(arguments, "name"@, 0);
}

} // verus!
