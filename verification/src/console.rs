//! The command line: what the operator is shown, and what an answer means.
//!
//! The workflow is plan, review, approve, apply. The caller parses the arguments,
//! reads and prints, and loads and saves the ledger.

use vstd::prelude::*;
use vstd::string::StringExecFns;

use crate::agent::ExecutionPlan;
use crate::config::{disk_path_of, kernel_path_of, resolve_disk_path, resolve_kernel_path};
use crate::registry::{others, record_named, state_changed, transition_allowed, Ledger, VmLifecycle, VmRecord};
use crate::text::{
    borrow_text, decimal, decimal_digits, law_lower_case, lower_chars, lowered, same_chars, text_of, texts, trim, trimmed,
};
use crate::vmm::{parse_memory_mb, parsed_memory, MemorySizeError};

verus! {

/// Builds the plan that explicit specifications stand for, without a model: the
/// memory size is read with its unit, and the rest is taken as it is.
pub fn direct_plan(
    name: String,
    vcpus: u32,
    memory: &str,
    network: Option<String>,
    disk: Option<String>,
) -> (plan: Result<ExecutionPlan, MemorySizeError>)
    ensures
        match parsed_memory(memory@) {
            Ok(memory_mb) => plan == Ok::<ExecutionPlan, MemorySizeError>(
                ExecutionPlan {
                    vcpus,
                    memory_mb,
                    vm_name: name,
                    network_bridge: network,
                    disk_image_path: disk,
                },
            ),
            Err(error) => plan == Err::<ExecutionPlan, MemorySizeError>(error),
        },
{
    match parse_memory_mb(memory) {
        Ok(memory_mb) => Ok(
            ExecutionPlan {
                vcpus,
                memory_mb,
                vm_name: name,
                network_bridge: network,
                disk_image_path: disk,
            },
        ),
        Err(error) => Err(error),
    }
}

/// The advice for a plan without a disk.
pub const NO_DISK_MESSAGE: &'static str = "this VM has no root-filesystem disk image — it could not boot to a usable system. Name a disk in your request, pass `--disk <path>` to `provision`, set the AI_VMM_DISK environment variable, or add a `disk_path` entry to credentials.toml. The README explains how to obtain a root filesystem.";

/// Resolves a plan's root-filesystem disk before it is shown and applied, and the path
/// of the kernel image to boot.
///
/// The disk comes from the plan itself, the environment or the configuration. A plan
/// that still has none is refused: a VM without a root filesystem cannot boot to a
/// usable system.
pub fn finalize_plan(
    plan: &mut ExecutionPlan,
    disk_env: Option<String>,
    disk_stored: Option<String>,
    kernel_env: Option<String>,
    kernel_stored: Option<String>,
) -> (kernel_path: Result<String, &'static str>)
    ensures
        text_of(final(plan).disk_image_path) == disk_path_of(
            text_of(old(plan).disk_image_path),
            text_of(disk_env),
            text_of(disk_stored),
        ),
        *final(plan) == (ExecutionPlan { disk_image_path: final(plan).disk_image_path, ..*old(plan) }),
        match kernel_path {
            Ok(path) => final(plan).disk_image_path is Some && path@ == kernel_path_of(
                text_of(kernel_env),
                text_of(kernel_stored),
            ),
            Err(message) => final(plan).disk_image_path is None && message@ == NO_DISK_MESSAGE@,
        },
{
    let disk = resolve_disk_path(borrow_text(&plan.disk_image_path), disk_env, disk_stored);
    plan.disk_image_path = disk;
    if plan.disk_image_path.is_none() {
        return Err(NO_DISK_MESSAGE);
    }
    Ok(resolve_kernel_path(kernel_env, kernel_stored))
}

/// The text, or another if there is none.
pub open spec fn text_or(text: Option<Seq<char>>, other: Seq<char>) -> Seq<char> {
    match text {
        Some(t) => t,
        None => other,
    }
}

fn own_or(text: &Option<String>, other: &str) -> (owned: String)
    ensures
        owned@ == text_or(text_of(*text), other@),
{
    match text {
        Some(t) => t.clone(),
        None => String::from_str(other),
    }
}

/// A label and what it labels.
fn labelled(label: &str, value: &str) -> (line: String)
    ensures
        line@ == label@ + value@,
{
    let mut line = String::from_str(label);
    line.append(value);
    line
}

/// The resources of a VM, in words.
pub open spec fn resources_text(vcpus: u32, memory_mb: u32) -> Seq<char> {
    decimal_digits(vcpus as nat) + " vCPU, "@ + decimal_digits(memory_mb as nat) + " MiB RAM"@
}

fn resources(vcpus: u32, memory_mb: u32) -> (line: String)
    ensures
        line@ == resources_text(vcpus, memory_mb),
{
    let mut line = decimal(vcpus as u64);
    line.append(" vCPU, ");
    line.append(decimal(memory_mb as u64).as_str());
    line.append(" MiB RAM");
    line
}

/// The lines that show a plan for review.
pub open spec fn plan_text(plan: ExecutionPlan) -> Seq<Seq<char>> {
    seq![
        ""@,
        "────────────────────────── Execution plan ──────────────────────────"@,
        "  🟢 Action      CREATE"@,
        "  🖥️  VM          "@ + plan.vm_name@,
        "  ⚙️  Resources   "@ + resources_text(plan.vcpus, plan.memory_mb),
        "  🌐 Network     "@ + text_or(text_of(plan.network_bridge), "none (isolated VM)"@),
        "  💾 Storage     "@ + text_or(text_of(plan.disk_image_path), "none"@),
        "─────────────────────────────────────────────────────────────────────"@,
    ]
}

/// Renders the execution plan as a review block.
pub fn display_plan(plan: &ExecutionPlan) -> (lines: Vec<String>)
    ensures
        texts(lines@) == plan_text(*plan),
{
    let lines: Vec<String> = vec![
        String::from_str(""),
        String::from_str("────────────────────────── Execution plan ──────────────────────────"),
        String::from_str("  🟢 Action      CREATE"),
        labelled("  🖥️  VM          ", plan.vm_name.as_str()),
        labelled("  ⚙️  Resources   ", resources(plan.vcpus, plan.memory_mb).as_str()),
        labelled("  🌐 Network     ", own_or(&plan.network_bridge, "none (isolated VM)").as_str()),
        labelled("  💾 Storage     ", own_or(&plan.disk_image_path, "none").as_str()),
        String::from_str("─────────────────────────────────────────────────────────────────────"),
    ];
    assert(texts(lines@) =~= plan_text(*plan));
    lines
}

/// An answer that approves a plan: `y` or `yes`, in any case, with white space around
/// it or not.
pub open spec fn approves(answer: Seq<char>) -> bool {
    lowered(trimmed(answer)) == "y"@ || lowered(trimmed(answer)) == "yes"@
}

/// Whether the operator's answer approves the plan. Every other answer, an empty line
/// among them, cancels.
pub fn is_approval(answer: &str) -> (approved: bool)
    ensures
        approved == approves(answer@),
{
    let given = lower_chars(trim(answer));
    let y = crate::text::chars_of("y");
    let yes = crate::text::chars_of("yes");
    same_chars(given.as_slice(), y.as_slice()) || same_chars(given.as_slice(), yes.as_slice())
}

/// An answer that says nothing never approves a plan.
pub proof fn law_silence_is_no_approval(answer: Seq<char>)
    requires
        trimmed(answer).len() == 0,
    ensures
        !approves(answer),
{
    reveal_strlit("y");
    reveal_strlit("yes");
    assert(lowered(trimmed(answer)).len() == 0);
}

/// The lifecycle state that provisioning leaves a VM in: a guest that exited is
/// stopped, and anything else is a failure.
pub fn outcome_state(succeeded: bool) -> (state: VmLifecycle)
    ensures
        succeeded ==> state == VmLifecycle::Stopped,
        !succeeded ==> state == VmLifecycle::Failed,
{
    if succeeded {
        VmLifecycle::Stopped
    } else {
        VmLifecycle::Failed
    }
}

/// Whatever the outcome of provisioning, a VM that is being booted can take the state
/// that it leaves.
pub proof fn law_outcome_is_recorded(state: VmLifecycle)
    requires
        state == VmLifecycle::Stopped || state == VmLifecycle::Failed,
    ensures
        transition_allowed(VmLifecycle::Booting, state),
        transition_allowed(VmLifecycle::Running, state),
{
}

/// Moves a recorded VM to a lifecycle state. Returns what the operator is told if the
/// ledger changed, and `None` if there is nothing to save.
pub fn mark_vm_state(ledger: &mut Ledger, vm_name: &str, state: VmLifecycle) -> (line: Option<String>)
    ensures
        final(ledger)@ == state_changed(old(ledger)@, vm_name@, state),
        match line {
            Some(told) => {
                &&& record_named(old(ledger)@, vm_name@) matches Some(record)
                &&& transition_allowed(record.state, state)
                &&& told@ == "[ledger] VM '"@ + vm_name@ + "' is now "@ + state.name() + "."@
            },
            None => !(record_named(old(ledger)@, vm_name@) matches Some(record) && transition_allowed(
                record.state,
                state,
            )),
        },
{
    if !ledger.set_state(vm_name, state) {
        return None;
    }
    let mut line = String::from_str("[ledger] VM '");
    line.append(vm_name);
    line.append("' is now ");
    line.append(state.as_str());
    line.append(".");
    Some(line)
}

/// `s`, followed by blanks up to a width of `width` characters.
pub open spec fn padded(s: Seq<char>, width: nat) -> Seq<char> {
    if s.len() < width {
        s + Seq::new((width - s.len()) as nat, |i: int| ' ')
    } else {
        s
    }
}

fn pad(s: &str, width: usize) -> (line: String)
    ensures
        line@ == padded(s@, width as nat),
{
    let mut chars = crate::text::chars_of(s);
    let ghost given = chars@;
    while chars.len() < width
        invariant
            given == s@,
            given.len() <= chars@.len(),
            given.len() < chars@.len() ==> chars@.len() <= width,
            chars@ == given + Seq::new((chars@.len() - given.len()) as nat, |i: int| ' '),
        decreases width - chars@.len(),
    {
        chars.push(' ');
        assert(chars@ =~= given + Seq::new((chars@.len() - given.len()) as nat, |i: int| ' '));
    }
    assert(chars@ =~= padded(s@, width as nat));
    crate::text::string_of(chars.as_slice())
}

/// The line that lists one VM.
pub open spec fn list_line(record: VmRecord) -> Seq<char> {
    "  • "@ + padded(record.vm_name@, 24) + " ["@ + record.state.name() + "] "@ + resources_text(
        record.vcpus,
        record.memory_mb,
    ) + ", storage: "@ + text_or(text_of(record.disk_image_path), "none"@)
}

/// The lines that list the recorded VMs, oldest first.
pub open spec fn list_text(records: Seq<VmRecord>) -> Seq<Seq<char>> {
    if records.len() == 0 {
        seq!["No VMs recorded yet — run: ai-vmm run \"<intent>\""@]
    } else {
        seq![decimal_digits(records.len()) + " VM(s) in the ledger:"@] + records.map_values(
            |record: VmRecord| list_line(record),
        )
    }
}

/// Lists the VMs recorded in the ledger.
pub fn list_vms(ledger: &Ledger) -> (lines: Vec<String>)
    ensures
        texts(lines@) == list_text(ledger@),
{
    let records = ledger.records();
    if records.len() == 0 {
        let lines: Vec<String> = vec![String::from_str("No VMs recorded yet — run: ai-vmm run \"<intent>\"")];
        assert(texts(lines@) =~= list_text(ledger@));
        return lines;
    }
    let mut head = decimal(records.len() as u64);
    head.append(" VM(s) in the ledger:");
    let mut lines: Vec<String> = vec![head];
    let mut i: usize = 0;
    while i < records.len()
        invariant
            i <= records@.len(),
            lines@.len() == i + 1,
            lines@[0]@ == decimal_digits(records@.len()) + " VM(s) in the ledger:"@,
            forall|k: int| 0 <= k < i ==> (#[trigger] lines@[k + 1])@ == list_line(records@[k]),
        decreases records@.len() - i,
    {
        let record = &records[i];
        let mut line = String::from_str("  • ");
        line.append(pad(record.vm_name.as_str(), 24).as_str());
        line.append(" [");
        line.append(record.state.as_str());
        line.append("] ");
        line.append(resources(record.vcpus, record.memory_mb).as_str());
        line.append(", storage: ");
        line.append(own_or(&record.disk_image_path, "none").as_str());
        let ghost before = lines@;
        lines.push(line);
        assert forall|k: int| 0 <= k < i + 1 implies (#[trigger] lines@[k + 1])@ == list_line(records@[k]) by {
            if k < i {
                assert(lines@[k + 1] == before[k + 1]);
            }
        }
        i = i + 1;
    }
    proof {
        let shown = texts(lines@);
        let wanted = list_text(ledger@);
        assert forall|j: int| 0 <= j < shown.len() implies shown[j] == wanted[j] by {
            if j > 0 {
                assert(lines@[(j - 1) + 1]@ == list_line(records@[j - 1]));
            }
        }
        assert(shown =~= wanted);
    }
    lines
}

/// The lines that show everything recorded of a VM.
pub open spec fn record_text(record: VmRecord) -> Seq<Seq<char>> {
    seq![
        "VM '"@ + record.vm_name@ + "'"@,
        "  🔄 State       "@ + record.state.name(),
        "  ⚙️  Resources   "@ + resources_text(record.vcpus, record.memory_mb),
        "  🌐 Network     "@ + text_or(text_of(record.network_bridge), "none (isolated VM)"@),
        "  💾 Storage     "@ + text_or(text_of(record.disk_image_path), "none"@),
        "  🕐 Applied at  "@ + decimal_digits(record.applied_at as nat) + " (Unix time)"@,
    ]
}

/// The message that the ledger holds no VM of a name.
pub open spec fn unknown_vm_text(name: Seq<char>) -> Seq<char> {
    "no VM named '"@ + name + "' in the ledger"@
}

fn unknown_vm(name: &str) -> (message: String)
    ensures
        message@ == unknown_vm_text(name@),
{
    let mut message = String::from_str("no VM named '");
    message.append(name);
    message.append("' in the ledger");
    message
}

/// Shows one VM's full recorded plan.
pub fn inspect_vm(ledger: &Ledger, name: &str) -> (lines: Result<Vec<String>, String>)
    ensures
        match lines {
            Ok(shown) => record_named(ledger@, name@) matches Some(record) && texts(shown@) == record_text(
                record,
            ),
            Err(message) => record_named(ledger@, name@) is None && message@ == unknown_vm_text(name@),
        },
{
    let record = match ledger.get(name) {
        Some(record) => record,
        None => return Err(unknown_vm(name)),
    };
    let mut title = labelled("VM '", record.vm_name.as_str());
    title.append("'");
    let mut applied = labelled("  🕐 Applied at  ", decimal(record.applied_at).as_str());
    applied.append(" (Unix time)");
    let lines: Vec<String> = vec![
        title,
        labelled("  🔄 State       ", record.state.as_str()),
        labelled("  ⚙️  Resources   ", resources(record.vcpus, record.memory_mb).as_str()),
        labelled("  🌐 Network     ", own_or(&record.network_bridge, "none (isolated VM)").as_str()),
        labelled("  💾 Storage     ", own_or(&record.disk_image_path, "none").as_str()),
        applied,
    ];
    assert(texts(lines@) =~= record_text(*record));
    Ok(lines)
}

/// Removes a VM from the ledger, and says what the operator is told: that it was
/// removed, once the ledger has been saved, or that there is none.
pub fn forget_vm(ledger: &mut Ledger, name: &str) -> (line: Result<String, String>)
    ensures
        final(ledger)@ == others(old(ledger)@, name@),
        match line {
            Ok(told) => record_named(old(ledger)@, name@) is Some && told@ == "VM '"@ + name@
                + "' removed from the ledger."@,
            Err(message) => record_named(old(ledger)@, name@) is None && message@ == unknown_vm_text(name@),
        },
{
    if !ledger.forget(name) {
        return Err(unknown_vm(name));
    }
    let mut line = labelled("VM '", name);
    line.append("' removed from the ledger.");
    Ok(line)
}

/// What the operator is told when the model asked for no provisioning: that, and what
/// it said, unless it said nothing.
pub open spec fn text_reply_text(reply: Seq<char>) -> Seq<Seq<char>> {
    let first = "[agent] the model did not request any provisioning."@;
    if trimmed(reply).len() == 0 {
        seq![first]
    } else {
        seq![first, "[agent] reply: "@ + trimmed(reply)]
    }
}

/// Shows a reply of the model that is no plan.
pub fn text_reply_lines(reply: &str) -> (lines: Vec<String>)
    ensures
        texts(lines@) == text_reply_text(reply@),
{
    let said = trim(reply);
    let mut lines: Vec<String> = vec![String::from_str("[agent] the model did not request any provisioning.")];
    if !said.is_empty() {
        lines.push(labelled("[agent] reply: ", said));
    }
    assert(texts(lines@) =~= text_reply_text(reply@));
    lines
}

/// An answer approves exactly if, trimmed, it is the letter `y` or the word `yes`, each
/// letter in either case.
pub proof fn law_what_approves(answer: Seq<char>)
    ensures
        ({
            let given = trimmed(answer);
            let says = |i: int, small: char, capital: char| given[i] == small || given[i] == capital;
            approves(answer) <==> (given.len() == 1 && says(0, 'y', 'Y')) || (given.len() == 3 && says(0, 'y', 'Y')
                && says(1, 'e', 'E') && says(2, 's', 'S'))
        }),
{
    reveal_strlit("y");
    reveal_strlit("yes");
    let given = trimmed(answer);
    let low = lowered(given);
    assert("y"@.len() == 1 && "yes"@.len() == 3);
    if given.len() == 1 {
        law_lower_case(given, 0);
        assert(low == "y"@ <==> low[0] == 'y') by {
            if low[0] == 'y' {
                assert(low =~= "y"@);
            }
        }
    } else if given.len() == 3 {
        law_lower_case(given, 0);
        law_lower_case(given, 1);
        law_lower_case(given, 2);
        assert(low == "yes"@ <==> low[0] == 'y' && low[1] == 'e' && low[2] == 's') by {
            if low[0] == 'y' && low[1] == 'e' && low[2] == 's' {
                assert(low =~= "yes"@);
            }
        }
    } else {
        assert(low.len() == given.len());
    }
}

/// A padded text starts with the text, is as wide as was asked for unless the text is
/// wider, and holds nothing but blanks behind it.
pub proof fn law_padding(s: Seq<char>, width: nat, i: int)
    ensures
        s.is_prefix_of(padded(s, width)),
        s.len() >= width ==> padded(s, width) == s,
        s.len() < width ==> padded(s, width).len() == width,
        s.len() <= i < width ==> padded(s, width)[i] == ' ',
{
    assert(padded(s, width).take(s.len() as int) =~= s);
}

/// The operator is shown everything that a plan asks for: each of its lines ends with
/// what was asked, or says that there is none.
pub proof fn law_plan_is_shown_in_full(plan: ExecutionPlan)
    ensures
        ({
            let lines = plan_text(plan);
            &&& lines.len() == 8
            &&& plan.vm_name@.is_suffix_of(lines[3])
            &&& (decimal_digits(plan.vcpus as nat) + " vCPU, "@ + decimal_digits(plan.memory_mb as nat)
                + " MiB RAM"@).is_suffix_of(lines[4])
            &&& plan.network_bridge matches Some(bridge) ==> bridge@.is_suffix_of(lines[5])
            &&& plan.network_bridge is None ==> "none (isolated VM)"@.is_suffix_of(lines[5])
            &&& plan.disk_image_path matches Some(disk) ==> disk@.is_suffix_of(lines[6])
            &&& plan.disk_image_path is None ==> "none"@.is_suffix_of(lines[6])
        }),
{
    let lines = plan_text(plan);
    lemma_ends_with("  🖥️  VM          "@, plan.vm_name@);
    lemma_ends_with("  ⚙️  Resources   "@, resources_text(plan.vcpus, plan.memory_mb));
    lemma_ends_with("  🌐 Network     "@, text_or(text_of(plan.network_bridge), "none (isolated VM)"@));
    lemma_ends_with("  💾 Storage     "@, text_or(text_of(plan.disk_image_path), "none"@));
}

proof fn lemma_ends_with(start: Seq<char>, end: Seq<char>)
    ensures
        end.is_suffix_of(start + end),
{
    let all = start + end;
    assert(all.subrange(all.len() - end.len(), all.len() as int) =~= end);
}

/// Listing shows every record on a line of its own, oldest first, below how many there
/// are; a ledger without any says so.
pub proof fn law_every_record_is_listed(records: Seq<VmRecord>, k: int)
    requires
        0 <= k < records.len(),
    ensures
        list_text(records).len() == records.len() + 1,
        list_text(records)[0] == decimal_digits(records.len()) + " VM(s) in the ledger:"@,
        list_text(records)[k + 1] == list_line(records[k]),
        list_text(seq![]).len() == 1,
{
}

/// The line of a record says its name, its state, its resources and its disk.
pub proof fn law_list_line_says_what_is_recorded(record: VmRecord)
    ensures
        list_line(record) == "  • "@ + padded(record.vm_name@, 24) + " ["@ + record.state.name() + "] "@
            + decimal_digits(record.vcpus as nat) + " vCPU, "@ + decimal_digits(record.memory_mb as nat)
            + " MiB RAM"@ + ", storage: "@ + match record.disk_image_path {
            Some(disk) => disk@,
            None => "none"@,
        },
{
    let start = "  • "@ + padded(record.vm_name@, 24) + " ["@ + record.state.name() + "] "@;
    assert(start + resources_text(record.vcpus, record.memory_mb) =~= start + decimal_digits(record.vcpus as nat)
        + " vCPU, "@ + decimal_digits(record.memory_mb as nat) + " MiB RAM"@);
}

/// Inspecting shows everything that is recorded of a VM.
pub proof fn law_record_is_shown_in_full(record: VmRecord)
    ensures
        ({
            let lines = record_text(record);
            &&& lines.len() == 6
            &&& lines[0] == "VM '"@ + record.vm_name@ + "'"@
            &&& record.state.name().is_suffix_of(lines[1])
            &&& resources_text(record.vcpus, record.memory_mb).is_suffix_of(lines[2])
            &&& record.network_bridge matches Some(bridge) ==> bridge@.is_suffix_of(lines[3])
            &&& record.network_bridge is None ==> "none (isolated VM)"@.is_suffix_of(lines[3])
            &&& record.disk_image_path matches Some(disk) ==> disk@.is_suffix_of(lines[4])
            &&& record.disk_image_path is None ==> "none"@.is_suffix_of(lines[4])
            &&& (decimal_digits(record.applied_at as nat) + " (Unix time)"@).is_suffix_of(lines[5])
        }),
{
    lemma_ends_with("  🔄 State       "@, record.state.name());
    lemma_ends_with("  ⚙️  Resources   "@, resources_text(record.vcpus, record.memory_mb));
    lemma_ends_with("  🌐 Network     "@, text_or(text_of(record.network_bridge), "none (isolated VM)"@));
    lemma_ends_with("  💾 Storage     "@, text_or(text_of(record.disk_image_path), "none"@));
    let start = "  🕐 Applied at  "@;
    let end = decimal_digits(record.applied_at as nat) + " (Unix time)"@;
    lemma_ends_with(start, end);
    assert(start + decimal_digits(record.applied_at as nat) + " (Unix time)"@ =~= start + end);
}

/// What the model said is shown, trimmed, unless it said nothing.
pub proof fn law_reply_is_shown(reply: Seq<char>)
    ensures
        trimmed(reply).len() == 0 ==> text_reply_text(reply).len() == 1,
        trimmed(reply).len() > 0 ==> text_reply_text(reply).len() == 2 && trimmed(reply).is_suffix_of(
            text_reply_text(reply)[1],
        ),
{
    lemma_ends_with("[agent] reply: "@, trimmed(reply));
}

} // verus!
