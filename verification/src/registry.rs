//! VM ledger: a declarative record of provisioned VMs.
//!
//! Every VM is fully described by its [`ExecutionPlan`]; the ledger keeps those
//! plans, oldest first, with the lifecycle state of each VM. It never holds more
//! than [`MAX_RECORDS`] entries and, if it starts without duplicate names, never
//! gets any.

use vstd::prelude::*;

use crate::agent::ExecutionPlan;
use crate::json::{
    field, law_field_is_the_first_of_its_name, number, object, optional_model, optional_text, text, Json,
    JsonModel,
};
use crate::text::{copy_text, same, text_of};

verus! {

/// Upper bound on the number of records the ledger keeps.
pub const MAX_RECORDS: usize = 64;

/// The lifecycle state of a VM, as observed by the control plane.
///
/// The lifecycle is strictly forward-only, and a terminal state is final.
#[derive(Debug, Clone, Copy, PartialEq, Eq)]
pub enum VmLifecycle {
    /// The VM has been provisioned and is being booted.
    Booting,
    /// The guest is up and running.
    Running,
    /// The guest has exited; the VM is finished.
    Stopped,
    /// Provisioning or the boot failed.
    Failed,
}

impl Default for VmLifecycle {
    /// The state assumed for a record that holds none.
    fn default() -> (state: Self)
        ensures
            state == VmLifecycle::Stopped,
    {
        VmLifecycle::Stopped
    }
}

/// The valid transitions: from booting to running, stopped or failed, and from
/// running to stopped or failed.
pub open spec fn transition_allowed(from: VmLifecycle, to: VmLifecycle) -> bool {
    match from {
        VmLifecycle::Booting => to is Running || to is Stopped || to is Failed,
        VmLifecycle::Running => to is Stopped || to is Failed,
        _ => false,
    }
}

impl VmLifecycle {
    /// Whether a transition from `self` to `next` is valid in the VM lifecycle.
    pub fn can_transition_to(self, next: VmLifecycle) -> (valid: bool)
        ensures
            valid == transition_allowed(self, next),
    {
        match (self, next) {
            (VmLifecycle::Booting, VmLifecycle::Running) => true,
            (VmLifecycle::Booting, VmLifecycle::Stopped) => true,
            (VmLifecycle::Booting, VmLifecycle::Failed) => true,
            (VmLifecycle::Running, VmLifecycle::Stopped) => true,
            (VmLifecycle::Running, VmLifecycle::Failed) => true,
            _ => false,
        }
    }

    /// The name of the state.
    pub open spec fn name(self) -> Seq<char> {
        match self {
            VmLifecycle::Booting => "booting"@,
            VmLifecycle::Running => "running"@,
            VmLifecycle::Stopped => "stopped"@,
            VmLifecycle::Failed => "failed"@,
        }
    }

    /// The name of the state, in lower case.
    pub fn as_str(self) -> (name: &'static str)
        ensures
            name@ == self.name(),
    {
        match self {
            VmLifecycle::Booting => "booting",
            VmLifecycle::Running => "running",
            VmLifecycle::Stopped => "stopped",
            VmLifecycle::Failed => "failed",
        }
    }
}

/// A terminal state is final, nothing goes back to booting, and no state leads to
/// itself.
pub proof fn law_lifecycle_is_forward_only(from: VmLifecycle, to: VmLifecycle)
    ensures
        !transition_allowed(VmLifecycle::Stopped, to),
        !transition_allowed(VmLifecycle::Failed, to),
        !transition_allowed(from, VmLifecycle::Booting),
        !transition_allowed(from, from),
{
}

/// One ledger entry: a VM's declared resources, its lifecycle state, and when the
/// plan was applied.
#[derive(Debug)]
pub struct VmRecord {
    /// Name of the virtual machine.
    pub vm_name: String,
    /// Virtual cores declared.
    pub vcpus: u32,
    /// RAM declared, in mebibytes.
    pub memory_mb: u32,
    /// Host bridge attached, or `None` for an isolated VM.
    pub network_bridge: Option<String>,
    /// Root-filesystem image, or `None` for a diskless VM.
    pub disk_image_path: Option<String>,
    /// Unix time, in seconds, when the plan was applied.
    pub applied_at: u64,
    /// Current lifecycle state of the VM.
    pub state: VmLifecycle,
}

/// A record as JSON.
pub open spec fn record_model(record: VmRecord) -> JsonModel {
    JsonModel::Object(
        seq![
            ("vm_name"@, JsonModel::Text(record.vm_name@)),
            ("vcpus"@, JsonModel::Unsigned(record.vcpus as u64)),
            ("memory_mb"@, JsonModel::Unsigned(record.memory_mb as u64)),
            ("network_bridge"@, optional_model(text_of(record.network_bridge))),
            ("disk_image_path"@, optional_model(text_of(record.disk_image_path))),
            ("applied_at"@, JsonModel::Unsigned(record.applied_at)),
            ("state"@, JsonModel::Text(record.state.name())),
        ],
    )
}

impl VmRecord {
    /// This record as JSON.
    pub fn to_json(&self) -> (json: Json)
        ensures
            json@ == record_model(*self),
    {
        let json = object(
            vec![
                field("vm_name", text(self.vm_name.as_str())),
                field("vcpus", number(self.vcpus as u64)),
                field("memory_mb", number(self.memory_mb as u64)),
                field("network_bridge", optional_text(&self.network_bridge)),
                field("disk_image_path", optional_text(&self.disk_image_path)),
                field("applied_at", number(self.applied_at)),
                field("state", text(self.state.as_str())),
            ],
        );
        assert(json@->Object_0 =~= record_model(*self)->Object_0);
        json
    }
}

impl Clone for VmRecord {
    fn clone(&self) -> (copy: Self)
        ensures
            copy == *self,
    {
        VmRecord {
            vm_name: self.vm_name.clone(),
            vcpus: self.vcpus,
            memory_mb: self.memory_mb,
            network_bridge: copy_text(&self.network_bridge),
            disk_image_path: copy_text(&self.disk_image_path),
            applied_at: self.applied_at,
            state: self.state,
        }
    }
}

/// The record of `plan`, applied at time `now`: a VM that is being booted.
pub open spec fn record_of(plan: ExecutionPlan, now: u64) -> VmRecord {
    VmRecord {
        vm_name: plan.vm_name,
        vcpus: plan.vcpus,
        memory_mb: plan.memory_mb,
        network_bridge: plan.network_bridge,
        disk_image_path: plan.disk_image_path,
        applied_at: now,
        state: VmLifecycle::Booting,
    }
}

impl VmRecord {
    /// Builds a record from an approved plan, applied at Unix time `now`.
    pub fn from_plan(plan: &ExecutionPlan, now: u64) -> (record: Self)
        ensures
            record == record_of(*plan, now),
    {
        VmRecord {
            vm_name: plan.vm_name.clone(),
            vcpus: plan.vcpus,
            memory_mb: plan.memory_mb,
            network_bridge: copy_text(&plan.network_bridge),
            disk_image_path: copy_text(&plan.disk_image_path),
            applied_at: now,
            state: VmLifecycle::Booting,
        }
    }
}

/// The declarative VM ledger: an ordered list of records, oldest first.
#[derive(Debug)]
pub struct Ledger {
    records: Vec<VmRecord>,
}

impl View for Ledger {
    type V = Seq<VmRecord>;

    closed spec fn view(&self) -> Seq<VmRecord> {
        self.records@
    }
}

impl Default for Ledger {
    /// An empty ledger.
    fn default() -> (ledger: Self)
        ensures
            ledger@ == Seq::<VmRecord>::empty(),
    {
        Ledger { records: Vec::new() }
    }
}

/// The records of VMs that are not called `name`, in order.
pub open spec fn others(records: Seq<VmRecord>, name: Seq<char>) -> Seq<VmRecord>
    decreases records.len(),
{
    if records.len() == 0 {
        Seq::empty()
    } else if records.last().vm_name@ == name {
        others(records.drop_last(), name)
    } else {
        others(records.drop_last(), name).push(records.last())
    }
}

/// Where the first record of a VM called `name` stands; past the end if there is
/// none.
pub open spec fn first_named(records: Seq<VmRecord>, name: Seq<char>) -> int
    decreases records.len(),
{
    if records.len() == 0 || records[0].vm_name@ == name {
        0
    } else {
        1 + first_named(records.drop_first(), name)
    }
}

/// The record of the VM called `name`, if there is one.
pub open spec fn record_named(records: Seq<VmRecord>, name: Seq<char>) -> Option<VmRecord> {
    if first_named(records, name) < records.len() {
        Some(records[first_named(records, name)])
    } else {
        None
    }
}

/// The index of the first record to keep of `len`, so that one more can be added.
pub open spec fn first_kept(len: int) -> int {
    if len > MAX_RECORDS - 1 {
        len - (MAX_RECORDS - 1)
    } else {
        0
    }
}

/// The ledger after a record was added: one for the same name is replaced, and the
/// oldest make room.
pub open spec fn recorded(records: Seq<VmRecord>, record: VmRecord) -> Seq<VmRecord> {
    let kept = others(records, record.vm_name@);
    kept.skip(first_kept(kept.len() as int)).push(record)
}

/// The ledger after the VM called `name` was moved to `state`; as it was if there is
/// none or the transition is not valid.
pub open spec fn state_changed(
    records: Seq<VmRecord>,
    name: Seq<char>,
    state: VmLifecycle,
) -> Seq<VmRecord> {
    let i = first_named(records, name);
    if i < records.len() && transition_allowed(records[i].state, state) {
        records.update(i, VmRecord { state, ..records[i] })
    } else {
        records
    }
}

/// No two records have the same name.
pub open spec fn names_distinct(records: Seq<VmRecord>) -> bool {
    forall|i: int, j: int|
        0 <= i < j < records.len() ==> (#[trigger] records[i]).vm_name@ != (#[trigger] records[j]).vm_name@
}

/// Index of the first record to keep when one more is about to be appended.
pub fn first_kept_index(old_len: usize) -> (start: usize)
    ensures
        start == first_kept(old_len as int),
        start <= old_len,
        old_len - start + 1 <= MAX_RECORDS,
{
    old_len.saturating_sub(MAX_RECORDS - 1)
}

/// Calls `std::time::SystemTime::elapsed` on the Unix epoch: how many whole seconds lie
/// between the epoch and the clock, if the epoch is not in its future. Nothing is known
/// of the result beforehand: it is the time.
#[verifier::external_body]
fn seconds_since_epoch() -> (seconds: Option<u64>) {
    std::time::UNIX_EPOCH.elapsed().ok().map(|d| d.as_secs())
}

/// The Unix time to record for a clock that stands `seconds` after the epoch, or
/// before it (`None`): time saturates at the epoch.
pub fn time_since_epoch(seconds: Option<u64>) -> (time: u64)
    ensures
        seconds matches Some(s) ==> time == s,
        seconds is None ==> time == 0,
{
    match seconds {
        Some(s) => s,
        None => 0,
    }
}

/// Returns the current Unix time in seconds, or 0 before the epoch: what
/// [`time_since_epoch`] makes of the clock. Nothing is stated of the result, because
/// the clock may show anything.
pub fn unix_now() -> (now: u64) {
    time_since_epoch(seconds_since_epoch())
}

proof fn lemma_first_named(records: Seq<VmRecord>, name: Seq<char>)
    ensures
        0 <= first_named(records, name) <= records.len(),
        first_named(records, name) < records.len() ==> records[first_named(records, name)].vm_name@ == name,
        forall|k: int| 0 <= k < first_named(records, name) ==> (#[trigger] records[k]).vm_name@ != name,
    decreases records.len(),
{
    if records.len() > 0 && records[0].vm_name@ != name {
        let rest = records.drop_first();
        lemma_first_named(rest, name);
        assert forall|k: int| 0 <= k < first_named(records, name) implies (#[trigger] records[k]).vm_name@
            != name by {
            if k > 0 {
                assert(records[k] == rest[k - 1]);
            }
        }
    }
}

/// The first record of a name is where its name is and none before it has it.
proof fn lemma_first_named_is(records: Seq<VmRecord>, name: Seq<char>, i: int)
    requires
        0 <= i <= records.len(),
        forall|k: int| 0 <= k < i ==> (#[trigger] records[k]).vm_name@ != name,
        i < records.len() ==> records[i].vm_name@ == name,
    ensures
        first_named(records, name) == i,
{
    lemma_first_named(records, name);
}

proof fn lemma_others(records: Seq<VmRecord>, name: Seq<char>)
    ensures
        others(records, name).len() <= records.len(),
        forall|k: int| 0 <= k < others(records, name).len() ==> (#[trigger] others(records, name)[k]).vm_name@ != name,
        forall|k: int|
            0 <= k < others(records, name).len() ==> records.contains(#[trigger] others(records, name)[k]),
        names_distinct(records) ==> names_distinct(others(records, name)),
    decreases records.len(),
{
    if records.len() > 0 {
        let shorter = records.drop_last();
        lemma_others(shorter, name);
        let rest = others(shorter, name);
        let all = others(records, name);
        assert forall|k: int| 0 <= k < all.len() implies records.contains(#[trigger] all[k]) by {
            if k < rest.len() {
                assert(shorter.contains(rest[k]));
                let j = choose|j: int| 0 <= j < shorter.len() && shorter[j] == rest[k];
                assert(records[j] == all[k]);
            } else {
                assert(records[records.len() - 1] == all[k]);
            }
        }
        if names_distinct(records) {
            assert(names_distinct(shorter)) by {
                assert forall|i: int, j: int| 0 <= i < j < shorter.len() implies (
                #[trigger] shorter[i]).vm_name@ != (#[trigger] shorter[j]).vm_name@ by {
                    assert(records[i].vm_name@ != records[j].vm_name@);
                }
            }
            assert forall|i: int, j: int| 0 <= i < j < all.len() implies (#[trigger] all[i]).vm_name@ != (
            #[trigger] all[j]).vm_name@ by {
                if j == rest.len() {
                    assert(shorter.contains(rest[i]));
                    let m = choose|m: int| 0 <= m < shorter.len() && shorter[m] == rest[i];
                    assert(records[m].vm_name@ != records[records.len() - 1].vm_name@);
                }
            }
        }
    }
}

impl Ledger {
    /// A ledger of these records, oldest first.
    pub fn from_records(records: Vec<VmRecord>) -> (ledger: Ledger)
        ensures
            ledger@ == records@,
    {
        Ledger { records }
    }

    /// The records, oldest first.
    pub fn records(&self) -> (records: &[VmRecord])
        ensures
            records@ == self@,
    {
        self.records.as_slice()
    }

    /// Where the first record of a VM called `vm_name` stands.
    fn position(&self, vm_name: &str) -> (i: usize)
        ensures
            i == first_named(self@, vm_name@),
            i <= self@.len(),
    {
        let mut i: usize = 0;
        while i < self.records.len()
            invariant
                i <= self.records@.len(),
                forall|k: int| 0 <= k < i ==> (#[trigger] self.records@[k]).vm_name@ != vm_name@,
            decreases self.records@.len() - i,
        {
            if same(self.records[i].vm_name.as_str(), vm_name) {
                proof {
                    lemma_first_named_is(self@, vm_name@, i as int);
                }
                return i;
            }
            i = i + 1;
        }
        proof {
            lemma_first_named_is(self@, vm_name@, i as int);
        }
        i
    }

    /// Returns the record for `vm_name`, if the ledger holds one.
    pub fn get(&self, vm_name: &str) -> (record: Option<&VmRecord>)
        ensures
            match record {
                Some(found) => record_named(self@, vm_name@) == Some(*found),
                None => record_named(self@, vm_name@) is None,
            },
    {
        let i: usize = self.position(vm_name);
        if i < self.records.len() {
            Some(&self.records[i])
        } else {
            None
        }
    }

    /// Drops every record of a VM called `vm_name`.
    fn drop_named(&mut self, vm_name: &str)
        ensures
            final(self)@ == others(old(self)@, vm_name@),
    {
        let ghost all = self.records@;
        let mut i: usize = 0;
        let ghost mut seen: int = 0;
        assert(all.take(0) =~= Seq::<VmRecord>::empty());
        while i < self.records.len()
            invariant
                0 <= seen <= all.len(),
                i <= self.records@.len(),
                self.records@.take(i as int) == others(all.take(seen), vm_name@),
                self.records@.skip(i as int) == all.skip(seen),
            decreases self.records@.len() - i,
        {
            let ghost before = self.records@;
            assert(before.skip(i as int).len() == all.skip(seen).len());
            assert(before.skip(i as int)[0] == all.skip(seen)[0]);
            assert(all.take(seen + 1).drop_last() =~= all.take(seen));
            if same(self.records[i].vm_name.as_str(), vm_name) {
                let _ = self.records.remove(i);
                assert(self.records@.take(i as int) =~= before.take(i as int));
                assert(self.records@.skip(i as int) =~= before.skip(i as int).drop_first());
            } else {
                i = i + 1;
                assert(self.records@.take(i as int) =~= before.take(i - 1).push(before[i - 1]));
                assert(self.records@.skip(i as int) =~= before.skip(i - 1).drop_first());
            }
            assert(all.skip(seen).drop_first() =~= all.skip(seen + 1));
            proof {
                seen = seen + 1;
            }
        }
        assert(self.records@.skip(i as int).len() == 0);
        assert(all.take(seen) =~= all);
        assert(self.records@.take(i as int) =~= self.records@);
    }

    /// Records a plan applied at Unix time `now`.
    ///
    /// Declaring is an upsert: a record for the same VM name is replaced. The
    /// ledger is then capped at [`MAX_RECORDS`] by dropping its oldest entries.
    pub fn record_at(&mut self, plan: &ExecutionPlan, now: u64)
        ensures
            final(self)@ == recorded(old(self)@, record_of(*plan, now)),
            final(self)@.len() <= MAX_RECORDS,
    {
        self.drop_named(plan.vm_name.as_str());
        let ghost kept = self.records@;
        let start: usize = first_kept_index(self.records.len());
        let mut dropped: usize = 0;
        assert(kept.skip(0) =~= kept);
        while dropped < start
            invariant
                dropped <= start <= kept.len(),
                self.records@ == kept.skip(dropped as int),
            decreases start - dropped,
        {
            let _ = self.records.remove(0);
            dropped = dropped + 1;
            assert(self.records@ =~= kept.skip(dropped as int));
        }
        self.records.push(VmRecord::from_plan(plan, now));
    }

    /// Records a plan applied now.
    pub fn record(&mut self, plan: &ExecutionPlan)
        ensures
            exists|now: u64| final(self)@ == recorded(old(self)@, #[trigger] record_of(*plan, now)),
            final(self)@.len() <= MAX_RECORDS,
    {
        let now: u64 = unix_now();
        self.record_at(plan, now);
    }

    /// Removes the record for `vm_name`, returning whether one was found.
    pub fn forget(&mut self, vm_name: &str) -> (found: bool)
        ensures
            final(self)@ == others(old(self)@, vm_name@),
            found <==> record_named(old(self)@, vm_name@) is Some,
    {
        let i: usize = self.position(vm_name);
        let found: bool = i < self.records.len();
        self.drop_named(vm_name);
        found
    }

    /// Advances the lifecycle state of a recorded VM.
    ///
    /// The transition must be valid: a terminal record is never reopened. Returns
    /// whether a record was found and updated.
    pub fn set_state(&mut self, vm_name: &str, state: VmLifecycle) -> (updated: bool)
        ensures
            final(self)@ == state_changed(old(self)@, vm_name@, state),
            updated <==> (record_named(old(self)@, vm_name@) matches Some(record) && transition_allowed(
                record.state,
                state,
            )),
    {
        let i: usize = self.position(vm_name);
        if i < self.records.len() && self.records[i].state.can_transition_to(state) {
            let ghost before = self.records@;
            self.records[i].state = state;
            assert(self.records@ =~= before.update(i as int, VmRecord { state, ..before[i as int] }));
            true
        } else {
            false
        }
    }
}

/// A record that was added is found under its name, as it was added.
pub proof fn law_recorded_vm_is_found(records: Seq<VmRecord>, record: VmRecord)
    ensures
        record_named(recorded(records, record), record.vm_name@) == Some(record),
{
    let kept = others(records, record.vm_name@);
    let start = first_kept(kept.len() as int);
    let after = recorded(records, record);
    lemma_others(records, record.vm_name@);
    assert forall|k: int| 0 <= k < after.len() - 1 implies (#[trigger] after[k]).vm_name@ != record.vm_name@ by {
        assert(after[k] == kept[start + k]);
    }
    lemma_first_named_is(after, record.vm_name@, after.len() - 1);
}

/// The ledger never outgrows its bound, and the newest record is always its last.
pub proof fn law_ledger_stays_bounded(records: Seq<VmRecord>, record: VmRecord)
    ensures
        recorded(records, record).len() <= MAX_RECORDS,
        recorded(records, record).last() == record,
{
}

/// Adding, removing and updating records never makes a name occur twice.
pub proof fn law_names_stay_distinct(
    records: Seq<VmRecord>,
    record: VmRecord,
    name: Seq<char>,
    state: VmLifecycle,
)
    requires
        names_distinct(records),
    ensures
        names_distinct(recorded(records, record)),
        names_distinct(others(records, name)),
        names_distinct(state_changed(records, name, state)),
{
    lemma_others(records, record.vm_name@);
    lemma_others(records, name);
    lemma_first_named(records, name);
    let kept = others(records, record.vm_name@);
    let start = first_kept(kept.len() as int);
    let after = recorded(records, record);
    assert forall|i: int, j: int| 0 <= i < j < after.len() implies (#[trigger] after[i]).vm_name@ != (
    #[trigger] after[j]).vm_name@ by {
        assert(after[i] == kept[start + i]);
        if j < after.len() - 1 {
            assert(after[j] == kept[start + j]);
        }
    }
    let changed = state_changed(records, name, state);
    assert forall|i: int, j: int| 0 <= i < j < changed.len() implies (#[trigger] changed[i]).vm_name@ != (
    #[trigger] changed[j]).vm_name@ by {
        assert(changed[i].vm_name == records[i].vm_name);
        assert(changed[j].vm_name == records[j].vm_name);
    }
}

/// A VM that was removed is not found, and removing it again finds nothing.
pub proof fn law_forgotten_vm_is_gone(records: Seq<VmRecord>, name: Seq<char>)
    ensures
        record_named(others(records, name), name) is None,
{
    lemma_others(records, name);
    lemma_first_named(others(records, name), name);
}

/// An updated VM is found in its new state, with everything else as it was; a
/// record in a terminal state never changes.
pub proof fn law_state_only_moves_forward(
    records: Seq<VmRecord>,
    name: Seq<char>,
    state: VmLifecycle,
    record: VmRecord,
)
    requires
        record_named(records, name) == Some(record),
    ensures
        transition_allowed(record.state, state) ==> record_named(
            state_changed(records, name, state),
            name,
        ) == Some(VmRecord { state, ..record }),
        record.state is Stopped || record.state is Failed ==> state_changed(records, name, state) == records,
{
    lemma_first_named(records, name);
    let i = first_named(records, name);
    let changed = state_changed(records, name, state);
    if transition_allowed(record.state, state) {
        assert forall|k: int| 0 <= k < i implies (#[trigger] changed[k]).vm_name@ != name by {
            assert(changed[k] == records[k]);
        }
        lemma_first_named_is(changed, name, i);
    }
}

/// A state leads to another exactly if it comes before it: booting before running, and
/// both before the two terminal states.
pub proof fn law_lifecycle_order(from: VmLifecycle, to: VmLifecycle)
    ensures
        transition_allowed(from, to) <==> (from is Booting && !(to is Booting)) || (from is Running && (
        to is Stopped || to is Failed)),
{
}

/// Dropping a name keeps every other record, in order.
pub proof fn law_only_the_named_are_dropped(records: Seq<VmRecord>, name: Seq<char>)
    ensures
        others(records, name) == records.filter(|record: VmRecord| record.vm_name@ != name),
    decreases records.len(),
{
    reveal(Seq::filter);
    if records.len() > 0 {
        law_only_the_named_are_dropped(records.drop_last(), name);
    }
}

proof fn lemma_first_named_push(records: Seq<VmRecord>, record: VmRecord, name: Seq<char>)
    ensures
        first_named(records.push(record), name) == (if first_named(records, name) < records.len()
            || record.vm_name@ == name {
            first_named(records, name)
        } else {
            records.len() as int + 1
        }),
        record_named(records.push(record), name) == (if record_named(records, name) is Some {
            record_named(records, name)
        } else if record.vm_name@ == name {
            Some(record)
        } else {
            None
        }),
{
    lemma_first_named(records, name);
    let longer = records.push(record);
    let i = first_named(records, name);
    assert forall|k: int| 0 <= k < i implies (#[trigger] longer[k]).vm_name@ != name by {
        assert(longer[k] == records[k]);
    }
    if i < records.len() || record.vm_name@ == name {
        lemma_first_named_is(longer, name, i);
    } else {
        lemma_first_named_is(longer, name, i + 1);
    }
}

/// Dropping a name leaves the record of every other name as it was.
pub proof fn law_other_records_stay(records: Seq<VmRecord>, name: Seq<char>, other: Seq<char>)
    requires
        other != name,
    ensures
        record_named(others(records, name), other) == record_named(records, other),
    decreases records.len(),
{
    if records.len() > 0 {
        let shorter = records.drop_last();
        law_other_records_stay(shorter, name, other);
        assert(records =~= shorter.push(records.last()));
        lemma_first_named_push(shorter, records.last(), other);
        lemma_first_named_push(others(shorter, name), records.last(), other);
    }
}

/// While there is room, adding a record leaves the record of every other name as it was.
pub proof fn law_recording_leaves_the_others(records: Seq<VmRecord>, record: VmRecord, other: Seq<char>)
    requires
        other != record.vm_name@,
        others(records, record.vm_name@).len() < 64,
    ensures
        record_named(recorded(records, record), other) == record_named(records, other),
{
    let kept = others(records, record.vm_name@);
    law_other_records_stay(records, record.vm_name@, other);
    assert(kept.skip(0) =~= kept);
    lemma_first_named_push(kept, record, other);
}

/// A ledger that is full makes room by dropping its oldest records, and no more of them
/// than it must: after the new record was added it holds exactly 64.
pub proof fn law_oldest_records_make_room(records: Seq<VmRecord>, record: VmRecord)
    ensures
        ({
            let kept = others(records, record.vm_name@);
            let after = recorded(records, record);
            &&& after.len() <= 64
            &&& kept.len() < 64 ==> after == kept.push(record)
            &&& kept.len() >= 64 ==> after.len() == 64
            &&& after.last() == record
            &&& after.drop_last().is_suffix_of(kept)
        }),
{
    let kept = others(records, record.vm_name@);
    let after = recorded(records, record);
    assert(after.drop_last() =~= kept.skip(first_kept(kept.len() as int)));
    if kept.len() < 64 {
        assert(kept.skip(0) =~= kept);
    }
    let start = kept.len() - after.drop_last().len();
    assert(kept.subrange(start as int, kept.len() as int) =~= after.drop_last());
}

/// The record of a name is the first one that has it, and there is none exactly if no
/// record has it.
pub proof fn law_lookup_finds_the_first(records: Seq<VmRecord>, name: Seq<char>, i: int)
    requires
        0 <= i < records.len(),
        records[i].vm_name@ == name,
        forall|k: int| 0 <= k < i ==> (#[trigger] records[k]).vm_name@ != name,
    ensures
        record_named(records, name) == Some(records[i]),
{
    lemma_first_named_is(records, name, i);
}

/// A name that no record has is not found.
pub proof fn law_unknown_name_is_not_found(records: Seq<VmRecord>, name: Seq<char>)
    requires
        forall|k: int| 0 <= k < records.len() ==> (#[trigger] records[k]).vm_name@ != name,
    ensures
        record_named(records, name) is None,
        others(records, name) == records,
    decreases records.len(),
{
    lemma_first_named_is(records, name, records.len() as int);
    if records.len() > 0 {
        let shorter = records.drop_last();
        assert forall|k: int| 0 <= k < shorter.len() implies (#[trigger] shorter[k]).vm_name@ != name by {
            assert(shorter[k] == records[k]);
        }
        law_unknown_name_is_not_found(shorter, name);
        assert(records =~= shorter.push(records.last()));
    }
}

/// Moving one VM to another state leaves every record in its place, and every other name
/// its record; a move that the lifecycle does not allow changes nothing.
pub proof fn law_state_change_touches_one_vm(
    records: Seq<VmRecord>,
    name: Seq<char>,
    state: VmLifecycle,
    other: Seq<char>,
)
    requires
        other != name,
    ensures
        ({
            let after = state_changed(records, name, state);
            &&& after.len() == records.len()
            &&& forall|i: int|
                0 <= i < records.len() ==> #[trigger] after[i] == (VmRecord { state: after[i].state, ..records[i] })
            &&& record_named(after, other) == record_named(records, other)
            &&& !(record_named(records, name) matches Some(record) && transition_allowed(record.state, state))
                ==> after == records
        }),
{
    let after = state_changed(records, name, state);
    lemma_first_named(records, name);
    lemma_first_named(records, other);
    let i = first_named(records, other);
    assert forall|k: int| 0 <= k < i implies (#[trigger] after[k]).vm_name@ != other by {
        assert(after[k].vm_name == records[k].vm_name);
    }
    if i < records.len() {
        assert(after[i].vm_name == records[i].vm_name);
    }
    lemma_first_named_is(after, other, i);
}

/// A plan is recorded as it was approved, for a VM that is being booted.
pub proof fn law_record_keeps_the_plan(plan: ExecutionPlan, now: u64)
    ensures
        ({
            let record = record_of(plan, now);
            &&& record.vm_name == plan.vm_name
            &&& record.vcpus == plan.vcpus
            &&& record.memory_mb == plan.memory_mb
            &&& record.network_bridge == plan.network_bridge
            &&& record.disk_image_path == plan.disk_image_path
            &&& record.applied_at == now
            &&& record.state is Booting
        }),
{
}

/// A record is written with every field under its name.
pub proof fn law_record_is_written_in_full(record: VmRecord)
    ensures
        ({
            let json = record_model(record);
            &&& json.text_field("vm_name"@) == Some(record.vm_name@)
            &&& json.number_field("vcpus"@) == Some(record.vcpus as u64)
            &&& json.number_field("memory_mb"@) == Some(record.memory_mb as u64)
            &&& json.text_field("network_bridge"@) == text_of(record.network_bridge)
            &&& json.text_field("disk_image_path"@) == text_of(record.disk_image_path)
            &&& json.number_field("applied_at"@) == Some(record.applied_at)
            &&& json.text_field("state"@) == Some(record.state.name())
            &&& record.network_bridge is None ==> json.field("network_bridge"@) == Some(JsonModel::Null)
            &&& record.disk_image_path is None ==> json.field("disk_image_path"@) == Some(JsonModel::Null)
        }),
{
    reveal_strlit("vm_name");
    reveal_strlit("vcpus");
    reveal_strlit("memory_mb");
    reveal_strlit("network_bridge");
    reveal_strlit("disk_image_path");
    reveal_strlit("applied_at");
    reveal_strlit("state");
    assert("vm_name"@.len() == 7);
    assert("vcpus"@.len() == 5 && "vcpus"@[0] == 'v');
    assert("memory_mb"@.len() == 9);
    assert("network_bridge"@.len() == 14);
    assert("disk_image_path"@.len() == 15);
    assert("applied_at"@.len() == 10);
    assert("state"@.len() == 5 && "state"@[0] == 's');
    let fields = record_model(record)->Object_0;
    law_field_is_the_first_of_its_name(fields, "vm_name"@, 0);
    law_field_is_the_first_of_its_name(fields, "vcpus"@, 1);
    law_field_is_the_first_of_its_name(fields, "memory_mb"@, 2);
    law_field_is_the_first_of_its_name(fields, "network_bridge"@, 3);
    law_field_is_the_first_of_its_name(fields, "disk_image_path"@, 4);
    law_field_is_the_first_of_its_name(fields, "applied_at"@, 5);
    law_field_is_the_first_of_its_name(fields, "state"@, 6);
}

/// No two states have the same name.
pub proof fn law_state_names_are_distinct(a: VmLifecycle, b: VmLifecycle)
    ensures
        a.name() == b.name() ==> a == b,
{
    reveal_strlit("booting");
    reveal_strlit("running");
    reveal_strlit("stopped");
    reveal_strlit("failed");
    assert("booting"@[0] == 'b');
    assert("running"@[0] == 'r');
    assert("stopped"@[0] == 's');
    assert("failed"@[0] == 'f');
}

} // verus!
