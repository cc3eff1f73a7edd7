//! Hardware execution layer: what a VM may be, and the order in which it is put
//! together.
//!
//! [`validate_spec`] is the only way to a [`VmSpec`]. [`Provisioning`] takes one
//! from the checks against the host to the running guest, step by step; the caller
//! performs each step against KVM and reports how it went.

pub mod boot;
pub mod memory;
pub mod mmio;
pub mod mptable;
pub mod network;
pub mod provision;
pub mod run;
pub mod storage;

pub use crate::vmm::provision::provision_kvm_machine_native;

use vstd::prelude::*;
use vstd::string::StringExecFns;

use crate::text::{
    chars_of, decimal_digits, has_prefix, is_digit, is_white_space, keep_unless_blank, keep_unless_none,
    lemma_cleaning_is_idempotent, lemma_decimal_digits, lemma_decimal_round_trip, literal_text, lower,
    lower_chars, lowered, number_overflows, overflows, parse_number, parsed_number, quote, same_chars, slice_text_of, string_of, text_of,
    trim, trimmed, unless_blank, unless_none,
};

verus! {

/// Maximum number of vCPUs allowed per VM.
pub const MAX_VCPUS: u32 = 255;

/// Minimum memory allowed for a VM, in mebibytes.
pub const MIN_MEMORY_MB: u32 = 8;

/// Maximum memory allowed for a VM, in mebibytes (1 TiB).
pub const MAX_MEMORY_MB: u32 = 1048576;

/// RAM, in MiB, kept free for the host kernel and the monitor itself.
pub const HOST_RESERVE_MB: u32 = 256;

/// Validated specification of a virtual machine.
#[derive(Debug, Clone, PartialEq, Eq)]
pub struct VmSpec {
    /// Number of virtual cores, within `1..=MAX_VCPUS`.
    pub vcpus: u32,
    /// Memory in mebibytes, within `MIN_MEMORY_MB..=MAX_MEMORY_MB`.
    pub memory_mb: u32,
    /// Host bridge to attach the VM to, or `None` for an isolated VM.
    pub network_bridge: Option<String>,
    /// Root-filesystem disk image to attach as a virtio-blk device, if any.
    pub disk_image_path: Option<String>,
}

/// Reason a specification was rejected by [`validate_spec`].
#[derive(Debug, Clone, Copy, PartialEq, Eq)]
pub enum SpecError {
    /// The requested vCPU count is zero.
    ZeroVcpu,
    /// The requested vCPU count exceeds [`MAX_VCPUS`].
    TooManyVcpus,
    /// The requested memory is below [`MIN_MEMORY_MB`].
    MemoryTooLow,
    /// The requested memory exceeds [`MAX_MEMORY_MB`].
    MemoryTooHigh,
}

impl SpecError {
    /// The text of the message.
    pub open spec fn text(self) -> Seq<char> {
        match self {
            SpecError::ZeroVcpu => "vCPU count must be at least 1"@,
            SpecError::TooManyVcpus => "vCPU count exceeds the allowed limit"@,
            SpecError::MemoryTooLow => "requested memory is below the allowed minimum"@,
            SpecError::MemoryTooHigh => "requested memory exceeds the allowed maximum"@,
        }
    }

    /// Readable, static message describing the rejection cause.
    pub fn as_str(self) -> (text: &'static str)
        ensures
            text@ == self.text(),
    {
        match self {
            SpecError::ZeroVcpu => "vCPU count must be at least 1",
            SpecError::TooManyVcpus => "vCPU count exceeds the allowed limit",
            SpecError::MemoryTooLow => "requested memory is below the allowed minimum",
            SpecError::MemoryTooHigh => "requested memory exceeds the allowed maximum",
        }
    }
}

/// The bridge a request stands for: the name without the white space around it,
/// or none if it is empty or says "none" in any case.
pub open spec fn bridge_of(requested: Option<Seq<char>>) -> Option<Seq<char>> {
    unless_none(requested)
}

/// The path a request stands for: the path without the white space around it, or
/// none if that is empty.
pub open spec fn path_of(requested: Option<Seq<char>>) -> Option<Seq<char>> {
    unless_blank(requested)
}

/// Normalizes a requested bridge name: white space around it is dropped; an empty
/// name or `"none"` in any case means no bridge.
pub fn normalize_bridge(network_bridge: Option<&str>) -> (bridge: Option<String>)
    ensures
        text_of(bridge) == bridge_of(slice_text_of(network_bridge)),
{
    keep_unless_none(network_bridge)
}

/// Normalizes an optional path: white space around it is dropped, and an empty path
/// means none.
pub fn normalize_path(path: Option<&str>) -> (normal: Option<String>)
    ensures
        text_of(normal) == path_of(slice_text_of(path)),
{
    keep_unless_blank(path)
}

/// What is wrong with a vCPU count and an amount of memory, if anything is.
pub open spec fn spec_error(vcpus: u32, memory_mb: u32) -> Option<SpecError> {
    if vcpus == 0 {
        Some(SpecError::ZeroVcpu)
    } else if vcpus > MAX_VCPUS {
        Some(SpecError::TooManyVcpus)
    } else if memory_mb < MIN_MEMORY_MB {
        Some(SpecError::MemoryTooLow)
    } else if memory_mb > MAX_MEMORY_MB {
        Some(SpecError::MemoryTooHigh)
    } else {
        None
    }
}

impl VmSpec {
    /// The resources are within bounds, and the optional texts are as cleaning leaves
    /// them.
    pub open spec fn well_formed(&self) -> bool {
        &&& 1 <= self.vcpus <= MAX_VCPUS
        &&& MIN_MEMORY_MB <= self.memory_mb <= MAX_MEMORY_MB
        &&& bridge_of(text_of(self.network_bridge)) == text_of(self.network_bridge)
        &&& path_of(text_of(self.disk_image_path)) == text_of(self.disk_image_path)
    }
}

/// Validates a resource request and returns a safe [`VmSpec`].
pub fn validate_spec(
    vcpus: u32,
    memory_mb: u32,
    network_bridge: Option<&str>,
    disk_image_path: Option<&str>,
) -> (spec: Result<VmSpec, SpecError>)
    ensures
        match spec_error(vcpus, memory_mb) {
            Some(error) => spec == Err::<VmSpec, SpecError>(error),
            None => {
                &&& spec is Ok
                &&& spec->Ok_0.vcpus == vcpus
                &&& spec->Ok_0.memory_mb == memory_mb
                &&& text_of(spec->Ok_0.network_bridge) == bridge_of(slice_text_of(network_bridge))
                &&& text_of(spec->Ok_0.disk_image_path) == path_of(slice_text_of(disk_image_path))
                &&& spec->Ok_0.well_formed()
            },
        },
{
    if vcpus == 0 {
        return Err(SpecError::ZeroVcpu);
    }
    if vcpus > MAX_VCPUS {
        return Err(SpecError::TooManyVcpus);
    }
    if memory_mb < MIN_MEMORY_MB {
        return Err(SpecError::MemoryTooLow);
    }
    if memory_mb > MAX_MEMORY_MB {
        return Err(SpecError::MemoryTooHigh);
    }
    proof {
        lemma_cleaning_is_idempotent(slice_text_of(network_bridge));
        lemma_cleaning_is_idempotent(slice_text_of(disk_image_path));
    }
    Ok(
        VmSpec {
            vcpus,
            memory_mb,
            network_bridge: normalize_bridge(network_bridge),
            disk_image_path: normalize_path(disk_image_path),
        },
    )
}

/// A request is accepted exactly when it is within bounds; a request for no vCPU is
/// always refused.
pub proof fn law_accepted_means_within_bounds(vcpus: u32, memory_mb: u32)
    ensures
        spec_error(vcpus, memory_mb) is None <==> 1 <= vcpus <= MAX_VCPUS && MIN_MEMORY_MB <= memory_mb
            <= MAX_MEMORY_MB,
        spec_error(0, memory_mb) is Some,
{
}

/// Validating what was validated changes nothing: a trimmed name stays as it is.
pub proof fn law_validation_is_idempotent(bridge: Option<Seq<char>>, path: Option<Seq<char>>)
    ensures
        bridge_of(bridge_of(bridge)) == bridge_of(bridge),
        path_of(path_of(path)) == path_of(path),
{
    lemma_cleaning_is_idempotent(bridge);
    lemma_cleaning_is_idempotent(path);
}

/// Converts an amount of memory in mebibytes into bytes. The count is exact on
/// every machine whose addresses are wide enough for it, and always a whole number
/// of pages.
pub fn memory_bytes(memory_mb: u32) -> (bytes: usize)
    ensures
        bytes == (memory_mb * 1048576) as usize,
        memory_mb * 1048576 <= usize::MAX ==> bytes == memory_mb * 1048576,
        bytes % 4096 == 0,
{
    assert(((memory_mb as u64 * 1048576) as usize) % 4096 == 0) by (bit_vector);
    (memory_mb as u64 * 1024 * 1024) as usize
}

/// A valid amount of memory is a non-zero number of whole pages within the range
/// that can be allocated.
pub proof fn law_valid_memory_is_allocatable(memory_mb: u32)
    requires
        MIN_MEMORY_MB <= memory_mb <= MAX_MEMORY_MB,
    ensures
        0 < MIN_MEMORY_MB * 1048576 <= memory_mb * 1048576 <= MAX_MEMORY_MB * 1048576,
        memory_mb * 1048576 % 4096 == 0,
{
}

/// Multiplies a memory `value` by a unit `factor`, yielding mebibytes, or `None` if
/// the product does not fit in 32 bits.
pub fn scaled_mib(value: u64, factor: u32) -> (mib: Option<u32>)
    ensures
        match mib {
            Some(product) => product == value * factor,
            None => value * factor > u32::MAX,
        },
{
    match value.checked_mul(factor as u64) {
        Some(total) => {
            if total <= u32::MAX as u64 {
                Some(total as u32)
            } else {
                None
            }
        },
        None => None,
    }
}

/// Why a memory size was refused.
#[derive(Debug, Clone, Copy, PartialEq, Eq)]
pub enum MemorySizeError {
    /// It is not a number with an optional unit.
    Malformed,
    /// It does not fit in 32 bits of mebibytes.
    TooLarge,
}

impl MemorySizeError {
    /// The text of the message, given the size as a literal.
    pub open spec fn text(self, quoted: Seq<char>) -> Seq<char> {
        match self {
            MemorySizeError::Malformed => "invalid memory size "@ + quoted
                + " — use e.g. 2048, 512M or 2G"@,
            MemorySizeError::TooLarge => "memory size "@ + quoted + " is too large"@,
        }
    }

    /// The message that reports this error, given the size as a literal.
    pub fn message_for(self, quoted: &str) -> (message: String)
        ensures
            message@ == self.text(quoted@),
    {
        match self {
            MemorySizeError::Malformed => {
                let mut message = String::from_str("invalid memory size ");
                message.append(quoted);
                message.append(" — use e.g. 2048, 512M or 2G");
                message
            },
            MemorySizeError::TooLarge => {
                let mut message = String::from_str("memory size ");
                message.append(quoted);
                message.append(" is too large");
                message
            },
        }
    }

    /// The message that reports this error of `size`.
    pub fn message(self, size: &str) -> (message: String)
        ensures
            message@ == self.text(literal_text(size@)),
    {
        self.message_for(quote(size).as_str())
    }
}

/// How many characters of `s` come before the letters that it ends with.
pub open spec fn number_len(s: Seq<char>) -> nat
    decreases s.len(),
{
    if s.len() > 0 && 'a' <= s.last() <= 'z' {
        number_len(s.drop_last())
    } else {
        s.len()
    }
}

/// How many mebibytes a unit stands for, if it is one.
pub open spec fn unit_factor(unit: Seq<char>) -> Option<u32> {
    if unit == ""@ || unit == "m"@ || unit == "mb"@ || unit == "mib"@ {
        Some(1)
    } else if unit == "g"@ || unit == "gb"@ || unit == "gib"@ {
        Some(1024)
    } else if unit == "t"@ || unit == "tb"@ || unit == "tib"@ {
        Some(1048576)
    } else {
        None
    }
}

/// The mebibytes that a human memory size stands for: an integer, with a binary
/// unit (`M`, `MB`, `MiB`, and so on for `G` and `T`, in any case) or without.
pub open spec fn parsed_memory(size: Seq<char>) -> Result<u32, MemorySizeError> {
    let body = lowered(trimmed(size));
    let split = number_len(body) as int;
    match (parsed_number(trimmed(body.take(split))), unit_factor(body.skip(split))) {
        (Some(value), Some(factor)) => if value * factor <= u32::MAX {
            Ok((value * factor) as u32)
        } else {
            Err(MemorySizeError::TooLarge)
        },
        _ => Err(MemorySizeError::Malformed),
    }
}

fn is_unit(unit: &[char], word: &str) -> (equal: bool)
    ensures
        equal == (unit@ == word@),
{
    let chars = chars_of(word);
    same_chars(unit, chars.as_slice())
}

fn parse_unit(unit: &[char]) -> (factor: Option<u32>)
    ensures
        factor == unit_factor(unit@),
{
    if is_unit(unit, "") || is_unit(unit, "m") || is_unit(unit, "mb") || is_unit(unit, "mib") {
        Some(1)
    } else if is_unit(unit, "g") || is_unit(unit, "gb") || is_unit(unit, "gib") {
        Some(1024)
    } else if is_unit(unit, "t") || is_unit(unit, "tb") || is_unit(unit, "tib") {
        Some(1048576)
    } else {
        None
    }
}

/// Parses a human memory size into mebibytes.
///
/// A malformed text and a value that does not fit are errors, never a wrapped size.
pub fn parse_memory_mb(size: &str) -> (mib: Result<u32, MemorySizeError>)
    ensures
        mib == parsed_memory(size@),
{
    let lower = lower_chars(trim(size));
    let ghost body = lowered(trimmed(size@));
    let mut end: usize = lower.len();
    assert(body.take(end as int) =~= body);
    while end > 0 && 'a' <= lower[end - 1] && lower[end - 1] <= 'z'
        invariant
            end <= lower@.len(),
            lower@ == body,
            number_len(body.take(end as int)) == number_len(body),
        decreases end,
    {
        assert(body.take(end as int).drop_last() =~= body.take(end - 1));
        assert(body.take(end as int).last() == body[end - 1]);
        end = end - 1;
    }
    assert(number_len(body) == end) by {
        if end > 0 {
            assert(body.take(end as int).last() == body[end - 1]);
        }
    }
    let number = &lower.as_slice()[0..end];
    let unit = &lower.as_slice()[end..lower.len()];
    assert(number@ =~= body.take(end as int));
    assert(unit@ =~= body.skip(end as int));
    let digits = string_of(number);
    let digit_chars = chars_of(trim(digits.as_str()));
    match (parse_number(digit_chars.as_slice()), parse_unit(unit)) {
        (Some(value), Some(factor)) => match scaled_mib(value, factor) {
            Some(mib) => Ok(mib),
            None => Err(MemorySizeError::TooLarge),
        },
        _ => Err(MemorySizeError::Malformed),
    }
}

proof fn lemma_number_len(number: Seq<char>, unit: Seq<char>)
    requires
        number.len() > 0 ==> !('a' <= number.last() <= 'z'),
        forall|i: int| 0 <= i < unit.len() ==> 'a' <= #[trigger] unit[i] <= 'z',
    ensures
        number_len(number + unit) == number.len(),
    decreases unit.len(),
{
    if unit.len() > 0 {
        assert((number + unit).drop_last() =~= number + unit.drop_last());
        lemma_number_len(number, unit.drop_last());
    } else {
        assert(number + unit =~= number);
    }
}

/// A decimal count followed by letters is a memory size exactly if the letters are one
/// of the units, and then stands for the count times the unit; with any other letters
/// it is malformed.
pub proof fn law_memory_units(count: u32, unit: Seq<char>)
    requires
        forall|i: int| 0 <= i < unit.len() ==> 'a' <= #[trigger] unit[i] <= 'z',
    ensures
        parsed_memory(decimal_digits(count as nat) + unit) == (match unit_factor(unit) {
            None => Err::<u32, MemorySizeError>(MemorySizeError::Malformed),
            Some(factor) => if count * factor <= u32::MAX {
                Ok::<u32, MemorySizeError>((count * factor) as u32)
            } else {
                Err::<u32, MemorySizeError>(MemorySizeError::TooLarge)
            },
        }),
{
    let number = decimal_digits(count as nat);
    let size = number + unit;
    lemma_decimal_round_trip(count as u64);
    lemma_decimal_digits(count as nat);
    assert(is_digit(number[0]) && is_digit(number.last()));
    lemma_number_len(number, unit);
    assert(size[0] == number[0]);
    assert(size.last() == if unit.len() > 0 {
        unit.last()
    } else {
        number.last()
    });
    assert(trimmed(size) == size);
    assert(lowered(size) =~= size) by {
        assert forall|i: int| 0 <= i < size.len() implies lower(#[trigger] size[i]) == size[i] by {
            if i < number.len() {
                assert(is_digit(number[i]));
            } else {
                assert('a' <= unit[i - number.len()] <= 'z');
            }
        }
    }
    assert(size.take(number.len() as int) =~= number);
    assert(size.skip(number.len() as int) =~= unit);
    assert(trimmed(number) == number);
}

/// A plain count of mebibytes stands for itself.
pub proof fn lemma_plain_memory(memory_mb: u32)
    ensures
        parsed_memory(decimal_digits(memory_mb as nat)) == Ok::<u32, MemorySizeError>(memory_mb),
{
    reveal_strlit("");
    law_memory_units(memory_mb, Seq::<char>::empty());
    assert(decimal_digits(memory_mb as nat) + Seq::<char>::empty() =~= decimal_digits(memory_mb as nat));
    assert(Seq::<char>::empty() =~= ""@);
}

/// The largest vCPU count on a host whose KVM reports `host_max`.
pub open spec fn vcpu_cap(host_max: u32) -> u32 {
    if host_max < MAX_VCPUS {
        host_max
    } else {
        MAX_VCPUS
    }
}

/// Returns the largest vCPU count to be provisioned on a host whose KVM reports
/// `host_max` as its maximum.
pub fn effective_vcpu_cap(host_max: u32) -> (cap: u32)
    ensures
        cap == vcpu_cap(host_max),
        cap <= MAX_VCPUS,
        cap <= host_max,
{
    if host_max < MAX_VCPUS {
        host_max
    } else {
        MAX_VCPUS
    }
}

/// The largest VM memory, in MiB, on a host with `available_mb` MiB available.
pub open spec fn memory_cap(available_mb: u32) -> u32 {
    if available_mb <= HOST_RESERVE_MB {
        0
    } else if available_mb - HOST_RESERVE_MB < MAX_MEMORY_MB {
        (available_mb - HOST_RESERVE_MB) as u32
    } else {
        MAX_MEMORY_MB
    }
}

/// Returns the largest VM memory, in MiB, that a host can safely grant when
/// `host_available_mb` MiB are available: the host's reserve always stays free.
pub fn effective_memory_cap(host_available_mb: u32) -> (cap: u32)
    ensures
        cap == memory_cap(host_available_mb),
        cap <= MAX_MEMORY_MB,
        cap == 0 || cap + HOST_RESERVE_MB <= host_available_mb,
{
    let rest: u32 = host_available_mb.saturating_sub(HOST_RESERVE_MB);
    if rest < MAX_MEMORY_MB {
        rest
    } else {
        MAX_MEMORY_MB
    }
}

/// Why the host's available memory could not be read from its report.
#[derive(Debug, Clone, Copy, PartialEq, Eq)]
pub enum MemInfoError {
    /// No line says how much memory is available.
    Missing,
    /// The line holds nothing after its label.
    Malformed,
    /// What follows the label is no decimal number.
    InvalidDigit,
    /// What follows the label is a number that does not fit in 64 bits.
    TooLarge,
}

impl MemInfoError {
    /// The text of the message.
    pub open spec fn text(self) -> Seq<char> {
        match self {
            MemInfoError::Missing => "MemAvailable not found in /proc/meminfo"@,
            MemInfoError::Malformed => "malformed MemAvailable line in /proc/meminfo"@,
            MemInfoError::InvalidDigit => "invalid digit found in string"@,
            MemInfoError::TooLarge => "number too large to fit in target type"@,
        }
    }

    /// The message that reports this error.
    pub fn as_str(self) -> (text: &'static str)
        ensures
            text@ == self.text(),
    {
        match self {
            MemInfoError::Missing => "MemAvailable not found in /proc/meminfo",
            MemInfoError::Malformed => "malformed MemAvailable line in /proc/meminfo",
            MemInfoError::InvalidDigit => "invalid digit found in string",
            MemInfoError::TooLarge => "number too large to fit in target type",
        }
    }
}

/// Where the line that starts at `from` ends: at the next line break, or at the end.
pub open spec fn line_end(s: Seq<char>, from: int) -> int
    decreases s.len() - from,
{
    if from < 0 || from >= s.len() || s[from] == '\n' {
        from
    } else {
        line_end(s, from + 1)
    }
}

/// Where the first run of characters that are not white space starts, from `from`
/// on and before `end`.
pub open spec fn word_start(s: Seq<char>, from: int, end: int) -> int
    decreases end - from,
{
    if from < end && is_white_space(s[from]) {
        word_start(s, from + 1, end)
    } else {
        from
    }
}

/// Where a run of characters that are not white space ends.
pub open spec fn word_end(s: Seq<char>, from: int, end: int) -> int
    decreases end - from,
{
    if from < end && !is_white_space(s[from]) {
        word_end(s, from + 1, end)
    } else {
        from
    }
}

/// The available mebibytes that a line says, given what follows its label: the
/// first word is a number of kibibytes.
pub open spec fn available_in(s: Seq<char>, from: int, end: int) -> Result<u32, MemInfoError> {
    let start = word_start(s, from, end);
    let stop = word_end(s, start, end);
    if start == end {
        Err(MemInfoError::Malformed)
    } else {
        match parsed_number(s.subrange(start, stop)) {
            None => if overflows(s.subrange(start, stop)) {
                Err(MemInfoError::TooLarge)
            } else {
                Err(MemInfoError::InvalidDigit)
            },
            Some(kib) => Ok(
                if kib / 1024 < u32::MAX {
                    (kib / 1024) as u32
                } else {
                    u32::MAX
                },
            ),
        }
    }
}

/// The available mebibytes that a report says, reading its lines from `from` on:
/// the first one labelled `MemAvailable:` counts.
pub open spec fn available_from(s: Seq<char>, from: int) -> Result<u32, MemInfoError>
    decreases s.len() + 1 - from,
    when from >= 0
    via line_end_decreases
{
    let end = line_end(s, from);
    if from >= s.len() {
        Err(MemInfoError::Missing)
    } else if has_prefix(s.subrange(from, end), "MemAvailable:"@) {
        available_in(s, from + "MemAvailable:"@.len(), end)
    } else {
        available_from(s, end + 1)
    }
}

#[via_fn]
proof fn line_end_decreases(s: Seq<char>, from: int) {
    lemma_line_end(s, from);
}

proof fn lemma_line_end(s: Seq<char>, from: int)
    requires
        0 <= from,
    ensures
        from <= line_end(s, from),
        from <= s.len() ==> line_end(s, from) <= s.len(),
    decreases s.len() - from,
{
    if from < s.len() && s[from] != '\n' {
        lemma_line_end(s, from + 1);
    }
}

/// Reads the host's available memory, in MiB, from the text of `/proc/meminfo`.
pub fn parse_available_memory_mb(meminfo: &str) -> (mib: Result<u32, MemInfoError>)
    ensures
        mib == available_from(meminfo@, 0),
{
    let label = chars_of("MemAvailable:");
    let s = chars_of(meminfo);
    let mut from: usize = 0;
    while from < s.len()
        invariant
            s@ == meminfo@,
            label@ == "MemAvailable:"@,
            from <= s@.len(),
            available_from(s@, from as int) == available_from(meminfo@, 0),
        decreases s@.len() - from,
    {
        let end: usize = find_line_end(&s, from);
        proof {
            lemma_line_end(s@, from as int);
        }
        if end - from >= label.len() {
            let start = &s.as_slice()[from..from + label.len()];
            let ghost line = s@.subrange(from as int, end as int);
            assert(start@ =~= line.take(label@.len() as int));
            if crate::text::same_chars(start, label.as_slice()) {
                return available_on(&s, from + label.len(), end);
            }
        }
        if end == s.len() {
            assert(available_from(s@, end + 1) == Err::<u32, MemInfoError>(MemInfoError::Missing));
            return Err(MemInfoError::Missing);
        }
        from = end + 1;
    }
    Err(MemInfoError::Missing)
}

fn find_line_end(s: &Vec<char>, from: usize) -> (end: usize)
    requires
        from <= s@.len(),
    ensures
        end == line_end(s@, from as int),
        from <= end <= s@.len(),
{
    let mut end: usize = from;
    while end < s.len() && s[end] != '\n'
        invariant
            from <= end <= s@.len(),
            line_end(s@, end as int) == line_end(s@, from as int),
        decreases s@.len() - end,
    {
        end = end + 1;
    }
    end
}

fn is_space(c: char) -> (space: bool)
    ensures
        space == is_white_space(c),
{
    ('\u{9}' <= c && c <= '\u{d}') || c == '\u{20}' || c == '\u{85}' || c == '\u{a0}' || c == '\u{1680}' || (
    '\u{2000}' <= c && c <= '\u{200a}') || c == '\u{2028}' || c == '\u{2029}' || c == '\u{202f}' || c
        == '\u{205f}' || c == '\u{3000}'
}

fn available_on(s: &Vec<char>, from: usize, end: usize) -> (mib: Result<u32, MemInfoError>)
    requires
        from <= end <= s@.len(),
    ensures
        mib == available_in(s@, from as int, end as int),
{
    let mut start: usize = from;
    while start < end && is_space(s[start])
        invariant
            from <= start <= end <= s@.len(),
            word_start(s@, start as int, end as int) == word_start(s@, from as int, end as int),
        decreases end - start,
    {
        start = start + 1;
    }
    if start == end {
        return Err(MemInfoError::Malformed);
    }
    let mut stop: usize = start;
    while stop < end && !is_space(s[stop])
        invariant
            start <= stop <= end <= s@.len(),
            word_end(s@, stop as int, end as int) == word_end(s@, start as int, end as int),
        decreases end - stop,
    {
        stop = stop + 1;
    }
    let word = &s.as_slice()[start..stop];
    match parse_number(word) {
        None => if number_overflows(word) {
            Err(MemInfoError::TooLarge)
        } else {
            Err(MemInfoError::InvalidDigit)
        },
        Some(kib) => {
            let mib: u64 = kib / 1024;
            Ok(
                if mib < u32::MAX as u64 {
                    mib as u32
                } else {
                    u32::MAX
                },
            )
        },
    }
}

/// A request is accepted exactly for 1 to 255 vCPUs and 8 MiB to 1 TiB of memory, and
/// refused for what is wrong with it, the vCPUs first.
pub proof fn law_resource_bounds(vcpus: u32, memory_mb: u32)
    ensures
        spec_error(vcpus, memory_mb) is None <==> 1 <= vcpus <= 255 && 8 <= memory_mb <= 1024 * 1024,
        vcpus == 0 ==> spec_error(vcpus, memory_mb) == Some(SpecError::ZeroVcpu),
        vcpus > 255 ==> spec_error(vcpus, memory_mb) == Some(SpecError::TooManyVcpus),
        1 <= vcpus <= 255 && memory_mb < 8 ==> spec_error(vcpus, memory_mb) == Some(SpecError::MemoryTooLow),
        1 <= vcpus <= 255 && memory_mb > 1024 * 1024 ==> spec_error(vcpus, memory_mb) == Some(
            SpecError::MemoryTooHigh,
        ),
{
}

/// What a host can grant: as many vCPUs as its KVM runs, up to 255, and the memory that
/// it has available but for 256 MiB, up to 1 TiB. More of the host never grants less.
pub proof fn law_host_caps(host_max: u32, available: u32, more: u32)
    ensures
        vcpu_cap(host_max) <= host_max && vcpu_cap(host_max) <= 255,
        vcpu_cap(host_max) == host_max || vcpu_cap(host_max) == 255,
        available <= 256 ==> memory_cap(available) == 0,
        available > 256 ==> memory_cap(available) + 256 <= available && memory_cap(available) <= 1024 * 1024,
        available > 256 ==> memory_cap(available) + 256 == available || memory_cap(available) == 1024 * 1024,
        available <= more ==> memory_cap(available) <= memory_cap(more),
        host_max <= more ==> vcpu_cap(host_max) <= vcpu_cap(more),
{
}

/// A bridge may be `none` and a disk may not: the word is a file's name like any other.
pub proof fn law_requested_names_are_cleaned(value: Seq<char>)
    ensures
        bridge_of(None) is None,
        path_of(None) is None,
        trimmed(value).len() == 0 ==> bridge_of(Some(value)) is None && path_of(Some(value)) is None,
        lowered(trimmed(value)) == "none"@ ==> bridge_of(Some(value)) is None,
        trimmed(value).len() > 0 ==> path_of(Some(value)) == Some(trimmed(value)),
        trimmed(value).len() > 0 && lowered(trimmed(value)) != "none"@ ==> bridge_of(Some(value)) == Some(
            trimmed(value),
        ),
{
}

/// The units of memory sizes: mebibytes, gibibytes and tebibytes, each by its letter, with
/// a `b` or an `ib` behind it or not; no unit is mebibytes.
pub proof fn law_memory_unit_factors(unit: Seq<char>)
    ensures
        unit_factor(unit) == Some(1u32) <==> unit.len() == 0 || unit == "m"@ || unit == "mb"@ || unit == "mib"@,
        unit_factor(unit) == Some(1024u32) <==> unit == "g"@ || unit == "gb"@ || unit == "gib"@,
        unit_factor(unit) == Some(1048576u32) <==> unit == "t"@ || unit == "tb"@ || unit == "tib"@,
        unit_factor(unit) matches Some(factor) ==> factor == 1 || factor == 1024 || factor == 1048576,
{
    reveal_strlit("");
    reveal_strlit("m");
    reveal_strlit("mb");
    reveal_strlit("mib");
    reveal_strlit("g");
    reveal_strlit("gb");
    reveal_strlit("gib");
    reveal_strlit("t");
    reveal_strlit("tb");
    reveal_strlit("tib");
    assert(""@ =~= Seq::<char>::empty());
    assert("m"@.len() == 1 && "mb"@.len() == 2 && "mib"@.len() == 3);
    assert("g"@.len() == 1 && "gb"@.len() == 2 && "gib"@.len() == 3);
    assert("t"@.len() == 1 && "tb"@.len() == 2 && "tib"@.len() == 3);
    assert("m"@[0] == 'm' && "mb"@[0] == 'm' && "mib"@[0] == 'm');
    assert("g"@[0] == 'g' && "gb"@[0] == 'g' && "gib"@[0] == 'g');
    assert("t"@[0] == 't' && "tb"@[0] == 't' && "tib"@[0] == 't');
    if unit.len() == 0 {
        assert(unit =~= ""@);
    }
}

proof fn lemma_line_end_at(s: Seq<char>, from: int, end: int)
    requires
        0 <= from <= end <= s.len(),
        end < s.len() ==> s[end] == '\n',
        forall|k: int| from <= k < end ==> #[trigger] s[k] != '\n',
    ensures
        line_end(s, from) == end,
    decreases end - from,
{
    if from < end {
        assert(s[from] != '\n');
        lemma_line_end_at(s, from + 1, end);
    }
}

proof fn lemma_word_start_at(s: Seq<char>, from: int, start: int, end: int)
    requires
        0 <= from <= start <= end <= s.len(),
        start < end ==> !is_white_space(s[start]),
        forall|k: int| from <= k < start ==> is_white_space(#[trigger] s[k]),
    ensures
        word_start(s, from, end) == start,
    decreases start - from,
{
    if from < start {
        assert(is_white_space(s[from]));
        lemma_word_start_at(s, from + 1, start, end);
    }
}

proof fn lemma_word_end_at(s: Seq<char>, from: int, stop: int, end: int)
    requires
        0 <= from <= stop <= end <= s.len(),
        stop < end ==> is_white_space(s[stop]),
        forall|k: int| from <= k < stop ==> !is_white_space(#[trigger] s[k]),
    ensures
        word_end(s, from, end) == stop,
    decreases stop - from,
{
    if from < stop {
        assert(!is_white_space(s[from]));
        lemma_word_end_at(s, from + 1, stop, end);
    }
}

/// A report whose line from `from` on is the label, blanks, a count of kibibytes and a
/// unit says that many kibibytes are available: whole mebibytes are counted, as many as
/// fit in 32 bits. What follows on other lines does not matter.
pub proof fn law_available_memory_is_read(s: Seq<char>, from: int, start: int, end: int, kib: u64)
    requires
        0 <= from < from + 13 <= start <= end <= s.len(),
        s.subrange(from, from + 13) == "MemAvailable:"@,
        forall|k: int| from + 13 <= k < start ==> #[trigger] s[k] == ' ',
        start + decimal_digits(kib as nat).len() <= end,
        s.subrange(start, start + decimal_digits(kib as nat).len()) == decimal_digits(kib as nat),
        start + decimal_digits(kib as nat).len() < end ==> s[start + decimal_digits(kib as nat).len()] == ' ',
        forall|k: int| start + decimal_digits(kib as nat).len() <= k < end ==> #[trigger] s[k] != '\n',
        end < s.len() ==> s[end] == '\n',
    ensures
        available_from(s, from) matches Ok(mib) && if kib / 1024 <= u32::MAX {
            mib == kib / 1024
        } else {
            mib == u32::MAX
        },
{
    let digits = decimal_digits(kib as nat);
    let stop = start + digits.len();
    reveal_strlit("MemAvailable:");
    assert("MemAvailable:"@.len() == 13);
    lemma_decimal_round_trip(kib);
    lemma_decimal_digits(kib as nat);
    let label = s.subrange(from, from + 13);
    assert forall|k: int| from <= k < end implies #[trigger] s[k] != '\n' by {
        if k < from + 13 {
            assert(s[k] == label[k - from]);
        } else if start <= k < stop {
            assert(s[k] == s.subrange(start, stop)[k - start]);
            assert(is_digit(digits[k - start]));
        }
    }
    lemma_line_end_at(s, from, end);
    assert(s.subrange(from, end).take(13) =~= label);
    assert forall|k: int| start <= k < stop implies !is_white_space(#[trigger] s[k]) by {
        assert(s[k] == s.subrange(start, stop)[k - start]);
        assert(is_digit(digits[k - start]));
    }
    lemma_word_start_at(s, from + 13, start, end);
    lemma_word_end_at(s, start, stop, end);
}

/// A line that does not start with the label is passed over; a report without such a line
/// does not say how much is available.
pub proof fn law_other_lines_are_passed_over(s: Seq<char>, from: int, end: int)
    requires
        0 <= from <= end <= s.len(),
        end < s.len() ==> s[end] == '\n',
        forall|k: int| from <= k < end ==> #[trigger] s[k] != '\n',
        !has_prefix(s.subrange(from, end), "MemAvailable:"@),
    ensures
        from < s.len() ==> available_from(s, from) == available_from(s, end + 1),
        available_from(s, s.len() as int) == Err::<u32, MemInfoError>(MemInfoError::Missing),
        end == s.len() ==> available_from(s, from) == Err::<u32, MemInfoError>(MemInfoError::Missing),
{
    lemma_line_end_at(s, from, end);
}

/// A size in gibibytes is 1024 times as many mebibytes, and one in tebibytes 1024 times as
/// many gibibytes, as far as that fits in 32 bits.
pub proof fn law_sizes_scale_with_their_units(count: u32)
    ensures
        parsed_memory(decimal_digits(count as nat) + "m"@) == Ok::<u32, MemorySizeError>(count),
        parsed_memory(decimal_digits(count as nat) + "g"@) == (if count * 1024 <= u32::MAX {
            Ok::<u32, MemorySizeError>((count * 1024) as u32)
        } else {
            Err::<u32, MemorySizeError>(MemorySizeError::TooLarge)
        }),
        parsed_memory(decimal_digits(count as nat) + "t"@) == (if count * 1048576 <= u32::MAX {
            Ok::<u32, MemorySizeError>((count * 1048576) as u32)
        } else {
            Err::<u32, MemorySizeError>(MemorySizeError::TooLarge)
        }),
{
    reveal_strlit("m");
    reveal_strlit("g");
    reveal_strlit("t");
    law_memory_unit_factors("m"@);
    law_memory_unit_factors("g"@);
    law_memory_unit_factors("t"@);
    law_memory_units(count, "m"@);
    law_memory_units(count, "g"@);
    law_memory_units(count, "t"@);
}

/// A size is read without regard to case and to white space around it.
pub proof fn law_sizes_ignore_case_and_blanks(size: Seq<char>)
    ensures
        parsed_memory(size) == parsed_memory(trimmed(size)),
        lowered(trimmed(size)) == trimmed(lowered(trimmed(size))) ==> parsed_memory(size) == parsed_memory(
            lowered(trimmed(size)),
        ),
{
    crate::text::lemma_trimmed_is_trimmed(size);
    assert(lowered(lowered(trimmed(size))) =~= lowered(trimmed(size)));
}

/// Whatever is read as a size is a number followed by a unit, and stands for the product;
/// one that does not fit in 32 bits is refused as too large.
pub proof fn law_every_size_is_a_number_and_a_unit(size: Seq<char>) -> (parts: (Seq<char>, Seq<char>))
    ensures
        lowered(trimmed(size)) == parts.0 + parts.1,
        forall|i: int| 0 <= i < parts.1.len() ==> 'a' <= #[trigger] parts.1[i] <= 'z',
        match parsed_memory(size) {
            Ok(mib) => parsed_number(trimmed(parts.0)) matches Some(count) && unit_factor(parts.1) matches Some(
                factor,
            ) && mib == count * factor,
            Err(MemorySizeError::TooLarge) => parsed_number(trimmed(parts.0)) matches Some(count) && unit_factor(
                parts.1,
            ) matches Some(factor) && count * factor > u32::MAX,
            Err(MemorySizeError::Malformed) => parsed_number(trimmed(parts.0)) is None || unit_factor(parts.1)
                is None,
        },
{
    let body = lowered(trimmed(size));
    lemma_number_len_splits(body);
    let split = number_len(body) as int;
    assert(body =~= body.take(split) + body.skip(split));
    assert forall|i: int| 0 <= i < body.skip(split).len() implies 'a' <= #[trigger] body.skip(split)[i] <= 'z' by {
        assert('a' <= body[split + i] <= 'z');
    }
    (body.take(split), body.skip(split))
}

proof fn lemma_number_len_splits(s: Seq<char>)
    ensures
        number_len(s) <= s.len(),
        forall|i: int| number_len(s) <= i < s.len() ==> 'a' <= #[trigger] s[i] <= 'z',
    decreases s.len(),
{
    if s.len() > 0 && 'a' <= s.last() <= 'z' {
        let shorter = s.drop_last();
        lemma_number_len_splits(shorter);
        assert forall|i: int| number_len(s) <= i < s.len() implies 'a' <= #[trigger] s[i] <= 'z' by {
            if i < shorter.len() {
                assert(shorter[i] == s[i]);
            }
        }
    }
}

/// A line that says nothing after its label is malformed; one that says a word that is no
/// number is refused for its digits, and one whose digits are more than 64 bits hold as
/// too large.
pub proof fn law_bad_memory_reports(s: Seq<char>, from: int, start: int, stop: int, end: int)
    requires
        0 <= from <= start <= stop <= end <= s.len(),
        forall|k: int| from <= k < start ==> is_white_space(#[trigger] s[k]),
        forall|k: int| start <= k < stop ==> !is_white_space(#[trigger] s[k]),
        start < end ==> start < stop,
        stop < end ==> is_white_space(s[stop]),
    ensures
        start == end ==> available_in(s, from, end) == Err::<u32, MemInfoError>(MemInfoError::Malformed),
        start < end && parsed_number(s.subrange(start, stop)) is None ==> available_in(s, from, end) == Err::<
            u32,
            MemInfoError,
        >(
            if overflows(s.subrange(start, stop)) {
                MemInfoError::TooLarge
            } else {
                MemInfoError::InvalidDigit
            },
        ),
        start < end && parsed_number(s.subrange(start, stop)) is Some ==> available_in(s, from, end) is Ok,
{
    if start < end {
        assert(!is_white_space(s[start]));
    }
    lemma_word_start_at(s, from, start, end);
    lemma_word_end_at(s, start, stop, end);
}

/// A word has too many digits exactly if those that it starts with, up to the first
/// character that is none, are a number beyond 64 bits.
pub proof fn law_too_many_digits(digits: Seq<char>, rest: Seq<char>)
    requires
        forall|i: int| 0 <= i < digits.len() ==> is_digit(#[trigger] digits[i]),
        digits.len() > 0,
        rest.len() > 0 ==> !is_digit(rest[0]),
    ensures
        overflows(digits + rest) <==> crate::text::digits_value(digits) > u64::MAX,
        overflows(seq!['+'] + digits + rest) <==> crate::text::digits_value(digits) > u64::MAX,
{
    let word = digits + rest;
    assert(word[0] == digits[0] && is_digit(digits[0]));
    lemma_digits_end_at(word, 0, digits.len() as int);
    assert(word.take(digits.len() as int) =~= digits);
    assert((seq!['+'] + digits + rest).drop_first() =~= word);
}

proof fn lemma_digits_end_at(s: Seq<char>, from: int, end: int)
    requires
        0 <= from <= end <= s.len(),
        end < s.len() ==> !is_digit(s[end]),
        forall|k: int| from <= k < end ==> is_digit(#[trigger] s[k]),
    ensures
        crate::text::digits_end(s, from) == end,
    decreases end - from,
{
    if from < end {
        assert(is_digit(s[from]));
        lemma_digits_end_at(s, from + 1, end);
    }
}

} // verus!
