//! Host network plumbing: the TAP interface of a VM and its place on a bridge.
//!
//! The interface is created, attached and removed with `ip`, which the caller
//! runs; this module decides which command comes next and what its outcome means.
//! Every interface name that reaches `ip` has passed [`is_valid_ifname`], so it
//! can never be taken for an option, a path or more than one word.

use vstd::prelude::*;
use vstd::string::StringExecFns;

use crate::text::{decimal, decimal_digits, literal_text, quote, string_of, texts};

verus! {

/// Maximum length of a Linux network interface name.
pub const MAX_IFNAME_LEN: usize = 15;

/// An ASCII letter or digit.
pub open spec fn is_alphanumeric(c: char) -> bool {
    'a' <= c <= 'z' || 'A' <= c <= 'Z' || '0' <= c <= '9'
}

/// A character that may stand anywhere in an interface name.
pub open spec fn is_ifname_char(c: char) -> bool {
    is_alphanumeric(c) || c == '_' || c == '-' || c == '.'
}

/// A safe interface name: 1 to 15 characters from the allowlist, the first of them
/// a letter or a digit.
pub open spec fn valid_ifname(name: Seq<char>) -> bool {
    &&& 1 <= name.len() <= MAX_IFNAME_LEN
    &&& is_alphanumeric(name[0])
    &&& forall|i: int| 0 <= i < name.len() ==> is_ifname_char(#[trigger] name[i])
}

/// Returns `true` iff `byte` is allowed anywhere in an interface name.
pub fn is_allowed_ifname_byte(byte: u8) -> (allowed: bool)
    ensures
        allowed == is_ifname_char(byte as char),
{
    let c: char = byte as char;
    is_safe_first_byte(byte) || c == '_' || c == '-' || c == '.'
}

/// Returns `true` iff `byte` is allowed as the first byte of an interface name.
pub fn is_safe_first_byte(byte: u8) -> (safe: bool)
    ensures
        safe == is_alphanumeric(byte as char),
{
    let c: char = byte as char;
    ('a' <= c && c <= 'z') || ('A' <= c && c <= 'Z') || ('0' <= c && c <= '9')
}

/// Returns `true` iff `name` is a safe Linux interface name.
pub fn is_valid_ifname(name: &str) -> (valid: bool)
    ensures
        valid == valid_ifname(name@),
{
    if !name.is_ascii() {
        assert(!valid_ifname(name@)) by {
            let k = choose|k: int| 0 <= k < name@.len() && !('\0' <= #[trigger] name@[k] <= '\u{7f}');
            assert(!is_ifname_char(name@[k]));
        }
        return false;
    }
    proof {
        vstd::utf8::is_ascii_chars_encode_utf8(name@);
    }
    let bytes = name.as_bytes();
    assert(bytes@.len() == name@.len());
    assert(forall|k: int| 0 <= k < name@.len() ==> bytes@[k] as char == #[trigger] name@[k]) by {
        assert forall|k: int| 0 <= k < name@.len() implies bytes@[k] as char == #[trigger] name@[k] by {
            assert(name@[k] as u8 == bytes@[k]);
        }
    }
    if bytes.len() == 0 || bytes.len() > MAX_IFNAME_LEN {
        return false;
    }
    if !is_safe_first_byte(bytes[0]) {
        return false;
    }
    let mut i: usize = 0;
    while i < bytes.len()
        invariant
            i <= bytes@.len(),
            bytes@.len() == name@.len(),
            forall|k: int| 0 <= k < name@.len() ==> bytes@[k] as char == #[trigger] name@[k],
            forall|k: int| 0 <= k < i ==> is_ifname_char(#[trigger] name@[k]),
        decreases bytes@.len() - i,
    {
        if !is_allowed_ifname_byte(bytes[i]) {
            assert(!is_ifname_char(name@[i as int]));
            return false;
        }
        i = i + 1;
    }
    true
}

/// Offset basis of the 64-bit FNV-1a hash.
pub const FNV_OFFSET_BASIS: u64 = 0xcbf2_9ce4_8422_2325;

/// Prime of the 64-bit FNV-1a hash.
pub const FNV_PRIME: u64 = 0x0000_0100_0000_01b3;

/// The 64-bit FNV-1a hash of `data`: byte by byte, exclusive or, then
/// multiplication by the prime modulo 2^64.
pub open spec fn fnv1a(data: Seq<u8>) -> u64
    decreases data.len(),
{
    if data.len() == 0 {
        FNV_OFFSET_BASIS
    } else {
        ((fnv1a(data.drop_last()) ^ (data.last() as u64)) * FNV_PRIME % 0x1_0000_0000_0000_0000) as u64
    }
}

/// 64-bit FNV-1a hash of `data`.
pub fn fnv1a_64(data: &[u8]) -> (hash: u64)
    ensures
        hash == fnv1a(data@),
{
    let mut hash: u64 = FNV_OFFSET_BASIS;
    let mut i: usize = 0;
    assert(data@.take(0) =~= Seq::<u8>::empty());
    while i < data.len()
        invariant
            i <= data@.len(),
            hash == fnv1a(data@.take(i as int)),
        decreases data@.len() - i,
    {
        assert(data@.take(i + 1).drop_last() =~= data@.take(i as int));
        hash = hash ^ (data[i] as u64);
        hash = hash.wrapping_mul(FNV_PRIME);
        i = i + 1;
    }
    assert(data@.take(i as int) =~= data@);
    hash
}

/// The lower-case hex digit of `nibble`.
pub open spec fn hex_char(nibble: int) -> u8 {
    if nibble < 10 {
        (48 + nibble) as u8
    } else {
        (87 + nibble) as u8
    }
}

/// Maps a nibble (`0..=15`) to its lowercase ASCII hex digit.
pub fn hex_digit(nibble: u8) -> (digit: u8)
    requires
        nibble < 16,
    ensures
        digit == hex_char(nibble as int),
        is_ifname_char(digit as char),
{
    if nibble < 10 {
        48 + nibble
    } else {
        87 + nibble
    }
}

/// Hex digit `i` of the eleven that a TAP name carries, the most significant first.
pub open spec fn tap_nibble(hash: u64, i: int) -> u64 {
    (hash >> ((4 * (10 - i)) as u64)) & 0xf
}

/// The bytes of a TAP name: `tap-` and eleven hex digits of the hash.
pub open spec fn tap_bytes(hash: u64) -> Seq<u8> {
    seq![0x74u8, 0x61, 0x70, 0x2d] + Seq::new(11, |i: int| hex_char(tap_nibble(hash, i) as int))
}

/// Renders the TAP interface name `tap-<hash digits>`.
pub fn render_tap_name(hash: u64) -> (name: Vec<u8>)
    ensures
        name@ == tap_bytes(hash),
{
    let mut name: Vec<u8> = vec![0x74u8, 0x61, 0x70, 0x2d];
    let mut i: u64 = 0;
    while i < 11
        invariant
            i <= 11,
            name@ == tap_bytes(hash).take(4 + i),
        decreases 11 - i,
    {
        let shift: u64 = 4 * (10 - i);
        let nibble: u64 = (hash >> shift) & 0xf;
        assert((hash >> shift) & 0xf < 16) by (bit_vector);
        name.push(hex_digit(nibble as u8));
        i = i + 1;
        assert(name@ =~= tap_bytes(hash).take(4 + i));
    }
    assert(name@ =~= tap_bytes(hash));
    name
}

/// The TAP name of a VM, from a hash of its whole name.
pub open spec fn tap_name_of(vm_name: Seq<char>) -> Seq<char> {
    tap_bytes(fnv1a(vstd::utf8::encode_utf8(vm_name))).map_values(|b: u8| b as char)
}

/// Derives a safe, deterministic TAP interface name from a VM name.
pub fn derive_tap_name(vm_name: &str) -> (tap: String)
    ensures
        tap@ == tap_name_of(vm_name@),
        valid_ifname(tap@),
{
    let name = render_tap_name(fnv1a_64(vm_name.as_bytes()));
    let mut chars: Vec<char> = Vec::new();
    let mut i: usize = 0;
    while i < name.len()
        invariant
            i <= name@.len(),
            name@ == tap_bytes(fnv1a(vstd::utf8::encode_utf8(vm_name@))),
            chars@ == tap_name_of(vm_name@).take(i as int),
        decreases name@.len() - i,
    {
        chars.push(name[i] as char);
        i = i + 1;
        assert(chars@ =~= tap_name_of(vm_name@).take(i as int));
    }
    assert(chars@ =~= tap_name_of(vm_name@));
    proof {
        law_tap_name_is_always_valid(fnv1a(vstd::utf8::encode_utf8(vm_name@)));
    }
    string_of(chars.as_slice())
}

/// Whatever the hash, a TAP name is a valid interface name.
pub proof fn law_tap_name_is_always_valid(hash: u64)
    ensures
        valid_ifname(tap_bytes(hash).map_values(|b: u8| b as char)),
{
    let name = tap_bytes(hash).map_values(|b: u8| b as char);
    assert forall|i: int| 0 <= i < name.len() implies is_ifname_char(#[trigger] name[i]) by {
        if i >= 4 {
            let shift = (4 * (10 - (i - 4))) as u64;
            assert((hash >> shift) & 0xf < 16) by (bit_vector);
            assert(name[i] == hex_char(tap_nibble(hash, i - 4) as int) as char);
        } else {
            assert(name[i] == tap_bytes(hash)[i] as char);
        }
    }
    assert(name[0] == 't');
}

/// The allowlist holds none of the characters that could subvert `ip`'s arguments,
/// a path or a shell; a first character is never a hyphen and always allowed.
pub proof fn law_allowlist_rejects_dangerous_characters(c: char)
    ensures
        is_ifname_char(c) ==> c != '/' && c != '\0' && c != ' ' && c != '\t' && c != '\n' && c != '\r' && c
            != ';' && c != '|' && c != '&' && c != '$' && c != '`' && c != ':',
        is_alphanumeric(c) ==> c != '-' && is_ifname_char(c),
{
}

/// Why a TAP interface cannot be set up at all.
#[derive(Clone, Copy, Debug, PartialEq, Eq)]
pub enum NetworkError {
    /// The bridge name is not a safe interface name.
    UnsafeBridgeName,
}

impl NetworkError {
    /// The text of the message, given the bridge name as a literal.
    pub open spec fn text(self, quoted: Seq<char>) -> Seq<char> {
        match self {
            NetworkError::UnsafeBridgeName => "refusing unsafe bridge name "@ + quoted
                + ": a bridge name must be 1 to "@ + decimal_digits(MAX_IFNAME_LEN as nat)
                + " characters, start with a letter or digit, and contain only letters, digits, '_', '-' or '.'"@,
        }
    }

    /// The message that reports this error, given the bridge name as a literal.
    pub fn message_for(self, quoted: &str) -> (message: String)
        ensures
            message@ == self.text(quoted@),
    {
        match self {
            NetworkError::UnsafeBridgeName => {
                let mut message = String::from_str("refusing unsafe bridge name ");
                message.append(quoted);
                message.append(": a bridge name must be 1 to ");
                message.append(decimal(MAX_IFNAME_LEN as u64).as_str());
                message.append(
                    " characters, start with a letter or digit, and contain only letters, digits, '_', '-' or '.'",
                );
                message
            },
        }
    }

    /// The message that reports this error of `bridge_name`.
    pub fn message(self, bridge_name: &str) -> (message: String)
        ensures
            message@ == self.text(literal_text(bridge_name@)),
    {
        self.message_for(quote(bridge_name).as_str())
    }
}

/// The step of the setup whose error is to be reported.
#[derive(Clone, Copy, Debug, PartialEq, Eq)]
pub enum TapFailure {
    Probe,
    Create,
    Recheck,
    Attach,
    Activate,
}

/// Where the setup of a TAP interface stands.
#[derive(Clone, Copy, Debug, PartialEq, Eq)]
pub enum TapState {
    /// Finding out whether the interface exists.
    Probing,
    /// Creating it.
    Creating,
    /// Finding out whether another actor created it meanwhile.
    Rechecking,
    /// Attaching it to the bridge.
    Attaching { created_here: bool },
    /// Bringing it up.
    Activating { created_here: bool },
    /// Removing it again.
    RollingBack { failure: TapFailure },
    /// It is attached and up.
    Ready,
    /// The setup failed.
    Failed { failure: TapFailure },
}

/// What the command that was run last came to.
#[derive(Clone, Copy, Debug, PartialEq, Eq)]
pub enum TapReport {
    /// The probe found the interface.
    Present,
    /// The probe found no such interface.
    Absent,
    /// The command went through.
    Done,
    /// The command could not be run or exited with an error.
    Failed,
}

/// The state that follows `state` once `report` is known.
///
/// The setup is idempotent: an interface that exists is reused. It is
/// transactional: an interface created here is removed again if it cannot be
/// attached and brought up; one that another actor made, before or meanwhile, is left
/// alone.
pub open spec fn tap_next(state: TapState, report: TapReport) -> TapState {
    match state {
        TapState::Probing => match report {
            TapReport::Present => TapState::Attaching { created_here: false },
            TapReport::Absent => TapState::Creating,
            _ => TapState::Failed { failure: TapFailure::Probe },
        },
        TapState::Creating => match report {
            TapReport::Failed => TapState::Rechecking,
            _ => TapState::Attaching { created_here: true },
        },
        TapState::Rechecking => match report {
            TapReport::Present => TapState::Attaching { created_here: false },
            TapReport::Absent => TapState::Failed { failure: TapFailure::Create },
            _ => TapState::Failed { failure: TapFailure::Recheck },
        },
        TapState::Attaching { created_here } => match report {
            TapReport::Failed => undone(created_here, TapFailure::Attach),
            _ => TapState::Activating { created_here },
        },
        TapState::Activating { created_here } => match report {
            TapReport::Failed => undone(created_here, TapFailure::Activate),
            _ => TapState::Ready,
        },
        TapState::RollingBack { failure } => TapState::Failed { failure },
        TapState::Ready => TapState::Ready,
        TapState::Failed { failure } => TapState::Failed { failure },
    }
}

/// How a failed attachment ends: with a removal first, if the interface was created
/// here.
pub open spec fn undone(created_here: bool, failure: TapFailure) -> TapState {
    if created_here {
        TapState::RollingBack { failure }
    } else {
        TapState::Failed { failure }
    }
}

/// The setup of one VM's TAP interface, command by command.
pub struct TapSetup {
    tap_name: String,
    bridge_name: String,
    state: TapState,
}

/// The arguments of `ip` in a given state; none once the setup has ended.
pub open spec fn ip_arguments(state: TapState, tap: Seq<char>, bridge: Seq<char>) -> Seq<Seq<char>> {
    match state {
        TapState::Probing => seq!["link"@, "show"@, "dev"@, tap],
        TapState::Creating => seq!["tuntap"@, "add"@, "mode"@, "tap"@, "name"@, tap],
        TapState::Rechecking => seq!["link"@, "show"@, "dev"@, tap],
        TapState::Attaching { .. } => seq!["link"@, "set"@, tap, "master"@, bridge],
        TapState::Activating { .. } => seq!["link"@, "set"@, "dev"@, tap, "up"@],
        TapState::RollingBack { .. } => seq!["link"@, "del"@, tap],
        TapState::Ready => seq![],
        TapState::Failed { .. } => seq![],
    }
}

impl TapSetup {
    /// The interface being set up.
    pub closed spec fn tap(&self) -> Seq<char> {
        self.tap_name@
    }

    /// The bridge it is attached to.
    pub closed spec fn bridge(&self) -> Seq<char> {
        self.bridge_name@
    }

    /// Where the setup stands.
    pub closed spec fn stage(&self) -> TapState {
        self.state
    }

    /// Both names are safe to hand to `ip`.
    pub open spec fn well_formed(&self) -> bool {
        valid_ifname(self.tap()) && valid_ifname(self.bridge())
    }

    /// The name of the TAP interface.
    pub fn tap_name(&self) -> (name: &str)
        ensures
            name@ == self.tap(),
    {
        self.tap_name.as_str()
    }

    /// Where the setup stands.
    pub fn state(&self) -> (state: TapState)
        ensures
            state == self.stage(),
    {
        self.state
    }

    /// The arguments that `ip` is to be run with next; none once the setup has
    /// ended. Each is one argument, and no shell is involved.
    pub fn command(&self) -> (arguments: Vec<String>)
        ensures
            texts(arguments@) == ip_arguments(self.stage(), self.tap(), self.bridge()),
    {
        let tap = self.tap_name.as_str();
        let bridge = self.bridge_name.as_str();
        let arguments: Vec<String> = match self.state {
            TapState::Probing | TapState::Rechecking => vec![
                "link".to_owned(),
                "show".to_owned(),
                "dev".to_owned(),
                tap.to_owned(),
            ],
            TapState::Creating => vec![
                "tuntap".to_owned(),
                "add".to_owned(),
                "mode".to_owned(),
                "tap".to_owned(),
                "name".to_owned(),
                tap.to_owned(),
            ],
            TapState::Attaching { .. } => vec![
                "link".to_owned(),
                "set".to_owned(),
                tap.to_owned(),
                "master".to_owned(),
                bridge.to_owned(),
            ],
            TapState::Activating { .. } => vec![
                "link".to_owned(),
                "set".to_owned(),
                "dev".to_owned(),
                tap.to_owned(),
                "up".to_owned(),
            ],
            TapState::RollingBack { .. } => vec!["link".to_owned(), "del".to_owned(), tap.to_owned()],
            TapState::Ready => Vec::new(),
            TapState::Failed { .. } => Vec::new(),
        };
        assert(texts(arguments@) =~= ip_arguments(self.stage(), self.tap(), self.bridge()));
        arguments
    }

    /// Takes the outcome of the last command.
    pub fn advance(&mut self, report: TapReport)
        ensures
            final(self).stage() == tap_next(old(self).stage(), report),
            final(self).tap() == old(self).tap(),
            final(self).bridge() == old(self).bridge(),
            old(self).well_formed() ==> final(self).well_formed(),
    {
        self.state = match self.state {
            TapState::Probing => match report {
                TapReport::Present => TapState::Attaching { created_here: false },
                TapReport::Absent => TapState::Creating,
                _ => TapState::Failed { failure: TapFailure::Probe },
            },
            TapState::Creating => match report {
                TapReport::Failed => TapState::Rechecking,
                _ => TapState::Attaching { created_here: true },
            },
            TapState::Rechecking => match report {
                TapReport::Present => TapState::Attaching { created_here: false },
                TapReport::Absent => TapState::Failed { failure: TapFailure::Create },
                _ => TapState::Failed { failure: TapFailure::Recheck },
            },
            TapState::Attaching { created_here } => match report {
                TapReport::Failed => undo(created_here, TapFailure::Attach),
                _ => TapState::Activating { created_here },
            },
            TapState::Activating { created_here } => match report {
                TapReport::Failed => undo(created_here, TapFailure::Activate),
                _ => TapState::Ready,
            },
            TapState::RollingBack { failure } => TapState::Failed { failure },
            other => other,
        };
    }
}

fn undo(created_here: bool, failure: TapFailure) -> (state: TapState)
    ensures
        state == undone(created_here, failure),
{
    if created_here {
        TapState::RollingBack { failure }
    } else {
        TapState::Failed { failure }
    }
}

/// Starts setting up a host TAP interface for a VM on `bridge_name`.
///
/// The bridge name is checked before any command can be run. The setup is
/// idempotent and transactional: see [`tap_next`].
pub fn setup_tap_interface(vm_name: &str, bridge_name: &str) -> (setup: Result<TapSetup, NetworkError>)
    ensures
        setup is Ok <==> valid_ifname(bridge_name@),
        setup is Err ==> setup->Err_0 == NetworkError::UnsafeBridgeName,
        setup is Ok ==> {
            &&& setup->Ok_0.well_formed()
            &&& setup->Ok_0.tap() == tap_name_of(vm_name@)
            &&& setup->Ok_0.bridge() == bridge_name@
            &&& setup->Ok_0.stage() == TapState::Probing
        },
{
    if !is_valid_ifname(bridge_name) {
        return Err(NetworkError::UnsafeBridgeName);
    }
    Ok(
        TapSetup {
            tap_name: derive_tap_name(vm_name),
            bridge_name: bridge_name.to_owned(),
            state: TapState::Probing,
        },
    )
}

/// An interface that another actor made, whether it existed before or was made while
/// this setup tried to create it, is never created again nor removed.
pub proof fn law_existing_tap_is_reused(found: TapState, report: TapReport, later: TapReport)
    requires
        found is Probing || found is Rechecking,
    ensures
        ({
            let attaching = tap_next(found, TapReport::Present);
            let activating = tap_next(attaching, report);
            let ended = tap_next(activating, later);
            &&& attaching == (TapState::Attaching { created_here: false })
            &&& activating !is Creating && activating !is RollingBack
            &&& ended !is Creating && ended !is RollingBack
        }),
{
}

/// An interface that was created here is removed before a failure to attach it or
/// to bring it up is reported, and that failure is the one reported.
pub proof fn law_created_tap_is_rolled_back(report: TapReport)
    ensures
        tap_next(
            tap_next(TapState::Attaching { created_here: true }, TapReport::Failed),
            report,
        ) == (TapState::Failed { failure: TapFailure::Attach }),
        tap_next(TapState::Attaching { created_here: true }, TapReport::Failed) is RollingBack,
        tap_next(
            tap_next(TapState::Activating { created_here: true }, TapReport::Failed),
            report,
        ) == (TapState::Failed { failure: TapFailure::Activate }),
        tap_next(TapState::Activating { created_here: true }, TapReport::Failed) is RollingBack,
{
}

/// Only a creation that went through here leads to a removal.
pub proof fn law_only_a_created_tap_is_removed(state: TapState, report: TapReport)
    ensures
        tap_next(state, report) is RollingBack ==> state == (TapState::Attaching { created_here: true })
            || state == (TapState::Activating { created_here: true }),
        tap_next(state, report) == (TapState::Attaching { created_here: true }) ==> state == TapState::Creating
            && report !is Failed,
        tap_next(state, report) == (TapState::Activating { created_here: true }) ==> state == (
        TapState::Attaching { created_here: true }),
{
}

/// How many commands a setup can still run.
pub open spec fn commands_left(state: TapState) -> nat {
    match state {
        TapState::Probing => 6,
        TapState::Creating => 5,
        TapState::Rechecking => 4,
        TapState::Attaching { .. } => 3,
        TapState::Activating { .. } => 2,
        TapState::RollingBack { .. } => 1,
        TapState::Ready => 0,
        TapState::Failed { .. } => 0,
    }
}

/// The setup ends: every report brings it closer to its end.
pub proof fn law_setup_ends(state: TapState, report: TapReport)
    requires
        state !is Ready,
        state !is Failed,
    ensures
        commands_left(tap_next(state, report)) < commands_left(state),
{
}

/// An interface is ready only once the command that brings it up went through, and that
/// command comes only once the one that attaches it went through.
pub proof fn law_ready_only_after_activation(state: TapState, report: TapReport)
    ensures
        tap_next(state, report) is Ready && state !is Ready ==> state is Activating && report !is Failed,
        tap_next(state, report) is Activating ==> state is Attaching && report !is Failed,
        tap_next(state, report) is Attaching ==> (state is Probing && report is Present) || (
        state is Rechecking && report is Present) || (state is Creating && report !is Failed),
{
}

/// The state after these reports.
pub open spec fn tap_after(state: TapState, reports: Seq<TapReport>) -> TapState
    decreases reports.len(),
{
    if reports.len() == 0 {
        state
    } else {
        tap_next(tap_after(state, reports.drop_last()), reports.last())
    }
}

proof fn lemma_ready_was_active(reports: Seq<TapReport>)
    requires
        tap_after(TapState::Probing, reports) is Ready,
    ensures
        exists|j: int|
            0 <= j < reports.len() && (#[trigger] tap_after(TapState::Probing, reports.take(j))) is Activating
                && reports[j] !is Failed,
    decreases reports.len(),
{
    let before = reports.drop_last();
    let n = reports.len() - 1;
    assert(reports.take(n) =~= before);
    if tap_after(TapState::Probing, before) is Ready {
        lemma_ready_was_active(before);
        let j = choose|j: int|
            0 <= j < before.len() && (#[trigger] tap_after(TapState::Probing, before.take(j))) is Activating
                && before[j] !is Failed;
        assert(reports.take(j) =~= before.take(j));
        assert(tap_after(TapState::Probing, reports.take(j)) is Activating);
    } else {
        assert(tap_after(TapState::Probing, reports.take(n)) is Activating);
    }
}

/// Report `j` says that the command that brings the interface up went through, and the
/// one before it that the command that attaches it did.
pub open spec fn attached_and_activated(reports: Seq<TapReport>, j: int) -> bool {
    &&& 1 <= j < reports.len()
    &&& tap_after(TapState::Probing, reports.take(j - 1)) is Attaching
    &&& reports[j - 1] !is Failed
    &&& tap_after(TapState::Probing, reports.take(j)) is Activating
    &&& reports[j] !is Failed
}

/// Every setup that ends ready ran, one right after the other, the command that attaches
/// the interface and the one that brings it up, and both went through.
pub proof fn law_ready_setup_was_attached_and_activated(reports: Seq<TapReport>)
    requires
        tap_after(TapState::Probing, reports) is Ready,
    ensures
        exists|j: int| attached_and_activated(reports, j),
{
    lemma_ready_was_active(reports);
    let j = choose|j: int|
        0 <= j < reports.len() && (#[trigger] tap_after(TapState::Probing, reports.take(j))) is Activating
            && reports[j] !is Failed;
    let part = reports.take(j);
    assert(tap_after(TapState::Probing, part) is Activating);
    assert(part.len() > 0);
    assert(part.drop_last() =~= reports.take(j - 1));
    assert(part.last() == reports[j - 1]);
    law_ready_only_after_activation(tap_after(TapState::Probing, part.drop_last()), part.last());
    assert(attached_and_activated(reports, j));
}

/// Commands that go through lead to a ready interface: three where it exists, four where
/// it has to be created.
pub proof fn law_setup_that_goes_through_is_ready()
    ensures
        tap_after(TapState::Probing, seq![TapReport::Present, TapReport::Done, TapReport::Done]) is Ready,
        tap_after(
            TapState::Probing,
            seq![TapReport::Absent, TapReport::Done, TapReport::Done, TapReport::Done],
        ) is Ready,
{
    reveal_with_fuel(tap_after, 5);
    let three = seq![TapReport::Present, TapReport::Done, TapReport::Done];
    assert(three.drop_last() =~= seq![TapReport::Present, TapReport::Done]);
    assert(three.drop_last().drop_last() =~= seq![TapReport::Present]);
    assert(three.drop_last().drop_last().drop_last() =~= seq![]);
    let four = seq![TapReport::Absent, TapReport::Done, TapReport::Done, TapReport::Done];
    assert(four.drop_last() =~= seq![TapReport::Absent, TapReport::Done, TapReport::Done]);
    assert(four.drop_last().drop_last() =~= seq![TapReport::Absent, TapReport::Done]);
    assert(four.drop_last().drop_last().drop_last() =~= seq![TapReport::Absent]);
    assert(four.drop_last().drop_last().drop_last().drop_last() =~= seq![]);
}

/// A step whose command does not go through is the one that is reported: at once, or
/// after the interface was removed again. A creation that fails is looked into first.
pub proof fn law_failed_step_is_reported(created_here: bool)
    ensures
        tap_next(TapState::Probing, TapReport::Failed) == (TapState::Failed { failure: TapFailure::Probe }),
        tap_next(TapState::Probing, TapReport::Absent) is Creating,
        tap_next(TapState::Creating, TapReport::Failed) is Rechecking,
        tap_next(TapState::Rechecking, TapReport::Absent) == (TapState::Failed { failure: TapFailure::Create }),
        tap_next(TapState::Rechecking, TapReport::Failed) == (TapState::Failed { failure: TapFailure::Recheck }),
        tap_next(TapState::Attaching { created_here }, TapReport::Failed) == (if created_here {
            TapState::RollingBack { failure: TapFailure::Attach }
        } else {
            TapState::Failed { failure: TapFailure::Attach }
        }),
        tap_next(TapState::Activating { created_here }, TapReport::Failed) == (if created_here {
            TapState::RollingBack { failure: TapFailure::Activate }
        } else {
            TapState::Failed { failure: TapFailure::Activate }
        }),
{
}

/// A setup that has ended stays as it ended and runs no more commands; until then every
/// state has a command, and each names the interface.
pub proof fn law_commands_name_the_interface(
    state: TapState,
    report: TapReport,
    tap: Seq<char>,
    bridge: Seq<char>,
)
    ensures
        state is Ready || state is Failed ==> tap_next(state, report) == state && ip_arguments(
            state,
            tap,
            bridge,
        ).len() == 0,
        state !is Ready && state !is Failed ==> ip_arguments(state, tap, bridge).contains(tap),
        state is Probing || state is Rechecking ==> ip_arguments(state, tap, bridge) == seq![
            "link"@,
            "show"@,
            "dev"@,
            tap,
        ],
        state is Creating ==> ip_arguments(state, tap, bridge) == seq![
            "tuntap"@,
            "add"@,
            "mode"@,
            "tap"@,
            "name"@,
            tap,
        ],
        state is Attaching ==> ip_arguments(state, tap, bridge) == seq!["link"@, "set"@, tap, "master"@, bridge],
        state is Activating ==> ip_arguments(state, tap, bridge) == seq!["link"@, "set"@, "dev"@, tap, "up"@],
        state is RollingBack ==> ip_arguments(state, tap, bridge) == seq!["link"@, "del"@, tap],
{
    let arguments = ip_arguments(state, tap, bridge);
    if state is Probing || state is Rechecking || state is Activating {
        assert(arguments[3] == tap);
    } else if state is Creating {
        assert(arguments[5] == tap);
    } else if state is Attaching || state is RollingBack {
        assert(arguments[2] == tap);
    }
}

/// The hash starts at the offset basis of 64-bit FNV-1a, and each byte is mixed in by
/// exclusive or and then multiplied by its prime, modulo 2^64.
pub proof fn law_hash_is_fnv1a(data: Seq<u8>, byte: u8)
    ensures
        fnv1a(Seq::<u8>::empty()) == 0xcbf2_9ce4_8422_2325,
        fnv1a(data.push(byte)) == (fnv1a(data) ^ (byte as u64)) * 0x100_0000_01b3
            % 0x1_0000_0000_0000_0000,
{
    assert(data.push(byte).drop_last() =~= data);
}

/// What a lower-case hex digit stands for.
pub open spec fn hex_value(digit: u8) -> int {
    if '0' as u8 <= digit <= '9' as u8 {
        digit - '0' as u8
    } else {
        digit - 'a' as u8 + 10
    }
}

/// What hex digit `i` of a TAP name stands for.
pub open spec fn tap_digit(name: Seq<u8>, i: int) -> int {
    hex_value(name[4 + i])
}

/// A TAP name is `tap-` and eleven hex digits that spell the low 44 bits of the hash, the
/// most significant first: two hashes that differ there have different names.
pub proof fn law_tap_name_spells_the_hash(hash: u64)
    ensures
        ({
            let name = tap_bytes(hash);
            let digit = |i: int| tap_digit(name, i);
            &&& name.len() == 15
            &&& forall|i: int| 0 <= i < 4 ==> #[trigger] name[i] as char == "tap-"@[i]
            &&& forall|i: int|
                4 <= i < 15 ==> '0' as u8 <= #[trigger] name[i] <= '9' as u8 || 'a' as u8 <= name[i] <= 'f' as u8
            &&& digit(0) * 0x100_0000_0000 + digit(1) * 0x10_0000_0000 + digit(2) * 0x1_0000_0000 + digit(3)
                * 0x1000_0000 + digit(4) * 0x100_0000 + digit(5) * 0x10_0000 + digit(6) * 0x1_0000 + digit(7)
                * 0x1000 + digit(8) * 0x100 + digit(9) * 0x10 + digit(10) == hash % 0x1000_0000_0000
        }),
{
    let name = tap_bytes(hash);
    reveal_strlit("tap-");
    assert forall|i: int| 0 <= i < 11 implies #[trigger] tap_digit(name, i) == tap_nibble(hash, i)
        && tap_nibble(hash, i) < 16 && ('0' as u8 <= name[4 + i] <= '9' as u8 || 'a' as u8 <= name[4 + i]
        <= 'f' as u8) by {
        let shift = (4 * (10 - i)) as u64;
        assert((hash >> shift) & 0xf < 16) by (bit_vector);
        assert(name[4 + i] == hex_char(tap_nibble(hash, i) as int));
    }
    assert forall|i: int| 4 <= i < 15 implies '0' as u8 <= #[trigger] name[i] <= '9' as u8 || 'a' as u8 <= name[i]
        <= 'f' as u8 by {
        assert(tap_digit(name, i - 4) == tap_nibble(hash, i - 4));
    }
    assert(((hash >> 40u64) & 0xf) * 0x100_0000_0000 + ((hash >> 36u64) & 0xf) * 0x10_0000_0000 + ((hash
        >> 32u64) & 0xf) * 0x1_0000_0000 + ((hash >> 28u64) & 0xf) * 0x1000_0000 + ((hash >> 24u64) & 0xf)
        * 0x100_0000 + ((hash >> 20u64) & 0xf) * 0x10_0000 + ((hash >> 16u64) & 0xf) * 0x1_0000 + ((hash
        >> 12u64) & 0xf) * 0x1000 + ((hash >> 8u64) & 0xf) * 0x100 + ((hash >> 4u64) & 0xf) * 0x10 + ((hash
        >> 0u64) & 0xf) == hash % 0x1000_0000_0000) by (bit_vector);
    assert(tap_digit(name, 0) == (hash >> 40u64) & 0xf);
    assert(tap_digit(name, 1) == (hash >> 36u64) & 0xf);
    assert(tap_digit(name, 2) == (hash >> 32u64) & 0xf);
    assert(tap_digit(name, 3) == (hash >> 28u64) & 0xf);
    assert(tap_digit(name, 4) == (hash >> 24u64) & 0xf);
    assert(tap_digit(name, 5) == (hash >> 20u64) & 0xf);
    assert(tap_digit(name, 6) == (hash >> 16u64) & 0xf);
    assert(tap_digit(name, 7) == (hash >> 12u64) & 0xf);
    assert(tap_digit(name, 8) == (hash >> 8u64) & 0xf);
    assert(tap_digit(name, 9) == (hash >> 4u64) & 0xf);
    assert(tap_digit(name, 10) == (hash >> 0u64) & 0xf);
}

/// A TAP name depends on the UTF-8 bytes of the VM's name alone, through their hash.
pub proof fn law_tap_name_comes_from_the_vm_name(vm_name: Seq<char>, i: int)
    requires
        0 <= i < 15,
    ensures
        tap_name_of(vm_name).len() == 15,
        tap_name_of(vm_name)[i] == tap_bytes(fnv1a(vstd::utf8::encode_utf8(vm_name)))[i] as char,
{
}

/// An interface name is 1 to 15 letters, digits, underscores, hyphens and dots, and it
/// starts with a letter or a digit: every such name is accepted, and no other.
pub proof fn law_interface_names(name: Seq<char>)
    ensures
        valid_ifname(name) <==> 1 <= name.len() <= 15 && name[0] != '_' && name[0] != '-' && name[0] != '.'
            && forall|i: int|
            0 <= i < name.len() ==> ({
                let c = #[trigger] name[i];
                'a' <= c <= 'z' || 'A' <= c <= 'Z' || '0' <= c <= '9' || c == '_' || c == '-' || c == '.'
            }),
{
}

} // verus!
