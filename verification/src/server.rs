//! HTTP control plane: what each request is answered, and which VM workers run.
//!
//! The caller speaks HTTP, asks the agent, loads and saves the ledger, and starts and
//! signals worker processes; this module decides. [`screen`] comes first for every
//! request: only `/healthz` is answered without a token. A VM name passes
//! [`is_valid_vm_name`] before it becomes an argument of a worker or the name of its
//! log file. [`Supervisor`] keeps the workers that run, at most one for each name.

use vstd::hash_map::StringHashMap;
use vstd::prelude::*;
use vstd::string::StringExecFns;

use crate::agent::{plan_json, AgentReply};
use crate::config::{disk_path_of, resolve_disk_path};
use crate::json::{
    field, law_field_is_the_first_of_its_name, list, models, object1, object2, object3, render_in_order,
    render_json, rendered, text, text_in_order, Json, JsonModel,
};
use crate::registry::{others, record_model, record_named, Ledger, VmRecord};
use crate::text::{
    borrow_text, decimal, decimal_digits, has_prefix, keep_unless_blank, lemma_decimal_round_trip, slice_text_of,
    text_of, texts, trim, trimmed, unless_blank,
};
use crate::vmm::{lemma_plain_memory, parsed_memory, spec_error, validate_spec};

verus! {

/// Environment variable carrying the bearer token the server requires.
pub const API_TOKEN_ENV_VAR: &'static str = "AI_VMM_API_TOKEN";

/// The request was answered.
pub const STATUS_OK: u16 = 200;

/// The request was accepted and is being worked on.
pub const STATUS_ACCEPTED: u16 = 202;

/// The request was carried out; there is nothing to say.
pub const STATUS_NO_CONTENT: u16 = 204;

/// The request is malformed.
pub const STATUS_BAD_REQUEST: u16 = 400;

/// The request carries no valid token.
pub const STATUS_UNAUTHORIZED: u16 = 401;

/// The named VM is not there.
pub const STATUS_NOT_FOUND: u16 = 404;

/// The named VM is already there.
pub const STATUS_CONFLICT: u16 = 409;

/// Something failed on this side.
pub const STATUS_INTERNAL_ERROR: u16 = 500;

/// The AI provider failed.
pub const STATUS_BAD_GATEWAY: u16 = 502;

/// Calls `str::strip_prefix`: what follows `prefix`, if the text begins with it.
#[verifier::external_body]
fn strip_prefix<'a>(s: &'a str, prefix: &str) -> (rest: Option<&'a str>)
    ensures
        match rest {
            Some(tail) => s@ == prefix@ + tail@,
            None => !has_prefix(s@, prefix@),
        },
{
    s.strip_prefix(prefix)
}

/// The token in an `Authorization: Bearer <token>` value.
pub open spec fn bearer_token(header_value: Seq<char>) -> Option<Seq<char>> {
    if has_prefix(header_value, "Bearer "@) {
        Some(header_value.skip("Bearer "@.len() as int))
    } else {
        None
    }
}

/// Extracts the token from an HTTP `Authorization: Bearer <token>` value.
///
/// The prefix is exact and case-sensitive: `Basic`, lower-case `bearer` and a bare
/// token are all rejected.
pub fn extract_bearer_token(header_value: &str) -> (token: Option<&str>)
    ensures
        slice_text_of(token) == bearer_token(header_value@),
{
    let rest = strip_prefix(header_value, "Bearer ");
    if let Some(tail) = rest {
        assert(header_value@.take("Bearer "@.len() as int) =~= "Bearer "@);
        assert(header_value@.skip("Bearer "@.len() as int) =~= tail@);
    }
    rest
}

/// Byte-string equality. Every byte of inputs of equal length is compared, wherever
/// the first mismatch is.
pub fn constant_time_eq(a: &[u8], b: &[u8]) -> (equal: bool)
    ensures
        equal == (a@ == b@),
{
    if a.len() != b.len() {
        return false;
    }
    let mut diff: u8 = 0;
    let mut i: usize = 0;
    while i < a.len()
        invariant
            i <= a@.len(),
            a@.len() == b@.len(),
            diff == 0 <==> (forall|k: int| 0 <= k < i ==> (#[trigger] a@[k]) == b@[k]),
        decreases a@.len() - i,
    {
        let x: u8 = a[i];
        let y: u8 = b[i];
        let ghost before = diff;
        assert((before | (x ^ y)) == 0 <==> before == 0 && x == y) by (bit_vector);
        diff = diff | (x ^ y);
        assert(a@[i as int] == x && b@[i as int] == y);
        i = i + 1;
    }
    if diff == 0 {
        assert(a@ =~= b@);
    }
    diff == 0
}

/// A request that presents a token is authorized: it is the expected one, which is
/// not empty.
pub open spec fn authorized(presented: Option<Seq<char>>, expected: Seq<char>) -> bool {
    expected.len() > 0 && presented == Some(expected)
}

/// Returns whether a request carrying `presented` is authorized against the server's
/// `expected` token. An empty `expected` authorizes nobody.
pub fn request_is_authorized(presented: Option<&str>, expected: &str) -> (authorized_: bool)
    ensures
        authorized_ == authorized(slice_text_of(presented), expected@),
{
    if expected.is_empty() {
        return false;
    }
    match presented {
        Some(token) => {
            proof {
                vstd::utf8::encode_utf8_decode_utf8(token@);
                vstd::utf8::encode_utf8_decode_utf8(expected@);
            }
            constant_time_eq(token.as_bytes(), expected.as_bytes())
        },
        None => false,
    }
}

/// Largest VM name the supervisor accepts.
pub const MAX_VM_NAME_LEN: usize = 64;

/// An ASCII letter or digit.
pub open spec fn is_name_start(c: char) -> bool {
    'a' <= c <= 'z' || 'A' <= c <= 'Z' || '0' <= c <= '9'
}

/// A character that may stand anywhere in a VM name.
pub open spec fn is_name_char(c: char) -> bool {
    is_name_start(c) || c == '_' || c == '-' || c == '.'
}

/// A safe VM name: 1 to 64 characters from the allowlist, the first of them a letter
/// or a digit.
pub open spec fn valid_vm_name(name: Seq<char>) -> bool {
    &&& 1 <= name.len() <= MAX_VM_NAME_LEN
    &&& is_name_start(name[0])
    &&& forall|i: int| 0 <= i < name.len() ==> is_name_char(#[trigger] name[i])
}

/// Whether `byte` is allowed anywhere in a VM name: ASCII letters and digits, `_`, `-`
/// and `.`.
pub fn is_allowed_vm_name_byte(byte: u8) -> (allowed: bool)
    ensures
        allowed == is_name_char(byte as char),
{
    let c: char = byte as char;
    is_safe_vm_name_first_byte(byte) || c == '_' || c == '-' || c == '.'
}

/// Whether `byte` is allowed as the first byte of a VM name: an ASCII letter or digit.
pub fn is_safe_vm_name_first_byte(byte: u8) -> (safe: bool)
    ensures
        safe == is_name_start(byte as char),
{
    let c: char = byte as char;
    ('a' <= c && c <= 'z') || ('A' <= c && c <= 'Z') || ('0' <= c && c <= '9')
}

/// Whether `name` is a safe VM name.
pub fn is_valid_vm_name(name: &str) -> (valid: bool)
    ensures
        valid == valid_vm_name(name@),
{
    if !name.is_ascii() {
        assert(!valid_vm_name(name@)) by {
            let k = choose|k: int| 0 <= k < name@.len() && !('\0' <= #[trigger] name@[k] <= '\u{7f}');
            assert(!is_name_char(name@[k]));
        }
        return false;
    }
    proof {
        vstd::utf8::is_ascii_chars_encode_utf8(name@);
    }
    let bytes = name.as_bytes();
    assert(bytes@.len() == name@.len());
    assert forall|k: int| 0 <= k < name@.len() implies bytes@[k] as char == #[trigger] name@[k] by {
        assert(name@[k] as u8 == bytes@[k]);
    }
    if bytes.len() == 0 || bytes.len() > MAX_VM_NAME_LEN {
        return false;
    }
    if !is_safe_vm_name_first_byte(bytes[0]) {
        return false;
    }
    let mut i: usize = 0;
    while i < bytes.len()
        invariant
            i <= bytes@.len(),
            bytes@.len() == name@.len(),
            forall|k: int| 0 <= k < name@.len() ==> bytes@[k] as char == #[trigger] name@[k],
            forall|k: int| 0 <= k < i ==> is_name_char(#[trigger] name@[k]),
        decreases bytes@.len() - i,
    {
        if !is_allowed_vm_name_byte(bytes[i]) {
            assert(!is_name_char(name@[i as int]));
            return false;
        }
        i = i + 1;
    }
    true
}

/// A valid VM name is never taken for an option, and never leaves its directory when
/// it names a file: it does not start with `-` or `.`, and holds no path separator and
/// no NUL.
pub proof fn law_vm_name_is_a_plain_word(name: Seq<char>)
    requires
        valid_vm_name(name),
    ensures
        name.len() > 0,
        name[0] != '-',
        name[0] != '.',
        !name.contains('/'),
        !name.contains('\0'),
        !name.contains(' '),
{
    assert(is_name_start(name[0]));
    assert forall|c: char| c == '/' || c == '\0' || c == ' ' implies !name.contains(c) by {
        assert forall|i: int| 0 <= i < name.len() implies name[i] != c by {
            assert(is_name_char(name[i]));
        }
    }
}

/// A request is authorized by the expected token alone: by no other, by none, and by
/// nothing where no token is expected.
pub proof fn law_only_the_expected_token_authorizes(presented: Option<Seq<char>>, expected: Seq<char>)
    ensures
        authorized(presented, expected) ==> presented == Some(expected),
        !authorized(None, expected),
        !authorized(presented, Seq::<char>::empty()),
        expected.len() > 0 ==> authorized(Some(expected), expected),
{
}

/// The request body of `POST /v1/vms`.
#[derive(Debug)]
pub struct ProvisionRequest {
    /// Name for the new VM.
    pub name: String,
    /// Number of virtual cores.
    pub vcpus: u32,
    /// RAM, in mebibytes.
    pub memory_mb: u32,
    /// Root-filesystem disk image; falls back to the configured default.
    pub disk_image_path: Option<String>,
}

/// A request to the control plane.
#[derive(Debug)]
pub enum ApiRequest {
    /// `GET /healthz`.
    Health,
    /// `POST /v1/plan`.
    Plan { intent: String },
    /// `GET /v1/vms`.
    ListVms,
    /// `GET /v1/vms/:name`.
    GetVm { name: String },
    /// `DELETE /v1/vms/:name`.
    DeleteVm { name: String },
    /// `POST /v1/vms`.
    ProvisionVm(ProvisionRequest),
    /// `POST /v1/vms/:name/stop`.
    StopVm { name: String },
}

/// The body of an answer.
#[derive(Debug)]
pub enum Body {
    /// Nothing.
    Empty,
    /// A JSON value, written with the fields of its objects in the order of their names.
    Value(Json),
    /// A JSON value, written with the fields of its objects as they stand.
    Record(Json),
}

/// What the body of an answer is.
pub enum BodyModel {
    Empty,
    Value(JsonModel),
    Record(JsonModel),
}

/// An answer to a request.
#[derive(Debug)]
pub struct Reply {
    /// The HTTP status.
    pub status: u16,
    /// The body.
    pub body: Body,
}

/// What an answer is.
pub struct ReplyModel {
    pub status: u16,
    pub body: BodyModel,
}

impl View for Body {
    type V = BodyModel;

    open spec fn view(&self) -> BodyModel {
        match self {
            Body::Empty => BodyModel::Empty,
            Body::Value(json) => BodyModel::Value(json@),
            Body::Record(json) => BodyModel::Record(json@),
        }
    }
}

impl View for Reply {
    type V = ReplyModel;

    open spec fn view(&self) -> ReplyModel {
        ReplyModel { status: self.status, body: self.body@ }
    }
}

impl BodyModel {
    /// The text that is sent, if there is one: compact JSON.
    pub open spec fn text(self) -> Option<Seq<char>> {
        match self {
            BodyModel::Empty => None,
            BodyModel::Value(model) => Some(rendered(model)),
            BodyModel::Record(model) => Some(text_in_order(model)),
        }
    }
}

impl Body {
    /// Writes the text that is sent, if there is one.
    pub fn text(&self) -> (sent: Option<String>)
        ensures
            text_of(sent) == self@.text(),
    {
        match self {
            Body::Empty => None,
            Body::Value(json) => Some(render_json(json)),
            Body::Record(json) => Some(render_in_order(json)),
        }
    }
}

/// What an optional answer is.
pub open spec fn reply_model(reply: Option<Reply>) -> Option<ReplyModel> {
    match reply {
        Some(made) => Some(made@),
        None => None,
    }
}

/// An answer that reports an error.
pub open spec fn error_reply(status: u16, message: Seq<char>) -> ReplyModel {
    ReplyModel {
        status,
        body: BodyModel::Value(JsonModel::Object(seq![("error"@, JsonModel::Text(message))])),
    }
}

/// Builds a JSON error answer with the given status.
pub fn error_response(status: u16, message: &str) -> (reply: Reply)
    ensures
        reply@ == error_reply(status, message@),
{
    Reply { status, body: Body::Value(object1(field("error", text(message)))) }
}

/// The answer to a request that is not authorized.
pub open spec fn unauthorized_reply() -> ReplyModel {
    error_reply(STATUS_UNAUTHORIZED, "missing or invalid bearer token"@)
}

/// The answer that an `Authorization` value calls for; none if the request may go on.
pub open spec fn auth_rejection(header_value: Option<Seq<char>>, expected: Seq<char>) -> Option<ReplyModel> {
    let presented = match header_value {
        Some(value) => bearer_token(value),
        None => None,
    };
    if authorized(presented, expected) {
        None
    } else {
        Some(unauthorized_reply())
    }
}

/// Checks the `Authorization` header against the server token. Returns the answer to
/// send back when the request is not authorized, or `None` when it may go on.
pub fn check_auth(header_value: Option<&str>, expected: &str) -> (rejection: Option<Reply>)
    ensures
        reply_model(rejection) == auth_rejection(slice_text_of(header_value), expected@),
{
    let presented = match header_value {
        Some(value) => extract_bearer_token(value),
        None => None,
    };
    if request_is_authorized(presented, expected) {
        None
    } else {
        Some(error_response(STATUS_UNAUTHORIZED, "missing or invalid bearer token"))
    }
}

/// The answer of the liveness probe.
pub open spec fn health_reply() -> ReplyModel {
    ReplyModel {
        status: STATUS_OK,
        body: BodyModel::Value(JsonModel::Object(seq![("status"@, JsonModel::Text("ok"@))])),
    }
}

/// `GET /healthz`: the liveness probe.
pub fn healthz() -> (reply: Reply)
    ensures
        reply@ == health_reply(),
{
    Reply { status: STATUS_OK, body: Body::Value(object1(field("status", text("ok")))) }
}

/// What is wrong with a provisioning request, if anything is: its name, or the
/// resources it asks for.
pub open spec fn provision_rejection(name: Seq<char>, vcpus: u32, memory_mb: u32) -> Option<ReplyModel> {
    if !valid_vm_name(name) {
        Some(
            error_reply(
                STATUS_BAD_REQUEST,
                "invalid VM name: 1-64 bytes, starting with a letter or digit, containing only letters, digits, '_', '-' or '.'"@,
            ),
        )
    } else {
        match spec_error(vcpus, memory_mb) {
            Some(error) => Some(error_reply(STATUS_BAD_REQUEST, error.text())),
            None => None,
        }
    }
}

/// What a request is answered at once; none if it goes on. The probe always is, an
/// unauthorized request is refused before anything else is looked at, and then a
/// request that makes no sense.
pub open spec fn screening(
    request: ApiRequest,
    header_value: Option<Seq<char>>,
    expected: Seq<char>,
) -> Option<ReplyModel> {
    if request is Health {
        Some(health_reply())
    } else if auth_rejection(header_value, expected) is Some {
        auth_rejection(header_value, expected)
    } else {
        match request {
            ApiRequest::Plan { intent } => if trimmed(intent@).len() == 0 {
                Some(error_reply(STATUS_BAD_REQUEST, "the 'intent' field must not be empty"@))
            } else {
                None
            },
            ApiRequest::ProvisionVm(wanted) => provision_rejection(
                wanted.name@,
                wanted.vcpus,
                wanted.memory_mb,
            ),
            _ => None,
        }
    }
}

/// Checks the name and the resources of a provisioning request.
fn check_provision(wanted: &ProvisionRequest) -> (rejection: Option<Reply>)
    ensures
        reply_model(rejection) == provision_rejection(wanted.name@, wanted.vcpus, wanted.memory_mb),
{
    if !is_valid_vm_name(wanted.name.as_str()) {
        return Some(
            error_response(
                STATUS_BAD_REQUEST,
                "invalid VM name: 1-64 bytes, starting with a letter or digit, containing only letters, digits, '_', '-' or '.'",
            ),
        );
    }
    match validate_spec(wanted.vcpus, wanted.memory_mb, None, None) {
        Ok(_) => None,
        Err(error) => Some(error_response(STATUS_BAD_REQUEST, error.as_str())),
    }
}

/// Decides whether a request goes on, or what it is answered at once.
pub fn screen(request: &ApiRequest, header_value: Option<&str>, expected: &str) -> (reply: Option<Reply>)
    ensures
        reply_model(reply) == screening(*request, slice_text_of(header_value), expected@),
{
    if let ApiRequest::Health = request {
        return Some(healthz());
    }
    if let Some(rejection) = check_auth(header_value, expected) {
        return Some(rejection);
    }
    match request {
        ApiRequest::Plan { intent } => {
            if trim(intent.as_str()).is_empty() {
                Some(error_response(STATUS_BAD_REQUEST, "the 'intent' field must not be empty"))
            } else {
                None
            }
        },
        ApiRequest::ProvisionVm(wanted) => check_provision(wanted),
        _ => None,
    }
}

/// Without the expected token, every request but the probe is answered that it is not
/// authorized, and nothing else.
pub proof fn law_unauthorized_requests_are_refused(
    request: ApiRequest,
    header_value: Option<Seq<char>>,
    expected: Seq<char>,
)
    requires
        !(request is Health),
        !(header_value matches Some(value) && authorized(bearer_token(value), expected)),
    ensures
        screening(request, header_value, expected) == Some(unauthorized_reply()),
{
}

/// The header that a client sends with the expected token is accepted.
pub proof fn law_expected_token_is_accepted(expected: Seq<char>)
    requires
        expected.len() > 0,
    ensures
        auth_rejection(Some("Bearer "@ + expected), expected) is None,
{
    let value = "Bearer "@ + expected;
    assert(value.take("Bearer "@.len() as int) =~= "Bearer "@);
    assert(value.skip("Bearer "@.len() as int) =~= expected);
}

/// What a planning request is answered, once the agent has.
pub open spec fn plan_answer(outcome: Result<AgentReply, String>) -> ReplyModel {
    match outcome {
        Ok(AgentReply::Plan(plan)) => ReplyModel {
            status: STATUS_OK,
            body: BodyModel::Record(
                JsonModel::Object(
                    seq![("kind"@, JsonModel::Text("plan"@)), ("plan"@, plan_json(plan@))],
                ),
            ),
        },
        Ok(AgentReply::Text(text)) => ReplyModel {
            status: STATUS_OK,
            body: BodyModel::Value(
                JsonModel::Object(
                    seq![
                        ("kind"@, JsonModel::Text("message"@)),
                        ("message"@, JsonModel::Text(trimmed(text@))),
                    ],
                ),
            ),
        },
        Err(reason) => error_reply(STATUS_BAD_GATEWAY, reason@),
    }
}

/// `POST /v1/plan`: the answer to a planning request, once the agent has answered.
pub fn plan(outcome: Result<AgentReply, String>) -> (reply: Reply)
    ensures
        reply@ == plan_answer(outcome),
{
    match outcome {
        Ok(AgentReply::Plan(made)) => {
            let body = object2(field("kind", text("plan")), field("plan", made.to_json()));
            Reply { status: STATUS_OK, body: Body::Record(body) }
        },
        Ok(AgentReply::Text(said)) => {
            let body = object2(
                field("kind", text("message")),
                field("message", text(trim(said.as_str()))),
            );
            Reply { status: STATUS_OK, body: Body::Value(body) }
        },
        Err(reason) => error_response(STATUS_BAD_GATEWAY, reason.as_str()),
    }
}

/// The records of a loaded ledger, or why it could not be loaded.
pub open spec fn loaded_records(ledger: Result<Ledger, String>) -> Result<Seq<VmRecord>, Seq<char>> {
    match ledger {
        Ok(loaded) => Ok(loaded@),
        Err(reason) => Err(reason@),
    }
}

/// The records of a ledger as JSON.
pub open spec fn records_model(records: Seq<VmRecord>) -> JsonModel {
    JsonModel::List(records.map_values(|record: VmRecord| record_model(record)))
}

fn records_json(records: &[VmRecord]) -> (json: Json)
    ensures
        json@ == records_model(records@),
{
    let mut items: Vec<Json> = Vec::new();
    let mut i: usize = 0;
    while i < records.len()
        invariant
            i <= records@.len(),
            items@.len() == i,
            forall|k: int| 0 <= k < i ==> (#[trigger] items@[k])@ == record_model(records@[k]),
        decreases records@.len() - i,
    {
        items.push(records[i].to_json());
        i = i + 1;
    }
    assert(models(items@) =~= records@.map_values(|record: VmRecord| record_model(record)));
    list(items)
}

/// What `GET /v1/vms` is answered.
pub open spec fn list_answer(records: Result<Seq<VmRecord>, Seq<char>>) -> ReplyModel {
    match records {
        Ok(all) => ReplyModel {
            status: STATUS_OK,
            body: BodyModel::Record(JsonModel::Object(seq![("vms"@, records_model(all))])),
        },
        Err(reason) => error_reply(STATUS_INTERNAL_ERROR, reason),
    }
}

/// `GET /v1/vms`: lists every VM recorded in the ledger.
pub fn list_vms(ledger: &Result<Ledger, String>) -> (reply: Reply)
    ensures
        reply@ == list_answer(loaded_records(*ledger)),
{
    match ledger {
        Ok(loaded) => Reply {
            status: STATUS_OK,
            body: Body::Record(object1(field("vms", records_json(loaded.records())))),
        },
        Err(reason) => error_response(STATUS_INTERNAL_ERROR, reason.as_str()),
    }
}

/// The answer that no VM has a name.
pub open spec fn unknown_vm_reply(name: Seq<char>) -> ReplyModel {
    error_reply(STATUS_NOT_FOUND, "no VM named '"@ + name + "'"@)
}

fn unknown_vm(name: &str) -> (reply: Reply)
    ensures
        reply@ == unknown_vm_reply(name@),
{
    let mut message = String::from_str("no VM named '");
    message.append(name);
    message.append("'");
    error_response(STATUS_NOT_FOUND, message.as_str())
}

/// What `GET /v1/vms/:name` is answered.
pub open spec fn get_answer(records: Result<Seq<VmRecord>, Seq<char>>, name: Seq<char>) -> ReplyModel {
    match records {
        Ok(all) => match record_named(all, name) {
            Some(record) => ReplyModel { status: STATUS_OK, body: BodyModel::Record(record_model(record)) },
            None => unknown_vm_reply(name),
        },
        Err(reason) => error_reply(STATUS_INTERNAL_ERROR, reason),
    }
}

/// `GET /v1/vms/:name`: the full recorded plan of one VM.
pub fn get_vm(ledger: &Result<Ledger, String>, name: &str) -> (reply: Reply)
    ensures
        reply@ == get_answer(loaded_records(*ledger), name@),
{
    match ledger {
        Ok(loaded) => match loaded.get(name) {
            Some(record) => Reply { status: STATUS_OK, body: Body::Record(record.to_json()) },
            None => unknown_vm(name),
        },
        Err(reason) => error_response(STATUS_INTERNAL_ERROR, reason.as_str()),
    }
}

/// What becomes of `DELETE /v1/vms/:name`.
#[derive(Debug)]
pub enum Deletion {
    /// It is answered at once.
    Reply(Reply),
    /// The ledger without the VM is to be saved; [`deleted`] then answers.
    Save(Ledger),
}

/// `DELETE /v1/vms/:name`: removes a VM from the ledger, or says why it cannot.
pub fn delete_vm(ledger: Result<Ledger, String>, name: &str) -> (deletion: Deletion)
    ensures
        match deletion {
            Deletion::Reply(reply) => match loaded_records(ledger) {
                Ok(records) => record_named(records, name@) is None && reply@ == unknown_vm_reply(name@),
                Err(reason) => reply@ == error_reply(STATUS_INTERNAL_ERROR, reason),
            },
            Deletion::Save(changed) => loaded_records(ledger) matches Ok(records) && record_named(
                records,
                name@,
            ) is Some && changed@ == others(records, name@),
        },
{
    match ledger {
        Err(reason) => Deletion::Reply(error_response(STATUS_INTERNAL_ERROR, reason.as_str())),
        Ok(loaded) => {
            let mut changed = loaded;
            if changed.forget(name) {
                Deletion::Save(changed)
            } else {
                Deletion::Reply(unknown_vm(name))
            }
        },
    }
}

/// What a deletion is answered, once the ledger has been saved or not.
pub open spec fn deletion_answer(saved: Result<(), Seq<char>>) -> ReplyModel {
    match saved {
        Ok(_) => ReplyModel { status: STATUS_NO_CONTENT, body: BodyModel::Empty },
        Err(reason) => error_reply(STATUS_INTERNAL_ERROR, reason),
    }
}

/// The answer to a deletion, once the ledger has been saved or not.
pub fn deleted(saved: Result<(), String>) -> (reply: Reply)
    ensures
        reply@ == deletion_answer(
            (match saved {
                Ok(_) => Ok::<(), Seq<char>>(()),
                Err(reason) => Err::<(), Seq<char>>(reason@),
            }),
        ),
{
    match saved {
        Ok(_) => Reply { status: STATUS_NO_CONTENT, body: Body::Empty },
        Err(reason) => error_response(STATUS_INTERNAL_ERROR, reason.as_str()),
    }
}

/// The name of a VM worker's console log file.
pub fn log_file_name(name: &str) -> (file: String)
    ensures
        file@ == name@ + ".log"@,
{
    let mut file = String::from_str(name);
    file.append(".log");
    file
}

/// The arguments that a worker is started with.
pub open spec fn worker_command(
    name: Seq<char>,
    vcpus: u32,
    memory_mb: u32,
    disk: Seq<char>,
) -> Seq<Seq<char>> {
    seq![
        "provision"@,
        "--name"@,
        name,
        "--vcpus"@,
        decimal_digits(vcpus as nat),
        "--memory"@,
        decimal_digits(memory_mb as nat),
        "--disk"@,
        disk,
    ]
}

/// Builds the arguments of the worker that boots a VM.
fn worker_arguments(request: &ProvisionRequest, disk: &str) -> (arguments: Vec<String>)
    ensures
        texts(arguments@) == worker_command(request.name@, request.vcpus, request.memory_mb, disk@),
{
    let arguments: Vec<String> = vec![
        String::from_str("provision"),
        String::from_str("--name"),
        request.name.clone(),
        String::from_str("--vcpus"),
        decimal(request.vcpus as u64),
        String::from_str("--memory"),
        decimal(request.memory_mb as u64),
        String::from_str("--disk"),
        String::from_str(disk),
    ];
    assert(texts(arguments@) =~= worker_command(
        request.name@,
        request.vcpus,
        request.memory_mb,
        disk@,
    ));
    arguments
}

/// A worker reads from its arguments what was asked for: the memory size, a count of
/// mebibytes without a unit, stands for that count, and the vCPU count for itself.
pub proof fn law_worker_gets_what_was_requested(name: Seq<char>, vcpus: u32, memory_mb: u32, disk: Seq<char>)
    ensures
        worker_command(name, vcpus, memory_mb, disk)[2] == name,
        crate::text::parsed_number(worker_command(name, vcpus, memory_mb, disk)[4]) == Some(vcpus as u64),
        parsed_memory(worker_command(name, vcpus, memory_mb, disk)[6]) == Ok::<
            u32,
            crate::vmm::MemorySizeError,
        >(memory_mb),
        worker_command(name, vcpus, memory_mb, disk)[8] == disk,
{
    lemma_decimal_round_trip(vcpus as u64);
    lemma_plain_memory(memory_mb);
}

/// The VM workers that have been started and have not exited, by VM name, with their
/// process ids.
pub struct Supervisor {
    running: StringHashMap<u32>,
}

impl View for Supervisor {
    type V = Map<Seq<char>, u32>;

    closed spec fn view(&self) -> Map<Seq<char>, u32> {
        self.running@
    }
}

/// The answer that a VM runs already.
pub open spec fn conflict_reply(name: Seq<char>) -> ReplyModel {
    error_reply(STATUS_CONFLICT, "a VM named '"@ + name + "' is already running"@)
}

/// What keeps a VM from being started, if anything does: that it runs.
pub open spec fn start_rejection(running: Map<Seq<char>, u32>, name: Seq<char>) -> Option<ReplyModel> {
    if running.contains_key(name) {
        Some(conflict_reply(name))
    } else {
        None
    }
}

/// What a provisioning request is answered once its worker has been started.
pub open spec fn started_reply(name: Seq<char>, log_path: Seq<char>) -> ReplyModel {
    ReplyModel {
        status: STATUS_ACCEPTED,
        body: BodyModel::Value(
            JsonModel::Object(
                seq![
                    ("name"@, JsonModel::Text(name)),
                    ("status"@, JsonModel::Text("provisioning"@)),
                    ("log"@, JsonModel::Text(log_path)),
                ],
            ),
        ),
    }
}

/// How the command that signals a worker went.
#[derive(Debug)]
pub enum SignalReport {
    /// It succeeded.
    Sent,
    /// It ran and failed; this is its error output.
    Refused(String),
    /// It could not be run.
    NotRun(String),
}

/// What a stop request is answered once the worker has been signalled or not.
pub open spec fn stop_answer(name: Seq<char>, report: SignalReport) -> ReplyModel {
    match report {
        SignalReport::Sent => ReplyModel {
            status: STATUS_ACCEPTED,
            body: BodyModel::Value(
                JsonModel::Object(
                    seq![("name"@, JsonModel::Text(name)), ("status"@, JsonModel::Text("stopping"@))],
                ),
            ),
        },
        SignalReport::Refused(stderr) => error_reply(
            STATUS_INTERNAL_ERROR,
            "could not signal the VM worker: "@ + trimmed(stderr@),
        ),
        SignalReport::NotRun(reason) => error_reply(
            STATUS_INTERNAL_ERROR,
            "could not run 'kill': "@ + reason@,
        ),
    }
}

/// The answer that the registry of workers cannot be used any more.
pub open spec fn poisoned_reply() -> ReplyModel {
    error_reply(STATUS_INTERNAL_ERROR, "supervisor registry mutex poisoned"@)
}

fn poisoned() -> (reply: Reply)
    ensures
        reply@ == poisoned_reply(),
{
    error_response(STATUS_INTERNAL_ERROR, "supervisor registry mutex poisoned")
}

impl Supervisor {
    /// No worker runs.
    pub fn new() -> (supervisor: Supervisor)
        ensures
            supervisor@ == Map::<Seq<char>, u32>::empty(),
    {
        Supervisor { running: StringHashMap::new() }
    }

    /// Decides whether a worker may be started for a VM, or what the request is
    /// answered.
    pub fn reserve(&self, name: &str) -> (rejection: Option<Reply>)
        ensures
            reply_model(rejection) == start_rejection(self@, name@),
    {
        if self.running.contains_key(name) {
            let mut message = String::from_str("a VM named '");
            message.append(name);
            message.append("' is already running");
            Some(error_response(STATUS_CONFLICT, message.as_str()))
        } else {
            None
        }
    }

    /// Takes note that a worker has been started as decided, or could not be, and answers
    /// the request. A worker that could not be started leaves no trace.
    pub fn started(&mut self, start: &WorkerStart, spawned: Result<u32, String>) -> (reply: Reply)
        ensures
            match spawned {
                Ok(pid) => final(self)@ == old(self)@.insert(start@.name, pid) && reply@ == started_reply(
                    start@.name,
                    start@.log_path,
                ),
                Err(reason) => final(self)@ == old(self)@ && reply@ == error_reply(
                    STATUS_INTERNAL_ERROR,
                    reason@,
                ),
            },
    {
        match spawned {
            Ok(pid) => {
                self.running.insert(start.name.clone(), pid);
                let body = object3(
                    field("name", text(start.name.as_str())),
                    field("status", text("provisioning")),
                    field("log", text(start.log_path.as_str())),
                );
                Reply { status: STATUS_ACCEPTED, body: Body::Value(body) }
            },
            Err(reason) => error_response(STATUS_INTERNAL_ERROR, reason.as_str()),
        }
    }

    /// Takes note that the worker of a VM has exited.
    pub fn reaped(&mut self, name: &str)
        ensures
            final(self)@ == old(self)@.remove(name@),
    {
        self.running.remove(name);
    }
}

/// The workers that run, if their registry can be used.
pub open spec fn workers(supervisor: Option<&Supervisor>) -> Option<Map<Seq<char>, u32>> {
    match supervisor {
        Some(known) => Some(known@),
        None => None,
    }
}

/// How a worker is to be started. Only [`provision_vm`] makes one.
#[derive(Debug)]
pub struct WorkerStart {
    name: String,
    arguments: Vec<String>,
    log_path: String,
}

/// How a worker is to be started.
pub struct WorkerModel {
    /// The name of its VM.
    pub name: Seq<char>,
    /// The arguments of the program.
    pub arguments: Seq<Seq<char>>,
    /// Where its console goes.
    pub log_path: Seq<char>,
}

impl View for WorkerStart {
    type V = WorkerModel;

    closed spec fn view(&self) -> WorkerModel {
        WorkerModel { name: self.name@, arguments: texts(self.arguments@), log_path: self.log_path@ }
    }
}

impl WorkerStart {
    /// The name of its VM.
    pub fn name(&self) -> (name: &str)
        ensures
            name@ == self@.name,
    {
        self.name.as_str()
    }

    /// The arguments of the program.
    pub fn arguments(&self) -> (arguments: &Vec<String>)
        ensures
            texts(arguments@) == self@.arguments,
    {
        &self.arguments
    }

    /// Where its console goes.
    pub fn log_path(&self) -> (path: &str)
        ensures
            path@ == self@.log_path,
    {
        self.log_path.as_str()
    }
}

/// What becomes of a provisioning request that makes sense: a worker is to be started,
/// or the request is refused. The disk comes first, without which a VM cannot boot,
/// then the log file, then the registry of workers, and last that the VM runs already.
pub open spec fn provision_decision(
    name: Seq<char>,
    vcpus: u32,
    memory_mb: u32,
    disk: Option<Seq<char>>,
    log_path: Result<Seq<char>, Seq<char>>,
    running: Option<Map<Seq<char>, u32>>,
) -> Result<WorkerModel, ReplyModel> {
    match (disk, log_path, running) {
        (None, _, _) => Err(
            error_reply(
                STATUS_BAD_REQUEST,
                "no root-filesystem disk: set disk_image_path, or configure a default"@,
            ),
        ),
        (_, Err(reason), _) => Err(error_reply(STATUS_INTERNAL_ERROR, reason)),
        (_, _, None) => Err(poisoned_reply()),
        (Some(path), Ok(log), Some(known)) => match start_rejection(known, name) {
            Some(reply) => Err(reply),
            None => Ok(
                WorkerModel {
                    name,
                    arguments: worker_command(name, vcpus, memory_mb, path),
                    log_path: log,
                },
            ),
        },
    }
}

/// What becomes of a provisioning request: what [`screening`] says of it, and only if
/// that lets it pass, what [`provision_decision`] does.
pub open spec fn provision_answer(
    request: ProvisionRequest,
    header_value: Option<Seq<char>>,
    expected: Seq<char>,
    disk: Option<Seq<char>>,
    log_path: Result<Seq<char>, Seq<char>>,
    running: Option<Map<Seq<char>, u32>>,
) -> Result<WorkerModel, ReplyModel> {
    match screening(ApiRequest::ProvisionVm(request), header_value, expected) {
        Some(reply) => Err(reply),
        None => provision_decision(
            request.name@,
            request.vcpus,
            request.memory_mb,
            disk,
            log_path,
            running,
        ),
    }
}

/// `POST /v1/vms`: decides how the worker of a requested VM is started, or what the
/// request is answered. `header_value` is the request's `Authorization` and `expected`
/// the server's token; `log_path` is the path of the log file, or why there is none;
/// `supervisor` is `None` if the registry of workers cannot be used. The caller holds
/// the registry from this decision until [`Supervisor::started`].
pub fn provision_vm(
    request: &ProvisionRequest,
    header_value: Option<&str>,
    expected: &str,
    disk_env: Option<String>,
    disk_stored: Option<String>,
    log_path: Result<String, String>,
    supervisor: Option<&Supervisor>,
) -> (start: Result<WorkerStart, Reply>)
    ensures
        (match start {
            Ok(made) => Ok::<WorkerModel, ReplyModel>(made@),
            Err(reply) => Err::<WorkerModel, ReplyModel>(reply@),
        }) == provision_answer(
            *request,
            slice_text_of(header_value),
            expected@,
            disk_path_of(text_of(request.disk_image_path), text_of(disk_env), text_of(disk_stored)),
            (match log_path {
                Ok(path) => Ok::<Seq<char>, Seq<char>>(path@),
                Err(reason) => Err::<Seq<char>, Seq<char>>(reason@),
            }),
            workers(supervisor),
        ),
{
    if let Some(rejection) = check_auth(header_value, expected) {
        return Err(rejection);
    }
    if let Some(rejection) = check_provision(request) {
        return Err(rejection);
    }
    let disk = match resolve_disk_path(borrow_text(&request.disk_image_path), disk_env, disk_stored) {
        Some(disk) => disk,
        None => return Err(
            error_response(
                STATUS_BAD_REQUEST,
                "no root-filesystem disk: set disk_image_path, or configure a default",
            ),
        ),
    };
    let log_path = match log_path {
        Ok(path) => path,
        Err(reason) => return Err(error_response(STATUS_INTERNAL_ERROR, reason.as_str())),
    };
    let known = match supervisor {
        Some(known) => known,
        None => return Err(poisoned()),
    };
    if let Some(reply) = known.reserve(request.name.as_str()) {
        return Err(reply);
    }
    Ok(
        WorkerStart {
            name: request.name.clone(),
            arguments: worker_arguments(request, disk.as_str()),
            log_path,
        },
    )
}

/// The answer that no VM of a name runs.
pub open spec fn not_running_reply(name: Seq<char>) -> ReplyModel {
    error_reply(STATUS_NOT_FOUND, "no running VM named '"@ + name + "'"@)
}

/// Which process is to be signalled in order to stop a VM, or what the request is
/// answered: first that it is not authorized.
pub open spec fn stop_decision(
    name: Seq<char>,
    header_value: Option<Seq<char>>,
    expected: Seq<char>,
    running: Option<Map<Seq<char>, u32>>,
) -> Result<u32, ReplyModel> {
    match (auth_rejection(header_value, expected), running) {
        (Some(reply), _) => Err(reply),
        (None, None) => Err(poisoned_reply()),
        (None, Some(known)) => if known.contains_key(name) {
            Ok(known[name])
        } else {
            Err(not_running_reply(name))
        },
    }
}

/// Decides which process is signalled in order to stop a VM. `header_value` is the
/// request's `Authorization` and `expected` the server's token; `supervisor` is `None` if
/// the registry of workers cannot be used.
pub fn stop_target(
    name: &str,
    header_value: Option<&str>,
    expected: &str,
    supervisor: Option<&Supervisor>,
) -> (target: Result<u32, Reply>)
    ensures
        (match target {
            Ok(pid) => Ok::<u32, ReplyModel>(pid),
            Err(reply) => Err::<u32, ReplyModel>(reply@),
        }) == stop_decision(name@, slice_text_of(header_value), expected@, workers(supervisor)),
{
    if let Some(rejection) = check_auth(header_value, expected) {
        return Err(rejection);
    }
    let known = match supervisor {
        Some(known) => known,
        None => return Err(poisoned()),
    };
    match known.running.get(name) {
        Some(pid) => Ok(*pid),
        None => {
            let mut message = String::from_str("no running VM named '");
            message.append(name);
            message.append("'");
            Err(error_response(STATUS_NOT_FOUND, message.as_str()))
        },
    }
}

/// The arguments of `kill` that interrupt a worker.
pub fn interrupt_arguments(pid: u32) -> (arguments: Vec<String>)
    ensures
        texts(arguments@) == seq!["-INT"@, decimal_digits(pid as nat)],
{
    let arguments: Vec<String> = vec![String::from_str("-INT"), decimal(pid as u64)];
    assert(texts(arguments@) =~= seq!["-INT"@, decimal_digits(pid as nat)]);
    arguments
}

/// `POST /v1/vms/:name/stop`: the answer, once the worker has been signalled or not.
pub fn stop_vm(name: &str, report: SignalReport) -> (reply: Reply)
    ensures
        reply@ == stop_answer(name@, report),
{
    match report {
        SignalReport::Sent => {
            let body = object2(field("name", text(name)), field("status", text("stopping")));
            Reply { status: STATUS_ACCEPTED, body: Body::Value(body) }
        },
        SignalReport::Refused(stderr) => {
            let mut message = String::from_str("could not signal the VM worker: ");
            message.append(trim(stderr.as_str()));
            error_response(STATUS_INTERNAL_ERROR, message.as_str())
        },
        SignalReport::NotRun(reason) => {
            let mut message = String::from_str("could not run 'kill': ");
            message.append(reason.as_str());
            error_response(STATUS_INTERNAL_ERROR, message.as_str())
        },
    }
}

/// A worker is started only for a request that [`screen`] lets pass: one that carries the
/// server's token, and asks for a valid name and valid resources. It gets that name, and
/// no worker of that name runs.
pub proof fn law_workers_are_started_for_screened_requests(
    request: ProvisionRequest,
    header_value: Option<Seq<char>>,
    expected: Seq<char>,
    disk: Option<Seq<char>>,
    log_path: Result<Seq<char>, Seq<char>>,
    running: Option<Map<Seq<char>, u32>>,
)
    ensures
        provision_answer(request, header_value, expected, disk, log_path, running) matches Ok(start) ==> {
            &&& screening(ApiRequest::ProvisionVm(request), header_value, expected) is None
            &&& header_value matches Some(value) && authorized(bearer_token(value), expected)
            &&& valid_vm_name(request.name@)
            &&& spec_error(request.vcpus, request.memory_mb) is None
            &&& start.name == request.name@
            &&& start.arguments[2] == request.name@
            &&& running matches Some(known) && !known.contains_key(request.name@)
        },
{
}

/// A process is signalled only for a request that [`screen`] lets pass, and only one that
/// was started for the VM of that name.
pub proof fn law_workers_are_signalled_for_screened_requests(
    name: String,
    header_value: Option<Seq<char>>,
    expected: Seq<char>,
    running: Option<Map<Seq<char>, u32>>,
)
    ensures
        stop_decision(name@, header_value, expected, running) matches Ok(pid) ==> {
            &&& screening(ApiRequest::StopVm { name }, header_value, expected) is None
            &&& header_value matches Some(value) && authorized(bearer_token(value), expected)
            &&& running matches Some(known) && known.contains_key(name@) && known[name@] == pid
        },
{
}

/// A VM is never started twice: from the start of its worker until it has exited,
/// another start is refused as a conflict, whatever happens to other VMs; afterwards
/// it may be started again.
pub proof fn law_vm_runs_at_most_once(
    running: Map<Seq<char>, u32>,
    name: Seq<char>,
    pid: u32,
    other: Seq<char>,
    other_pid: u32,
)
    requires
        other != name,
    ensures
        start_rejection(running.insert(name, pid), name) == Some(conflict_reply(name)),
        start_rejection(running.insert(name, pid).insert(other, other_pid), name) == Some(
            conflict_reply(name),
        ),
        start_rejection(running.insert(name, pid).remove(other), name) == Some(conflict_reply(name)),
        start_rejection(running.insert(name, pid).remove(name), name) is None,
{
}

/// The secret that the server requires of its clients: what the environment holds,
/// without the white space around it; the control plane is never served without one.
pub fn server_token(raw: Option<String>) -> (token: Result<String, &'static str>)
    ensures
        match token {
            Ok(secret) => unless_blank(text_of(raw)) == Some(secret@),
            Err(message) => unless_blank(text_of(raw)) is None && message@
                == "set AI_VMM_API_TOKEN to a non-empty secret before starting the server"@,
        },
{
    match keep_unless_blank(borrow_text(&raw)) {
        Some(secret) => Ok(secret),
        None => Err("set AI_VMM_API_TOKEN to a non-empty secret before starting the server"),
    }
}

/// A bearer token is what follows the word `Bearer` and one blank, exactly so written; a
/// header that starts otherwise carries none.
pub proof fn law_bearer_tokens(token: Seq<char>, header_value: Seq<char>)
    ensures
        bearer_token("Bearer "@ + token) == Some(token),
        bearer_token(header_value) matches Some(found) ==> header_value == "Bearer "@ + found,
{
    let value = "Bearer "@ + token;
    assert(value.take("Bearer "@.len() as int) =~= "Bearer "@);
    assert(value.skip("Bearer "@.len() as int) =~= token);
    if has_prefix(header_value, "Bearer "@) {
        assert(header_value =~= "Bearer "@ + header_value.skip("Bearer "@.len() as int));
    }
}

/// A VM name is 1 to 64 letters, digits, underscores, hyphens and dots, and it starts with
/// a letter or a digit: every such name is accepted, and no other.
pub proof fn law_vm_names(name: Seq<char>)
    ensures
        valid_vm_name(name) <==> 1 <= name.len() <= 64 && name[0] != '_' && name[0] != '-' && name[0] != '.'
            && forall|i: int|
            0 <= i < name.len() ==> ({
                let c = #[trigger] name[i];
                'a' <= c <= 'z' || 'A' <= c <= 'Z' || '0' <= c <= '9' || c == '_' || c == '-' || c == '.'
            }),
{
}

/// An error is reported with its status and its message, under the name `error`.
pub proof fn law_errors_are_reported(status: u16, message: Seq<char>)
    ensures
        error_reply(status, message).status == status,
        error_reply(status, message).body matches BodyModel::Value(body) && body.text_field("error"@) == Some(
            message,
        ),
        unauthorized_reply().status == 401,
        conflict_reply(message).status == 409,
        unknown_vm_reply(message).status == 404,
        not_running_reply(message).status == 404,
        poisoned_reply().status == 500,
{
    law_field_is_the_first_of_its_name(seq![("error"@, JsonModel::Text(message))], "error"@, 0);
}

/// The probe is answered without a token; with the expected one, a plan is asked for
/// unless there is nothing to plan, a VM is provisioned unless its name or its resources
/// are not valid, and every other request goes on.
pub proof fn law_what_screening_lets_pass(
    intent: String,
    wanted: ProvisionRequest,
    name: String,
    header_value: Option<Seq<char>>,
    expected: Seq<char>,
)
    requires
        expected.len() > 0,
        header_value == Some("Bearer "@ + expected),
    ensures
        forall|header: Option<Seq<char>>, token: Seq<char>|
            #[trigger] screening(ApiRequest::Health, header, token) matches Some(reply) && reply.status == 200,
        screening(ApiRequest::ListVms, header_value, expected) is None,
        screening(ApiRequest::GetVm { name }, header_value, expected) is None,
        screening(ApiRequest::DeleteVm { name }, header_value, expected) is None,
        screening(ApiRequest::StopVm { name }, header_value, expected) is None,
        trimmed(intent@).len() > 0 ==> screening(ApiRequest::Plan { intent }, header_value, expected) is None,
        trimmed(intent@).len() == 0 ==> (screening(ApiRequest::Plan { intent }, header_value, expected) matches Some(
            reply,
        ) && reply.status == 400),
        valid_vm_name(wanted.name@) && 1 <= wanted.vcpus <= 255 && 8 <= wanted.memory_mb <= 1048576
            <==> screening(ApiRequest::ProvisionVm(wanted), header_value, expected) is None,
        screening(ApiRequest::ProvisionVm(wanted), header_value, expected) matches Some(reply) ==> reply.status
            == 400,
{
    law_expected_token_is_accepted(expected);
}

/// With the expected token, a valid request for a VM that does not run, with a disk, a log
/// file and a registry of workers, starts a worker with what was asked for; what is
/// missing is answered, the disk first.
pub proof fn law_valid_requests_start_a_worker(
    request: ProvisionRequest,
    expected: Seq<char>,
    disk: Option<Seq<char>>,
    log_path: Result<Seq<char>, Seq<char>>,
    running: Option<Map<Seq<char>, u32>>,
)
    requires
        expected.len() > 0,
        valid_vm_name(request.name@),
        1 <= request.vcpus <= 255,
        8 <= request.memory_mb <= 1048576,
    ensures
        ({
            let answer = provision_answer(
                request,
                Some("Bearer "@ + expected),
                expected,
                disk,
                log_path,
                running,
            );
            if disk is None {
                answer matches Err(reply) && reply.status == 400
            } else if log_path is Err {
                answer == Err::<WorkerModel, ReplyModel>(error_reply(500, log_path->Err_0))
            } else if running is None {
                answer == Err::<WorkerModel, ReplyModel>(poisoned_reply())
            } else if running->Some_0.contains_key(request.name@) {
                answer == Err::<WorkerModel, ReplyModel>(conflict_reply(request.name@))
            } else {
                answer matches Ok(start) && {
                    &&& start.name == request.name@
                    &&& start.log_path == log_path->Ok_0
                    &&& start.arguments == worker_command(
                        request.name@,
                        request.vcpus,
                        request.memory_mb,
                        disk->Some_0,
                    )
                }
            }
        }),
{
    law_expected_token_is_accepted(expected);
}

/// A worker is told to provision, and each argument follows the option that says what it
/// is.
pub proof fn law_worker_options(name: Seq<char>, vcpus: u32, memory_mb: u32, disk: Seq<char>)
    ensures
        worker_command(name, vcpus, memory_mb, disk) == seq![
            "provision"@,
            "--name"@,
            name,
            "--vcpus"@,
            decimal_digits(vcpus as nat),
            "--memory"@,
            decimal_digits(memory_mb as nat),
            "--disk"@,
            disk,
        ],
{
}

/// With the expected token, the process that runs the named VM is the one to be
/// signalled; a VM that does not run is not found.
pub proof fn law_running_vm_is_stopped(name: Seq<char>, expected: Seq<char>, running: Map<Seq<char>, u32>)
    requires
        expected.len() > 0,
    ensures
        running.contains_key(name) ==> stop_decision(name, Some("Bearer "@ + expected), expected, Some(running))
            == Ok::<u32, ReplyModel>(running[name]),
        !running.contains_key(name) ==> stop_decision(name, Some("Bearer "@ + expected), expected, Some(running))
            == Err::<u32, ReplyModel>(not_running_reply(name)),
        stop_decision(name, Some("Bearer "@ + expected), expected, None) == Err::<u32, ReplyModel>(
            poisoned_reply(),
        ),
{
    law_expected_token_is_accepted(expected);
}

/// What a start and a stop are answered: accepted, with the name of the VM, what happens
/// to it, and, for a start, where its console goes. A signal that was not sent is an
/// error of this side.
pub proof fn law_starts_and_stops_are_answered(name: Seq<char>, log_path: Seq<char>, report: SignalReport)
    ensures
        started_reply(name, log_path).status == 202,
        started_reply(name, log_path).body matches BodyModel::Value(body) && body.text_field("name"@) == Some(name)
            && body.text_field("status"@) == Some("provisioning"@) && body.text_field("log"@) == Some(log_path),
        report is Sent ==> stop_answer(name, report).status == 202 && (stop_answer(name, report).body matches
            BodyModel::Value(body) && body.text_field("name"@) == Some(name) && body.text_field("status"@) == Some(
            "stopping"@,
        )),
        report !is Sent ==> stop_answer(name, report).status == 500,
{
    reveal_strlit("name");
    reveal_strlit("status");
    reveal_strlit("log");
    assert("name"@.len() == 4);
    assert("status"@.len() == 6);
    assert("log"@.len() == 3);
    let started = seq![
        ("name"@, JsonModel::Text(name)),
        ("status"@, JsonModel::Text("provisioning"@)),
        ("log"@, JsonModel::Text(log_path)),
    ];
    law_field_is_the_first_of_its_name(started, "name"@, 0);
    law_field_is_the_first_of_its_name(started, "status"@, 1);
    law_field_is_the_first_of_its_name(started, "log"@, 2);
    let stopping = seq![("name"@, JsonModel::Text(name)), ("status"@, JsonModel::Text("stopping"@))];
    law_field_is_the_first_of_its_name(stopping, "name"@, 0);
    law_field_is_the_first_of_its_name(stopping, "status"@, 1);
}

/// What a planning request is answered: the plan itself, or what the model said, trimmed,
/// or why the provider failed.
pub proof fn law_plans_are_answered(outcome: Result<AgentReply, String>)
    ensures
        outcome matches Ok(AgentReply::Plan(made)) ==> plan_answer(outcome).status == 200 && (plan_answer(
            outcome,
        ).body matches BodyModel::Record(body) && body.text_field("kind"@) == Some("plan"@) && body.field("plan"@)
            == Some(plan_json(made@))),
        outcome matches Ok(AgentReply::Text(said)) ==> plan_answer(outcome).status == 200 && (plan_answer(
            outcome,
        ).body matches BodyModel::Value(body) && body.text_field("kind"@) == Some("message"@) && body.text_field(
            "message"@,
        ) == Some(trimmed(said@))),
        outcome matches Err(reason) ==> plan_answer(outcome) == error_reply(502, reason@),
{
    reveal_strlit("kind");
    reveal_strlit("plan");
    reveal_strlit("message");
    assert("kind"@.len() == 4 && "kind"@[0] == 'k');
    assert("plan"@.len() == 4 && "plan"@[0] == 'p');
    assert("message"@.len() == 7);
    if let Ok(AgentReply::Plan(made)) = outcome {
        let fields = seq![("kind"@, JsonModel::Text("plan"@)), ("plan"@, plan_json(made@))];
        law_field_is_the_first_of_its_name(fields, "kind"@, 0);
        law_field_is_the_first_of_its_name(fields, "plan"@, 1);
    }
    if let Ok(AgentReply::Text(said)) = outcome {
        let fields = seq![
            ("kind"@, JsonModel::Text("message"@)),
            ("message"@, JsonModel::Text(trimmed(said@))),
        ];
        law_field_is_the_first_of_its_name(fields, "kind"@, 0);
        law_field_is_the_first_of_its_name(fields, "message"@, 1);
    }
}

/// What is answered of the ledger: all its records, oldest first, or the record of a name,
/// or that there is none; a ledger that cannot be loaded is an error of this side, and a
/// deletion that was saved says nothing more.
pub proof fn law_ledger_requests_are_answered(
    records: Seq<VmRecord>,
    name: Seq<char>,
    reason: Seq<char>,
    k: int,
)
    ensures
        list_answer(Ok(records)).status == 200,
        list_answer(Ok(records)).body matches BodyModel::Record(body) && (body.list_field("vms"@) matches Some(
            shown,
        ) && shown.len() == records.len() && (0 <= k < records.len() ==> shown[k] == record_model(records[k]))),
        record_named(records, name) matches Some(record) ==> get_answer(Ok(records), name) == (ReplyModel {
            status: 200,
            body: BodyModel::Record(record_model(record)),
        }),
        record_named(records, name) is None ==> get_answer(Ok(records), name) == unknown_vm_reply(name),
        list_answer(Err(reason)) == error_reply(500, reason),
        get_answer(Err(reason), name) == error_reply(500, reason),
        deletion_answer(Ok(())) == (ReplyModel { status: 204, body: BodyModel::Empty }),
        deletion_answer(Err(reason)) == error_reply(500, reason),
{
    law_field_is_the_first_of_its_name(seq![("vms"@, records_model(records))], "vms"@, 0);
}

/// The probe says that the server is up.
pub proof fn law_probe_says_ok()
    ensures
        health_reply().status == 200,
        health_reply().body matches BodyModel::Value(body) && body.text_field("status"@) == Some("ok"@),
{
    law_field_is_the_first_of_its_name(seq![("status"@, JsonModel::Text("ok"@))], "status"@, 0);
}

/// What is sent of a body: nothing, or its JSON, with the names of its objects in order or
/// as they stand.
pub proof fn law_what_is_sent(model: JsonModel)
    ensures
        BodyModel::Empty.text() is None,
        BodyModel::Value(model).text() == Some(rendered(model)),
        BodyModel::Record(model).text() == Some(text_in_order(model)),
{
}

} // verus!
