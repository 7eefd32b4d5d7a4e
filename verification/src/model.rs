//! Records, inputs, outputs, and content validation.
//!
//! Byte strings stand for all textual values: tenant identifiers, record
//! names, descriptions, feature flags, and the opaque schema payload. Names
//! and feature flags must satisfy a constrained token grammar; free text must
//! be free of control characters.

use vstd::prelude::*;
use crate::visibility::opt_bytes_view;

verus! {

/// A stored event type record.
pub struct EventTypeRecord {
    pub tenant: Vec<u8>,
    pub name: Vec<u8>,
    pub description: Vec<u8>,
    pub deleted: bool,
    pub schemas: Option<Vec<u8>>,
    pub feature_flag: Option<Vec<u8>>,
    pub created_at: u64,
    pub updated_at: u64,
}

/// Mathematical model of a stored record.
pub struct RecordModel {
    pub tenant: Seq<u8>,
    pub name: Seq<u8>,
    pub description: Seq<u8>,
    pub deleted: bool,
    pub schemas: Option<Seq<u8>>,
    pub feature_flag: Option<Seq<u8>>,
    pub created_at: u64,
    pub updated_at: u64,
}

impl View for EventTypeRecord {
    type V = RecordModel;

    open spec fn view(&self) -> RecordModel {
        RecordModel {
            tenant: self.tenant@,
            name: self.name@,
            description: self.description@,
            deleted: self.deleted,
            schemas: opt_bytes_view(self.schemas),
            feature_flag: opt_bytes_view(self.feature_flag),
            created_at: self.created_at,
            updated_at: self.updated_at,
        }
    }
}

/// Input of a create call: every mutable field, plus the name.
pub struct EventTypeIn {
    pub name: Vec<u8>,
    pub description: Vec<u8>,
    pub deleted: bool,
    pub schemas: Option<Vec<u8>>,
    pub feature_flag: Option<Vec<u8>>,
}

/// Mathematical model of a create input.
pub struct InModel {
    pub name: Seq<u8>,
    pub description: Seq<u8>,
    pub deleted: bool,
    pub schemas: Option<Seq<u8>>,
    pub feature_flag: Option<Seq<u8>>,
}

impl View for EventTypeIn {
    type V = InModel;

    open spec fn view(&self) -> InModel {
        InModel {
            name: self.name@,
            description: self.description@,
            deleted: self.deleted,
            schemas: opt_bytes_view(self.schemas),
            feature_flag: opt_bytes_view(self.feature_flag),
        }
    }
}

/// Input of a full replace call: every mutable field; the name comes from
/// the request path.
pub struct EventTypeUpdate {
    pub description: Vec<u8>,
    pub deleted: bool,
    pub schemas: Option<Vec<u8>>,
    pub feature_flag: Option<Vec<u8>>,
}

/// Mathematical model of a full replace input.
pub struct UpdateModel {
    pub description: Seq<u8>,
    pub deleted: bool,
    pub schemas: Option<Seq<u8>>,
    pub feature_flag: Option<Seq<u8>>,
}

impl View for EventTypeUpdate {
    type V = UpdateModel;

    open spec fn view(&self) -> UpdateModel {
        UpdateModel {
            description: self.description@,
            deleted: self.deleted,
            schemas: opt_bytes_view(self.schemas),
            feature_flag: opt_bytes_view(self.feature_flag),
        }
    }
}

/// A record as returned to the caller. The tenant is implicit in the call;
/// the schema payload is omitted by list calls unless content is requested.
#[derive(Debug)]
pub struct EventTypeOut {
    pub name: Vec<u8>,
    pub description: Vec<u8>,
    pub deleted: bool,
    pub schemas: Option<Vec<u8>>,
    pub feature_flag: Option<Vec<u8>>,
    pub created_at: u64,
    pub updated_at: u64,
}

/// Mathematical model of an output record.
pub struct OutModel {
    pub name: Seq<u8>,
    pub description: Seq<u8>,
    pub deleted: bool,
    pub schemas: Option<Seq<u8>>,
    pub feature_flag: Option<Seq<u8>>,
    pub created_at: u64,
    pub updated_at: u64,
}

impl View for EventTypeOut {
    type V = OutModel;

    open spec fn view(&self) -> OutModel {
        OutModel {
            name: self.name@,
            description: self.description@,
            deleted: self.deleted,
            schemas: opt_bytes_view(self.schemas),
            feature_flag: opt_bytes_view(self.feature_flag),
            created_at: self.created_at,
            updated_at: self.updated_at,
        }
    }
}

/// Options of a list call.
pub struct ListFetchOptions {
    pub include_archived: bool,
    pub with_content: bool,
}

impl Default for ListFetchOptions {
    /// Both options are off by default: archived records are excluded and
    /// schema payloads are stripped.
    fn default() -> (r: Self)
        ensures
            !r.include_archived,
            !r.with_content,
    {
        ListFetchOptions { include_archived: false, with_content: false }
    }
}

/// The error taxonomy of the registry.
///
/// `Validation`: malformed input, rejected before any mutation.
/// `Conflict`: a create targeting a name that is currently active.
/// `NotFound`: a get, patch or archive targeting a name with no record, or a
/// record the caller's feature flags exclude.
/// `NotImplemented`: the operation is a declared stub.
#[derive(Clone, Copy, Debug, PartialEq, Eq, Structural)]
pub enum RegistryError {
    Validation,
    Conflict,
    NotFound,
    NotImplemented,
}

/// The output model of a record: the full record without its tenant, the
/// schema payload kept only when content was requested.
pub open spec fn out_of(r: RecordModel, with_content: bool) -> OutModel {
    OutModel {
        name: r.name,
        description: r.description,
        deleted: r.deleted,
        schemas: if with_content {
            r.schemas
        } else {
            Option::None
        },
        feature_flag: r.feature_flag,
        created_at: r.created_at,
        updated_at: r.updated_at,
    }
}

/// The record a create call stores: the tenant from the call scope, every
/// mutable field from the input, timestamps from the store.
pub open spec fn record_of_input(
    tenant: Seq<u8>,
    d: InModel,
    created_at: u64,
    updated_at: u64,
) -> RecordModel {
    RecordModel {
        tenant: tenant,
        name: d.name,
        description: d.description,
        deleted: d.deleted,
        schemas: d.schemas,
        feature_flag: d.feature_flag,
        created_at: created_at,
        updated_at: updated_at,
    }
}

/// The record a full replace leaves behind: key and creation time kept,
/// every mutable field overwritten unconditionally.
pub open spec fn record_replaced(r: RecordModel, u: UpdateModel, now: u64) -> RecordModel {
    RecordModel {
        tenant: r.tenant,
        name: r.name,
        description: u.description,
        deleted: u.deleted,
        schemas: u.schemas,
        feature_flag: u.feature_flag,
        created_at: r.created_at,
        updated_at: now,
    }
}

/// The record a full replace inserts when the name was nonexistent: the
/// name from the request path, every mutable field from the input, both
/// timestamps from the store.
pub open spec fn record_of_update(
    tenant: Seq<u8>,
    name: Seq<u8>,
    u: UpdateModel,
    now: u64,
) -> RecordModel {
    RecordModel {
        tenant: tenant,
        name: name,
        description: u.description,
        deleted: u.deleted,
        schemas: u.schemas,
        feature_flag: u.feature_flag,
        created_at: now,
        updated_at: now,
    }
}

/// The record an archive call leaves behind: everything retained, only the
/// archive mark set and the update time refreshed.
pub open spec fn record_archived(r: RecordModel, now: u64) -> RecordModel {
    RecordModel { deleted: true, updated_at: now, ..r }
}

/// A control byte must not occur in free text.
pub open spec fn control_byte(b: u8) -> bool {
    b < 0x20 || b == 0x7f
}

/// Free text is valid when it holds no control byte.
pub open spec fn control_free(s: Seq<u8>) -> bool {
    forall|i: int| 0 <= i < s.len() ==> !control_byte(s[i])
}

/// A byte allowed in a name or feature-flag token: an ASCII letter, a digit,
/// `-`, `_` or `.`.
pub open spec fn token_byte(b: u8) -> bool {
    ||| 0x30 <= b <= 0x39
    ||| 0x41 <= b <= 0x5a
    ||| 0x61 <= b <= 0x7a
    ||| b == 0x2d
    ||| b == 0x5f
    ||| b == 0x2e
}

/// A name or feature-flag token: nonempty, at most 256 bytes, token bytes
/// only.
pub open spec fn valid_token(s: Seq<u8>) -> bool {
    1 <= s.len() <= 256 && forall|i: int| 0 <= i < s.len() ==> token_byte(s[i])
}

/// An optional feature flag is valid when absent or a valid token.
pub open spec fn valid_opt_flag(f: Option<Seq<u8>>) -> bool {
    match f {
        Option::None => true,
        Option::Some(s) => valid_token(s),
    }
}

/// A create input is valid: token name, control-free description, valid
/// optional flag.
pub open spec fn valid_input(d: InModel) -> bool {
    valid_token(d.name) && control_free(d.description) && valid_opt_flag(d.feature_flag)
}

/// A full replace input is valid: control-free description, valid optional
/// flag.
pub open spec fn valid_update(u: UpdateModel) -> bool {
    control_free(u.description) && valid_opt_flag(u.feature_flag)
}

/// Decides `control_free`.
pub fn check_control_free(s: &Vec<u8>) -> (r: bool)
    ensures
        r <==> control_free(s@),
{
    let n: usize = s.len();
    let mut i: usize = 0;
    while i < n
        invariant
            0 <= i <= n,
            n == s@.len(),
            forall|k: int| 0 <= k < i ==> !control_byte(s@[k]),
        decreases n - i,
    {
        let b: u8 = s[i];
        if b < 0x20 || b == 0x7f {
            return false;
        }
        i = i + 1;
    }
    true
}

/// Decides `valid_token`.
pub fn check_token(s: &Vec<u8>) -> (r: bool)
    ensures
        r <==> valid_token(s@),
{
    let n: usize = s.len();
    if n < 1 || n > 256 {
        return false;
    }
    let mut i: usize = 0;
    while i < n
        invariant
            0 <= i <= n,
            n == s@.len(),
            forall|k: int| 0 <= k < i ==> token_byte(s@[k]),
        decreases n - i,
    {
        let b: u8 = s[i];
        let ok: bool = (0x30 <= b && b <= 0x39) || (0x41 <= b && b <= 0x5a) || (0x61 <= b
            && b <= 0x7a) || b == 0x2d || b == 0x5f || b == 0x2e;
        if !ok {
            return false;
        }
        i = i + 1;
    }
    true
}

/// Decides `valid_opt_flag`.
pub fn check_opt_flag(f: &Option<Vec<u8>>) -> (r: bool)
    ensures
        r <==> valid_opt_flag(opt_bytes_view(*f)),
{
    match f {
        Option::None => true,
        Option::Some(s) => check_token(s),
    }
}

/// Copies a byte string.
pub fn copy_bytes(v: &Vec<u8>) -> (r: Vec<u8>)
    ensures
        r@ == v@,
{
    let n: usize = v.len();
    let mut r: Vec<u8> = Vec::new();
    let mut i: usize = 0;
    while i < n
        invariant
            0 <= i <= n,
            n == v@.len(),
            r@ == v@.take(i as int),
        decreases n - i,
    {
        r.push(v[i]);
        proof {
            assert(r@ =~= v@.take(i + 1 as int));
        }
        i = i + 1;
    }
    proof {
        assert(v@.take(n as int) =~= v@);
    }
    r
}

/// Copies an optional byte string.
pub fn copy_opt_bytes(v: &Option<Vec<u8>>) -> (r: Option<Vec<u8>>)
    ensures
        opt_bytes_view(r) == opt_bytes_view(*v),
{
    match v {
        Option::None => Option::None,
        Option::Some(s) => Option::Some(copy_bytes(s)),
    }
}

impl EventTypeRecord {
    /// Copies a stored record.
    pub fn duplicate(&self) -> (r: EventTypeRecord)
        ensures
            r@ == self@,
    {
        EventTypeRecord {
            tenant: copy_bytes(&self.tenant),
            name: copy_bytes(&self.name),
            description: copy_bytes(&self.description),
            deleted: self.deleted,
            schemas: copy_opt_bytes(&self.schemas),
            feature_flag: copy_opt_bytes(&self.feature_flag),
            created_at: self.created_at,
            updated_at: self.updated_at,
        }
    }
}

impl EventTypeIn {
    /// Overwrites every mutable field of `model` with this input, the name
    /// included; tenant and timestamps are left to the store.
    pub fn update_model(&self, model: &mut EventTypeRecord)
        ensures
            final(model)@ == (RecordModel {
                name: self@.name,
                description: self@.description,
                deleted: self@.deleted,
                schemas: self@.schemas,
                feature_flag: self@.feature_flag,
                ..old(model)@
            }),
    {
        model.name = copy_bytes(&self.name);
        model.description = copy_bytes(&self.description);
        model.deleted = self.deleted;
        model.schemas = copy_opt_bytes(&self.schemas);
        model.feature_flag = copy_opt_bytes(&self.feature_flag);
    }
}

impl EventTypeUpdate {
    /// Overwrites every mutable field of `model` with this input; the name,
    /// tenant and timestamps are left as they are.
    pub fn update_model(&self, model: &mut EventTypeRecord)
        ensures
            final(model)@ == (RecordModel {
                description: self@.description,
                deleted: self@.deleted,
                schemas: self@.schemas,
                feature_flag: self@.feature_flag,
                ..old(model)@
            }),
    {
        model.description = copy_bytes(&self.description);
        model.deleted = self.deleted;
        model.schemas = copy_opt_bytes(&self.schemas);
        model.feature_flag = copy_opt_bytes(&self.feature_flag);
    }
}

impl EventTypeOut {
    /// The full output view of a stored record, schema payload included.
    pub fn from_record(record: &EventTypeRecord) -> (r: EventTypeOut)
        ensures
            r@ == out_of(record@, true),
    {
        EventTypeOut {
            name: copy_bytes(&record.name),
            description: copy_bytes(&record.description),
            deleted: record.deleted,
            schemas: copy_opt_bytes(&record.schemas),
            feature_flag: copy_opt_bytes(&record.feature_flag),
            created_at: record.created_at,
            updated_at: record.updated_at,
        }
    }

    /// The output view of a stored record with the schema payload stripped.
    pub fn without_payload(record: &EventTypeRecord) -> (r: EventTypeOut)
        ensures
            r@ == out_of(record@, false),
    {
        EventTypeOut {
            name: copy_bytes(&record.name),
            description: copy_bytes(&record.description),
            deleted: record.deleted,
            schemas: Option::None,
            feature_flag: copy_opt_bytes(&record.feature_flag),
            created_at: record.created_at,
            updated_at: record.updated_at,
        }
    }
}

} // verus!
