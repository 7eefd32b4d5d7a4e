//! Tri-state partial updates.
//!
//! Each field of a partial update is in one of three wire states: omitted
//! entirely, explicitly cleared, or set to a new value. Clearing is legal
//! only for the nullable fields (schema payload and feature flag); an
//! explicit clear of the description or of the archive status is a
//! validation error. A patch is all-or-nothing: every supplied field is
//! validated before any field is written.

use vstd::prelude::*;
use crate::model::{
    EventTypeRecord, RecordModel, control_free, valid_token, check_control_free, check_token,
    copy_bytes, copy_opt_bytes,
};

verus! {

/// One field of a partial update: omitted, explicitly cleared, or set.
pub enum FieldPatch<T> {
    Absent,
    Null,
    Value(T),
}

/// A partial update of a record's mutable fields.
pub struct EventTypePatch {
    pub description: FieldPatch<Vec<u8>>,
    pub deleted: FieldPatch<bool>,
    pub schemas: FieldPatch<Vec<u8>>,
    pub feature_flag: FieldPatch<Vec<u8>>,
}

/// Mathematical model of a partial update.
pub struct PatchModel {
    pub description: FieldPatch<Seq<u8>>,
    pub deleted: FieldPatch<bool>,
    pub schemas: FieldPatch<Seq<u8>>,
    pub feature_flag: FieldPatch<Seq<u8>>,
}

/// The model of one byte-string field of a partial update.
pub open spec fn field_patch_view(p: FieldPatch<Vec<u8>>) -> FieldPatch<Seq<u8>> {
    match p {
        FieldPatch::Absent => FieldPatch::Absent,
        FieldPatch::Null => FieldPatch::Null,
        FieldPatch::Value(v) => FieldPatch::Value(v@),
    }
}

impl View for EventTypePatch {
    type V = PatchModel;

    open spec fn view(&self) -> PatchModel {
        PatchModel {
            description: field_patch_view(self.description),
            deleted: self.deleted,
            schemas: field_patch_view(self.schemas),
            feature_flag: field_patch_view(self.feature_flag),
        }
    }
}

/// A partial update is valid when no non-nullable field is explicitly
/// cleared, a supplied description is control-free, and a supplied feature
/// flag is a valid token.
pub open spec fn patch_valid(p: PatchModel) -> bool {
    &&& !(p.description is Null)
    &&& !(p.deleted is Null)
    &&& (p.description matches FieldPatch::Value(d) ==> control_free(d))
    &&& (p.feature_flag matches FieldPatch::Value(f) ==> valid_token(f))
}

/// The record a valid patch leaves behind: omitted fields kept, cleared
/// nullable fields now absent, supplied fields overwritten. The key and
/// both timestamps are kept; the store sets the update time when it writes.
pub open spec fn apply_patch(r: RecordModel, p: PatchModel) -> RecordModel {
    RecordModel {
        tenant: r.tenant,
        name: r.name,
        description: match p.description {
            FieldPatch::Value(d) => d,
            _ => r.description,
        },
        deleted: match p.deleted {
            FieldPatch::Value(b) => b,
            _ => r.deleted,
        },
        schemas: match p.schemas {
            FieldPatch::Absent => r.schemas,
            FieldPatch::Null => Option::None,
            FieldPatch::Value(s) => Option::Some(s),
        },
        feature_flag: match p.feature_flag {
            FieldPatch::Absent => r.feature_flag,
            FieldPatch::Null => Option::None,
            FieldPatch::Value(f) => Option::Some(f),
        },
        created_at: r.created_at,
        updated_at: r.updated_at,
    }
}

/// Decides `patch_valid`.
pub fn check_patch(p: &EventTypePatch) -> (r: bool)
    ensures
        r <==> patch_valid(p@),
{
    let desc_ok: bool = match &p.description {
        FieldPatch::Absent => true,
        FieldPatch::Null => false,
        FieldPatch::Value(d) => check_control_free(d),
    };
    let deleted_ok: bool = match &p.deleted {
        FieldPatch::Null => false,
        _ => true,
    };
    let flag_ok: bool = match &p.feature_flag {
        FieldPatch::Value(f) => check_token(f),
        _ => true,
    };
    desc_ok && deleted_ok && flag_ok
}

impl EventTypePatch {
    /// Applies this patch to a record in place.
    pub fn update_model(&self, model: &mut EventTypeRecord)
        ensures
            final(model)@ == apply_patch(old(model)@, self@),
    {
        let patched = apply_patch_record(model, self);
        *model = patched;
    }
}

/// Applies a valid patch to a stored record.
pub fn apply_patch_record(record: &EventTypeRecord, p: &EventTypePatch) -> (r: EventTypeRecord)
    ensures
        r@ == apply_patch(record@, p@),
{
    let description: Vec<u8> = match &p.description {
        FieldPatch::Value(d) => copy_bytes(d),
        _ => copy_bytes(&record.description),
    };
    let deleted: bool = match &p.deleted {
        FieldPatch::Value(b) => *b,
        _ => record.deleted,
    };
    let schemas: Option<Vec<u8>> = match &p.schemas {
        FieldPatch::Absent => copy_opt_bytes(&record.schemas),
        FieldPatch::Null => Option::None,
        FieldPatch::Value(s) => Option::Some(copy_bytes(s)),
    };
    let feature_flag: Option<Vec<u8>> = match &p.feature_flag {
        FieldPatch::Absent => copy_opt_bytes(&record.feature_flag),
        FieldPatch::Null => Option::None,
        FieldPatch::Value(f) => Option::Some(copy_bytes(f)),
    };
    EventTypeRecord {
        tenant: copy_bytes(&record.tenant),
        name: copy_bytes(&record.name),
        description: description,
        deleted: deleted,
        schemas: schemas,
        feature_flag: feature_flag,
        created_at: record.created_at,
        updated_at: record.updated_at,
    }
}

} // verus!
