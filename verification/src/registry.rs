//! The registry store and the record lifecycle.
//!
//! Records of all tenants live in one sequence, sorted strictly by
//! (tenant, name); sortedness gives uniqueness of the key, and iteration in
//! ascending name order within a tenant. Every operation is scoped to the
//! tenant handed to it and leaves every other tenant's records untouched.
//!
//! A name's lifecycle: nonexistent until the first create or replace;
//! active until archived; archived records keep their content but a later
//! create replaces it wholesale rather than merging.

use vstd::prelude::*;
use crate::order::{
    lex_lt, lex_cmp, lex_before, ByteOrder, lemma_lex_irreflexive, lemma_lex_transitive,
    lemma_lex_trichotomy, lemma_lex_asymmetric,
};
use crate::model::{
    EventTypeRecord, RecordModel, EventTypeIn, EventTypeUpdate, EventTypeOut, OutModel,
    ListFetchOptions, RegistryError, out_of, record_of_input, record_replaced, record_of_update,
    record_archived, valid_input, valid_update, valid_token, check_token, check_control_free,
    check_opt_flag, copy_bytes,
};
use crate::patch::{EventTypePatch, patch_valid, apply_patch, check_patch};
use crate::visibility::{AllowedFeatureFlags, flag_allowed, opt_bytes_view, is_flag_allowed,
    bytes_equal};

verus! {

/// Order of record keys: by tenant, then by name.
pub open spec fn key_lt(a: RecordModel, b: RecordModel) -> bool {
    lex_lt(a.tenant, b.tenant) || (a.tenant == b.tenant && lex_lt(a.name, b.name))
}

/// The store invariant: strictly ascending keys, hence at most one record
/// per (tenant, name), archived or not.
pub open spec fn sorted_by_key(s: Seq<RecordModel>) -> bool {
    forall|i: int, j: int| 0 <= i < j < s.len() ==> key_lt(s[i], s[j])
}

/// The record at index `i` has key (`t`, `n`).
pub open spec fn key_at(s: Seq<RecordModel>, i: int, t: Seq<u8>, n: Seq<u8>) -> bool {
    0 <= i < s.len() && s[i].tenant == t && s[i].name == n
}

/// Some record has key (`t`, `n`).
pub open spec fn has_key(s: Seq<RecordModel>, t: Seq<u8>, n: Seq<u8>) -> bool {
    exists|i: int| key_at(s, i, t, n)
}

/// The record stored under key (`t`, `n`), if any. Exact-key lookup is the
/// store's reading primitive; every single-record operation is specified
/// through it.
pub open spec fn spec_find(s: Seq<RecordModel>, t: Seq<u8>, n: Seq<u8>) -> Option<RecordModel> {
    if has_key(s, t, n) {
        Option::Some(s[choose|i: int| key_at(s, i, t, n)])
    } else {
        Option::None
    }
}

pub proof fn lemma_key_lt_asymmetric(a: RecordModel, b: RecordModel)
    requires
        key_lt(a, b),
    ensures
        !(a.tenant == b.tenant && a.name == b.name),
        !key_lt(b, a),
{
    if a.tenant == b.tenant && a.name == b.name {
        lemma_lex_irreflexive(a.tenant);
        lemma_lex_irreflexive(a.name);
    }
    if key_lt(b, a) {
        if lex_lt(a.tenant, b.tenant) {
            lemma_lex_asymmetric(a.tenant, b.tenant);
        } else {
            lemma_lex_irreflexive(a.tenant);
            lemma_lex_asymmetric(a.name, b.name);
        }
    }
}

pub proof fn lemma_key_lt_transitive(a: RecordModel, b: RecordModel, c: RecordModel)
    requires
        key_lt(a, b),
        key_lt(b, c),
    ensures
        key_lt(a, c),
{
    if lex_lt(a.tenant, b.tenant) && lex_lt(b.tenant, c.tenant) {
        lemma_lex_transitive(a.tenant, b.tenant, c.tenant);
    } else if a.tenant == b.tenant && b.tenant == c.tenant {
        lemma_lex_transitive(a.name, b.name, c.name);
    }
}

/// Keys that are neither equal nor incomparable: the order is total.
pub proof fn lemma_key_trichotomy(a: RecordModel, b: RecordModel)
    ensures
        key_lt(a, b) || key_lt(b, a) || (a.tenant == b.tenant && a.name == b.name),
{
    lemma_lex_trichotomy(a.tenant, b.tenant);
    lemma_lex_trichotomy(a.name, b.name);
}

/// In a sorted store the key determines the index.
pub proof fn lemma_sorted_key_unique(s: Seq<RecordModel>, i: int, j: int)
    requires
        sorted_by_key(s),
        0 <= i < s.len(),
        0 <= j < s.len(),
        s[i].tenant == s[j].tenant,
        s[i].name == s[j].name,
    ensures
        i == j,
{
    if i < j {
        lemma_key_lt_asymmetric(s[i], s[j]);
    }
    if j < i {
        lemma_key_lt_asymmetric(s[j], s[i]);
    }
}

/// A record seen at an index is the record the lookup yields.
pub proof fn lemma_spec_find_at(s: Seq<RecordModel>, i: int, t: Seq<u8>, n: Seq<u8>)
    requires
        sorted_by_key(s),
        key_at(s, i, t, n),
    ensures
        spec_find(s, t, n) == Option::Some(s[i]),
{
    let j = choose|j: int| key_at(s, j, t, n);
    lemma_sorted_key_unique(s, i, j);
}

/// Updating a record in place, key unchanged, keeps the store sorted, makes
/// the lookup of that key yield the new record, and leaves every other
/// lookup as it was.
pub proof fn lemma_find_after_update(s: Seq<RecordModel>, i: int, r: RecordModel)
    requires
        sorted_by_key(s),
        0 <= i < s.len(),
        r.tenant == s[i].tenant,
        r.name == s[i].name,
    ensures
        sorted_by_key(s.update(i, r)),
        spec_find(s.update(i, r), r.tenant, r.name) == Option::Some(r),
        forall|t: Seq<u8>, n: Seq<u8>|
            !(t == r.tenant && n == r.name) ==> #[trigger] spec_find(s.update(i, r), t, n)
                == spec_find(s, t, n),
{
    let s2 = s.update(i, r);
    assert forall|a: int, b: int| 0 <= a < b < s2.len() implies key_lt(s2[a], s2[b]) by {
        assert(key_lt(s[a], s[b]));
    }
    lemma_spec_find_at(s2, i, r.tenant, r.name);
    assert forall|t: Seq<u8>, n: Seq<u8>| !(t == r.tenant && n == r.name) implies #[trigger]
        spec_find(s2, t, n) == spec_find(s, t, n) by {
        if has_key(s, t, n) {
            let j = choose|j: int| key_at(s, j, t, n);
            assert(j != i);
            assert(key_at(s2, j, t, n));
            lemma_spec_find_at(s, j, t, n);
            lemma_spec_find_at(s2, j, t, n);
        } else {
            if has_key(s2, t, n) {
                let j = choose|j: int| key_at(s2, j, t, n);
                assert(j != i);
                assert(key_at(s, j, t, n));
            }
        }
    }
}

/// Inserting a fresh key at its sorted position keeps the store sorted,
/// makes the lookup of that key yield the new record, and leaves every
/// other lookup as it was.
pub proof fn lemma_find_after_insert(s: Seq<RecordModel>, p: int, r: RecordModel)
    requires
        sorted_by_key(s),
        0 <= p <= s.len(),
        forall|k: int| 0 <= k < p ==> key_lt(#[trigger] s[k], r),
        forall|k: int| p <= k < s.len() ==> key_lt(r, #[trigger] s[k]),
    ensures
        sorted_by_key(s.insert(p, r)),
        spec_find(s.insert(p, r), r.tenant, r.name) == Option::Some(r),
        forall|t: Seq<u8>, n: Seq<u8>|
            !(t == r.tenant && n == r.name) ==> #[trigger] spec_find(s.insert(p, r), t, n)
                == spec_find(s, t, n),
{
    let s2 = s.insert(p, r);
    s.insert_ensures(p, r);
    assert forall|a: int, b: int| 0 <= a < b < s2.len() implies key_lt(s2[a], s2[b]) by {
        if a < p && b < p {
            assert(key_lt(s[a], s[b]));
        } else if a < p && b == p {
            assert(key_lt(s[a], r));
        } else if a < p && b > p {
            assert(key_lt(s[a], s[b - 1]) || a == b - 1);
            if a == b - 1 {
                assert(key_lt(s[a], r));
                assert(key_lt(r, s[b - 1]));
                lemma_key_lt_transitive(s[a], r, s[b - 1]);
            } else {
                assert(key_lt(s[a], s[b - 1]));
            }
        } else if a == p {
            assert(key_lt(r, s[b - 1]));
        } else {
            assert(key_lt(s[a - 1], s[b - 1]));
        }
    }
    lemma_spec_find_at(s2, p, r.tenant, r.name);
    assert forall|t: Seq<u8>, n: Seq<u8>| !(t == r.tenant && n == r.name) implies #[trigger]
        spec_find(s2, t, n) == spec_find(s, t, n) by {
        if has_key(s, t, n) {
            let j = choose|j: int| key_at(s, j, t, n);
            let j2: int = if j < p {
                j
            } else {
                j + 1
            };
            assert(s2[j2] == s[j]);
            assert(key_at(s2, j2, t, n));
            lemma_spec_find_at(s, j, t, n);
            lemma_spec_find_at(s2, j2, t, n);
        } else {
            if has_key(s2, t, n) {
                let j = choose|j: int| key_at(s2, j, t, n);
                assert(j != p);
                if j < p {
                    assert(key_at(s, j, t, n));
                } else {
                    assert(s2[j] == s[j - 1]);
                    assert(key_at(s, j - 1, t, n));
                }
            }
        }
    }
}

/// A record that a list call returns for this query: owned by the tenant,
/// past the cursor, not archived unless archived records were asked for,
/// and visible under the caller's feature flags.
pub open spec fn matches_query(
    r: RecordModel,
    tenant: Seq<u8>,
    cursor: Option<Seq<u8>>,
    include_archived: bool,
    flags: AllowedFeatureFlags,
) -> bool {
    &&& r.tenant == tenant
    &&& include_archived || !r.deleted
    &&& match cursor {
        Option::None => true,
        Option::Some(c) => lex_lt(c, r.name),
    }
    &&& flag_allowed(flags, r.feature_flag)
}

/// `matches_query` as a predicate value, for filtering.
pub open spec fn query_pred(
    tenant: Seq<u8>,
    cursor: Option<Seq<u8>>,
    include_archived: bool,
    flags: AllowedFeatureFlags,
) -> spec_fn(RecordModel) -> bool {
    |r: RecordModel| matches_query(r, tenant, cursor, include_archived, flags)
}

/// Every record of the store that the query matches, in store order:
/// ascending by name, since all of them share the tenant.
pub open spec fn query_results(
    s: Seq<RecordModel>,
    tenant: Seq<u8>,
    cursor: Option<Seq<u8>>,
    include_archived: bool,
    flags: AllowedFeatureFlags,
) -> Seq<RecordModel> {
    s.filter(query_pred(tenant, cursor, include_archived, flags))
}

/// The output models of a sequence of records.
pub open spec fn outs_of(s: Seq<RecordModel>, with_content: bool) -> Seq<OutModel> {
    s.map(|i: int, r: RecordModel| out_of(r, with_content))
}

/// The models of a sequence of output records.
pub open spec fn data_view(d: Seq<EventTypeOut>) -> Seq<OutModel> {
    d.map(|i: int, o: EventTypeOut| o@)
}

/// Filtering one more element appends it exactly when the predicate holds.
pub proof fn lemma_filter_push(
    s: Seq<RecordModel>,
    pred: spec_fn(RecordModel) -> bool,
    x: RecordModel,
)
    ensures
        s.push(x).filter(pred) == if pred(x) {
            s.filter(pred).push(x)
        } else {
            s.filter(pred)
        },
{
    reveal(Seq::filter);
    assert(s.push(x).drop_last() =~= s);
    assert(s.push(x).last() == x);
}

/// One page of a list call.
pub struct ListResponse {
    /// At most `limit` records, ascending by name.
    pub data: Vec<EventTypeOut>,
    /// The cursor for the next page: the name of the last record of `data`,
    /// present exactly when more matching records follow.
    pub iterator: Option<Vec<u8>>,
    /// No more matching records follow.
    pub done: bool,
}

/// The multi-tenant registry store.
pub struct Registry {
    records: Vec<EventTypeRecord>,
}

impl View for Registry {
    type V = Seq<RecordModel>;

    closed spec fn view(&self) -> Seq<RecordModel> {
        self.records@.map(|i: int, r: EventTypeRecord| r@)
    }
}

impl Registry {
    /// The store invariant: every operation requires and preserves it.
    pub open spec fn wf(&self) -> bool {
        sorted_by_key(self@)
    }

    /// An empty registry.
    pub fn new() -> (r: Registry)
        ensures
            r.wf(),
            r@ == Seq::<RecordModel>::empty(),
    {
        let r = Registry { records: Vec::new() };
        proof {
            assert(r@ =~= Seq::<RecordModel>::empty());
        }
        r
    }

    /// Exact-key lookup: the index of the record with this key, if any.
    fn find_index(&self, tenant: &Vec<u8>, name: &Vec<u8>) -> (r: Option<usize>)
        ensures
            match r {
                Option::Some(i) => key_at(self@, i as int, tenant@, name@),
                Option::None => !has_key(self@, tenant@, name@),
            },
    {
        let n: usize = self.records.len();
        let mut i: usize = 0;
        while i < n
            invariant
                0 <= i <= n,
                n == self.records@.len(),
                self@.len() == n,
                forall|k: int|
                    0 <= k < i ==> !((#[trigger] self@[k]).tenant == tenant@ && self@[k].name
                        == name@),
            decreases n - i,
        {
            let rec = &self.records[i];
            proof {
                assert(self@[i as int] == self.records@[i as int]@);
            }
            if bytes_equal(&rec.tenant, tenant) && bytes_equal(&rec.name, name) {
                return Option::Some(i);
            }
            i = i + 1;
        }
        Option::None
    }

    /// Insert-new-key primitive: places the record at its sorted position.
    fn insert_record(&mut self, record: EventTypeRecord)
        requires
            old(self).wf(),
            !has_key(old(self)@, record@.tenant, record@.name),
        ensures
            final(self).wf(),
            exists|p: int|
                0 <= p <= old(self)@.len() && final(self)@ == old(self)@.insert(p, record@),
            final(self)@.len() == old(self)@.len() + 1,
            spec_find(final(self)@, record@.tenant, record@.name) == Option::Some(record@),
            forall|t: Seq<u8>, n: Seq<u8>|
                !(t == record@.tenant && n == record@.name) ==> #[trigger] spec_find(
                    final(self)@,
                    t,
                    n,
                ) == spec_find(old(self)@, t, n),
    {
        let n: usize = self.records.len();
        let mut p: usize = 0;
        while p < n
            invariant
                0 <= p <= n,
                n == self.records@.len(),
                self@.len() == n,
                self@ == old(self)@,
                self.wf(),
                !has_key(self@, record@.tenant, record@.name),
                forall|k: int| 0 <= k < p ==> key_lt(#[trigger] self@[k], record@),
            decreases n - p,
        {
            let rec = &self.records[p];
            proof {
                assert(self@[p as int] == self.records@[p as int]@);
            }
            let tenant_order = lex_cmp(&rec.tenant, &record.tenant);
            let before = match tenant_order {
                ByteOrder::Before => true,
                ByteOrder::Same => lex_before(&rec.name, &record.name),
                ByteOrder::After => false,
            };
            if !before {
                proof {
                    lemma_key_trichotomy(self@[p as int], record@);
                    assert(key_at(self@, p as int, self@[p as int].tenant, self@[p as int].name));
                    assert(key_lt(record@, self@[p as int]));
                    assert forall|k: int| p <= k < self@.len() implies key_lt(
                        record@,
                        #[trigger] self@[k],
                    ) by {
                        if k > p {
                            lemma_key_lt_transitive(record@, self@[p as int], self@[k]);
                        }
                    }
                    lemma_find_after_insert(self@, p as int, record@);
                }
                let ghost pre = self@;
                self.records.insert(p, record);
                proof {
                    assert(self@ =~= pre.insert(p as int, record@));
                }
                return ;
            }
            p = p + 1;
        }
        proof {
            assert forall|k: int| p as int <= k < self@.len() implies key_lt(
                record@,
                #[trigger] self@[k],
            ) by {
            }
            lemma_find_after_insert(self@, p as int, record@);
        }
        let ghost pre = self@;
        self.records.insert(p, record);
        proof {
            assert(self@ =~= pre.insert(p as int, record@));
        }
    }

    /// Update-existing-key primitive: replaces the record at `i`, key
    /// unchanged.
    fn set_record(&mut self, i: usize, record: EventTypeRecord)
        requires
            old(self).wf(),
            i < old(self)@.len(),
            record@.tenant == old(self)@[i as int].tenant,
            record@.name == old(self)@[i as int].name,
        ensures
            final(self).wf(),
            final(self)@ == old(self)@.update(i as int, record@),
            spec_find(final(self)@, record@.tenant, record@.name) == Option::Some(record@),
            forall|t: Seq<u8>, n: Seq<u8>|
                !(t == record@.tenant && n == record@.name) ==> #[trigger] spec_find(
                    final(self)@,
                    t,
                    n,
                ) == spec_find(old(self)@, t, n),
    {
        proof {
            lemma_find_after_update(old(self)@, i as int, record@);
        }
        let ghost pre = self@;
        self.records[i] = record;
        proof {
            assert(self@ =~= pre.update(i as int, record@));
        }
    }

    /// Create a new record, or reactivate an archived one.
    ///
    /// A name that currently holds an active record is a conflict and the
    /// registry is unmodified. A name that holds an archived record is
    /// reused: every mutable field is replaced by the new input, nothing is
    /// merged, only the creation time survives. Invalid input is rejected
    /// before any mutation. No other key is touched.
    pub fn create_event_type(&mut self, tenant: &Vec<u8>, data: &EventTypeIn, now: u64) -> (r:
        Result<EventTypeOut, RegistryError>)
        requires
            old(self).wf(),
        ensures
            final(self).wf(),
            !valid_input(data@) ==> (r matches Result::Err(e) && e == RegistryError::Validation)
                && final(self)@ == old(self)@,
            (valid_input(data@) && spec_find(old(self)@, tenant@, data@.name) is Some && !spec_find(
                old(self)@,
                tenant@,
                data@.name,
            )->0.deleted) ==> (r matches Result::Err(e) && e == RegistryError::Conflict) && final(self)@ == old(self)@,
            (valid_input(data@) && spec_find(old(self)@, tenant@, data@.name) is None) ==> ({
                let rec = record_of_input(tenant@, data@, now, now);
                &&& r matches Result::Ok(out) && out@ == out_of(rec, true)
                &&& spec_find(final(self)@, tenant@, data@.name) == Option::Some(rec)
                &&& final(self)@.len() == old(self)@.len() + 1
                &&& exists|p: int|
                    0 <= p <= old(self)@.len() && final(self)@ == old(self)@.insert(p, rec)
            }),
            (valid_input(data@) && spec_find(old(self)@, tenant@, data@.name) is Some && spec_find(
                old(self)@,
                tenant@,
                data@.name,
            )->0.deleted) ==> ({
                let ex = spec_find(old(self)@, tenant@, data@.name)->0;
                let rec = record_of_input(tenant@, data@, ex.created_at, now);
                &&& r matches Result::Ok(out) && out@ == out_of(rec, true)
                &&& spec_find(final(self)@, tenant@, data@.name) == Option::Some(rec)
                &&& final(self)@.len() == old(self)@.len()
                &&& exists|i: int|
                    key_at(old(self)@, i, tenant@, data@.name) && final(self)@ == old(
                        self,
                    )@.update(i, rec)
            }),
            forall|t: Seq<u8>, n: Seq<u8>|
                !(t == tenant@ && n == data@.name) ==> #[trigger] spec_find(final(self)@, t, n)
                    == spec_find(old(self)@, t, n),
    {
        if !(check_token(&data.name) && check_control_free(&data.description) && check_opt_flag(
            &data.feature_flag,
        )) {
            return Result::Err(RegistryError::Validation);
        }
        match self.find_index(tenant, &data.name) {
            Option::Some(i) => {
                proof {
                    lemma_spec_find_at(self@, i as int, tenant@, data@.name);
                }
                let existing = &self.records[i];
                proof {
                    assert(self@[i as int] == self.records@[i as int]@);
                }
                if !existing.deleted {
                    return Result::Err(RegistryError::Conflict);
                }
                let mut model = existing.duplicate();
                model.deleted = false;
                data.update_model(&mut model);
                model.updated_at = now;
                proof {
                    assert(model@ == record_of_input(
                        tenant@,
                        data@,
                        old(self)@[i as int].created_at,
                        now,
                    ));
                }
                self.set_record(i, model);
                proof {
                    assert(self@[i as int] == model@);
                    assert(self@[i as int] == self.records@[i as int]@);
                }
                Result::Ok(EventTypeOut::from_record(&self.records[i]))
            },
            Option::None => {
                let mut model = EventTypeRecord {
                    tenant: copy_bytes(tenant),
                    name: Vec::new(),
                    description: Vec::new(),
                    deleted: false,
                    schemas: Option::None,
                    feature_flag: Option::None,
                    created_at: now,
                    updated_at: now,
                };
                data.update_model(&mut model);
                proof {
                    assert(model@ == record_of_input(tenant@, data@, now, now));
                }
                let out = EventTypeOut::from_record(&model);
                self.insert_record(model);
                Result::Ok(out)
            },
        }
    }

    /// Get one record by name, schema payload included.
    ///
    /// Not found when no record holds the name or when the caller's feature
    /// flags exclude it; the record is returned whether archived or not.
    pub fn get_event_type(&self, tenant: &Vec<u8>, name: &Vec<u8>, flags: &AllowedFeatureFlags)
        -> (r: Result<EventTypeOut, RegistryError>)
        requires
            self.wf(),
        ensures
            match spec_find(self@, tenant@, name@) {
                Option::Some(rec) => {
                    if flag_allowed(*flags, rec.feature_flag) {
                        r matches Result::Ok(out) && out@ == out_of(rec, true)
                    } else {
                        r matches Result::Err(e) && e == RegistryError::NotFound
                    }
                },
                Option::None => r matches Result::Err(e) && e == RegistryError::NotFound,
            },
    {
        match self.find_index(tenant, name) {
            Option::Some(i) => {
                proof {
                    lemma_spec_find_at(self@, i as int, tenant@, name@);
                }
                let existing = &self.records[i];
                proof {
                    assert(self@[i as int] == self.records@[i as int]@);
                }
                if is_flag_allowed(flags, &existing.feature_flag) {
                    Result::Ok(EventTypeOut::from_record(existing))
                } else {
                    Result::Err(RegistryError::NotFound)
                }
            },
            Option::None => Result::Err(RegistryError::NotFound),
        }
    }

    /// Full replace, upsert-style: overwrite every mutable field of the
    /// record with this name, or insert a new record if the name was
    /// nonexistent. The boolean of the result says whether a record was
    /// created. No other key is touched.
    pub fn update_event_type(
        &mut self,
        tenant: &Vec<u8>,
        name: &Vec<u8>,
        data: &EventTypeUpdate,
        now: u64,
    ) -> (r: Result<(bool, EventTypeOut), RegistryError>)
        requires
            old(self).wf(),
        ensures
            final(self).wf(),
            (!valid_token(name@) || !valid_update(data@)) ==> (r matches Result::Err(e) && e
                == RegistryError::Validation) && final(self)@ == old(self)@,
            (valid_token(name@) && valid_update(data@) && spec_find(old(self)@, tenant@, name@)
                is Some) ==> ({
                let ex = spec_find(old(self)@, tenant@, name@)->0;
                let rec = record_replaced(ex, data@, now);
                &&& r matches Result::Ok(pair) && !pair.0 && pair.1@ == out_of(rec, true)
                &&& spec_find(final(self)@, tenant@, name@) == Option::Some(rec)
                &&& final(self)@.len() == old(self)@.len()
                &&& exists|i: int|
                    key_at(old(self)@, i, tenant@, name@) && final(self)@ == old(self)@.update(
                        i,
                        rec,
                    )
            }),
            (valid_token(name@) && valid_update(data@) && spec_find(old(self)@, tenant@, name@)
                is None) ==> ({
                let rec = record_of_update(tenant@, name@, data@, now);
                &&& r matches Result::Ok(pair) && pair.0 && pair.1@ == out_of(rec, true)
                &&& spec_find(final(self)@, tenant@, name@) == Option::Some(rec)
                &&& final(self)@.len() == old(self)@.len() + 1
                &&& exists|p: int|
                    0 <= p <= old(self)@.len() && final(self)@ == old(self)@.insert(p, rec)
            }),
            forall|t: Seq<u8>, n: Seq<u8>|
                !(t == tenant@ && n == name@) ==> #[trigger] spec_find(final(self)@, t, n)
                    == spec_find(old(self)@, t, n),
    {
        if !(check_token(name) && check_control_free(&data.description) && check_opt_flag(
            &data.feature_flag,
        )) {
            return Result::Err(RegistryError::Validation);
        }
        match self.find_index(tenant, name) {
            Option::Some(i) => {
                proof {
                    lemma_spec_find_at(self@, i as int, tenant@, name@);
                }
                let existing = &self.records[i];
                proof {
                    assert(self@[i as int] == self.records@[i as int]@);
                }
                let mut model = existing.duplicate();
                data.update_model(&mut model);
                model.updated_at = now;
                proof {
                    assert(model@ == record_replaced(old(self)@[i as int], data@, now));
                }
                self.set_record(i, model);
                proof {
                    assert(self@[i as int] == model@);
                    assert(self@[i as int] == self.records@[i as int]@);
                }
                Result::Ok((false, EventTypeOut::from_record(&self.records[i])))
            },
            Option::None => {
                let mut model = EventTypeRecord {
                    tenant: copy_bytes(tenant),
                    name: copy_bytes(name),
                    description: Vec::new(),
                    deleted: false,
                    schemas: Option::None,
                    feature_flag: Option::None,
                    created_at: now,
                    updated_at: now,
                };
                data.update_model(&mut model);
                proof {
                    assert(model@ == record_of_update(tenant@, name@, data@, now));
                }
                let out = EventTypeOut::from_record(&model);
                self.insert_record(model);
                Result::Ok((true, out))
            },
        }
    }

    /// Tri-state partial update. Every supplied field is validated before
    /// any is written; a patch never creates a record. No other key is
    /// touched.
    pub fn patch_event_type(
        &mut self,
        tenant: &Vec<u8>,
        name: &Vec<u8>,
        patch: &EventTypePatch,
        now: u64,
    ) -> (r: Result<EventTypeOut, RegistryError>)
        requires
            old(self).wf(),
        ensures
            final(self).wf(),
            (!valid_token(name@) || !patch_valid(patch@)) ==> (r matches Result::Err(e) && e
                == RegistryError::Validation) && final(self)@ == old(self)@,
            (valid_token(name@) && patch_valid(patch@) && spec_find(old(self)@, tenant@, name@)
                is None) ==> (r matches Result::Err(e) && e == RegistryError::NotFound) && final(self)@ == old(self)@,
            (valid_token(name@) && patch_valid(patch@) && spec_find(old(self)@, tenant@, name@)
                is Some) ==> ({
                let ex = spec_find(old(self)@, tenant@, name@)->0;
                let rec = RecordModel { updated_at: now, ..apply_patch(ex, patch@) };
                &&& r matches Result::Ok(out) && out@ == out_of(rec, true)
                &&& spec_find(final(self)@, tenant@, name@) == Option::Some(rec)
                &&& final(self)@.len() == old(self)@.len()
                &&& exists|i: int|
                    key_at(old(self)@, i, tenant@, name@) && final(self)@ == old(self)@.update(
                        i,
                        rec,
                    )
            }),
            forall|t: Seq<u8>, n: Seq<u8>|
                !(t == tenant@ && n == name@) ==> #[trigger] spec_find(final(self)@, t, n)
                    == spec_find(old(self)@, t, n),
    {
        if !(check_token(name) && check_patch(patch)) {
            return Result::Err(RegistryError::Validation);
        }
        match self.find_index(tenant, name) {
            Option::Some(i) => {
                proof {
                    lemma_spec_find_at(self@, i as int, tenant@, name@);
                }
                let existing = &self.records[i];
                proof {
                    assert(self@[i as int] == self.records@[i as int]@);
                }
                let mut model = existing.duplicate();
                patch.update_model(&mut model);
                model.updated_at = now;
                self.set_record(i, model);
                proof {
                    assert(self@[i as int] == model@);
                    assert(self@[i as int] == self.records@[i as int]@);
                }
                Result::Ok(EventTypeOut::from_record(&self.records[i]))
            },
            Option::None => Result::Err(RegistryError::NotFound),
        }
    }

    /// Archive: idempotent soft-delete. The record keeps every field; only
    /// the archive mark is set. Succeeds whether or not the record was
    /// already archived; not found only when the name was never created.
    pub fn delete_event_type(&mut self, tenant: &Vec<u8>, name: &Vec<u8>, now: u64) -> (r: Result<
        (),
        RegistryError,
    >)
        requires
            old(self).wf(),
        ensures
            final(self).wf(),
            !valid_token(name@) ==> (r matches Result::Err(e) && e == RegistryError::Validation)
                && final(self)@ == old(self)@,
            (valid_token(name@) && spec_find(old(self)@, tenant@, name@) is None) ==> (
            r matches Result::Err(e) && e == RegistryError::NotFound) && final(self)@ == old(
                self,
            )@,
            (valid_token(name@) && spec_find(old(self)@, tenant@, name@) is Some) ==> ({
                let ex = spec_find(old(self)@, tenant@, name@)->0;
                let rec = record_archived(ex, now);
                &&& r is Ok
                &&& spec_find(final(self)@, tenant@, name@) == Option::Some(rec)
                &&& final(self)@.len() == old(self)@.len()
                &&& exists|i: int|
                    key_at(old(self)@, i, tenant@, name@) && final(self)@ == old(self)@.update(
                        i,
                        rec,
                    )
            }),
            forall|t: Seq<u8>, n: Seq<u8>|
                !(t == tenant@ && n == name@) ==> #[trigger] spec_find(final(self)@, t, n)
                    == spec_find(old(self)@, t, n),
    {
        if !check_token(name) {
            return Result::Err(RegistryError::Validation);
        }
        match self.find_index(tenant, name) {
            Option::Some(i) => {
                proof {
                    lemma_spec_find_at(self@, i as int, tenant@, name@);
                }
                let mut model = self.records[i].duplicate();
                model.deleted = true;
                model.updated_at = now;
                proof {
                    assert(self@[i as int] == self.records@[i as int]@);
                    assert(model@ == record_archived(old(self)@[i as int], now));
                }
                self.set_record(i, model);
                Result::Ok(())
            },
            Option::None => Result::Err(RegistryError::NotFound),
        }
    }

    /// One page of the tenant's records, ascending by name.
    ///
    /// The scan starts past the cursor (or at the tenant's first name),
    /// skips archived records unless asked for them, skips records the
    /// caller's feature flags exclude, and stops after one record more than
    /// the page size. A full lookahead means more records follow: the page
    /// is the first `limit` of them and the cursor names its last record.
    /// Otherwise this is the final page and no cursor is returned. Schema
    /// payloads are stripped unless content was asked for.
    pub fn list_event_types(
        &self,
        tenant: &Vec<u8>,
        iterator: &Option<Vec<u8>>,
        limit: usize,
        options: &ListFetchOptions,
        flags: &AllowedFeatureFlags,
    ) -> (r: ListResponse)
        requires
            self.wf(),
            1 <= limit < usize::MAX,
        ensures
            ({
                let q = query_results(
                    self@,
                    tenant@,
                    opt_bytes_view(*iterator),
                    options.include_archived,
                    *flags,
                );
                &&& (r.done <==> q.len() <= limit)
                &&& (r.done <==> r.iterator is None)
                &&& if q.len() <= limit {
                    &&& data_view(r.data@) == outs_of(q, options.with_content)
                } else {
                    &&& data_view(r.data@) == outs_of(
                        q.take(limit as int),
                        options.with_content,
                    )
                    &&& opt_bytes_view(r.iterator) == Option::Some(q[limit - 1].name)
                }
            }),
    {
        let ghost cursor = opt_bytes_view(*iterator);
        let ghost pred = query_pred(tenant@, cursor, options.include_archived, *flags);
        let n: usize = self.records.len();
        let mut data: Vec<EventTypeOut> = Vec::new();
        let ghost mut taken: Seq<RecordModel> = Seq::empty();
        let mut j: usize = 0;
        proof {
            assert(self@.take(0) =~= Seq::<RecordModel>::empty());
            assert(Seq::<RecordModel>::empty().filter(pred) =~= Seq::<RecordModel>::empty()) by {
                reveal(Seq::filter);
            }
            assert(data_view(data@) =~= outs_of(taken, options.with_content));
        }
        while j < n && data.len() < limit + 1
            invariant
                0 <= j <= n,
                n == self.records@.len(),
                self@.len() == n,
                limit < usize::MAX,
                pred == query_pred(tenant@, cursor, options.include_archived, *flags),
                cursor == opt_bytes_view(*iterator),
                taken == self@.take(j as int).filter(pred),
                data_view(data@) == outs_of(taken, options.with_content),
                data@.len() == taken.len(),
                data@.len() <= limit + 1,
            decreases n - j,
        {
            let rec = &self.records[j];
            proof {
                assert(self@[j as int] == self.records@[j as int]@);
            }
            let tenant_ok: bool = bytes_equal(&rec.tenant, tenant);
            let archived_ok: bool = options.include_archived || !rec.deleted;
            let cursor_ok: bool = match iterator {
                Option::None => true,
                Option::Some(c) => lex_before(c, &rec.name),
            };
            let flag_ok: bool = is_flag_allowed(flags, &rec.feature_flag);
            let ghost prev_taken = taken;
            let ghost prev_data = data@;
            if tenant_ok && archived_ok && cursor_ok && flag_ok {
                let out = if options.with_content {
                    EventTypeOut::from_record(rec)
                } else {
                    EventTypeOut::without_payload(rec)
                };
                data.push(out);
                proof {
                    taken = taken.push(self@[j as int]);
                }
            }
            proof {
                assert(pred(self@[j as int]) <==> (tenant_ok && archived_ok && cursor_ok
                    && flag_ok));
                assert(self@.take(j as int + 1) =~= self@.take(j as int).push(self@[j as int]));
                lemma_filter_push(self@.take(j as int), pred, self@[j as int]);
                if pred(self@[j as int]) {
                    assert(data@ == prev_data.push(data@[data@.len() - 1]));
                    assert forall|k: int|
                        0 <= k < data@.len() implies data_view(data@)[k] == outs_of(
                        taken,
                        options.with_content,
                    )[k] by {
                        if k < prev_data.len() {
                            assert(data_view(prev_data)[k] == outs_of(
                                prev_taken,
                                options.with_content,
                            )[k]);
                            assert(data@[k] == prev_data[k]);
                            assert(taken[k] == prev_taken[k]);
                        }
                    }
                    assert(data_view(data@) =~= outs_of(taken, options.with_content));
                }
            }
            j = j + 1;
        }
        let ghost q = query_results(self@, tenant@, cursor, options.include_archived, *flags);
        if data.len() <= limit {
            proof {
                assert(j == n);
                assert(self@.take(n as int) =~= self@);
            }
            ListResponse { data, iterator: Option::None, done: true }
        } else {
            proof {
                assert(data@.len() == limit + 1);
                assert(self@ =~= self@.take(j as int) + self@.skip(j as int));
                Seq::<RecordModel>::filter_distributes_over_add(
                    self@.take(j as int),
                    self@.skip(j as int),
                    pred,
                );
                assert(q == taken + self@.skip(j as int).filter(pred));
                assert(q.len() > limit);
                assert(q.take(limit as int) =~= taken.take(limit as int));
                assert(q[limit - 1] == taken[limit - 1]);
            }
            data.pop();
            proof {
                assert(data_view(data@) =~= outs_of(taken, options.with_content).take(
                    limit as int,
                ));
                assert(outs_of(taken, options.with_content).take(limit as int) =~= outs_of(
                    taken.take(limit as int),
                    options.with_content,
                ));
                assert(data_view(data@) == outs_of(q.take(limit as int), options.with_content));
            }
            let last = &data[limit - 1];
            proof {
                assert(data_view(data@)[limit - 1] == out_of(
                    q[limit - 1],
                    options.with_content,
                ));
                assert(last@.name == q[limit - 1].name);
            }
            let next = copy_bytes(&last.name);
            ListResponse { data, iterator: Option::Some(next), done: false }
        }
    }
}

/// Generating an example document from a schema is a declared stub: callers
/// get an explicit not-implemented error, never a silent no-op.
pub fn generate_schema_example(_schema: &Vec<u8>) -> (r: Result<Vec<u8>, RegistryError>)
    ensures
        r matches Result::Err(e) && e == RegistryError::NotImplemented,
{
    Result::Err(RegistryError::NotImplemented)
}

} // verus!

