//! Laws of the registry, proved once and for all.
//!
//! Each proof function here states a property that relates several
//! operations, over the same spec functions their contracts use: the
//! create/get round trip, patch idempotence, the tri-state rules, feature
//! flag visibility, and the completeness of cursor pagination.

use vstd::prelude::*;
use crate::order::{lex_lt, lemma_lex_irreflexive, lemma_lex_transitive, lemma_lex_asymmetric};
use crate::model::{RecordModel, InModel, OutModel, out_of, record_of_input};
use crate::patch::{PatchModel, patch_valid, apply_patch};
use crate::registry::{
    key_lt, sorted_by_key, spec_find, matches_query, query_pred, query_results, lemma_filter_push,
};
use crate::visibility::{AllowedFeatureFlags, flag_allowed, flag_in_set};

verus! {

broadcast use vstd::seq_lib::group_filter_ensures;

/// Round trip: the record a successful create stores carries exactly the
/// fields of the input — so a get for the same tenant and name, by a caller
/// whose feature flags admit it, returns every field of the input with the
/// schema payload included, while the payload-stripped list view of the
/// same record differs from it in the schema alone.
pub proof fn lemma_create_get_round_trip(
    reg: Seq<RecordModel>,
    tenant: Seq<u8>,
    d: InModel,
    created_at: u64,
    now: u64,
    flags: AllowedFeatureFlags,
)
    requires
        spec_find(reg, tenant, d.name) == Option::Some(
            record_of_input(tenant, d, created_at, now),
        ),
        flag_allowed(flags, d.feature_flag),
    ensures
        ({
            let rec = spec_find(reg, tenant, d.name)->0;
            let out = out_of(rec, true);
            &&& flag_allowed(flags, rec.feature_flag)
            &&& out.name == d.name
            &&& out.description == d.description
            &&& out.deleted == d.deleted
            &&& out.schemas == d.schemas
            &&& out.feature_flag == d.feature_flag
            &&& out.created_at == created_at
            &&& out.updated_at == now
            &&& out_of(rec, false) == (OutModel { schemas: Option::None, ..out })
        }),
{
}

/// Patch idempotence: a valid partial update applied twice leaves the
/// record exactly as one application left it, write times included.
pub proof fn lemma_patch_idempotent(r: RecordModel, p: PatchModel, now: u64)
    ensures
        ({
            let once = RecordModel { updated_at: now, ..apply_patch(r, p) };
            let twice = RecordModel { updated_at: now, ..apply_patch(once, p) };
            twice == once
        }),
{
}

/// Tri-state rule, non-nullable side: an explicit clear of the description
/// is never a valid patch, so the patch operation rejects it with a
/// validation error before writing anything.
pub proof fn lemma_null_description_invalid(p: PatchModel)
    requires
        p.description is Null,
    ensures
        !patch_valid(p),
{
}

/// Tri-state rule, nullable side: an explicit clear of the schema payload
/// leaves the patched record with no payload, and an omitted field keeps
/// its stored value.
pub proof fn lemma_null_schema_clears(r: RecordModel, p: PatchModel)
    ensures
        p.schemas is Null ==> apply_patch(r, p).schemas is None,
        p.schemas is Absent ==> apply_patch(r, p).schemas == r.schemas,
        p.description is Absent ==> apply_patch(r, p).description == r.description,
{
}

/// Feature-flag visibility: a tagged record is visible to a caller with
/// unrestricted flags, visible to one whose set holds the tag, and
/// invisible to one whose set lacks it.
pub proof fn lemma_flag_visibility(tag: Seq<u8>, set: Vec<Vec<u8>>)
    ensures
        flag_allowed(AllowedFeatureFlags::All, Option::Some(tag)),
        flag_allowed(AllowedFeatureFlags::Restricted(set), Option::Some(tag)) <==> flag_in_set(
            set@,
            tag,
        ),
{
}

/// A record of the store appears in a list query's results exactly when the
/// query matches it: the tenant owns it, it is past the cursor, archived
/// records were asked for if it is archived, and the caller's feature flags
/// admit it.
pub proof fn lemma_listed_iff_matches(
    s: Seq<RecordModel>,
    tenant: Seq<u8>,
    cursor: Option<Seq<u8>>,
    include_archived: bool,
    flags: AllowedFeatureFlags,
    i: int,
)
    requires
        0 <= i < s.len(),
    ensures
        query_results(s, tenant, cursor, include_archived, flags).contains(s[i]) <==> matches_query(
            s[i],
            tenant,
            cursor,
            include_archived,
            flags,
        ),
{
    let p = query_pred(tenant, cursor, include_archived, flags);
    let q = s.filter(p);
    if q.contains(s[i]) {
        let j = choose|j: int| 0 <= j < q.len() && q[j] == s[i];
        assert(p(q[j]));
    }
}

/// Filtering by a conjunction is filtering by one conjunct, then the other.
pub proof fn lemma_filter_split(
    s: Seq<RecordModel>,
    p1: spec_fn(RecordModel) -> bool,
    p2: spec_fn(RecordModel) -> bool,
    pb: spec_fn(RecordModel) -> bool,
)
    requires
        forall|r: RecordModel| #[trigger] pb(r) <==> p1(r) && p2(r),
    ensures
        s.filter(pb) == s.filter(p1).filter(p2),
    decreases s.len(),
{
    reveal(Seq::filter);
    if s.len() == 0 {
        assert(s.filter(pb) =~= s.filter(p1).filter(p2));
    } else {
        let d = s.drop_last();
        let x = s.last();
        lemma_filter_split(d, p1, p2, pb);
        if p1(x) {
            lemma_filter_push(d.filter(p1), p2, x);
            assert(d.filter(p1).push(x) == s.filter(p1));
        }
    }
}

/// Filtering a sequence by a predicate that is false on a prefix and true
/// from position `k` on keeps exactly the suffix.
pub proof fn lemma_filter_suffix(q: Seq<RecordModel>, p: spec_fn(RecordModel) -> bool, k: int)
    requires
        0 <= k <= q.len(),
        forall|i: int| 0 <= i < k ==> !p(#[trigger] q[i]),
        forall|i: int| k <= i < q.len() ==> p(#[trigger] q[i]),
    ensures
        q.filter(p) == q.skip(k),
    decreases q.len(),
{
    reveal(Seq::filter);
    if q.len() == 0 {
        assert(q.filter(p) =~= q.skip(k));
    } else {
        let d = q.drop_last();
        let x = q.last();
        if k == q.len() {
            assert forall|i: int| 0 <= i < k - 1 implies !p(#[trigger] d[i]) by {
                assert(d[i] == q[i]);
            }
            lemma_filter_suffix(d, p, k - 1);
            assert(q.filter(p) =~= q.skip(k));
        } else {
            assert forall|i: int| 0 <= i < k implies !p(#[trigger] d[i]) by {
                assert(d[i] == q[i]);
            }
            assert forall|i: int| k <= i < d.len() implies p(#[trigger] d[i]) by {
                assert(d[i] == q[i]);
            }
            lemma_filter_suffix(d, p, k);
            assert(p(x));
            assert(q.filter(p) == d.skip(k).push(x));
            assert(d.skip(k).push(x) =~= q.skip(k));
        }
    }
}

/// A filter of a sorted store is sorted, and holds only records of the
/// store.
pub proof fn lemma_filter_sorted_contains(s: Seq<RecordModel>, p: spec_fn(RecordModel) -> bool)
    requires
        sorted_by_key(s),
    ensures
        sorted_by_key(s.filter(p)),
        forall|i: int| 0 <= i < s.filter(p).len() ==> s.contains(#[trigger] s.filter(p)[i]),
    decreases s.len(),
{
    reveal(Seq::filter);
    if s.len() > 0 {
        let d = s.drop_last();
        let x = s.last();
        assert forall|i: int, j: int| 0 <= i < j < d.len() implies key_lt(d[i], d[j]) by {
            assert(d[i] == s[i]);
            assert(d[j] == s[j]);
        }
        lemma_filter_sorted_contains(d, p);
        assert forall|i: int|
            0 <= i < s.filter(p).len() implies s.contains(#[trigger] s.filter(p)[i]) by {
            if p(x) && i == s.filter(p).len() - 1 {
                assert(s.filter(p)[i] == x);
                assert(s[s.len() - 1] == x);
            } else {
                assert(s.filter(p)[i] == d.filter(p)[i]);
                assert(d.contains(d.filter(p)[i]));
                let j = choose|j: int| 0 <= j < d.len() && d[j] == d.filter(p)[i];
                assert(s[j] == d.filter(p)[i]);
            }
        }
        if p(x) {
            let f = d.filter(p).push(x);
            assert(s.filter(p) == f);
            assert forall|i: int, j: int| 0 <= i < j < f.len() implies key_lt(f[i], f[j]) by {
                if j < f.len() - 1 {
                    assert(key_lt(d.filter(p)[i], d.filter(p)[j]));
                } else {
                    assert(f[j] == x);
                    assert(d.contains(d.filter(p)[i]));
                    let a = choose|a: int| 0 <= a < d.len() && d[a] == d.filter(p)[i];
                    assert(d[a] == s[a]);
                    assert(key_lt(s[a], s[s.len() - 1]));
                }
            }
        }
    }
}

/// One pagination step: when a page of `limit` records is returned with a
/// cursor — the name of its last record — the next query's results are
/// exactly the records after that page, in the same order. Nothing is
/// skipped and nothing repeats.
pub proof fn lemma_pagination_step(
    s: Seq<RecordModel>,
    tenant: Seq<u8>,
    cursor: Option<Seq<u8>>,
    limit: int,
    include_archived: bool,
    flags: AllowedFeatureFlags,
)
    requires
        sorted_by_key(s),
        1 <= limit,
        query_results(s, tenant, cursor, include_archived, flags).len() > limit,
    ensures
        ({
            let q = query_results(s, tenant, cursor, include_archived, flags);
            query_results(s, tenant, Option::Some(q[limit - 1].name), include_archived, flags)
                == q.skip(limit)
        }),
{
    let p = query_pred(tenant, cursor, include_archived, flags);
    let q = s.filter(p);
    lemma_filter_sorted_contains(s, p);
    let c = q[limit - 1].name;
    let p2 = query_pred(tenant, Option::Some(c), include_archived, flags);
    let extra = |r: RecordModel| lex_lt(c, r.name);
    assert(p(q[limit - 1]));
    assert forall|r: RecordModel| #[trigger] p2(r) <==> p(r) && extra(r) by {
        if p2(r) {
            match cursor {
                Option::Some(c0) => {
                    lemma_lex_transitive(c0, c, r.name);
                },
                Option::None => {},
            }
        }
    }
    lemma_filter_split(s, p, extra, p2);
    assert forall|i: int| 0 <= i < limit implies !extra(#[trigger] q[i]) by {
        assert(p(q[i]));
        if i < limit - 1 {
            assert(key_lt(q[i], q[limit - 1]));
            lemma_lex_irreflexive(tenant);
            lemma_lex_asymmetric(q[i].name, c);
        } else {
            lemma_lex_irreflexive(c);
        }
    }
    assert forall|i: int| limit <= i < q.len() implies extra(#[trigger] q[i]) by {
        assert(p(q[i]));
        assert(key_lt(q[limit - 1], q[i]));
        lemma_lex_irreflexive(tenant);
    }
    lemma_filter_suffix(q, extra, limit);
}

/// The records that chaining list pages hands out, page after page, until a
/// page comes back without a cursor.
pub open spec fn collect_pages(
    s: Seq<RecordModel>,
    tenant: Seq<u8>,
    cursor: Option<Seq<u8>>,
    limit: int,
    include_archived: bool,
    flags: AllowedFeatureFlags,
) -> Seq<RecordModel>
    decreases query_results(s, tenant, cursor, include_archived, flags).len()
        when 1 <= limit && sorted_by_key(s) via collect_pages_decreases
{
    let q = query_results(s, tenant, cursor, include_archived, flags);
    if q.len() <= limit {
        q
    } else {
        q.take(limit) + collect_pages(
            s,
            tenant,
            Option::Some(q[limit - 1].name),
            limit,
            include_archived,
            flags,
        )
    }
}

#[via_fn]
proof fn collect_pages_decreases(
    s: Seq<RecordModel>,
    tenant: Seq<u8>,
    cursor: Option<Seq<u8>>,
    limit: int,
    include_archived: bool,
    flags: AllowedFeatureFlags,
) {
    let q = query_results(s, tenant, cursor, include_archived, flags);
    if q.len() > limit {
        lemma_pagination_step(s, tenant, cursor, limit, include_archived, flags);
    }
}

/// Pagination completeness: chaining list calls with a fixed page size,
/// feeding each returned cursor into the next call, hands out exactly the
/// query's result sequence — every matching record once, in ascending name
/// order, no record skipped, none repeated — and the names on the way are
/// pairwise distinct.
pub proof fn lemma_pagination_complete(
    s: Seq<RecordModel>,
    tenant: Seq<u8>,
    cursor: Option<Seq<u8>>,
    limit: int,
    include_archived: bool,
    flags: AllowedFeatureFlags,
)
    requires
        sorted_by_key(s),
        1 <= limit,
    ensures
        collect_pages(s, tenant, cursor, limit, include_archived, flags) == query_results(
            s,
            tenant,
            cursor,
            include_archived,
            flags,
        ),
        ({
            let q = query_results(s, tenant, cursor, include_archived, flags);
            forall|i: int, j: int| 0 <= i < j < q.len() ==> q[i].name != q[j].name
        }),
    decreases query_results(s, tenant, cursor, include_archived, flags).len(),
{
    let p = query_pred(tenant, cursor, include_archived, flags);
    let q = s.filter(p);
    lemma_filter_sorted_contains(s, p);
    assert forall|i: int, j: int| 0 <= i < j < q.len() implies q[i].name != q[j].name by {
        assert(p(q[i]));
        assert(p(q[j]));
        assert(key_lt(q[i], q[j]));
        lemma_lex_irreflexive(tenant);
        lemma_lex_asymmetric(q[i].name, q[j].name);
    }
    if q.len() > limit {
        lemma_pagination_step(s, tenant, cursor, limit, include_archived, flags);
        lemma_pagination_complete(
            s,
            tenant,
            Option::Some(q[limit - 1].name),
            limit,
            include_archived,
            flags,
        );
        assert(q.take(limit) + q.skip(limit) =~= q);
    }
}

} // verus!
