//! Feature-flag visibility.
//!
//! Every call carries the caller's allowed feature flags, resolved by an
//! external tenant scope resolver: either unrestricted, or a concrete set of
//! flags. A record is visible when it carries no flag, or when its flag is in
//! the caller's set.

use vstd::prelude::*;

verus! {

/// The feature flags a caller is allowed to see.
pub enum AllowedFeatureFlags {
    All,
    Restricted(Vec<Vec<u8>>),
}

/// The flag of a record, as a mathematical value.
pub open spec fn opt_bytes_view(o: Option<Vec<u8>>) -> Option<Seq<u8>> {
    match o {
        Option::None => Option::None,
        Option::Some(v) => Option::Some(v@),
    }
}

/// The flag `f` is one of the byte strings in `set`.
pub open spec fn flag_in_set(set: Seq<Vec<u8>>, f: Seq<u8>) -> bool {
    exists|i: int| 0 <= i < set.len() && set[i]@ == f
}

/// A record tagged `tag` is visible to a caller with flag set `flags`:
/// always when the set is unrestricted or the record carries no tag,
/// otherwise exactly when the tag is one of the caller's flags.
pub open spec fn flag_allowed(flags: AllowedFeatureFlags, tag: Option<Seq<u8>>) -> bool {
    match flags {
        AllowedFeatureFlags::All => true,
        AllowedFeatureFlags::Restricted(set) => match tag {
            Option::None => true,
            Option::Some(f) => flag_in_set(set@, f),
        },
    }
}

/// Decides `flag_allowed` for a record's stored flag.
pub fn is_flag_allowed(flags: &AllowedFeatureFlags, tag: &Option<Vec<u8>>) -> (r: bool)
    ensures
        r <==> flag_allowed(*flags, opt_bytes_view(*tag)),
{
    match flags {
        AllowedFeatureFlags::All => true,
        AllowedFeatureFlags::Restricted(set) => match tag {
            Option::None => true,
            Option::Some(f) => contains_bytes(set, f),
        },
    }
}

/// `true` exactly when one of the byte strings in `set` equals `f`.
pub fn contains_bytes(set: &Vec<Vec<u8>>, f: &Vec<u8>) -> (r: bool)
    ensures
        r <==> flag_in_set(set@, f@),
{
    let n: usize = set.len();
    let mut i: usize = 0;
    while i < n
        invariant
            0 <= i <= n,
            n == set@.len(),
            forall|k: int| 0 <= k < i ==> set@[k]@ != f@,
        decreases n - i,
    {
        if bytes_equal(&set[i], f) {
            return true;
        }
        i = i + 1;
    }
    false
}

/// `true` exactly when the two byte strings are equal.
pub fn bytes_equal(a: &Vec<u8>, b: &Vec<u8>) -> (r: bool)
    ensures
        r <==> a@ == b@,
{
    let n: usize = a.len();
    if n != b.len() {
        return false;
    }
    let mut i: usize = 0;
    while i < n
        invariant
            0 <= i <= n,
            n == a@.len(),
            n == b@.len(),
            forall|k: int| 0 <= k < i ==> a@[k] == b@[k],
        decreases n - i,
    {
        if a[i] != b[i] {
            return false;
        }
        i = i + 1;
    }
    proof {
        assert(a@ =~= b@);
    }
    true
}

} // verus!
