use vstd::prelude::*;
use crate::types::{Listing, Principal};

verus! {

/// The position of `owner`'s listing, searching from the most recent one.
pub open spec fn find_owner(s: Seq<Listing>, owner: Principal) -> Option<int>
    decreases s.len(),
{
    if s.len() == 0 {
        None
    } else if s.last().car.owner == owner {
        Some(s.len() - 1)
    } else {
        find_owner(s.drop_last(), owner)
    }
}

/// No owner has two listings.
pub open spec fn owners_unique(s: Seq<Listing>) -> bool {
    forall|i: int, j: int|
        0 <= i < s.len() && 0 <= j < s.len() && i != j ==> s[i].car.owner != s[j].car.owner
}

/// The sum of all owners' escrow.
pub open spec fn escrow_total(s: Seq<Listing>) -> int
    decreases s.len(),
{
    if s.len() == 0 {
        0
    } else {
        escrow_total(s.drop_last()) + s.last().car.available_to_withdraw
    }
}

/// A found listing belongs to `owner`; when none is found, no listing does.
pub proof fn lemma_find_owner(s: Seq<Listing>, owner: Principal)
    ensures
        match find_owner(s, owner) {
            Some(i) => 0 <= i < s.len() && s[i].car.owner == owner,
            None => forall|k: int| 0 <= k < s.len() ==> s[k].car.owner != owner,
        },
    decreases s.len(),
{
    if s.len() > 0 && s.last().car.owner != owner {
        lemma_find_owner(s.drop_last(), owner);
        assert forall|k: int| 0 <= k < s.len() - 1 implies s[k] == s.drop_last()[k] by {}
    }
}

/// With unique owners, a listing is found exactly where it stands.
pub proof fn lemma_find_owner_at(s: Seq<Listing>, k: int)
    requires
        owners_unique(s),
        0 <= k < s.len(),
    ensures
        find_owner(s, s[k].car.owner) == Some(k),
{
    lemma_find_owner(s, s[k].car.owner);
}

/// An owner with no listing is not found.
pub proof fn lemma_find_owner_absent(s: Seq<Listing>, owner: Principal)
    requires
        forall|k: int| 0 <= k < s.len() ==> s[k].car.owner != owner,
    ensures
        find_owner(s, owner) is None,
{
    lemma_find_owner(s, owner);
}

/// Replacing one listing changes the total by the difference of their escrows.
pub proof fn lemma_escrow_update(s: Seq<Listing>, i: int, v: Listing)
    requires
        0 <= i < s.len(),
    ensures
        escrow_total(s.update(i, v)) == escrow_total(s) - s[i].car.available_to_withdraw
            + v.car.available_to_withdraw,
    decreases s.len(),
{
    let t = s.update(i, v);
    if i == s.len() - 1 {
        assert(t.drop_last() =~= s.drop_last());
    } else {
        assert(t.drop_last() =~= s.drop_last().update(i, v));
        lemma_escrow_update(s.drop_last(), i, v);
    }
}

/// Removing one listing takes its escrow off the total.
pub proof fn lemma_escrow_remove(s: Seq<Listing>, i: int)
    requires
        0 <= i < s.len(),
    ensures
        escrow_total(s.remove(i)) == escrow_total(s) - s[i].car.available_to_withdraw,
    decreases s.len(),
{
    let t = s.remove(i);
    if i == s.len() - 1 {
        assert(t =~= s.drop_last());
    } else {
        assert(t.drop_last() =~= s.drop_last().remove(i));
        lemma_escrow_remove(s.drop_last(), i);
    }
}

/// With no negative escrow, each escrow is at most the total.
pub proof fn lemma_escrow_bound(s: Seq<Listing>, i: int)
    requires
        0 <= i < s.len(),
        forall|k: int| 0 <= k < s.len() ==> s[k].car.available_to_withdraw >= 0,
    ensures
        0 <= s[i].car.available_to_withdraw <= escrow_total(s),
    decreases s.len(),
{
    lemma_escrow_nonneg(s.drop_last());
    if i < s.len() - 1 {
        lemma_escrow_bound(s.drop_last(), i);
    }
}

/// With no negative escrow, the total is non-negative.
pub proof fn lemma_escrow_nonneg(s: Seq<Listing>)
    requires
        forall|k: int| 0 <= k < s.len() ==> s[k].car.available_to_withdraw >= 0,
    ensures
        escrow_total(s) >= 0,
    decreases s.len(),
{
    if s.len() > 0 {
        lemma_escrow_nonneg(s.drop_last());
    }
}

/// With no negative escrow, a prefix never holds more escrow than the whole.
pub proof fn lemma_escrow_prefix(s: Seq<Listing>, k: int)
    requires
        0 <= k <= s.len(),
        forall|j: int| 0 <= j < s.len() ==> s[j].car.available_to_withdraw >= 0,
    ensures
        escrow_total(s.take(k)) <= escrow_total(s),
    decreases s.len(),
{
    if k < s.len() {
        assert(s.drop_last().take(k) =~= s.take(k));
        lemma_escrow_prefix(s.drop_last(), k);
    } else {
        assert(s.take(k) =~= s);
    }
}

/// Finds `owner`'s listing.
pub fn find_listing(v: &Vec<Listing>, owner: Principal) -> (r: Option<usize>)
    requires
        owners_unique(v@),
    ensures
        match r {
            Some(i) => find_owner(v@, owner) == Some(i as int),
            None => find_owner(v@, owner) is None,
        },
{
    let mut i: usize = 0;
    while i < v.len()
        invariant
            i <= v.len(),
            owners_unique(v@),
            forall|k: int| 0 <= k < i ==> v@[k].car.owner != owner,
        decreases v.len() - i,
    {
        if v[i].car.owner == owner {
            proof {
                lemma_find_owner_at(v@, i as int);
            }
            return Some(i);
        }
        i = i + 1;
    }
    proof {
        lemma_find_owner_absent(v@, owner);
    }
    None
}

} // verus!
