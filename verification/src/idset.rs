//! Identity sets: duplicate-free vectors of identity strings.
//!
//! The read set, the favorite set and the seen set all live here. Stale
//! identities are harmless and never cleaned up, so the only operations are
//! membership, insertion and removal.

use vstd::prelude::*;

use crate::strutil;

verus! {

/// The character sequences of the identities.
pub open spec fn views_of(v: Seq<String>) -> Seq<Seq<char>> {
    v.map_values(|s: String| s@)
}

pub open spec fn contains_id(v: Seq<String>, x: Seq<char>) -> bool {
    views_of(v).contains(x)
}

pub open spec fn ids_unique(v: Seq<String>) -> bool {
    views_of(v).no_duplicates()
}

/// Membership.
pub fn id_contains(v: &Vec<String>, x: &str) -> (r: bool)
    ensures
        r == contains_id(v@, x@),
{
    strutil::vec_contains_str(v, x)
}

/// Adds an identity unless it is already there.
pub fn id_insert(v: &mut Vec<String>, x: &str)
    requires
        ids_unique(old(v)@),
    ensures
        ids_unique(final(v)@),
        contains_id(old(v)@, x@) ==> final(v)@ == old(v)@,
        !contains_id(old(v)@, x@) ==> views_of(final(v)@) == views_of(old(v)@).push(x@),
        forall|y: Seq<char>| contains_id(final(v)@, y) <==> (contains_id(old(v)@, y) || y == x@),
{
    let ghost v0 = v@;
    if !strutil::vec_contains_str(v, x) {
        v.push(String::from_str(x));
        proof {
            assert(views_of(v@) =~= views_of(v0).push(x@));
            assert forall|y: Seq<char>| contains_id(v@, y) implies (contains_id(v0, y) || y
                == x@) by {
                let j = choose|j: int| 0 <= j < views_of(v@).len() && views_of(v@)[j] == y;
                if j < v0.len() {
                    assert(views_of(v0)[j] == y);
                }
            }
            assert forall|y: Seq<char>| (contains_id(v0, y) || y == x@) implies contains_id(
                v@,
                y,
            ) by {
                if contains_id(v0, y) {
                    let j = choose|j: int| 0 <= j < views_of(v0).len() && views_of(v0)[j] == y;
                    assert(views_of(v@)[j] == y);
                } else {
                    assert(views_of(v@)[v0.len() as int] == x@);
                }
            }
        }
    } else {
        proof {
            assert forall|y: Seq<char>| contains_id(v@, y) <==> (contains_id(v0, y) || y
                == x@) by {
                if y == x@ {
                    assert(contains_id(v0, x@));
                }
            }
        }
    }
}

/// Removes an identity if it is there (its single occurrence).
pub fn id_remove(v: &mut Vec<String>, x: &str)
    requires
        ids_unique(old(v)@),
    ensures
        ids_unique(final(v)@),
        !contains_id(old(v)@, x@) ==> final(v)@ == old(v)@,
        forall|y: Seq<char>| contains_id(final(v)@, y) <==> (contains_id(old(v)@, y) && y != x@),
{
    let ghost v0 = v@;
    let mut i: usize = 0;
    while i < v.len()
        invariant
            i <= v.len(),
            v@ == v0,
            v0 == old(v)@,
            ids_unique(v0),
            forall|j: int| 0 <= j < i ==> views_of(v0)[j] != x@,
        decreases v.len() - i,
    {
        if strutil::str_eq(v[i].as_str(), x) {
            assert(views_of(v0)[i as int] == x@);
            v.remove(i);
            proof {
                assert(views_of(v@) =~= views_of(v0).remove(i as int));
                assert forall|a: int, b: int|
                    0 <= a < b < views_of(v@).len() implies views_of(v@)[a] != views_of(
                    v@,
                )[b] by {
                    let a0: int = if a < i { a } else { a + 1 };
                    let b0: int = if b < i { b } else { b + 1 };
                    assert(views_of(v@)[a] == views_of(v0)[a0]);
                    assert(views_of(v@)[b] == views_of(v0)[b0]);
                }
                assert forall|y: Seq<char>| contains_id(v@, y) implies (contains_id(v0, y) && y
                    != x@) by {
                    let j = choose|j: int| 0 <= j < views_of(v@).len() && views_of(v@)[j] == y;
                    let j0: int = if j < i { j } else { j + 1 };
                    assert(views_of(v0)[j0] == y);
                    if y == x@ {
                        assert(views_of(v0)[j0] == views_of(v0)[i as int]);
                        assert(j0 != i);
                        assert(false);
                    }
                }
                assert forall|y: Seq<char>| (contains_id(v0, y) && y != x@) implies contains_id(
                    v@,
                    y,
                ) by {
                    let j = choose|j: int| 0 <= j < views_of(v0).len() && views_of(v0)[j] == y;
                    assert(j != i);
                    if j < i {
                        assert(views_of(v@)[j] == y);
                    } else {
                        assert(views_of(v@)[j - 1] == y);
                    }
                }
            }
            return ;
        }
        i += 1;
    }
    proof {
        if contains_id(v0, x@) {
            let j = choose|j: int| 0 <= j < views_of(v0).len() && views_of(v0)[j] == x@;
            assert(views_of(v0)[j] != x@);
        }
    }
}

} // verus!
