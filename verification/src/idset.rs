//! A set of generation ids, kept as a vector without duplicates.

use vstd::prelude::*;

verus! {

/// No id occurs twice.
pub open spec fn unique_ids(s: Seq<u32>) -> bool {
    forall|i: int, j: int| 0 <= i < j < s.len() ==> s[i] != s[j]
}

/// Is the id present?
pub fn contains_id(v: &Vec<u32>, x: u32) -> (r: bool)
    ensures
        r == v@.contains(x),
{
    let mut i: usize = 0;
    while i < v.len()
        invariant
            i <= v@.len(),
            forall|j: int| 0 <= j < i ==> v@[j] != x,
        decreases v@.len() - i,
    {
        if v[i] == x {
            return true;
        }
        i += 1;
    }
    proof {
        assert(!v@.contains(x));
    }
    false
}

/// Add the id if it is absent.
pub fn insert_id(v: &mut Vec<u32>, x: u32)
    requires
        unique_ids(old(v)@),
    ensures
        unique_ids(final(v)@),
        final(v)@.contains(x),
        forall|y: u32| y != x ==> final(v)@.contains(y) == old(v)@.contains(y),
{
    if !contains_id(v, x) {
        let ghost pre = v@;
        v.push(x);
        proof {
            assert(v@[pre.len() as int] == x);
            assert(forall|k: int| 0 <= k < pre.len() ==> v@[k] == pre[k]);
            assert forall|y: u32| y != x implies v@.contains(y) == pre.contains(y) by {
                if pre.contains(y) {
                    let k = choose|k: int| 0 <= k < pre.len() && pre[k] == y;
                    assert(v@[k] == y);
                }
                if v@.contains(y) {
                    let k = choose|k: int| 0 <= k < v@.len() && v@[k] == y;
                    assert(k < pre.len());
                    assert(pre[k] == y);
                }
            }
        }
    }
}

/// Remove the id if it is present.
pub fn remove_id(v: &mut Vec<u32>, x: u32)
    requires
        unique_ids(old(v)@),
    ensures
        unique_ids(final(v)@),
        !final(v)@.contains(x),
        forall|y: u32| y != x ==> final(v)@.contains(y) == old(v)@.contains(y),
{
    let mut i: usize = 0;
    while i < v.len()
        invariant
            unique_ids(v@),
            v@ == old(v)@,
            i <= v@.len(),
            forall|j: int| 0 <= j < i ==> v@[j] != x,
        decreases v@.len() - i,
    {
        if v[i] == x {
            let ghost pre = v@;
            v.remove(i);
            proof {
                assert(pre[i as int] == x);
                assert(forall|k: int|
                    0 <= k < v@.len() ==> v@[k] == pre[(if k < i { k } else { k + 1 })]);
                assert(forall|k: int| 0 <= k < v@.len() ==> v@[k] != x);
                assert(!v@.contains(x));
                assert(unique_ids(v@));
                assert forall|y: u32| y != x implies v@.contains(y) == pre.contains(y) by {
                    if pre.contains(y) {
                        let k = choose|k: int| 0 <= k < pre.len() && pre[k] == y;
                        assert(k != i);
                        if k < i {
                            assert(v@[k] == y);
                        } else {
                            assert(v@[k - 1] == y);
                        }
                    }
                    if v@.contains(y) {
                        let k = choose|k: int| 0 <= k < v@.len() && v@[k] == y;
                        assert(pre[(if k < i { k } else { k + 1 })] == y);
                    }
                }
            }
            return;
        }
        i += 1;
    }
    proof {
        assert(!v@.contains(x));
    }
}

/// Flip membership of the id.
pub fn toggle_id(v: &mut Vec<u32>, x: u32)
    requires
        unique_ids(old(v)@),
    ensures
        unique_ids(final(v)@),
        final(v)@.contains(x) == !old(v)@.contains(x),
        forall|y: u32| y != x ==> final(v)@.contains(y) == old(v)@.contains(y),
{
    if contains_id(v, x) {
        remove_id(v, x);
    } else {
        insert_id(v, x);
    }
}

} // verus!
