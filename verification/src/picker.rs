//! The picker: split a mutable sequence into one targeted element and the
//! disjoint remainder.
//!
//! Given a mutable slice and a target index, `pick_out` relocates the target
//! element to the front (exchanging it with the old front element) and then
//! partitions the slice into its first element and the rest. The two pieces
//! are simultaneously and independently mutable; repeated application on the
//! returned remainder extracts further elements.

use vstd::prelude::*;
use vstd::seq_lib::group_to_multiset_ensures;

verus! {

/// The remainder sequence left over after picking the element at `at` out of
/// `s`: the old front element takes the target's slot, and the front slot
/// (now holding the target) is split off.
pub open spec fn pick_rest<T>(s: Seq<T>, at: int) -> Seq<T> {
    s.update(at, s[0]).subrange(1, s.len() as int)
}

/// Splits `s` into an exclusive reference to the element originally at `at`
/// and the disjoint mutable remainder, or returns `None` on an empty slice.
///
/// The final value of the whole slice is exactly the final value written
/// through the returned first element followed by the final values of the
/// remainder: no write through either piece is lost or duplicated.
pub fn pick_out<'a, T>(s: &'a mut [T], at: usize) -> (r: Option<(&'a mut T, &'a mut [T])>)
    requires
        old(s)@.len() == 0 || at < old(s)@.len(),
    ensures
        r is None <==> old(s)@.len() == 0,
        r is None ==> final(s)@ == old(s)@,
        r is Some ==> {
            &&& *(r.unwrap().0) == old(s)@[at as int]
            &&& (r.unwrap().1)@ == pick_rest(old(s)@, at as int)
            &&& (r.unwrap().1)@.to_multiset() == old(s)@.to_multiset().remove(old(s)@[at as int])
            &&& final(s)@ == seq![*final(r.unwrap().0)] + final(r.unwrap().1)@
        },
{
    if s.len() == 0 {
        return None;
    }
    let ghost s0 = s@;
    if at > 0 {
        let (a, b) = s.split_at_mut(at);
        let x = a.first_mut();
        let y = b.first_mut();
        match (x, y) {
            (Some(xr), Some(yr)) => {
                core::mem::swap(xr, yr);
            },
            _ => {
                proof {
                    assert(false);
                }
            },
        }
        proof {
            assert(s@ =~= s0.update(0, s0[at as int]).update(at as int, s0[0]));
        }
    }
    let (f, rest) = s.split_at_mut(1);
    match f.first_mut() {
        Some(first) => {
            proof {
                assert(rest@ =~= pick_rest(s0, at as int));
                lemma_pick_rest_permutation(s0, at as int);
            }
            Some((first, rest))
        },
        None => {
            proof {
                assert(false);
            }
            vstd::pervasive::unreached()
        },
    }
}

/// The remainder produced by the picker is a permutation of the input with
/// one occurrence of the targeted element taken out: no element is lost or
/// duplicated by the relocate-then-split technique.
pub proof fn lemma_pick_rest_permutation<T>(s: Seq<T>, at: int)
    requires
        0 <= at < s.len(),
    ensures
        pick_rest(s, at).to_multiset() == s.to_multiset().remove(s[at]),
{
    broadcast use group_to_multiset_ensures;

    let u = s.update(at, s[0]);
    assert(u.remove(0) =~= pick_rest(s, at));
    assert(u.remove(0).to_multiset() == u.to_multiset().remove(u[0]));
    assert(pick_rest(s, at).to_multiset() =~= s.to_multiset().remove(s[at]));
}

} // verus!
