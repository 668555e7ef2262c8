//! Components, entities, and the component locators.
//!
//! A component is one case of a closed tagged union (position, physics body,
//! sprite); an entity is an ordered, mutable collection of components. The
//! locators resolve a list of distinct requested component kinds from one
//! entity into simultaneously usable references: the read-only variant scans,
//! the mutable variant is built on the picker and relocates each match as it
//! extracts it.
//!
//! Scalar fields are fixed-point integers; the unit scale is the caller's
//! choice and the kernel never converts between units.

use crate::picker::{lemma_pick_rest_permutation, pick_out, pick_rest};
use vstd::multiset::Multiset;
use vstd::prelude::*;
use vstd::seq_lib::group_to_multiset_ensures;

verus! {

/// A two-dimensional vector of fixed-point scalars.
#[derive(Clone, Copy, Debug, PartialEq, Eq, Structural)]
pub struct Vec2 {
    pub x: i64,
    pub y: i64,
}

/// A world-space point.
#[derive(Clone, Copy, Debug, PartialEq, Eq, Structural)]
pub struct Position {
    pub x: i64,
    pub y: i64,
}

/// Movement state and configuration for one entity.
///
/// Only `velocity` and `gravity` are consumed by the physics step; the other
/// fields are configuration carried for a fuller movement model that this
/// kernel deliberately leaves unimplemented.
#[derive(Clone, Copy, Debug, PartialEq, Eq, Structural)]
pub struct PhysicsBody {
    pub bounding_box: Vec2,
    pub velocity: Vec2,
    pub gravity: Vec2,
    pub max_fallspeed: i64,
    pub jump_velocity: i64,
    pub max_runspeed: i64,
    pub run_acceleration: i64,
    pub ground_friction: i64,
    pub max_airspeed: i64,
    pub air_acceleration: i64,
    pub air_friction: i64,
    pub grounded: bool,
}

/// A drawable attached to an entity.
///
/// The image and texture are handles owned by the rendering collaborator;
/// the kernel only stores and hands them back. The size is derived from the
/// texture after upload, not supplied at construction time.
#[derive(Clone, Copy, Debug)]
pub struct Sprite {
    pub image: usize,
    pub texture: Option<usize>,
    pub size: Vec2,
}

/// One component: exactly one case of the closed variant set.
#[derive(Clone, Copy, Debug)]
pub enum Component {
    Position(Position),
    PhysicsBody(PhysicsBody),
    Sprite(Sprite),
}

/// The kind tag of a component, used to request components from a locator.
#[derive(Clone, Copy, Debug, PartialEq, Eq, Structural)]
pub enum Kind {
    Position,
    PhysicsBody,
    Sprite,
}

/// An entity: an ordered, mutable collection of components. The order is not
/// semantic; mutable retrieval reorders it as a side effect.
pub type Entity = Vec<Component>;

impl Component {
    /// The kind tag of this component.
    pub open spec fn kind(self) -> Kind {
        match self {
            Component::Position(_) => Kind::Position,
            Component::PhysicsBody(_) => Kind::PhysicsBody,
            Component::Sprite(_) => Kind::Sprite,
        }
    }

    /// Returns the kind tag of this component.
    pub fn kind_of(&self) -> (k: Kind)
        ensures
            k == self.kind(),
    {
        match self {
            Component::Position(_) => Kind::Position,
            Component::PhysicsBody(_) => Kind::PhysicsBody,
            Component::Sprite(_) => Kind::Sprite,
        }
    }
}

/// The payload of a physics-body component; arbitrary on the other cases.
pub open spec fn body_of(c: Component) -> PhysicsBody {
    match c {
        Component::PhysicsBody(b) => b,
        _ => arbitrary(),
    }
}

/// The payload of a position component; arbitrary on the other cases.
pub open spec fn position_of(c: Component) -> Position {
    match c {
        Component::Position(p) => p,
        _ => arbitrary(),
    }
}

/// The payload of a sprite component; arbitrary on the other cases.
pub open spec fn sprite_of(c: Component) -> Sprite {
    match c {
        Component::Sprite(s) => s,
        _ => arbitrary(),
    }
}

/// Whether the sequence holds at least one component of kind `k`.
pub open spec fn has_kind(s: Seq<Component>, k: Kind) -> bool {
    exists|i: int| 0 <= i < s.len() && s[i].kind() == k
}

/// The index of the first component of kind `k`, or the length when there is
/// none.
pub open spec fn first_match(s: Seq<Component>, k: Kind) -> int
    decreases s.len(),
{
    if s.len() == 0 {
        0
    } else if s[0].kind() == k {
        0
    } else {
        1 + first_match(s.drop_first(), k)
    }
}

/// `first_match` names the least index holding kind `k`, and equals the
/// length exactly when the kind is absent.
pub proof fn lemma_first_match(s: Seq<Component>, k: Kind)
    ensures
        0 <= first_match(s, k) <= s.len(),
        first_match(s, k) < s.len() ==> s[first_match(s, k)].kind() == k,
        forall|j: int| 0 <= j < first_match(s, k) ==> s[j].kind() != k,
        has_kind(s, k) <==> first_match(s, k) < s.len(),
    decreases s.len(),
{
    if s.len() == 0 {
    } else if s[0].kind() == k {
    } else {
        lemma_first_match(s.drop_first(), k);
        assert forall|j: int| 0 <= j < first_match(s, k) implies s[j].kind() != k by {
            if j > 0 {
                assert(s.drop_first()[j - 1] == s[j]);
            }
        }
        if has_kind(s, k) {
            let w = choose|i: int| 0 <= i < s.len() && s[i].kind() == k;
            assert(s.drop_first()[w - 1] == s[w]);
            assert(has_kind(s.drop_first(), k));
        }
        if has_kind(s.drop_first(), k) {
            let w = choose|i: int| 0 <= i < s.drop_first().len() && s.drop_first()[i].kind() == k;
            assert(s[w + 1] == s.drop_first()[w]);
        }
    }
}

/// Scans a component sequence from the start and returns the index of the
/// first component of kind `k`, or `None` when there is no such component.
fn scan_slice(s: &[Component], k: Kind) -> (r: Option<usize>)
    ensures
        r is Some <==> has_kind(s@, k),
        r is Some ==> r.unwrap() == first_match(s@, k),
{
    let n = s.len();
    let mut i: usize = 0;
    while i < n
        invariant
            i <= n,
            n == s@.len(),
            forall|j: int| 0 <= j < i ==> s@[j].kind() != k,
        decreases n - i,
    {
        if s[i].kind_of() == k {
            proof {
                lemma_first_match(s@, k);
                assert(s@[i as int].kind() == k);
                assert(has_kind(s@, k));
            }
            return Some(i);
        }
        i += 1;
    }
    None
}

/// Scans the entity from the start and returns the index of the first
/// component of kind `k`, or `None` when the entity holds no such component.
pub fn find_kind(ent: &Vec<Component>, k: Kind) -> (r: Option<usize>)
    ensures
        r is Some <==> has_kind(ent@, k),
        r is Some ==> r.unwrap() == first_match(ent@, k),
{
    scan_slice(ent.as_slice(), k)
}

/// Read-only locator for one kind: returns a shared reference to the first
/// component of kind `k` in storage order, or `None` when the entity holds
/// no such component. The entity is left exactly as it is.
pub fn first_of_kind<'a>(ent: &'a Vec<Component>, k: Kind) -> (r: Option<&'a Component>)
    ensures
        r is Some <==> has_kind(ent@, k),
        r is Some ==> *r.unwrap() == ent@[first_match(ent@, k)] && (*r.unwrap()).kind() == k,
{
    proof {
        lemma_first_match(ent@, k);
    }
    match find_kind(ent, k) {
        Some(i) => Some(&ent[i]),
        None => None,
    }
}

/// Read-only locator for two distinct kinds: scans the whole entity once per
/// requested kind and returns the index of the first match of each, in
/// requested order, or `None` when either kind is absent.
pub fn find_kind2(ent: &Vec<Component>, k1: Kind, k2: Kind) -> (r: Option<(usize, usize)>)
    requires
        k1 != k2,
    ensures
        r is Some <==> has_kind(ent@, k1) && has_kind(ent@, k2),
        r is Some ==> r.unwrap().0 == first_match(ent@, k1) && r.unwrap().1 == first_match(
            ent@,
            k2,
        ),
{
    match (find_kind(ent, k1), find_kind(ent, k2)) {
        (Some(i1), Some(i2)) => Some((i1, i2)),
        _ => None,
    }
}

/// Each slot of the picker remainder holds a named element of the input: the
/// old front element stands where the target stood, every other element is
/// shifted down by one.
pub proof fn lemma_pick_rest_index(s: Seq<Component>, at: int)
    requires
        0 <= at < s.len(),
    ensures
        pick_rest(s, at).len() == s.len() - 1,
        forall|i: int|
            0 <= i < s.len() - 1 ==> pick_rest(s, at)[i] == (if i + 1 == at {
                s[0]
            } else {
                s[i + 1]
            }),
{
}

/// Picking an element of one kind out of a sequence neither removes nor adds
/// components of any other kind.
pub proof fn lemma_pick_rest_kinds(s: Seq<Component>, at: int, k: Kind)
    requires
        0 <= at < s.len(),
        s[at].kind() != k,
    ensures
        has_kind(pick_rest(s, at), k) <==> has_kind(s, k),
{
    lemma_pick_rest_index(s, at);
    let r = pick_rest(s, at);
    if has_kind(r, k) {
        let i = choose|i: int| 0 <= i < r.len() && r[i].kind() == k;
        if i + 1 == at {
            assert(s[0].kind() == k);
        } else {
            assert(s[i + 1].kind() == k);
        }
    }
    if has_kind(s, k) {
        let j = choose|j: int| 0 <= j < s.len() && s[j].kind() == k;
        if j == 0 {
            assert(r[at - 1].kind() == k);
        } else {
            assert(r[j - 1].kind() == k);
        }
    }
}

/// Mutable locator for one requested kind: scans the entity for the first
/// component of kind `k` and applies the picker at its index, yielding an
/// exclusive reference to that component and the disjoint mutable remainder.
/// Fails with `None`, leaving the entity untouched, exactly when the kind is
/// absent.
pub fn locate_mut1<'a>(ent: &'a mut [Component], k: Kind) -> (r: Option<
    (&'a mut Component, &'a mut [Component]),
>)
    ensures
        r is Some <==> has_kind(old(ent)@, k),
        r is None ==> final(ent)@ == old(ent)@,
        r is Some ==> {
            &&& *(r.unwrap().0) == old(ent)@[first_match(old(ent)@, k)]
            &&& (*(r.unwrap().0)).kind() == k
            &&& (r.unwrap().1)@ == pick_rest(old(ent)@, first_match(old(ent)@, k))
            &&& final(ent)@ == seq![*final(r.unwrap().0)] + final(r.unwrap().1)@
        },
{
    match scan_slice(ent, k) {
        Some(i) => {
            proof {
                lemma_first_match(ent@, k);
            }
            match pick_out(ent, i) {
                Some((first, rest)) => Some((first, rest)),
                None => {
                    proof {
                        assert(false);
                    }
                    vstd::pervasive::unreached()
                },
            }
        },
        None => None,
    }
}

/// Mutable locator for two distinct requested kinds: resolves the first
/// `k1`-component by picking it out, then resolves `k2` on the remainder,
/// yielding two exclusive references that are simultaneously usable, plus
/// the final unmatched remainder. Fails with `None` exactly when either kind
/// is absent; on failure no component value has been changed or lost, and an
/// entity that lacked `k1` is left untouched.
pub fn locate_mut2<'a>(ent: &'a mut [Component], k1: Kind, k2: Kind) -> (r: Option<
    (&'a mut Component, &'a mut Component, &'a mut [Component]),
>)
    requires
        k1 != k2,
    ensures
        r is Some <==> has_kind(old(ent)@, k1) && has_kind(old(ent)@, k2),
        r is None ==> final(ent)@.to_multiset() == old(ent)@.to_multiset(),
        r is None && !has_kind(old(ent)@, k1) ==> final(ent)@ == old(ent)@,
        r is None && has_kind(old(ent)@, k1) ==> final(ent)@ == seq![
            old(ent)@[first_match(old(ent)@, k1)],
        ] + pick_rest(old(ent)@, first_match(old(ent)@, k1)),
        r is Some ==> ({
            let s0 = old(ent)@;
            let fm1 = first_match(s0, k1);
            let r1 = pick_rest(s0, fm1);
            let fm2 = first_match(r1, k2);
            &&& *(r.unwrap().0) == s0[fm1]
            &&& (*(r.unwrap().0)).kind() == k1
            &&& *(r.unwrap().1) == r1[fm2]
            &&& (*(r.unwrap().1)).kind() == k2
            &&& (r.unwrap().2)@ == pick_rest(r1, fm2)
            &&& final(ent)@ == seq![*final(r.unwrap().0), *final(r.unwrap().1)]
                + final(r.unwrap().2)@
        }),
{
    proof {
        lemma_first_match(old(ent)@, k1);
        if has_kind(old(ent)@, k1) {
            lemma_pick_rest_kinds(old(ent)@, first_match(old(ent)@, k1), k2);
        }
    }
    let ghost s0 = ent@;
    match locate_mut1(ent, k1) {
        Some((c1, rest1)) => {
            let ghost fm1 = first_match(s0, k1);
            match locate_mut1(rest1, k2) {
                Some((c2, rest2)) => {
                    proof {
                        assert(seq![*final(c1)] + (seq![*final(c2)] + final(rest2)@) =~= seq![
                            *final(c1),
                            *final(c2),
                        ] + final(rest2)@);
                    }
                    Some((c1, c2, rest2))
                },
                None => {
                    proof {
                        lemma_no_partial_mutation(s0, fm1);
                    }
                    None
                },
            }
        },
        None => None,
    }
}

/// Putting the picked element back in front of the picker remainder restores
/// the original components as a multiset: nothing was changed or lost.
proof fn lemma_no_partial_mutation(s: Seq<Component>, at: int)
    requires
        0 <= at < s.len(),
    ensures
        (seq![s[at]] + pick_rest(s, at)).to_multiset() == s.to_multiset(),
{
    broadcast use group_to_multiset_ensures;
    broadcast use vstd::multiset::group_multiset_axioms;
    broadcast use vstd::multiset::group_multiset_properties;

    lemma_pick_rest_permutation(s, at);
    vstd::seq_lib::lemma_multiset_commutative(seq![s[at]], pick_rest(s, at));
    assert(seq![s[at]].to_multiset() =~= Multiset::empty().insert(s[at]));
    assert(s.contains(s[at]));
    assert(s.to_multiset().count(s[at]) > 0);
    assert((seq![s[at]] + pick_rest(s, at)).to_multiset() =~= s.to_multiset());
}

} // verus!
