//! The fixed-tick physics step.
//!
//! For one tick of duration `dt`, an entity's velocity is advanced by its
//! gravity and its position by the new velocity (explicit Euler, in that
//! order, with no clamping or friction). `dt` is measured in the same
//! fixed-point time unit that velocity and gravity are expressed over. An
//! entity that lacks a physics body or a position is skipped, never failed.

use crate::components::{
    body_of, first_match, has_kind, position_of, Component, Entity, Kind, PhysicsBody, Position,
    Vec2,
};
use crate::components::{find_kind, locate_mut2};
use crate::picker::pick_rest;
use vstd::prelude::*;

verus! {

/// Whether `x` is representable as a 64-bit signed integer.
pub open spec fn in_i64(x: int) -> bool {
    i64::MIN <= x <= i64::MAX
}

/// Whether every intermediate value of the Euler step along one axis stays
/// representable: the velocity delta, the new velocity, the position delta,
/// and the new position.
pub open spec fn axis_fits(p: int, v: int, g: int, dt: int) -> bool {
    &&& in_i64(g * dt)
    &&& in_i64(v + g * dt)
    &&& in_i64((v + g * dt) * dt)
    &&& in_i64(p + (v + g * dt) * dt)
}

/// Whether one Euler step over this body and position stays representable on
/// both axes.
pub open spec fn step_fits(b: PhysicsBody, p: Position, dt: int) -> bool {
    &&& axis_fits(p.x as int, b.velocity.x as int, b.gravity.x as int, dt)
    &&& axis_fits(p.y as int, b.velocity.y as int, b.gravity.y as int, dt)
}

/// The body after one Euler step: velocity advanced by gravity, every other
/// field kept.
pub open spec fn stepped_body(b: PhysicsBody, dt: int) -> PhysicsBody {
    PhysicsBody {
        velocity: Vec2 {
            x: (b.velocity.x + b.gravity.x * dt) as i64,
            y: (b.velocity.y + b.gravity.y * dt) as i64,
        },
        ..b
    }
}

/// The position after one Euler step: advanced by the already-updated
/// velocity.
pub open spec fn stepped_position(p: Position, b: PhysicsBody, dt: int) -> Position {
    Position {
        x: (p.x + (b.velocity.x + b.gravity.x * dt) * dt) as i64,
        y: (p.y + (b.velocity.y + b.gravity.y * dt) * dt) as i64,
    }
}

/// Integrates one tick: `velocity' = velocity + gravity * dt`, then
/// `position' = position + velocity' * dt`. Pure Euler, no clamping; the
/// configuration fields of the body are left untouched.
pub fn integrate(body: &mut PhysicsBody, pos: &mut Position, dt: i64)
    requires
        step_fits(*old(body), *old(pos), dt as int),
    ensures
        *final(body) == stepped_body(*old(body), dt as int),
        *final(pos) == stepped_position(*old(pos), *old(body), dt as int),
{
    let nvx = body.velocity.x + body.gravity.x * dt;
    let nvy = body.velocity.y + body.gravity.y * dt;
    pos.x = pos.x + nvx * dt;
    pos.y = pos.y + nvy * dt;
    body.velocity = Vec2 { x: nvx, y: nvy };
}

/// Whether the Euler step stays representable for every pairing of a physics
/// body and a position held by the entity. (An entity is expected to hold at
/// most one of each, but the bound is stated over all of them so that it does
/// not depend on which pair a locator resolves.)
pub open spec fn entity_fits(s: Seq<Component>, dt: int) -> bool {
    forall|i: int, j: int|
        0 <= i < s.len() && 0 <= j < s.len() && s[i].kind() == Kind::PhysicsBody && s[j].kind()
            == Kind::Position ==> step_fits(body_of(s[i]), position_of(s[j]), dt)
}

/// The entity after one physics tick: the first physics body and the first
/// position that a mutable locator resolves are replaced by their stepped
/// values and relocated to the front; an entity lacking either kind is kept
/// as it is.
pub open spec fn step_entity_spec(s: Seq<Component>, dt: int) -> Seq<Component> {
    if has_kind(s, Kind::PhysicsBody) && has_kind(s, Kind::Position) {
        let fm1 = first_match(s, Kind::PhysicsBody);
        let r1 = pick_rest(s, fm1);
        let fm2 = first_match(r1, Kind::Position);
        let b = body_of(s[fm1]);
        let p = position_of(r1[fm2]);
        seq![
            Component::PhysicsBody(stepped_body(b, dt)),
            Component::Position(stepped_position(p, b, dt)),
        ] + pick_rest(r1, fm2)
    } else {
        s
    }
}

/// Runs one physics tick over one entity: locates its physics body and its
/// position through the mutable locator and integrates them in place. An
/// entity that lacks either component is skipped unchanged in value.
pub fn step_entity(ent: &mut Entity, dt: i64)
    requires
        entity_fits(old(ent)@, dt as int),
    ensures
        final(ent)@ == step_entity_spec(old(ent)@, dt as int),
{
    let ghost s0 = ent@;
    if find_kind(ent, Kind::PhysicsBody).is_none() || find_kind(ent, Kind::Position).is_none() {
        return ;
    }
    let s = ent.as_mut_slice();
    match locate_mut2(s, Kind::PhysicsBody, Kind::Position) {
        Some((c1, c2, _rest)) => {
            proof {
                lemma_located_pair_fits(s0, dt as int);
            }
            match c1 {
                Component::PhysicsBody(b) => {
                    match c2 {
                        Component::Position(p) => {
                            integrate(b, p, dt);
                        },
                        _ => {
                            proof {
                                assert(false);
                            }
                        },
                    }
                },
                _ => {
                    proof {
                        assert(false);
                    }
                },
            }
            proof {
                assert(final(ent)@ =~= step_entity_spec(s0, dt as int));
            }
        },
        None => {
            proof {
                assert(false);
            }
        },
    }
}

/// The world as a sequence of component sequences.
pub open spec fn world_view(actors: Seq<Entity>) -> Seq<Seq<Component>> {
    Seq::new(actors.len(), |i: int| actors[i]@)
}

/// Whether one physics tick stays representable for every entity of the
/// world.
pub open spec fn world_fits(w: Seq<Seq<Component>>, dt: int) -> bool {
    forall|i: int| 0 <= i < w.len() ==> entity_fits(w[i], dt)
}

/// The world after one physics tick: every entity stepped once, in index
/// order.
pub open spec fn step_world_spec(w: Seq<Seq<Component>>, dt: int) -> Seq<Seq<Component>> {
    Seq::new(w.len(), |i: int| step_entity_spec(w[i], dt))
}

/// Runs one physics tick over every entity of the world, in index order.
pub fn step_world(actors: &mut Vec<Entity>, dt: i64)
    requires
        world_fits(world_view(old(actors)@), dt as int),
    ensures
        world_view(final(actors)@) == step_world_spec(world_view(old(actors)@), dt as int),
{
    let n = actors.len();
    let mut i: usize = 0;
    while i < n
        invariant
            i <= n,
            n == actors@.len(),
            actors@.len() == old(actors)@.len(),
            world_fits(world_view(old(actors)@), dt as int),
            forall|j: int|
                0 <= j < i ==> actors@[j]@ == step_entity_spec(old(actors)@[j]@, dt as int),
            forall|j: int| i <= j < n ==> actors@[j] == old(actors)@[j],
        decreases n - i,
    {
        proof {
            assert(world_view(old(actors)@)[i as int] == old(actors)@[i as int]@);
        }
        step_entity(&mut actors[i], dt);
        i += 1;
    }
    proof {
        assert(world_view(final(actors)@) =~= step_world_spec(
            world_view(old(actors)@),
            dt as int,
        ));
    }
}

/// Whether `k` successive physics ticks all stay representable, each tick
/// judged on the world that the previous ticks produce.
pub open spec fn ticks_fit(w: Seq<Seq<Component>>, dt: int, k: nat) -> bool
    decreases k,
{
    k > 0 ==> (world_fits(w, dt) && ticks_fit(step_world_spec(w, dt), dt, (k - 1) as nat))
}

/// The world after `k` physics ticks.
pub open spec fn world_after(w: Seq<Seq<Component>>, dt: int, k: nat) -> Seq<Seq<Component>>
    decreases k,
{
    if k == 0 {
        w
    } else {
        world_after(step_world_spec(w, dt), dt, (k - 1) as nat)
    }
}

/// Stepping once more after `k` ticks is one tick on the world after `k`.
pub proof fn lemma_world_after_unfold(w: Seq<Seq<Component>>, dt: int, k: nat)
    ensures
        world_after(w, dt, (k + 1) as nat) == step_world_spec(world_after(w, dt, k), dt),
    decreases k,
{
    if k == 0 {
        assert(world_after(step_world_spec(w, dt), dt, 0) == step_world_spec(w, dt));
        assert(world_after(w, dt, 1) == world_after(step_world_spec(w, dt), dt, 0));
    } else {
        lemma_world_after_unfold(step_world_spec(w, dt), dt, (k - 1) as nat);
    }
}

/// Runs `ticks` successive physics ticks over the world, each over every
/// entity once, in index order.
pub fn run_ticks(actors: &mut Vec<Entity>, dt: i64, ticks: u64)
    requires
        ticks_fit(world_view(old(actors)@), dt as int, ticks as nat),
    ensures
        world_view(final(actors)@) == world_after(world_view(old(actors)@), dt as int, ticks as nat),
{
    let mut t: u64 = 0;
    while t < ticks
        invariant
            t <= ticks,
            world_view(actors@) == world_after(world_view(old(actors)@), dt as int, t as nat),
            ticks_fit(world_view(actors@), dt as int, (ticks - t) as nat),
        decreases ticks - t,
    {
        proof {
            assert(ticks_fit(world_view(actors@), dt as int, (ticks - t) as nat));
            lemma_world_after_unfold(world_view(old(actors)@), dt as int, t as nat);
        }
        step_world(actors, dt);
        t += 1;
    }
}

/// Whether every intermediate of the Euler step along one axis would stay
/// representable, decided at run time.
fn axis_fits_check(p: i64, v: i64, g: i64, dt: i64) -> (b: bool)
    ensures
        b == axis_fits(p as int, v as int, g as int, dt as int),
{
    proof {
        assert((g as int) * (dt as int) <= 0x4000_0000_0000_0000_0000_0000_0000_0000
            && (g as int) * (dt as int) >= -0x4000_0000_0000_0000_0000_0000_0000_0000)
            by (nonlinear_arith)
            requires
                -0x8000_0000_0000_0000 <= g as int <= 0x7FFF_FFFF_FFFF_FFFF,
                -0x8000_0000_0000_0000 <= dt as int <= 0x7FFF_FFFF_FFFF_FFFF,
        ;
    }
    let gd: i128 = (g as i128) * (dt as i128);
    if gd < i64::MIN as i128 || gd > i64::MAX as i128 {
        return false;
    }
    let nv: i128 = (v as i128) + gd;
    if nv < i64::MIN as i128 || nv > i64::MAX as i128 {
        return false;
    }
    proof {
        assert((nv as int) * (dt as int) <= 0x4000_0000_0000_0000_0000_0000_0000_0000
            && (nv as int) * (dt as int) >= -0x4000_0000_0000_0000_0000_0000_0000_0000)
            by (nonlinear_arith)
            requires
                -0x8000_0000_0000_0000 <= nv as int <= 0x7FFF_FFFF_FFFF_FFFF,
                -0x8000_0000_0000_0000 <= dt as int <= 0x7FFF_FFFF_FFFF_FFFF,
        ;
    }
    let pd: i128 = nv * (dt as i128);
    if pd < i64::MIN as i128 || pd > i64::MAX as i128 {
        return false;
    }
    let np: i128 = (p as i128) + pd;
    if np < i64::MIN as i128 || np > i64::MAX as i128 {
        return false;
    }
    true
}

/// Decides at run time whether one physics tick over this entity stays
/// representable, so that an unverified caller can test the bound before it
/// asks for a step.
pub fn entity_fits_check(ent: &Vec<Component>, dt: i64) -> (b: bool)
    ensures
        b == entity_fits(ent@, dt as int),
{
    let n = ent.len();
    let mut i: usize = 0;
    while i < n
        invariant
            i <= n,
            n == ent@.len(),
            forall|i2: int, j2: int|
                0 <= i2 < i && 0 <= j2 < n && ent@[i2].kind() == Kind::PhysicsBody
                    && ent@[j2].kind() == Kind::Position ==> step_fits(
                    body_of(ent@[i2]),
                    position_of(ent@[j2]),
                    dt as int,
                ),
        decreases n - i,
    {
        match &ent[i] {
            Component::PhysicsBody(body) => {
                let mut j: usize = 0;
                while j < n
                    invariant
                        j <= n,
                        i < n,
                        n == ent@.len(),
                        ent@[i as int].kind() == Kind::PhysicsBody,
                        *body == body_of(ent@[i as int]),
                        forall|j2: int|
                            0 <= j2 < j && ent@[j2].kind() == Kind::Position ==> step_fits(
                                body_of(ent@[i as int]),
                                position_of(ent@[j2]),
                                dt as int,
                            ),
                    decreases n - j,
                {
                    match &ent[j] {
                        Component::Position(p) => {
                            let okx = axis_fits_check(p.x, body.velocity.x, body.gravity.x, dt);
                            let oky = axis_fits_check(p.y, body.velocity.y, body.gravity.y, dt);
                            if !okx || !oky {
                                proof {
                                    assert(ent@[j as int].kind() == Kind::Position);
                                    assert(!step_fits(
                                        body_of(ent@[i as int]),
                                        position_of(ent@[j as int]),
                                        dt as int,
                                    ));
                                }
                                return false;
                            }
                        },
                        _ => {},
                    }
                    j += 1;
                }
            },
            _ => {},
        }
        i += 1;
    }
    true
}

/// Decides at run time whether one physics tick over the whole world stays
/// representable.
pub fn world_fits_check(actors: &Vec<Entity>, dt: i64) -> (b: bool)
    ensures
        b == world_fits(world_view(actors@), dt as int),
{
    let n = actors.len();
    let mut i: usize = 0;
    while i < n
        invariant
            i <= n,
            n == actors@.len(),
            forall|j: int| 0 <= j < i ==> entity_fits(actors@[j]@, dt as int),
        decreases n - i,
    {
        if !entity_fits_check(&actors[i], dt) {
            proof {
                assert(world_view(actors@)[i as int] == actors@[i as int]@);
            }
            return false;
        }
        i += 1;
    }
    proof {
        assert forall|j: int| 0 <= j < world_view(actors@).len() implies entity_fits(
            world_view(actors@)[j],
            dt as int,
        ) by {
            assert(world_view(actors@)[j] == actors@[j]@);
        }
    }
    true
}

/// The pair of components that the mutable locator resolves for the physics
/// step is one of the pairs that `entity_fits` bounds.
proof fn lemma_located_pair_fits(s: Seq<Component>, dt: int)
    requires
        entity_fits(s, dt),
        has_kind(s, Kind::PhysicsBody),
        has_kind(s, Kind::Position),
    ensures
        step_fits(
            body_of(s[first_match(s, Kind::PhysicsBody)]),
            position_of(pick_rest(s, first_match(s, Kind::PhysicsBody))[first_match(
                pick_rest(s, first_match(s, Kind::PhysicsBody)),
                Kind::Position,
            )]),
            dt,
        ),
{
    let fm1 = first_match(s, Kind::PhysicsBody);
    crate::components::lemma_first_match(s, Kind::PhysicsBody);
    let r1 = pick_rest(s, fm1);
    crate::components::lemma_pick_rest_kinds(s, fm1, Kind::Position);
    crate::components::lemma_first_match(r1, Kind::Position);
    let fm2 = first_match(r1, Kind::Position);
    crate::components::lemma_pick_rest_index(s, fm1);
    if fm2 + 1 == fm1 {
        assert(r1[fm2] == s[0]);
    } else {
        assert(r1[fm2] == s[fm2 + 1]);
    }
}

} // verus!
