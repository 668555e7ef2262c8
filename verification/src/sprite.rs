//! Sprite setup and draw placement.
//!
//! A sprite's size is not known at construction: it is derived from the
//! texture after the rendering collaborator uploads it, and written back
//! into the entity through the mutable locator. At draw time the sprite is
//! anchored so that the entity's position sits at the middle of its bottom
//! edge.

use crate::components::{
    first_match, has_kind, sprite_of, Component, Entity, Kind, Position, Sprite, Vec2,
};
use crate::components::locate_mut1;
use crate::picker::pick_rest;
use vstd::prelude::*;

verus! {

/// Writes the uploaded texture's dimensions into the entity's first sprite
/// component, relocating it to the front as a side effect of the mutable
/// retrieval. Returns whether a sprite was found; an entity without one is
/// left untouched.
pub fn set_sprite_size(ent: &mut Entity, width: i64, height: i64) -> (found: bool)
    ensures
        found <==> has_kind(old(ent)@, Kind::Sprite),
        !found ==> final(ent)@ == old(ent)@,
        found ==> final(ent)@ == seq![
            Component::Sprite(
                (Sprite {
                    size: Vec2 { x: width, y: height },
                    ..sprite_of(old(ent)@[first_match(old(ent)@, Kind::Sprite)])
                }),
            ),
        ] + pick_rest(old(ent)@, first_match(old(ent)@, Kind::Sprite)),
{
    let s = ent.as_mut_slice();
    match locate_mut1(s, Kind::Sprite) {
        Some((c, _rest)) => {
            match c {
                Component::Sprite(sp) => {
                    sp.size = Vec2 { x: width, y: height };
                },
                _ => {
                    proof {
                        assert(false);
                    }
                },
            }
            true
        },
        None => false,
    }
}

/// The top-left corner at which a sprite is drawn: the entity's position is
/// the middle of the sprite's bottom edge, so the sprite is shifted left by
/// half its width and up by its full height.
pub fn sprite_anchor(pos: &Position, sprite: &Sprite) -> (r: (i64, i64))
    requires
        sprite.size.x >= 0,
        sprite.size.y >= 0,
        i64::MIN <= pos.x - sprite.size.x / 2,
        i64::MIN <= pos.y - sprite.size.y,
    ensures
        r.0 == pos.x - sprite.size.x / 2,
        r.1 == pos.y - sprite.size.y,
{
    let half: i64 = ((sprite.size.x as u64) / 2) as i64;
    (pos.x - half, pos.y - sprite.size.y)
}

} // verus!
