use ecs_kernel::components::{
    find_kind, find_kind2, first_of_kind, locate_mut1, locate_mut2, Component, Kind, PhysicsBody,
    Position, Sprite, Vec2,
};
use ecs_kernel::picker::pick_out;

fn body(gx: i64, gy: i64, vx: i64, vy: i64) -> PhysicsBody {
    PhysicsBody {
        bounding_box: Vec2 { x: 16, y: 16 },
        velocity: Vec2 { x: vx, y: vy },
        gravity: Vec2 { x: gx, y: gy },
        max_fallspeed: 400,
        jump_velocity: 200,
        max_runspeed: 400,
        run_acceleration: 200,
        ground_friction: 200,
        max_airspeed: 100,
        air_acceleration: 50,
        air_friction: 100,
        grounded: false,
    }
}

fn sprite() -> Sprite {
    Sprite { image: 0, texture: None, size: Vec2 { x: 0, y: 0 } }
}

#[test]
fn pick_empty_returns_none() {
    let mut v: Vec<i64> = Vec::new();
    assert!(pick_out(v.as_mut_slice(), 0).is_none());
}

#[test]
fn pick_first_is_target_rest_is_permutation() {
    let mut v: Vec<i64> = vec![10, 20, 30, 40];
    let (first, rest) = pick_out(v.as_mut_slice(), 2).unwrap();
    assert_eq!(*first, 30);
    assert_eq!(rest.to_vec(), vec![20, 10, 40]);
    let mut sorted = rest.to_vec();
    sorted.sort();
    assert_eq!(sorted, vec![10, 20, 40]);
}

#[test]
fn pick_at_front_keeps_rest_order() {
    let mut v: Vec<i64> = vec![7, 8, 9];
    let (first, rest) = pick_out(v.as_mut_slice(), 0).unwrap();
    assert_eq!(*first, 7);
    assert_eq!(rest.to_vec(), vec![8, 9]);
}

#[test]
fn picker_writes_independent() {
    let mut v: Vec<i64> = vec![10, 20, 30];
    {
        let (first, rest) = pick_out(v.as_mut_slice(), 1).unwrap();
        *first = 111;
        rest[0] = 222;
        assert_eq!(*first, 111);
        assert_eq!(rest[0], 222);
    }
    assert_eq!(v, vec![111, 222, 30]);
}

#[test]
fn picker_repeated_application() {
    let mut v: Vec<i64> = vec![1, 2, 3, 4];
    let (first, rest) = pick_out(v.as_mut_slice(), 3).unwrap();
    assert_eq!(*first, 4);
    assert_eq!(rest.to_vec(), vec![2, 3, 1]);
    let (second, rest2) = pick_out(rest, 1).unwrap();
    assert_eq!(*second, 3);
    assert_eq!(rest2.to_vec(), vec![2, 1]);
    *first = -4;
    *second = -3;
    rest2[0] = -2;
    assert_eq!(v, vec![-4, -3, -2, 1]);
}

#[test]
fn find_kind_returns_first_match_in_storage_order() {
    let ent = vec![
        Component::Sprite(sprite()),
        Component::Position(Position { x: 1, y: 1 }),
        Component::Position(Position { x: 2, y: 2 }),
    ];
    assert_eq!(find_kind(&ent, Kind::Position), Some(1));
    assert_eq!(find_kind(&ent, Kind::Sprite), Some(0));
    assert_eq!(find_kind(&ent, Kind::PhysicsBody), None);
}

#[test]
fn first_of_kind_returns_first_reference() {
    let ent = vec![
        Component::Sprite(sprite()),
        Component::Position(Position { x: 1, y: 1 }),
        Component::Position(Position { x: 2, y: 2 }),
    ];
    assert!(matches!(first_of_kind(&ent, Kind::Position), Some(Component::Position(p)) if p.x == 1));
    assert!(first_of_kind(&ent, Kind::PhysicsBody).is_none());
}

#[test]
fn find_kind2_requires_both_kinds() {
    let ent = vec![
        Component::Position(Position { x: 1, y: 1 }),
        Component::PhysicsBody(body(0, 10, 0, 0)),
    ];
    assert_eq!(find_kind2(&ent, Kind::PhysicsBody, Kind::Position), Some((1, 0)));
    assert_eq!(find_kind2(&ent, Kind::Sprite, Kind::Position), None);
}

#[test]
fn locator_on_no_match_yields_absent_result() {
    let mut empty: Vec<Component> = Vec::new();
    assert_eq!(find_kind(&empty, Kind::Position), None);
    assert!(locate_mut1(empty.as_mut_slice(), Kind::Position).is_none());

    let mut ent = vec![Component::Sprite(sprite())];
    assert!(locate_mut2(ent.as_mut_slice(), Kind::PhysicsBody, Kind::Position).is_none());
    assert_eq!(ent.len(), 1);
    assert!(matches!(ent[0], Component::Sprite(_)));
}

#[test]
fn locate_mut1_extracts_first_match() {
    let mut ent = vec![
        Component::Sprite(sprite()),
        Component::Position(Position { x: 5, y: 6 }),
    ];
    {
        let (c, rest) = locate_mut1(ent.as_mut_slice(), Kind::Position).unwrap();
        match c {
            Component::Position(p) => {
                assert_eq!(p.x, 5);
                p.x = 50;
            },
            _ => panic!("wrong kind"),
        }
        assert_eq!(rest.len(), 1);
        assert!(matches!(rest[0], Component::Sprite(_)));
    }
    assert!(matches!(ent[0], Component::Position(Position { x: 50, y: 6 })));
}

#[test]
fn locate_mut2_returns_matching_disjoint_references() {
    let mut ent = vec![
        Component::Sprite(sprite()),
        Component::Position(Position { x: 1, y: 2 }),
        Component::PhysicsBody(body(0, 10, 3, 4)),
    ];
    {
        let (c1, c2, rest) =
            locate_mut2(ent.as_mut_slice(), Kind::PhysicsBody, Kind::Position).unwrap();
        match (c1, c2) {
            (Component::PhysicsBody(b), Component::Position(p)) => {
                assert_eq!(b.velocity.x, 3);
                assert_eq!(p.x, 1);
                b.velocity.x = 33;
                p.x = 11;
            },
            _ => panic!("wrong kinds"),
        }
        assert_eq!(rest.len(), 1);
        assert!(matches!(rest[0], Component::Sprite(_)));
    }
    assert!(matches!(&ent[0], Component::PhysicsBody(b) if b.velocity.x == 33));
    assert!(matches!(&ent[1], Component::Position(p) if p.x == 11));
    assert!(matches!(&ent[2], Component::Sprite(_)));
}

#[test]
fn locate_mut2_failure_leaves_components_unchanged() {
    let mut ent = vec![
        Component::PhysicsBody(body(0, 10, 3, 4)),
        Component::Sprite(sprite()),
    ];
    assert!(locate_mut2(ent.as_mut_slice(), Kind::PhysicsBody, Kind::Position).is_none());
    assert_eq!(ent.len(), 2);
    assert!(matches!(&ent[0], Component::PhysicsBody(b) if b.velocity.x == 3 && b.gravity.y == 10));
    assert!(matches!(&ent[1], Component::Sprite(_)));
}
