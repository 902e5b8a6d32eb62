//! The systems that couple the entity store to the physics side-table:
//! spawning, the per-kind update passes, and the prerender passes that
//! push one drawable record per live entity of a kind.
//!
//! The coupling invariant is the back-reference contract of the data
//! model: a collider's owner tag points at a live entity whose bundle
//! points back at that collider, so a ray hit resolves to its entity in
//! one step, and a despawn can tear both sides down together.

use vstd::prelude::*;

use crate::error::FatalError;
use crate::frustum::ObjectBound;
use crate::render_objects::{MaterialType, RenderObjects, RenderQueueData, ShapeMaterials, ShapeType};
use crate::geom::{Vec3, Vec4, FP_ONE};
use crate::gunman::{Bullet, Gunman, GunmanState, BULLET_LIFETIME_MS, GUNMAN_AIM_MS, GUNMAN_COOLDOWN_MAX_MS, GUNMAN_COOLDOWN_MIN_MS};
use crate::physics::{BodyHandle, BodyRec, ColliderHandle, ColliderRec, ColliderShape, GamePhysics};
use rand::rngs::SmallRng;
use crate::swordman::{sat32, Swordman};
use crate::target::{Target, TARGET_RADIUS_MM};
use crate::timer::Timer;
use crate::world::{ComponentBundle, EntityId, EntityKind, EntityWorld};

verus! {

/// Both sides of one entity's physics back-references hold: its collider
/// (if any) is live and tagged with the entity, a target's collider is a
/// ball, and its body (if any) is live.
pub open spec fn backref_ok(w: EntityWorld, p: GamePhysics, id: EntityId) -> bool {
    let b = w.spec_get(id).unwrap();
    &&& match b.collider {
        Some(h) => {
            &&& p.spec_collider(h) is Some
            &&& p.spec_collider(h).unwrap().owner == Some(id)
        },
        None => true,
    }
    &&& match b.body {
        Some(hb) => p.spec_body(hb) is Some,
        None => true,
    }
    &&& match b.kind {
        EntityKind::Target(_) => {
            &&& b.collider is Some
            &&& b.body is None
            &&& p.spec_collider(b.collider.unwrap()).unwrap().shape is Ball
        },
        _ => true,
    }
}

/// The store and the side-table agree: every live entity's back-references
/// hold, every owner tag points back at its entity, and no two entities
/// share a body.
pub open spec fn coupled(w: EntityWorld, p: GamePhysics) -> bool {
    &&& w.wf()
    &&& forall|id: EntityId| #[trigger] w.spec_live(id) ==> backref_ok(w, p, id)
    &&& forall|h: ColliderHandle|
        #[trigger] p.spec_owner_of(h) is Some ==> {
            let id = p.spec_owner_of(h).unwrap();
            &&& w.spec_live(id)
            &&& w.spec_get(id).unwrap().collider == Some(h)
        }
    &&& forall|id1: EntityId, id2: EntityId|
        #[trigger] w.spec_live(id1) && #[trigger] w.spec_live(id2) && id1 != id2 ==> !(
        w.spec_get(id1).unwrap().body is Some && w.spec_get(id1).unwrap().body == w.spec_get(
            id2,
        ).unwrap().body)
}

/// Spawn one entity together with its collider (and body, if it moves),
/// wiring the back-references both ways. The id and the collider slot are
/// fresh; nothing else in either store moves.
pub fn spawn_entity_with_collider(
    w: &mut EntityWorld,
    p: &mut GamePhysics,
    kind: EntityKind,
    shape: ColliderShape,
    pos: Vec3,
    body: Option<BodyRec>,
) -> (r: (EntityId, ColliderHandle))
    requires
        coupled(*old(w), *old(p)),
        old(w).slots@.len() < u32::MAX as int,
        old(p).colliders@.len() < u32::MAX as int,
        old(p).bodies@.len() < u32::MAX as int,
        kind is Target ==> shape is Ball && body is None,
    ensures
        coupled(*final(w), *final(p)),
        final(w).spec_live(r.0),
        !old(w).spec_live(r.0),
        !old(w).spec_spent(r.0),
        old(p).spec_collider(r.1) is None,
        ({
            let b = final(w).spec_get(r.0).unwrap();
            &&& b.kind == kind
            &&& b.collider == Some(r.1)
            &&& (body is Some <==> b.body is Some)
            &&& final(p).spec_collider(r.1) == Some(
                ColliderRec { owner: Some(r.0), shape, position: pos, parent: b.body },
            )
            &&& (body is Some ==> {
                &&& final(p).spec_body(b.body.unwrap()) == body
                &&& old(p).spec_body(b.body.unwrap()) is None
            })
        }),
        forall|o: EntityId| o != r.0 ==> final(w).spec_get(o) == old(w).spec_get(o),
        forall|o: EntityId| o != r.0 ==> (final(w).spec_live(o) <==> old(w).spec_live(o)),
        forall|o: EntityId| old(w).spec_spent(o) ==> final(w).spec_spent(o),
        forall|o: EntityId| final(w).spec_spent(o) ==> old(w).spec_spent(o),
        forall|h: ColliderHandle|
            h != r.1 ==> final(p).spec_collider(h) == old(p).spec_collider(h),
        forall|hb: BodyHandle|
            old(p).spec_body(hb) is Some ==> final(p).spec_body(hb) == old(p).spec_body(hb),
        final(w).slots@.len() <= old(w).slots@.len() + 1,
        final(p).colliders@.len() == old(p).colliders@.len() + 1,
        body is None ==> final(p).bodies@ == old(p).bodies@,
        body is Some ==> final(p).bodies@.len() == old(p).bodies@.len() + 1,
        final(p).gravity == old(p).gravity,
    {
        let bh: Option<BodyHandle> = match body {
            Some(rec) => Some(p.insert_body(rec)),
            None => None,
        };
        let id = w.spawn(ComponentBundle { kind, collider: None, body: bh });
        let ch = p.insert_collider(
            ColliderRec { owner: Some(id), shape, position: pos, parent: bh },
        );
        let full = ComponentBundle { kind, collider: Some(ch), body: bh };
        match w.set(id, full) {
            Ok(()) => {},
            Err(_) => {
                proof {
                    assert(false);
                }
            },
        }
        proof {
            let w0 = *old(w);
            let p0 = *old(p);
            let w2 = *w;
            let p2 = *p;
            assert forall|o: EntityId| #[trigger] w2.spec_live(o) implies backref_ok(
                w2,
                p2,
                o,
            ) by {
                if o == id {
                    assert(w2.spec_get(o) == Some(full));
                } else {
                    assert(w0.spec_live(o));
                    assert(backref_ok(w0, p0, o));
                    assert(w2.spec_get(o) == w0.spec_get(o));
                    let b = w0.spec_get(o).unwrap();
                    match b.collider {
                        Some(h) => {
                            assert(p0.spec_collider(h) is Some);
                            assert(h != ch);
                            assert(p2.spec_collider(h) == p0.spec_collider(h));
                        },
                        None => {},
                    }
                }
            }
            assert forall|h: ColliderHandle| #[trigger] p2.spec_owner_of(h) is Some implies {
                let o = p2.spec_owner_of(h).unwrap();
                &&& w2.spec_live(o)
                &&& w2.spec_get(o).unwrap().collider == Some(h)
            } by {
                if h == ch {
                    assert(p2.spec_owner_of(h) == Some(id));
                } else {
                    assert(p2.spec_collider(h) == p0.spec_collider(h));
                    assert(p0.spec_owner_of(h) is Some);
                    let o = p0.spec_owner_of(h).unwrap();
                    assert(w0.spec_live(o));
                    assert(o != id);
                }
            }
            assert forall|id1: EntityId, id2: EntityId|
                #[trigger] w2.spec_live(id1) && #[trigger] w2.spec_live(id2) && id1
                    != id2 implies !(w2.spec_get(id1).unwrap().body is Some && w2.spec_get(
                id1,
            ).unwrap().body == w2.spec_get(id2).unwrap().body) by {
                if id1 == id {
                    if w2.spec_get(id1).unwrap().body is Some {
                        let nb = w2.spec_get(id1).unwrap().body.unwrap();
                        assert(p0.spec_body(nb) is None);
                        assert(w0.spec_live(id2));
                        assert(backref_ok(w0, p0, id2));
                    }
                } else if id2 == id {
                    if w2.spec_get(id2).unwrap().body is Some {
                        let nb = w2.spec_get(id2).unwrap().body.unwrap();
                        assert(p0.spec_body(nb) is None);
                        assert(w0.spec_live(id1));
                        assert(backref_ok(w0, p0, id1));
                    }
                } else {
                    assert(w0.spec_live(id1));
                    assert(w0.spec_live(id2));
                }
            }
        }
        (id, ch)
    }

/// Spawn a target: a ball collider at `pos`, no body.
pub fn spawn_target(
    world: &mut EntityWorld,
    physics: &mut GamePhysics,
    pos: Vec3,
    target: Target,
) -> (r: (EntityId, ColliderHandle))
    requires
        coupled(*old(world), *old(physics)),
        old(world).slots@.len() < u32::MAX as int,
        old(physics).colliders@.len() < u32::MAX as int,
        old(physics).bodies@.len() < u32::MAX as int,
    ensures
        coupled(*final(world), *final(physics)),
        final(world).spec_live(r.0),
        !old(world).spec_live(r.0),
        !old(world).spec_spent(r.0),
        old(physics).spec_collider(r.1) is None,
        final(world).spec_get(r.0) == Some(
            ComponentBundle { kind: EntityKind::Target(target), collider: Some(r.1), body: None },
        ),
        final(physics).spec_collider(r.1) == Some(
            ColliderRec {
                owner: Some(r.0),
                shape: ColliderShape::Ball(TARGET_RADIUS_MM),
                position: pos,
                parent: None,
            },
        ),
        forall|o: EntityId| o != r.0 ==> final(world).spec_get(o) == old(world).spec_get(o),
        forall|o: EntityId|
            o != r.0 ==> (final(world).spec_live(o) <==> old(world).spec_live(o)),
        forall|o: EntityId| old(world).spec_spent(o) ==> final(world).spec_spent(o),
        forall|o: EntityId| final(world).spec_spent(o) ==> old(world).spec_spent(o),
        forall|h: ColliderHandle|
            h != r.1 ==> final(physics).spec_collider(h) == old(physics).spec_collider(h),
        forall|hb: BodyHandle|
            old(physics).spec_body(hb) is Some ==> final(physics).spec_body(hb) == old(physics).spec_body(hb),
        final(world).slots@.len() <= old(world).slots@.len() + 1,
        final(physics).colliders@.len() == old(physics).colliders@.len() + 1,
        final(physics).bodies@.len() == old(physics).bodies@.len(),
        final(physics).gravity == old(physics).gravity,
{
    spawn_entity_with_collider(
        world,
        physics,
        EntityKind::Target(target),
        ColliderShape::Ball(TARGET_RADIUS_MM),
        pos,
        None,
    )
}

/// Spawn a swordman: a capsule collider riding a dynamic body at `pos`.
pub fn spawn_swordman(
    world: &mut EntityWorld,
    physics: &mut GamePhysics,
    pos: Vec3,
    swordman: Swordman,
) -> (r: (EntityId, ColliderHandle))
    requires
        coupled(*old(world), *old(physics)),
        old(world).slots@.len() < u32::MAX as int,
        old(physics).colliders@.len() < u32::MAX as int,
        old(physics).bodies@.len() < u32::MAX as int,
    ensures
        coupled(*final(world), *final(physics)),
        final(world).spec_live(r.0),
        !old(world).spec_live(r.0),
        old(physics).spec_collider(r.1) is None,
        ({
            let b = final(world).spec_get(r.0).unwrap();
            &&& b.kind == EntityKind::Swordman(swordman)
            &&& b.collider == Some(r.1)
            &&& b.body is Some
            &&& final(physics).spec_body(b.body.unwrap()) == Some(
                BodyRec { position: pos, linvel: (Vec3 { x: 0i32, y: 0i32, z: 0i32 }) },
            )
        }),
        forall|o: EntityId| o != r.0 ==> final(world).spec_get(o) == old(world).spec_get(o),
        forall|o: EntityId|
            o != r.0 ==> (final(world).spec_live(o) <==> old(world).spec_live(o)),
        forall|h: ColliderHandle|
            h != r.1 ==> final(physics).spec_collider(h) == old(physics).spec_collider(h),
        forall|hb: BodyHandle|
            old(physics).spec_body(hb) is Some ==> final(physics).spec_body(hb) == old(physics).spec_body(hb),
    final(world).slots@.len() <= old(world).slots@.len() + 1,
        final(physics).colliders@.len() == old(physics).colliders@.len() + 1,
        final(physics).bodies@.len() == old(physics).bodies@.len() + 1,
{
    spawn_entity_with_collider(
        world,
        physics,
        EntityKind::Swordman(swordman),
        ColliderShape::Capsule { half_height: 760, radius: 200 },
        pos,
        Some(BodyRec { position: pos, linvel: Vec3 { x: 0, y: 0, z: 0 } }),
    )
}

/// Spawn a gunman: a capsule collider riding a dynamic body at `pos`.
pub fn spawn_gunman(
    world: &mut EntityWorld,
    physics: &mut GamePhysics,
    pos: Vec3,
    gunman: Gunman,
) -> (r: (EntityId, ColliderHandle))
    requires
        coupled(*old(world), *old(physics)),
        old(world).slots@.len() < u32::MAX as int,
        old(physics).colliders@.len() < u32::MAX as int,
        old(physics).bodies@.len() < u32::MAX as int,
    ensures
        coupled(*final(world), *final(physics)),
        final(world).spec_live(r.0),
        !old(world).spec_live(r.0),
        old(physics).spec_collider(r.1) is None,
        ({
            let b = final(world).spec_get(r.0).unwrap();
            &&& b.kind == EntityKind::Gunman(gunman)
            &&& b.collider == Some(r.1)
            &&& b.body is Some
            &&& final(physics).spec_body(b.body.unwrap()) == Some(
                BodyRec { position: pos, linvel: (Vec3 { x: 0i32, y: 0i32, z: 0i32 }) },
            )
        }),
        forall|o: EntityId| o != r.0 ==> final(world).spec_get(o) == old(world).spec_get(o),
        forall|o: EntityId|
            o != r.0 ==> (final(world).spec_live(o) <==> old(world).spec_live(o)),
        forall|h: ColliderHandle|
            h != r.1 ==> final(physics).spec_collider(h) == old(physics).spec_collider(h),
        forall|hb: BodyHandle|
            old(physics).spec_body(hb) is Some ==> final(physics).spec_body(hb) == old(physics).spec_body(hb),
    final(world).slots@.len() <= old(world).slots@.len() + 1,
        final(physics).colliders@.len() == old(physics).colliders@.len() + 1,
        final(physics).bodies@.len() == old(physics).bodies@.len() + 1,
{
    spawn_entity_with_collider(
        world,
        physics,
        EntityKind::Gunman(gunman),
        ColliderShape::Capsule { half_height: 760, radius: 200 },
        pos,
        Some(BodyRec { position: pos, linvel: Vec3 { x: 0, y: 0, z: 0 } }),
    )
}

/// Spawn a wall: static world geometry that belongs to an entity, so a
/// hit on it resolves to "no hittable component".
pub fn spawn_wall(
    world: &mut EntityWorld,
    physics: &mut GamePhysics,
    pos: Vec3,
    size: Vec3,
) -> (r: (EntityId, ColliderHandle))
    requires
        coupled(*old(world), *old(physics)),
        old(world).slots@.len() < u32::MAX as int,
        old(physics).colliders@.len() < u32::MAX as int,
        old(physics).bodies@.len() < u32::MAX as int,
    ensures
        coupled(*final(world), *final(physics)),
        final(world).spec_live(r.0),
        !old(world).spec_live(r.0),
        old(physics).spec_collider(r.1) is None,
        final(world).spec_get(r.0) == Some(
            ComponentBundle { kind: EntityKind::Wall, collider: Some(r.1), body: None },
        ),
        final(physics).spec_collider(r.1) == Some(
            ColliderRec {
                owner: Some(r.0),
                shape: ColliderShape::Cuboid(size),
                position: pos,
                parent: None,
            },
        ),
        forall|o: EntityId| o != r.0 ==> final(world).spec_get(o) == old(world).spec_get(o),
        forall|o: EntityId|
            o != r.0 ==> (final(world).spec_live(o) <==> old(world).spec_live(o)),
        forall|h: ColliderHandle|
            h != r.1 ==> final(physics).spec_collider(h) == old(physics).spec_collider(h),
        forall|hb: BodyHandle|
            old(physics).spec_body(hb) is Some ==> final(physics).spec_body(hb) == old(physics).spec_body(hb),
        final(physics).bodies@ == old(physics).bodies@,
        final(world).slots@.len() <= old(world).slots@.len() + 1,
        final(physics).colliders@.len() == old(physics).colliders@.len() + 1,
{
    spawn_entity_with_collider(
        world,
        physics,
        EntityKind::Wall,
        ColliderShape::Cuboid(size),
        pos,
        None,
    )
}

/// Spawn a bullet fired by `owner`: a small ball riding a body whose
/// velocity is the shot's travel per second.
pub fn spawn_bullet(
    world: &mut EntityWorld,
    physics: &mut GamePhysics,
    pos: Vec3,
    velocity: Vec3,
    owner: EntityId,
) -> (r: (EntityId, ColliderHandle))
    requires
        coupled(*old(world), *old(physics)),
        old(world).slots@.len() < u32::MAX as int,
        old(physics).colliders@.len() < u32::MAX as int,
        old(physics).bodies@.len() < u32::MAX as int,
    ensures
        coupled(*final(world), *final(physics)),
        final(world).spec_live(r.0),
        !old(world).spec_live(r.0),
        old(physics).spec_collider(r.1) is None,
        ({
            let b = final(world).spec_get(r.0).unwrap();
            &&& b.kind == EntityKind::Bullet(
                Bullet {
                    velocity,
                    owner,
                    lifetime: (Timer { remaining_ms: BULLET_LIFETIME_MS }),
                },
            )
            &&& b.collider == Some(r.1)
            &&& b.body is Some
            &&& final(physics).spec_body(b.body.unwrap()) == Some(
                BodyRec { position: pos, linvel: velocity },
            )
        }),
        forall|o: EntityId| o != r.0 ==> final(world).spec_get(o) == old(world).spec_get(o),
        forall|o: EntityId|
            o != r.0 ==> (final(world).spec_live(o) <==> old(world).spec_live(o)),
        forall|o: EntityId| final(world).spec_spent(o) <==> old(world).spec_spent(o),
        forall|h: ColliderHandle|
            h != r.1 ==> final(physics).spec_collider(h) == old(physics).spec_collider(h),
        forall|hb: BodyHandle|
            old(physics).spec_body(hb) is Some ==> final(physics).spec_body(hb) == old(physics).spec_body(hb),
        final(world).slots@.len() <= old(world).slots@.len() + 1,
        final(physics).colliders@.len() == old(physics).colliders@.len() + 1,
        final(physics).bodies@.len() == old(physics).bodies@.len() + 1,
{
    let bullet = Bullet::new(velocity, owner);
    spawn_entity_with_collider(
        world,
        physics,
        EntityKind::Bullet(bullet),
        ColliderShape::Ball(100),
        pos,
        Some(BodyRec { position: pos, linvel: velocity }),
    )
}

/// Tear one entity down completely: its bundle, its collider and its body
/// leave their stores together, in one call — the despawn protocol's
/// "remove both sides in the same tick". Fatal on a dead id.
pub fn despawn_entity(
    world: &mut EntityWorld,
    physics: &mut GamePhysics,
    id: EntityId,
) -> (r: Result<ComponentBundle, FatalError>)
    requires
        coupled(*old(world), *old(physics)),
    ensures
        coupled(*final(world), *final(physics)),
        final(physics).gravity == old(physics).gravity,
        final(world).slots@.len() == old(world).slots@.len(),
        final(physics).colliders@.len() == old(physics).colliders@.len(),
        match r {
            Ok(b) => {
                &&& old(world).spec_get(id) == Some(b)
                &&& !final(world).spec_live(id)
                &&& final(world).spec_spent(id)
                &&& (b.collider is Some ==> final(physics).spec_collider(b.collider.unwrap())
                    is None)
                &&& (b.body is Some ==> final(physics).spec_body(b.body.unwrap()) is None)
                &&& forall|o: EntityId|
                    o != id ==> final(world).spec_get(o) == old(world).spec_get(o)
                &&& forall|o: EntityId|
                    o != id ==> (final(world).spec_live(o) <==> old(world).spec_live(o))
                &&& forall|o: EntityId| old(world).spec_spent(o) ==> final(world).spec_spent(o)
                &&& forall|h: ColliderHandle|
                    b.collider != Some(h) ==> final(physics).spec_collider(h) == old(physics).spec_collider(h)
                &&& forall|hb: BodyHandle|
                    b.body != Some(hb) ==> final(physics).spec_body(hb) == old(physics).spec_body(hb)
                &&& (b.body is None ==> final(physics).bodies@ == old(physics).bodies@)
                &&& (b.collider is None ==> final(physics).colliders@ == old(
                    physics,
                ).colliders@)
            },
            Err(e) => {
                &&& e == FatalError::DeadEntity
                &&& !old(world).spec_live(id)
                &&& *final(world) == *old(world)
                &&& *final(physics) == *old(physics)
            },
        },
{
    let bundle = match world.despawn(id) {
        Ok(b) => b,
        Err(e) => {
            return Err(e);
        },
    };
    proof {
        assert(old(world).spec_live(id));
        assert(backref_ok(*old(world), *old(physics), id));
    }
    match bundle.collider {
        Some(h) => {
            match physics.remove_collider(h) {
                Ok(_) => {},
                Err(_) => {
                    proof {
                        assert(false);
                    }
                },
            }
        },
        None => {},
    }
    match bundle.body {
        Some(hb) => {
            match physics.remove_body(hb) {
                Ok(_) => {},
                Err(_) => {
                    proof {
                        assert(false);
                    }
                },
            }
        },
        None => {},
    }
    proof {
        let w0 = *old(world);
        let p0 = *old(physics);
        let w2 = *world;
        let p2 = *physics;
        assert forall|o: EntityId| #[trigger] w2.spec_live(o) implies backref_ok(w2, p2, o) by {
            assert(o != id);
            assert(w0.spec_live(o));
            assert(backref_ok(w0, p0, o));
            let b = w0.spec_get(o).unwrap();
            match b.collider {
                Some(h) => {
                    assert(p0.spec_owner_of(h) == Some(o));
                    assert(bundle.collider != Some(h));
                },
                None => {},
            }
            match b.body {
                Some(hb) => {
                    if bundle.body == Some(hb) {
                        assert(!(w0.spec_get(id).unwrap().body is Some && w0.spec_get(
                            id,
                        ).unwrap().body == w0.spec_get(o).unwrap().body));
                        assert(false);
                    }
                },
                None => {},
            }
        }
        assert forall|h: ColliderHandle| #[trigger] p2.spec_owner_of(h) is Some implies {
            let o = p2.spec_owner_of(h).unwrap();
            &&& w2.spec_live(o)
            &&& w2.spec_get(o).unwrap().collider == Some(h)
        } by {
            assert(bundle.collider != Some(h));
            assert(p2.spec_collider(h) == p0.spec_collider(h));
            let o = p0.spec_owner_of(h).unwrap();
            assert(w0.spec_live(o));
            assert(o != id);
        }
        assert forall|id1: EntityId, id2: EntityId|
            #[trigger] w2.spec_live(id1) && #[trigger] w2.spec_live(id2) && id1
                != id2 implies !(w2.spec_get(id1).unwrap().body is Some && w2.spec_get(
            id1,
        ).unwrap().body == w2.spec_get(id2).unwrap().body) by {
            assert(w0.spec_live(id1));
            assert(w0.spec_live(id2));
        }
    }
    Ok(bundle)
}

/// Is slot `i` a swordman riding a body?
pub open spec fn sw_at(w: EntityWorld, i: int) -> bool {
    &&& w.slots@[i] is Some
    &&& w.slots@[i].unwrap().kind is Swordman
    &&& w.slots@[i].unwrap().body is Some
}

/// The body handle of the swordman in slot `i`.
pub open spec fn sw_body(w: EntityWorld, i: int) -> BodyHandle {
    w.slots@[i].unwrap().body.unwrap()
}

/// The swordman component in slot `i`.
pub open spec fn sw_comp(w: EntityWorld, i: int) -> Swordman {
    w.slots@[i].unwrap().kind->Swordman_0
}

/// One movement tick for every swordman: each walks toward the tracked
/// player position and faces its travel, and its body follows; nothing
/// else in either store moves.
pub fn update_swordmans(
    world: &mut EntityWorld,
    physics: &mut GamePhysics,
    delta_ms: u32,
    player_position: &Vec3,
)
    requires
        coupled(*old(world), *old(physics)),
    ensures
        coupled(*final(world), *final(physics)),
        final(world).slots@.len() == old(world).slots@.len(),
        final(world).generations@ == old(world).generations@,
        final(physics).colliders@ == old(physics).colliders@,
        final(physics).gravity == old(physics).gravity,
        final(physics).bodies@.len() == old(physics).bodies@.len(),
        forall|i: int|
            0 <= i < old(world).slots@.len() && #[trigger] sw_at(*old(world), i) ==> {
                let b = old(world).slots@[i].unwrap();
                let rec = old(physics).spec_body(sw_body(*old(world), i)).unwrap();
                let stepped = sw_comp(*old(world), i).spec_step(
                    delta_ms,
                    rec.position,
                    *player_position,
                );
                &&& final(world).slots@[i] == Some(
                    ComponentBundle {
                        kind: EntityKind::Swordman(stepped.0),
                        collider: b.collider,
                        body: b.body,
                    },
                )
                &&& final(physics).spec_body(sw_body(*old(world), i)) == Some(
                    BodyRec { position: stepped.1, linvel: rec.linvel },
                )
            },
        forall|i: int|
            0 <= i < old(world).slots@.len() && !(#[trigger] sw_at(*old(world), i))
                ==> final(world).slots@[i] == old(world).slots@[i],
        forall|hb: BodyHandle|
            (forall|i: int|
                0 <= i < old(world).slots@.len() ==> !(#[trigger] sw_at(*old(world), i)
                    && sw_body(*old(world), i) == hb)) ==> #[trigger] final(physics).spec_body(
                hb,
            ) == old(physics).spec_body(hb),
{
    let ghost w0 = *old(world);
    let ghost p0 = *old(physics);
    let n = world.slot_count();
    let mut i: usize = 0;
    while i < n
        invariant
            coupled(w0, p0),
            world.wf(),
            n == w0.slots@.len(),
            i <= n,
            world.slots@.len() == n,
            world.generations@ == w0.generations@,
            physics.colliders@ == p0.colliders@,
            physics.gravity == p0.gravity,
            physics.bodies@.len() == p0.bodies@.len(),
            forall|j: int| i <= j < n ==> world.slots@[j] == #[trigger] w0.slots@[j],
            forall|j: int|
                0 <= j < i && #[trigger] sw_at(w0, j) ==> {
                    let b = w0.slots@[j].unwrap();
                    let rec = p0.spec_body(sw_body(w0, j)).unwrap();
                    let stepped = sw_comp(w0, j).spec_step(
                        delta_ms,
                        rec.position,
                        *player_position,
                    );
                    &&& world.slots@[j] == Some(
                        ComponentBundle {
                            kind: EntityKind::Swordman(stepped.0),
                            collider: b.collider,
                            body: b.body,
                        },
                    )
                    &&& physics.spec_body(sw_body(w0, j)) == Some(
                        BodyRec { position: stepped.1, linvel: rec.linvel },
                    )
                },
            forall|j: int|
                0 <= j < i && !(#[trigger] sw_at(w0, j)) ==> world.slots@[j] == w0.slots@[j],
            forall|hb: BodyHandle|
                (forall|j: int|
                    0 <= j < i ==> !(#[trigger] sw_at(w0, j) && sw_body(w0, j) == hb))
                    ==> #[trigger] physics.spec_body(hb) == p0.spec_body(hb),
        decreases n - i,
    {
        let process = match &world.slots[i] {
            Some(b) => matches!(b.kind, EntityKind::Swordman(_)) && b.body.is_some(),
            None => false,
        };
        if process {
            proof {
                assert(world.slots@[i as int] == w0.slots@[i as int]);
                assert(sw_at(w0, i as int));
                let lid = EntityId { index: i as u32, generation: w0.generations@[i as int] };
                assert(w0.spec_live(lid));
                assert(backref_ok(w0, p0, lid));
                assert(w0.spec_get(lid) == w0.slots@[i as int]);
                assert(p0.spec_body(sw_body(w0, i as int)) is Some);
            }
            let b = match &world.slots[i] {
                Some(bb) => *bb,
                None => {
                    proof {
                        assert(false);
                    }
                    ComponentBundle { kind: EntityKind::Wall, collider: None, body: None }
                },
            };
            let bh = match b.body {
                Some(h) => h,
                None => {
                    proof {
                        assert(false);
                    }
                    BodyHandle { index: 0 }
                },
            };
            let mut sw = match b.kind {
                EntityKind::Swordman(s) => s,
                _ => {
                    proof {
                        assert(false);
                    }
                    Swordman::new()
                },
            };
            proof {
                assert forall|j: int| 0 <= j < i implies !(sw_at(w0, j) && sw_body(w0, j)
                    == bh) by {
                    if sw_at(w0, j) && sw_body(w0, j) == bh {
                        let id_j = EntityId { index: j as u32, generation: w0.generations@[j] };
                        let id_i = EntityId {
                            index: i as u32,
                            generation: w0.generations@[i as int],
                        };
                        assert(w0.spec_live(id_j));
                        assert(w0.spec_live(id_i));
                        assert(id_j != id_i);
                        assert(w0.spec_get(id_j).unwrap().body == w0.spec_get(
                            id_i,
                        ).unwrap().body);
                        assert(false);
                    }
                }
                assert(physics.spec_body(bh) == p0.spec_body(bh));
            }
            let rec = match physics.get_body(bh) {
                Some(r) => *r,
                None => {
                    proof {
                        assert(false);
                    }
                    BodyRec {
                        position: Vec3 { x: 0, y: 0, z: 0 },
                        linvel: Vec3 { x: 0, y: 0, z: 0 },
                    }
                },
            };
            let mut pos = rec.position;
            sw.update(delta_ms, &mut pos, player_position);
            match physics.set_body_position(bh, pos) {
                Ok(()) => {},
                Err(_) => {
                    proof {
                        assert(false);
                    }
                },
            }
            let id = world.id_at(i);
            match world.set(
                id,
                ComponentBundle {
                    kind: EntityKind::Swordman(sw),
                    collider: b.collider,
                    body: b.body,
                },
            ) {
                Ok(()) => {},
                Err(_) => {
                    proof {
                        assert(false);
                    }
                },
            }
            proof {
                assert(world.slots@[i as int] == Some(
                    ComponentBundle {
                        kind: EntityKind::Swordman(sw),
                        collider: b.collider,
                        body: b.body,
                    },
                ));
                assert(physics.spec_body(bh) == Some(
                    BodyRec { position: pos, linvel: rec.linvel },
                ));
            }
        } else {
            proof {
                assert(world.slots@[i as int] == w0.slots@[i as int]);
                assert(!sw_at(w0, i as int));
            }
        }
        i = i + 1;
    }
    proof {
        let w2 = *world;
        let p2 = *physics;
        assert forall|o: EntityId| #[trigger] w2.spec_live(o) implies w0.spec_live(o)
            && w2.spec_get(o).unwrap().collider == w0.spec_get(o).unwrap().collider
            && w2.spec_get(o).unwrap().body == w0.spec_get(o).unwrap().body by {
            let j = o.index as int;
            if sw_at(w0, j) {
                assert(w0.slots@[j] is Some);
            } else {
                assert(w2.slots@[j] == w0.slots@[j]);
            }
        }
        assert forall|o: EntityId| #[trigger] w0.spec_live(o) implies w2.spec_live(o) by {
            let j = o.index as int;
            if sw_at(w0, j) {
            } else {
                assert(w2.slots@[j] == w0.slots@[j]);
            }
        }
        assert forall|hb: BodyHandle| #[trigger] p0.spec_body(hb) is Some implies p2.spec_body(
            hb,
        ) is Some by {
            if exists|jj: int| 0 <= jj < n && #[trigger] sw_at(w0, jj) && sw_body(w0, jj)
                == hb {
                let jj = choose|jj: int|
                    0 <= jj < n && #[trigger] sw_at(w0, jj) && sw_body(w0, jj) == hb;
                assert(p2.spec_body(hb) is Some);
            } else {
                assert forall|jv: int| 0 <= jv < n implies !(sw_at(w0, jv) && sw_body(w0, jv)
                    == hb) by {
                    if sw_at(w0, jv) && sw_body(w0, jv) == hb {
                        assert(false);
                    }
                }
                assert(p2.spec_body(hb) == p0.spec_body(hb));
            }
        }
        assert forall|o: EntityId| #[trigger] w2.spec_live(o) implies backref_ok(w2, p2, o) by {
            assert(w0.spec_live(o));
            assert(backref_ok(w0, p0, o));
            let b0 = w0.spec_get(o).unwrap();
            let j = o.index as int;
            if sw_at(w0, j) {
            } else {
                assert(w2.slots@[j] == w0.slots@[j]);
            }
            match b0.body {
                Some(hb) => {
                    assert(p0.spec_body(hb) is Some);
                },
                None => {},
            }
        }
        assert forall|h: ColliderHandle| #[trigger] p2.spec_owner_of(h) is Some implies {
            let o = p2.spec_owner_of(h).unwrap();
            &&& w2.spec_live(o)
            &&& w2.spec_get(o).unwrap().collider == Some(h)
        } by {
            assert(p2.spec_collider(h) == p0.spec_collider(h));
            assert(p0.spec_owner_of(h) is Some);
            let o = p0.spec_owner_of(h).unwrap();
            assert(w0.spec_live(o));
        }
        assert forall|id1: EntityId, id2: EntityId|
            #[trigger] w2.spec_live(id1) && #[trigger] w2.spec_live(id2) && id1
                != id2 implies !(w2.spec_get(id1).unwrap().body is Some && w2.spec_get(
            id1,
        ).unwrap().body == w2.spec_get(id2).unwrap().body) by {
            assert(w0.spec_live(id1));
            assert(w0.spec_live(id2));
        }
    }
}

/// Is slot `i` a gunman riding a body?
pub open spec fn gm_at(w: EntityWorld, i: int) -> bool {
    &&& w.slots@[i] is Some
    &&& w.slots@[i].unwrap().kind is Gunman
    &&& w.slots@[i].unwrap().body is Some
}

/// The body handle of the gunman in slot `i`.
pub open spec fn gm_body(w: EntityWorld, i: int) -> BodyHandle {
    w.slots@[i].unwrap().body.unwrap()
}

/// The gunman component in slot `i`.
pub open spec fn gm_comp(w: EntityWorld, i: int) -> Gunman {
    w.slots@[i].unwrap().kind->Gunman_0
}

/// Does this gunman's fire cycle discharge on a tick of `delta_ms`?
pub open spec fn gunman_fires(g: Gunman, delta_ms: u32) -> bool {
    match g.state {
        GunmanState::Aim(t) => t.spec_updated(delta_ms).remaining_ms == 0,
        GunmanState::Idle(_) => false,
    }
}

/// The fire-cycle relation of one tick: what `Gunman::update` promises,
/// with the fresh cooldown constrained to its band.
pub open spec fn gunman_step_ok(g: Gunman, g2: Gunman, delta_ms: u32) -> bool {
    &&& g2.health == g.health
    &&& match g.state {
        GunmanState::Idle(t) => {
            let left = t.spec_updated(delta_ms);
            if left.remaining_ms == 0 {
                g2.state == GunmanState::Aim(Timer { remaining_ms: GUNMAN_AIM_MS })
            } else {
                g2.state == GunmanState::Idle(left)
            }
        },
        GunmanState::Aim(t) => {
            let left = t.spec_updated(delta_ms);
            if left.remaining_ms == 0 {
                match g2.state {
                    GunmanState::Idle(c) => GUNMAN_COOLDOWN_MIN_MS <= c.remaining_ms
                        < GUNMAN_COOLDOWN_MAX_MS,
                    GunmanState::Aim(_) => false,
                }
            } else {
                g2.state == GunmanState::Aim(left)
            }
        },
    }
}

/// How many gunmen in the first `n` slots discharge this tick.
pub open spec fn fired_count(w: EntityWorld, delta_ms: u32, n: int) -> int
    decreases n,
{
    if n <= 0 {
        0
    } else {
        fired_count(w, delta_ms, n - 1) + if gm_at(w, n - 1) && gunman_fires(
            gm_comp(w, n - 1),
            delta_ms,
        ) {
            1int
        } else {
            0int
        }
    }
}

/// The shot one gunman slot takes: aimed from its body position at where
/// the player stands, each component pressed into range.
pub open spec fn aimed_velocity(own_pos: Vec3, player: Vec3) -> Vec3 {
    Vec3 {
        x: sat32(player.x - own_pos.x) as i32,
        y: sat32(player.y - own_pos.y) as i32,
        z: sat32(player.z - own_pos.z) as i32,
    }
}

/// No more gunmen discharge than there are slots.
pub proof fn lemma_fired_count_le(w: EntityWorld, delta_ms: u32, n: int)
    requires
        n >= 0,
    ensures
        0 <= fired_count(w, delta_ms, n) <= n,
    decreases n,
{
    if n > 0 {
        lemma_fired_count_le(w, delta_ms, n - 1);
    }
}

/// One fire-cycle tick for every gunman, spawning one aimed bullet per
/// discharge (collected during the walk, spawned after it). Returns the
/// new bullets' ids: one per discharging gunman, each owned by its
/// distinct gunman and aimed at the player.
pub fn update_gunmans(
    world: &mut EntityWorld,
    physics: &mut GamePhysics,
    delta_ms: u32,
    player_position: &Vec3,
    rng: &mut SmallRng,
) -> (bullets: Vec<EntityId>)
    requires
        coupled(*old(world), *old(physics)),
        old(world).slots@.len() * 2 < u32::MAX as int,
        old(physics).colliders@.len() + old(world).slots@.len() < u32::MAX as int,
        old(physics).bodies@.len() + old(world).slots@.len() < u32::MAX as int,
    ensures
        coupled(*final(world), *final(physics)),
        forall|o: EntityId|
            old(world).spec_live(o) && #[trigger] old(world).spec_get(o).unwrap().kind is Gunman
                && old(world).spec_get(o).unwrap().body is Some ==> {
                let b = old(world).spec_get(o).unwrap();
                &&& final(world).spec_get(o) is Some
                &&& final(world).spec_get(o).unwrap().collider == b.collider
                &&& final(world).spec_get(o).unwrap().body == b.body
                &&& final(world).spec_get(o).unwrap().kind is Gunman
                &&& gunman_step_ok(
                    b.kind->Gunman_0,
                    final(world).spec_get(o).unwrap().kind->Gunman_0,
                    delta_ms,
                )
            },
        forall|o: EntityId|
            old(world).spec_live(o) && !(#[trigger] old(world).spec_get(o).unwrap().kind
                is Gunman && old(world).spec_get(o).unwrap().body is Some) ==> final(world).spec_get(o) == old(world).spec_get(o),
        forall|o: EntityId| old(world).spec_live(o) ==> final(world).spec_live(o),
        forall|o: EntityId| old(world).spec_spent(o) <==> final(world).spec_spent(o),
        forall|h: ColliderHandle|
            old(physics).spec_collider(h) is Some ==> final(physics).spec_collider(h) == old(physics).spec_collider(h),
        forall|hb: BodyHandle|
            old(physics).spec_body(hb) is Some ==> final(physics).spec_body(hb) == old(physics).spec_body(hb),
        bullets@.len() == fired_count(*old(world), delta_ms, old(world).slots@.len() as int),
        forall|k: int|
            0 <= k < bullets@.len() ==> {
                let bid = #[trigger] bullets@[k];
                &&& !old(world).spec_live(bid)
                &&& final(world).spec_live(bid)
                &&& final(world).spec_get(bid).unwrap().kind is Bullet
                &&& {
                    let bul = final(world).spec_get(bid).unwrap().kind->Bullet_0;
                    &&& bul.lifetime == (Timer { remaining_ms: BULLET_LIFETIME_MS })
                    &&& old(world).spec_live(bul.owner)
                    &&& old(world).spec_get(bul.owner).unwrap().kind is Gunman
                    &&& old(world).spec_get(bul.owner).unwrap().body is Some
                    &&& gunman_fires(
                        old(world).spec_get(bul.owner).unwrap().kind->Gunman_0,
                        delta_ms,
                    )
                    &&& bul.velocity == aimed_velocity(
                        old(physics).spec_body(
                            old(world).spec_get(bul.owner).unwrap().body.unwrap(),
                        ).unwrap().position,
                        *player_position,
                    )
                }
            },
        forall|k1: int, k2: int|
            0 <= k1 < k2 < bullets@.len() ==> #[trigger] bullets@[k1] != #[trigger] bullets@[k2]
                && final(world).spec_get(bullets@[k1]).unwrap().kind->Bullet_0.owner != final(world).spec_get(bullets@[k2]).unwrap().kind->Bullet_0.owner,
{
    let ghost w0 = *old(world);
    let ghost p0 = *old(physics);
    let n = world.slot_count();
    let mut cmds: Vec<(EntityId, Vec3, Vec3)> = Vec::new();
    let mut i: usize = 0;
    while i < n
        invariant
            coupled(w0, p0),
            world.wf(),
            n == w0.slots@.len(),
            i <= n,
            world.slots@.len() == n,
            world.generations@ == w0.generations@,
            physics.colliders@ == p0.colliders@,
            physics.bodies@ == p0.bodies@,
            physics.gravity == p0.gravity,
            forall|j: int| i <= j < n ==> world.slots@[j] == #[trigger] w0.slots@[j],
            forall|j: int|
                0 <= j < i && #[trigger] gm_at(w0, j) ==> {
                    let b = w0.slots@[j].unwrap();
                    &&& world.slots@[j] is Some
                    &&& world.slots@[j].unwrap().collider == b.collider
                    &&& world.slots@[j].unwrap().body == b.body
                    &&& world.slots@[j].unwrap().kind is Gunman
                    &&& gunman_step_ok(
                        gm_comp(w0, j),
                        world.slots@[j].unwrap().kind->Gunman_0,
                        delta_ms,
                    )
                },
            forall|j: int|
                0 <= j < i && !(#[trigger] gm_at(w0, j)) ==> world.slots@[j] == w0.slots@[j],
            cmds@.len() == fired_count(w0, delta_ms, i as int),
            forall|k: int|
                0 <= k < cmds@.len() ==> {
                    let cmd = #[trigger] cmds@[k];
                    &&& (cmd.0.index as int) < i
                    &&& w0.spec_live(cmd.0)
                    &&& w0.spec_get(cmd.0).unwrap().kind is Gunman
                    &&& w0.spec_get(cmd.0).unwrap().body is Some
                    &&& gunman_fires(w0.spec_get(cmd.0).unwrap().kind->Gunman_0, delta_ms)
                    &&& cmd.1 == p0.spec_body(
                        w0.spec_get(cmd.0).unwrap().body.unwrap(),
                    ).unwrap().position
                    &&& cmd.2 == aimed_velocity(cmd.1, *player_position)
                },
            forall|k1: int, k2: int|
                0 <= k1 < k2 < cmds@.len() ==> (#[trigger] cmds@[k1]).0.index < (
                #[trigger] cmds@[k2]).0.index,
        decreases n - i,
    {
        let process = match &world.slots[i] {
            Some(b) => matches!(b.kind, EntityKind::Gunman(_)) && b.body.is_some(),
            None => false,
        };
        if process {
            proof {
                assert(world.slots@[i as int] == w0.slots@[i as int]);
                assert(gm_at(w0, i as int));
                let lid = EntityId { index: i as u32, generation: w0.generations@[i as int] };
                assert(w0.spec_live(lid));
                assert(backref_ok(w0, p0, lid));
                assert(w0.spec_get(lid) == w0.slots@[i as int]);
                assert(p0.spec_body(gm_body(w0, i as int)) is Some);
            }
            let b = match &world.slots[i] {
                Some(bb) => *bb,
                None => {
                    proof {
                        assert(false);
                    }
                    ComponentBundle { kind: EntityKind::Wall, collider: None, body: None }
                },
            };
            let bh = match b.body {
                Some(h) => h,
                None => {
                    proof {
                        assert(false);
                    }
                    BodyHandle { index: 0 }
                },
            };
            let mut gm = match b.kind {
                EntityKind::Gunman(g) => g,
                _ => {
                    proof {
                        assert(false);
                    }
                    Gunman {
                        health: 0,
                        state: GunmanState::Idle(Timer { remaining_ms: 0 }),
                    }
                },
            };
            let ghost g_before = gm;
            let rec = match physics.get_body(bh) {
                Some(r) => *r,
                None => {
                    proof {
                        assert(false);
                    }
                    BodyRec {
                        position: Vec3 { x: 0, y: 0, z: 0 },
                        linvel: Vec3 { x: 0, y: 0, z: 0 },
                    }
                },
            };
            let fire = gm.update(delta_ms, rng, &rec.position, player_position);
            let id = world.id_at(i);
            match world.set(
                id,
                ComponentBundle { kind: EntityKind::Gunman(gm), collider: b.collider, body: b.body },
            ) {
                Ok(()) => {},
                Err(_) => {
                    proof {
                        assert(false);
                    }
                },
            }
            match fire {
                Some(spawn) => {
                    proof {
                        assert(gunman_fires(g_before, delta_ms));
                        assert(fired_count(w0, delta_ms, i + 1 as int) == fired_count(
                            w0,
                            delta_ms,
                            i as int,
                        ) + 1);
                    }
                    cmds.push((id, rec.position, spawn.velocity));
                },
                None => {
                    proof {
                        assert(!gunman_fires(g_before, delta_ms));
                        assert(fired_count(w0, delta_ms, i + 1 as int) == fired_count(
                            w0,
                            delta_ms,
                            i as int,
                        ));
                    }
                },
            }
        } else {
            proof {
                assert(world.slots@[i as int] == w0.slots@[i as int]);
                assert(!gm_at(w0, i as int));
                assert(fired_count(w0, delta_ms, i + 1 as int) == fired_count(
                    w0,
                    delta_ms,
                    i as int,
                ));
            }
        }
        i = i + 1;
    }
    let ghost w1 = *world;
    let ghost p1 = *physics;
    proof {
        let w2 = *world;
        let p2 = *physics;
        assert forall|o: EntityId| #[trigger] w2.spec_live(o) implies w0.spec_live(o)
            && w2.spec_get(o).unwrap().collider == w0.spec_get(o).unwrap().collider
            && w2.spec_get(o).unwrap().body == w0.spec_get(o).unwrap().body by {
            let j = o.index as int;
            if gm_at(w0, j) {
                assert(w0.slots@[j] is Some);
            } else {
                assert(w2.slots@[j] == w0.slots@[j]);
            }
        }
        assert forall|o: EntityId| #[trigger] w0.spec_live(o) implies w2.spec_live(o) by {
            let j = o.index as int;
            if gm_at(w0, j) {
            } else {
                assert(w2.slots@[j] == w0.slots@[j]);
            }
        }
        assert forall|o: EntityId| #[trigger] w2.spec_live(o) implies backref_ok(w2, p2, o) by {
            assert(w0.spec_live(o));
            assert(backref_ok(w0, p0, o));
            let j = o.index as int;
            if gm_at(w0, j) {
            } else {
                assert(w2.slots@[j] == w0.slots@[j]);
            }
        }
        assert forall|h: ColliderHandle| #[trigger] p2.spec_owner_of(h) is Some implies {
            let o = p2.spec_owner_of(h).unwrap();
            &&& w2.spec_live(o)
            &&& w2.spec_get(o).unwrap().collider == Some(h)
        } by {
            assert(p2.spec_collider(h) == p0.spec_collider(h));
            let o = p0.spec_owner_of(h).unwrap();
            assert(w0.spec_live(o));
        }
        assert forall|id1: EntityId, id2: EntityId|
            #[trigger] w2.spec_live(id1) && #[trigger] w2.spec_live(id2) && id1
                != id2 implies !(w2.spec_get(id1).unwrap().body is Some && w2.spec_get(
            id1,
        ).unwrap().body == w2.spec_get(id2).unwrap().body) by {
            assert(w0.spec_live(id1));
            assert(w0.spec_live(id2));
        }
    }
    proof {
        lemma_fired_count_le(w0, delta_ms, n as int);
    }
    let mut bullets: Vec<EntityId> = Vec::new();
    let mut m: usize = 0;
    let ncmd = cmds.len();
    while m < ncmd
        invariant
            coupled(*world, *physics),
            ncmd == cmds@.len(),
            m <= ncmd,
            bullets@.len() == m,
            w1.slots@.len() == n,
            cmds@.len() == fired_count(w0, delta_ms, n as int),
            world.slots@.len() <= n + m,
            physics.colliders@.len() <= p1.colliders@.len() + m,
            physics.bodies@.len() <= p1.bodies@.len() + m,
            n + ncmd <= u32::MAX as int,
            p1.colliders@.len() + ncmd <= u32::MAX as int,
            p1.bodies@.len() + ncmd <= u32::MAX as int,
            forall|k: int|
                0 <= k < cmds@.len() ==> {
                    let cmd = #[trigger] cmds@[k];
                    &&& w0.spec_live(cmd.0)
                    &&& w0.spec_get(cmd.0).unwrap().kind is Gunman
                    &&& w0.spec_get(cmd.0).unwrap().body is Some
                    &&& gunman_fires(w0.spec_get(cmd.0).unwrap().kind->Gunman_0, delta_ms)
                    &&& cmd.2 == aimed_velocity(
                        p0.spec_body(w0.spec_get(cmd.0).unwrap().body.unwrap()).unwrap().position,
                        *player_position,
                    )
                },
            forall|k1: int, k2: int|
                0 <= k1 < k2 < cmds@.len() ==> (#[trigger] cmds@[k1]).0 != (
                #[trigger] cmds@[k2]).0,
            forall|o: EntityId|
                #[trigger] w1.spec_live(o) ==> world.spec_get(o) == w1.spec_get(o)
                    && world.spec_live(o),
            forall|o: EntityId| w1.spec_spent(o) <==> #[trigger] world.spec_spent(o),
            forall|o: EntityId|
                !w1.spec_live(o) && #[trigger] world.spec_live(o) ==> world.spec_get(
                    o,
                ).unwrap().kind is Bullet,
            forall|h: ColliderHandle|
                p1.spec_collider(h) is Some ==> #[trigger] physics.spec_collider(h)
                    == p1.spec_collider(h),
            forall|hb: BodyHandle|
                p1.spec_body(hb) is Some ==> #[trigger] physics.spec_body(hb) == p1.spec_body(
                    hb,
                ),
            forall|k: int|
                0 <= k < m ==> {
                    let bid = #[trigger] bullets@[k];
                    &&& !w1.spec_live(bid)
                    &&& world.spec_live(bid)
                    &&& world.spec_get(bid).unwrap().kind is Bullet
                    &&& world.spec_get(bid).unwrap().kind->Bullet_0 == (Bullet {
                        velocity: cmds@[k].2,
                        owner: cmds@[k].0,
                        lifetime: (Timer { remaining_ms: BULLET_LIFETIME_MS }),
                    })
                },
            forall|k1: int, k2: int|
                0 <= k1 < k2 < m ==> #[trigger] bullets@[k1] != #[trigger] bullets@[k2],
        decreases ncmd - m,
    {
        let cmd = cmds[m];
        let ghost wb = *world;
        let ghost pb = *physics;
        let (bid, ch) = spawn_bullet(world, physics, cmd.1, cmd.2, cmd.0);
        proof {
            assert forall|k: int| 0 <= k < m implies #[trigger] bullets@[k] != bid by {
                assert(wb.spec_live(bullets@[k]));
            }
            assert(!w1.spec_live(bid)) by {
                if w1.spec_live(bid) {
                    assert(wb.spec_live(bid));
                }
            }
            assert forall|h: ColliderHandle| p1.spec_collider(h) is Some implies
                #[trigger] physics.spec_collider(h) == p1.spec_collider(h) by {
                if h == ch {
                    assert(pb.spec_collider(h) is None);
                    assert(pb.spec_collider(h) == p1.spec_collider(h));
                } else {
                    assert(pb.spec_collider(h) == p1.spec_collider(h));
                }
            }
            assert forall|hb: BodyHandle| p1.spec_body(hb) is Some implies
                #[trigger] physics.spec_body(hb) == p1.spec_body(hb) by {
                if physics.spec_body(hb) != pb.spec_body(hb) {
                } else {
                    assert(pb.spec_body(hb) == p1.spec_body(hb));
                }
            }
            assert forall|o: EntityId| w1.spec_live(o) implies #[trigger] world.spec_get(o)
                == w1.spec_get(o) && world.spec_live(o) by {
                assert(o != bid);
                assert(wb.spec_get(o) == w1.spec_get(o));
            }
        }
        bullets.push(bid);
        m = m + 1;
    }
    proof {
        let wf2 = *world;
        let pf2 = *physics;
        assert(p1.colliders@ == p0.colliders@);
        assert(p1.bodies@ == p0.bodies@);
        assert forall|o: EntityId|
            w0.spec_live(o) && #[trigger] w0.spec_get(o).unwrap().kind is Gunman && w0.spec_get(
            o,
        ).unwrap().body is Some implies {
            let b = w0.spec_get(o).unwrap();
            &&& wf2.spec_get(o) is Some
            &&& wf2.spec_get(o).unwrap().collider == b.collider
            &&& wf2.spec_get(o).unwrap().body == b.body
            &&& wf2.spec_get(o).unwrap().kind is Gunman
            &&& gunman_step_ok(b.kind->Gunman_0, wf2.spec_get(o).unwrap().kind->Gunman_0, delta_ms)
        } by {
            let j = o.index as int;
            assert(w0.spec_get(o) == w0.slots@[j]);
            assert(gm_at(w0, j));
            assert(w1.spec_live(o));
            assert(wf2.spec_get(o) == w1.spec_get(o));
            assert(w1.spec_get(o) == w1.slots@[j]);
        }
        assert forall|o: EntityId|
            w0.spec_live(o) && !(#[trigger] w0.spec_get(o).unwrap().kind is Gunman
                && w0.spec_get(o).unwrap().body is Some) implies wf2.spec_get(o) == w0.spec_get(
            o,
        ) by {
            let j = o.index as int;
            assert(!gm_at(w0, j));
            assert(w1.slots@[j] == w0.slots@[j]);
            assert(w1.spec_live(o));
            assert(wf2.spec_get(o) == w1.spec_get(o));
        }
        assert forall|o: EntityId| #[trigger] w0.spec_live(o) implies wf2.spec_live(o) by {
            assert(w1.spec_live(o));
        }
        assert forall|o: EntityId| w0.spec_spent(o) <==> #[trigger] wf2.spec_spent(o) by {
            assert(w1.generations@ == w0.generations@);
            assert(w1.spec_spent(o) <==> wf2.spec_spent(o));
        }
        assert forall|k1: int, k2: int|
            0 <= k1 < k2 < bullets@.len() implies #[trigger] bullets@[k1]
                != #[trigger] bullets@[k2] && wf2.spec_get(
                bullets@[k1],
            ).unwrap().kind->Bullet_0.owner != wf2.spec_get(
                bullets@[k2],
            ).unwrap().kind->Bullet_0.owner by {
            assert(cmds@[k1].0 != cmds@[k2].0);
        }
    }
    bullets
}

/// Append one drawable record to the dynamic list.
fn push_record(queue: &mut RenderObjects, pair: (RenderQueueData, ObjectBound))
    ensures
        final(queue).render_objects@ == old(queue).render_objects@.push(pair),
        final(queue).render_objects_static@ == old(queue).render_objects_static@,
{
    let r = queue.next();
    *r = pair;
    proof {
        assert(queue.render_objects@ =~= old(queue).render_objects@.push(pair));
    }
}

/// Does slot `i` hold a target that can be drawn: a target whose ball
/// collider is live?
pub open spec fn tg_render_at(w: EntityWorld, p: GamePhysics, i: int) -> bool {
    &&& w.slots@[i] is Some
    &&& w.slots@[i].unwrap().kind is Target
    &&& w.slots@[i].unwrap().collider is Some
    &&& p.spec_collider(w.slots@[i].unwrap().collider.unwrap()) is Some
    &&& p.spec_collider(w.slots@[i].unwrap().collider.unwrap()).unwrap().shape is Ball
}

/// The drawable record of one target: a sphere of the collider's radius
/// at the collider's position, textured by the target's state.
pub open spec fn target_record(t: Target, c: ColliderRec) -> (RenderQueueData, ObjectBound) {
    (
        RenderQueueData {
            position: c.position,
            shape_data1: Vec4 { x: c.shape->Ball_0, y: 0, z: 0, w: 0 },
            shape_type_material_ids: ShapeMaterials {
                shape: ShapeType::Sphere,
                material_0: if t.shot {
                    MaterialType::Red
                } else {
                    MaterialType::Target
                },
                material_1: MaterialType::Red,
                material_2: MaterialType::Red,
            },
            ..RenderQueueData::spec_new_none()
        },
        ObjectBound::Sphere(TARGET_RADIUS_MM),
    )
}

/// The records of the targets in the first `n` slots, in slot order.
pub open spec fn target_records(w: EntityWorld, p: GamePhysics, n: int) -> Seq<
    (RenderQueueData, ObjectBound),
>
    decreases n,
{
    if n <= 0 {
        Seq::empty()
    } else {
        let prev = target_records(w, p, n - 1);
        if tg_render_at(w, p, n - 1) {
            prev.push(
                target_record(
                    w.slots@[n - 1].unwrap().kind->Target_0,
                    p.spec_collider(w.slots@[n - 1].unwrap().collider.unwrap()).unwrap(),
                ),
            )
        } else {
            prev
        }
    }
}

/// Push one drawable record per live target into the dynamic list, in
/// slot order; nothing else changes.
pub fn enqueue_target(world: &mut EntityWorld, physics: &mut GamePhysics, queue: &mut RenderObjects)
    ensures
        *final(world) == *old(world),
        *final(physics) == *old(physics),
        final(queue).render_objects_static@ == old(queue).render_objects_static@,
        final(queue).render_objects@ == old(queue).render_objects@ + target_records(
            *old(world),
            *old(physics),
            old(world).slots@.len() as int,
        ),
{
    let ghost w0 = *old(world);
    let ghost p0 = *old(physics);
    let ghost q0 = old(queue).render_objects@;
    let ghost qs0 = old(queue).render_objects_static@;
    let n = world.slot_count();
    let mut i: usize = 0;
    proof {
        assert(queue.render_objects@ =~= q0 + target_records(w0, p0, 0));
    }
    while i < n
        invariant
            *world == w0,
            *physics == p0,
            n == w0.slots@.len(),
            i <= n,
            queue.render_objects_static@ == qs0,
            queue.render_objects@ == q0 + target_records(w0, p0, i as int),
        decreases n - i,
    {
        let slot = &world.slots[i];
        match slot {
            Some(b) => {
                match (&b.kind, &b.collider) {
                    (EntityKind::Target(t), Some(h)) => {
                        let trec = *t;
                        let hh = *h;
                        match physics.get_collider(hh) {
                            Some(c) => {
                                match c.shape {
                                    ColliderShape::Ball(radius) => {
                                        let crec = *c;
                                        proof {
                                            assert(tg_render_at(w0, p0, i as int));
                                        }
                                        let rec = RenderQueueData {
                                            position: crec.position,
                                            shape_data1: Vec4 { x: radius, y: 0, z: 0, w: 0 },
                                            shape_type_material_ids: ShapeMaterials {
                                                shape: ShapeType::Sphere,
                                                material_0: trec.get_material(),
                                                material_1: MaterialType::Red,
                                                material_2: MaterialType::Red,
                                            },
                                            ..RenderQueueData::new_none()
                                        };
                                        push_record(
                                            queue,
                                            (rec, ObjectBound::Sphere(TARGET_RADIUS_MM)),
                                        );
                                    },
                                    _ => {
                                        proof {
                                            assert(!tg_render_at(w0, p0, i as int));
                                        }
                                    },
                                }
                            },
                            None => {
                                proof {
                                    assert(!tg_render_at(w0, p0, i as int));
                                }
                            },
                        }
                    },
                    _ => {
                        proof {
                            assert(!tg_render_at(w0, p0, i as int));
                        }
                    },
                }
            },
            None => {
                proof {
                    assert(!tg_render_at(w0, p0, i as int));
                }
            },
        }
        proof {
            assert(queue.render_objects@ =~= q0 + target_records(w0, p0, i + 1 as int));
        }
        i = i + 1;
    }
    proof {
        assert(*world == w0);
    }
}

/// Does slot `i` hold a swordman that can be drawn: one riding a live
/// body?
pub open spec fn sw_render_at(w: EntityWorld, p: GamePhysics, i: int) -> bool {
    &&& sw_at(w, i)
    &&& p.spec_body(sw_body(w, i)) is Some
}

/// The drawable record of one swordman: its rig at the body's position,
/// facing its travel, flinching while hurt.
pub open spec fn swordman_record(s: Swordman, pos: Vec3) -> (RenderQueueData, ObjectBound) {
    (
        RenderQueueData {
            position: pos,
            scale: Vec3 { x: 200, y: 200, z: 200 },
            rotation: s.facing,
            shape_data1: Vec4 { x: s.spec_hitanim() as i32, y: 0, z: 0, w: 0 },
            shape_type_material_ids: ShapeMaterials {
                shape: ShapeType::Swordman,
                material_0: s.spec_material(),
                material_1: MaterialType::Green,
                material_2: MaterialType::Red,
            },
            ..RenderQueueData::spec_new_none()
        },
        ObjectBound::Sphere(3000),
    )
}

/// The records of the swordmen in the first `n` slots, in slot order.
pub open spec fn swordman_records(w: EntityWorld, p: GamePhysics, n: int) -> Seq<
    (RenderQueueData, ObjectBound),
>
    decreases n,
{
    if n <= 0 {
        Seq::empty()
    } else {
        let prev = swordman_records(w, p, n - 1);
        if sw_render_at(w, p, n - 1) {
            prev.push(
                swordman_record(sw_comp(w, n - 1), p.spec_body(sw_body(w, n - 1)).unwrap().position),
            )
        } else {
            prev
        }
    }
}

/// Push one drawable record per live swordman into the dynamic list, in
/// slot order; nothing else changes.
pub fn enqueue_swordman(world: &mut EntityWorld, physics: &mut GamePhysics, queue: &mut RenderObjects)
    ensures
        *final(world) == *old(world),
        *final(physics) == *old(physics),
        final(queue).render_objects_static@ == old(queue).render_objects_static@,
        final(queue).render_objects@ == old(queue).render_objects@ + swordman_records(
            *old(world),
            *old(physics),
            old(world).slots@.len() as int,
        ),
{
    let ghost w0 = *old(world);
    let ghost p0 = *old(physics);
    let ghost q0 = old(queue).render_objects@;
    let ghost qs0 = old(queue).render_objects_static@;
    let n = world.slot_count();
    let mut i: usize = 0;
    proof {
        assert(queue.render_objects@ =~= q0 + swordman_records(w0, p0, 0));
    }
    while i < n
        invariant
            *world == w0,
            *physics == p0,
            n == w0.slots@.len(),
            i <= n,
            queue.render_objects_static@ == qs0,
            queue.render_objects@ == q0 + swordman_records(w0, p0, i as int),
        decreases n - i,
    {
        let slot = &world.slots[i];
        match slot {
            Some(b) => {
                match (&b.kind, &b.body) {
                    (EntityKind::Swordman(sref), Some(h)) => {
                        let sw = *sref;
                        let hh = *h;
                        match physics.get_body(hh) {
                            Some(rec) => {
                                proof {
                                    assert(sw_render_at(w0, p0, i as int));
                                }
                                let pos = rec.position;
                                let drec = RenderQueueData {
                                    position: pos,
                                    scale: Vec3 { x: 200, y: 200, z: 200 },
                                    rotation: sw.get_rotation(),
                                    shape_data1: Vec4 { x: sw.hitanim(), y: 0, z: 0, w: 0 },
                                    shape_type_material_ids: ShapeMaterials {
                                        shape: ShapeType::Swordman,
                                        material_0: sw.get_material(),
                                        material_1: MaterialType::Green,
                                        material_2: MaterialType::Red,
                                    },
                                    ..RenderQueueData::new_none()
                                };
                                push_record(queue, (drec, ObjectBound::Sphere(3000)));
                            },
                            None => {
                                proof {
                                    assert(!sw_render_at(w0, p0, i as int));
                                }
                            },
                        }
                    },
                    _ => {
                        proof {
                            assert(!sw_render_at(w0, p0, i as int));
                        }
                    },
                }
            },
            None => {
                proof {
                    assert(!sw_render_at(w0, p0, i as int));
                }
            },
        }
        proof {
            assert(queue.render_objects@ =~= q0 + swordman_records(w0, p0, i + 1 as int));
        }
        i = i + 1;
    }
}

/// Does slot `i` hold a gunman that can be drawn: one riding a live body?
pub open spec fn gm_render_at(w: EntityWorld, p: GamePhysics, i: int) -> bool {
    &&& gm_at(w, i)
    &&& p.spec_body(gm_body(w, i)) is Some
}

/// The drawable record of one gunman: its rig at the body's position.
pub open spec fn gunman_record(g: Gunman, pos: Vec3) -> (RenderQueueData, ObjectBound) {
    (
        RenderQueueData {
            position: pos,
            scale: Vec3 { x: 200, y: 200, z: 200 },
            shape_type_material_ids: ShapeMaterials {
                shape: ShapeType::Gunman,
                material_0: g.spec_material(),
                material_1: MaterialType::Green,
                material_2: MaterialType::Red,
            },
            ..RenderQueueData::spec_new_none()
        },
        ObjectBound::Sphere(3000),
    )
}

/// The records of the gunmen in the first `n` slots, in slot order.
pub open spec fn gunman_records(w: EntityWorld, p: GamePhysics, n: int) -> Seq<
    (RenderQueueData, ObjectBound),
>
    decreases n,
{
    if n <= 0 {
        Seq::empty()
    } else {
        let prev = gunman_records(w, p, n - 1);
        if gm_render_at(w, p, n - 1) {
            prev.push(
                gunman_record(gm_comp(w, n - 1), p.spec_body(gm_body(w, n - 1)).unwrap().position),
            )
        } else {
            prev
        }
    }
}

/// Push one drawable record per live gunman into the dynamic list, in
/// slot order; nothing else changes.
pub fn enqueue_gunman(world: &mut EntityWorld, physics: &mut GamePhysics, queue: &mut RenderObjects)
    ensures
        *final(world) == *old(world),
        *final(physics) == *old(physics),
        final(queue).render_objects_static@ == old(queue).render_objects_static@,
        final(queue).render_objects@ == old(queue).render_objects@ + gunman_records(
            *old(world),
            *old(physics),
            old(world).slots@.len() as int,
        ),
{
    let ghost w0 = *old(world);
    let ghost p0 = *old(physics);
    let ghost q0 = old(queue).render_objects@;
    let ghost qs0 = old(queue).render_objects_static@;
    let n = world.slot_count();
    let mut i: usize = 0;
    proof {
        assert(queue.render_objects@ =~= q0 + gunman_records(w0, p0, 0));
    }
    while i < n
        invariant
            *world == w0,
            *physics == p0,
            n == w0.slots@.len(),
            i <= n,
            queue.render_objects_static@ == qs0,
            queue.render_objects@ == q0 + gunman_records(w0, p0, i as int),
        decreases n - i,
    {
        let slot = &world.slots[i];
        match slot {
            Some(b) => {
                match (&b.kind, &b.body) {
                    (EntityKind::Gunman(gref), Some(h)) => {
                        let gm = *gref;
                        let hh = *h;
                        match physics.get_body(hh) {
                            Some(rec) => {
                                proof {
                                    assert(gm_render_at(w0, p0, i as int));
                                }
                                let drec = RenderQueueData {
                                    position: rec.position,
                                    scale: Vec3 { x: 200, y: 200, z: 200 },
                                    shape_type_material_ids: ShapeMaterials {
                                        shape: ShapeType::Gunman,
                                        material_0: gm.get_material(),
                                        material_1: MaterialType::Green,
                                        material_2: MaterialType::Red,
                                    },
                                    ..RenderQueueData::new_none()
                                };
                                push_record(queue, (drec, ObjectBound::Sphere(3000)));
                            },
                            None => {
                                proof {
                                    assert(!gm_render_at(w0, p0, i as int));
                                }
                            },
                        }
                    },
                    _ => {
                        proof {
                            assert(!gm_render_at(w0, p0, i as int));
                        }
                    },
                }
            },
            None => {
                proof {
                    assert(!gm_render_at(w0, p0, i as int));
                }
            },
        }
        proof {
            assert(queue.render_objects@ =~= q0 + gunman_records(w0, p0, i + 1 as int));
        }
        i = i + 1;
    }
}

/// Does slot `i` hold a bullet that can be drawn: one riding a live body?
pub open spec fn bl_render_at(w: EntityWorld, p: GamePhysics, i: int) -> bool {
    &&& w.slots@[i] is Some
    &&& w.slots@[i].unwrap().kind is Bullet
    &&& w.slots@[i].unwrap().body is Some
    &&& p.spec_body(w.slots@[i].unwrap().body.unwrap()) is Some
}

/// The drawable record of one bullet: a small black sphere.
pub open spec fn bullet_record(pos: Vec3) -> (RenderQueueData, ObjectBound) {
    (
        RenderQueueData {
            position: pos,
            shape_data1: Vec4 { x: 100, y: 0, z: 0, w: 0 },
            shape_type_material_ids: ShapeMaterials {
                shape: ShapeType::Sphere,
                material_0: MaterialType::Black,
                material_1: MaterialType::Red,
                material_2: MaterialType::Red,
            },
            ..RenderQueueData::spec_new_none()
        },
        ObjectBound::Sphere(100),
    )
}

/// The records of the bullets in the first `n` slots, in slot order.
pub open spec fn bullet_records(w: EntityWorld, p: GamePhysics, n: int) -> Seq<
    (RenderQueueData, ObjectBound),
>
    decreases n,
{
    if n <= 0 {
        Seq::empty()
    } else {
        let prev = bullet_records(w, p, n - 1);
        if bl_render_at(w, p, n - 1) {
            prev.push(
                bullet_record(p.spec_body(w.slots@[n - 1].unwrap().body.unwrap()).unwrap().position),
            )
        } else {
            prev
        }
    }
}

/// Push one drawable record per live bullet into the dynamic list, in
/// slot order; nothing else changes.
pub fn enqueue_bullet(world: &mut EntityWorld, physics: &mut GamePhysics, queue: &mut RenderObjects)
    ensures
        *final(world) == *old(world),
        *final(physics) == *old(physics),
        final(queue).render_objects_static@ == old(queue).render_objects_static@,
        final(queue).render_objects@ == old(queue).render_objects@ + bullet_records(
            *old(world),
            *old(physics),
            old(world).slots@.len() as int,
        ),
{
    let ghost w0 = *old(world);
    let ghost p0 = *old(physics);
    let ghost q0 = old(queue).render_objects@;
    let ghost qs0 = old(queue).render_objects_static@;
    let n = world.slot_count();
    let mut i: usize = 0;
    proof {
        assert(queue.render_objects@ =~= q0 + bullet_records(w0, p0, 0));
    }
    while i < n
        invariant
            *world == w0,
            *physics == p0,
            n == w0.slots@.len(),
            i <= n,
            queue.render_objects_static@ == qs0,
            queue.render_objects@ == q0 + bullet_records(w0, p0, i as int),
        decreases n - i,
    {
        let slot = &world.slots[i];
        match slot {
            Some(b) => {
                match (&b.kind, &b.body) {
                    (EntityKind::Bullet(_), Some(h)) => {
                        let hh = *h;
                        match physics.get_body(hh) {
                            Some(rec) => {
                                proof {
                                    assert(bl_render_at(w0, p0, i as int));
                                }
                                let drec = RenderQueueData {
                                    position: rec.position,
                                    shape_data1: Vec4 { x: 100, y: 0, z: 0, w: 0 },
                                    shape_type_material_ids: ShapeMaterials {
                                        shape: ShapeType::Sphere,
                                        material_0: MaterialType::Black,
                                        material_1: MaterialType::Red,
                                        material_2: MaterialType::Red,
                                    },
                                    ..RenderQueueData::new_none()
                                };
                                push_record(queue, (drec, ObjectBound::Sphere(100)));
                            },
                            None => {
                                proof {
                                    assert(!bl_render_at(w0, p0, i as int));
                                }
                            },
                        }
                    },
                    _ => {
                        proof {
                            assert(!bl_render_at(w0, p0, i as int));
                        }
                    },
                }
            },
            None => {
                proof {
                    assert(!bl_render_at(w0, p0, i as int));
                }
            },
        }
        proof {
            assert(queue.render_objects@ =~= q0 + bullet_records(w0, p0, i + 1 as int));
        }
        i = i + 1;
    }
}

/// Does slot `i` hold a wall that can be drawn: one whose cuboid collider
/// is live?
pub open spec fn wl_render_at(w: EntityWorld, p: GamePhysics, i: int) -> bool {
    &&& w.slots@[i] is Some
    &&& w.slots@[i].unwrap().kind is Wall
    &&& w.slots@[i].unwrap().collider is Some
    &&& p.spec_collider(w.slots@[i].unwrap().collider.unwrap()) is Some
    &&& p.spec_collider(w.slots@[i].unwrap().collider.unwrap()).unwrap().shape is Cuboid
}

/// The drawable record of one wall: its cuboid, bounded by a sphere that
/// covers the half-extents.
pub open spec fn wall_record(c: ColliderRec, material: MaterialType) -> (
    RenderQueueData,
    ObjectBound,
) {
    (
        RenderQueueData {
            position: c.position,
            shape_data1: Vec4 {
                x: c.shape->Cuboid_0.x,
                y: c.shape->Cuboid_0.y,
                z: c.shape->Cuboid_0.z,
                w: 0,
            },
            shape_type_material_ids: ShapeMaterials {
                shape: ShapeType::Cuboid,
                material_0: material,
                material_1: MaterialType::Red,
                material_2: MaterialType::Red,
            },
            ..RenderQueueData::spec_new_none()
        },
        ObjectBound::Sphere(
            sat32(
                c.shape->Cuboid_0.x as int + c.shape->Cuboid_0.y as int + c.shape->Cuboid_0.z as int,
            ) as i32,
        ),
    )
}

/// The records of the walls in the first `n` slots, in slot order.
pub open spec fn wall_records(w: EntityWorld, p: GamePhysics, n: int, material: MaterialType) -> Seq<
    (RenderQueueData, ObjectBound),
>
    decreases n,
{
    if n <= 0 {
        Seq::empty()
    } else {
        let prev = wall_records(w, p, n - 1, material);
        if wl_render_at(w, p, n - 1) {
            prev.push(
                wall_record(
                    p.spec_collider(w.slots@[n - 1].unwrap().collider.unwrap()).unwrap(),
                    material,
                ),
            )
        } else {
            prev
        }
    }
}

/// Push one drawable record per wall into the dynamic list, in slot
/// order, textured with `material`; nothing else changes.
pub fn enqueue_wall(
    world: &mut EntityWorld,
    physics: &mut GamePhysics,
    queue: &mut RenderObjects,
    material: MaterialType,
)
    ensures
        *final(world) == *old(world),
        *final(physics) == *old(physics),
        final(queue).render_objects_static@ == old(queue).render_objects_static@,
        final(queue).render_objects@ == old(queue).render_objects@ + wall_records(
            *old(world),
            *old(physics),
            old(world).slots@.len() as int,
            material,
        ),
{
    let ghost w0 = *old(world);
    let ghost p0 = *old(physics);
    let ghost q0 = old(queue).render_objects@;
    let ghost qs0 = old(queue).render_objects_static@;
    let n = world.slot_count();
    let mut i: usize = 0;
    proof {
        assert(queue.render_objects@ =~= q0 + wall_records(w0, p0, 0, material));
    }
    while i < n
        invariant
            *world == w0,
            *physics == p0,
            n == w0.slots@.len(),
            i <= n,
            queue.render_objects_static@ == qs0,
            queue.render_objects@ == q0 + wall_records(w0, p0, i as int, material),
        decreases n - i,
    {
        let slot = &world.slots[i];
        match slot {
            Some(b) => {
                match (&b.kind, &b.collider) {
                    (EntityKind::Wall, Some(h)) => {
                        let hh = *h;
                        match physics.get_collider(hh) {
                            Some(c) => {
                                match c.shape {
                                    ColliderShape::Cuboid(size) => {
                                        let crec = *c;
                                        proof {
                                            assert(wl_render_at(w0, p0, i as int));
                                        }
                                        let radius: i32 = bound_radius(size);
                                        let drec = RenderQueueData {
                                            position: crec.position,
                                            shape_data1: Vec4 {
                                                x: size.x,
                                                y: size.y,
                                                z: size.z,
                                                w: 0,
                                            },
                                            shape_type_material_ids: ShapeMaterials {
                                                shape: ShapeType::Cuboid,
                                                material_0: material,
                                                material_1: MaterialType::Red,
                                                material_2: MaterialType::Red,
                                            },
                                            ..RenderQueueData::new_none()
                                        };
                                        push_record(queue, (drec, ObjectBound::Sphere(radius)));
                                    },
                                    _ => {
                                        proof {
                                            assert(!wl_render_at(w0, p0, i as int));
                                        }
                                    },
                                }
                            },
                            None => {
                                proof {
                                    assert(!wl_render_at(w0, p0, i as int));
                                }
                            },
                        }
                    },
                    _ => {
                        proof {
                            assert(!wl_render_at(w0, p0, i as int));
                        }
                    },
                }
            },
            None => {
                proof {
                    assert(!wl_render_at(w0, p0, i as int));
                }
            },
        }
        proof {
            assert(queue.render_objects@ =~= q0 + wall_records(w0, p0, i + 1 as int, material));
        }
        i = i + 1;
    }
}

/// The radius of a sphere that covers a cuboid of the given half-extents,
/// pressed into range.
fn bound_radius(size: Vec3) -> (r: i32)
    ensures
        r as int == sat32(size.x as int + size.y as int + size.z as int),
{
    let sum: i64 = size.x as i64 + size.y as i64 + size.z as i64;
    if sum > i32::MAX as i64 {
        i32::MAX
    } else if sum < i32::MIN as i64 {
        i32::MIN
    } else {
        sum as i32
    }
}

/// A spent id is gone for good: it is not live, and no collider's owner
/// tag carries it, so no later hit-scan can resolve to it — and since
/// every operation of the stores keeps spent ids spent, a despawned
/// entity is torn down exactly once and never seen again.
pub proof fn lemma_spent_entity_stays_dead(w: EntityWorld, p: GamePhysics, id: EntityId)
    requires
        coupled(w, p),
        w.spec_spent(id),
    ensures
        !w.spec_live(id),
        forall|h: ColliderHandle| p.spec_owner_of(h) != Some(id),
{
    assert(!w.spec_live(id));
    lemma_dead_entity_never_resolves(w, p, id);
}

/// A dead entity id can never come back out of a hit-scan: no collider's
/// owner tag carries it.
pub proof fn lemma_dead_entity_never_resolves(w: EntityWorld, p: GamePhysics, id: EntityId)
    requires
        coupled(w, p),
        !w.spec_live(id),
    ensures
        forall|h: ColliderHandle| p.spec_owner_of(h) != Some(id),
{
    assert forall|h: ColliderHandle| p.spec_owner_of(h) != Some(id) by {
        if p.spec_owner_of(h) == Some(id) {
            assert(p.spec_owner_of(h) is Some);
            assert(w.spec_live(id));
        }
    }
}

} // verus!
