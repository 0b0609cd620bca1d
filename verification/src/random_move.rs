use vstd::prelude::*;

use crate::components::{Entity, WantsToMove};
use crate::geometry::{Point, point_add, pos_step_safe, spec_point_add};
use crate::world::{EntityRecord, World, ids_unique, intent_ids_from, intents_unique};

verus! {

/// The unit step a direction choice stands for: west, east, north or south.
pub open spec fn spec_dir_delta(d: u8) -> Point {
    if d == 0 {
        Point { x: -1i32, y: 0 }
    } else if d == 1 {
        Point { x: 1, y: 0 }
    } else if d == 2 {
        Point { x: 0, y: -1i32 }
    } else {
        Point { x: 0, y: 1 }
    }
}

/// Direction-table lookup for one random draw.
pub fn dir_delta(d: u8) -> (r: Point)
    ensures
        r == spec_dir_delta(d),
{
    if d == 0 {
        Point { x: -1, y: 0 }
    } else if d == 1 {
        Point { x: 1, y: 0 }
    } else if d == 2 {
        Point { x: 0, y: -1 }
    } else {
        Point { x: 0, y: 1 }
    }
}

/// The intents the monster batch queues: one per `MovingRandomly` record
/// among the first `n`, aiming one step in the direction drawn for it.
pub open spec fn monster_intents_of(ents: Seq<EntityRecord>, dirs: Seq<u8>, n: int) -> Seq<
    WantsToMove,
>
    decreases n,
{
    if n <= 0 {
        Seq::empty()
    } else {
        let prev = monster_intents_of(ents, dirs, n - 1);
        let r = ents[n - 1];
        if r.moving_randomly {
            prev.push(
                WantsToMove {
                    entity: Entity { id: r.id },
                    destination: spec_point_add(r.position, spec_dir_delta(dirs[n - 1])),
                },
            )
        } else {
            prev
        }
    }
}

/// Each queued intent belongs to a distinct wandering record, so the queue
/// holds at most one intent per entity.
pub proof fn lemma_monster_intents_of(ents: Seq<EntityRecord>, dirs: Seq<u8>, n: int)
    requires
        0 <= n <= ents.len(),
        ids_unique(ents),
    ensures
        intent_ids_from(monster_intents_of(ents, dirs, n), ents, n),
        intents_unique(monster_intents_of(ents, dirs, n)),
    decreases n,
{
    if n > 0 {
        lemma_monster_intents_of(ents, dirs, n - 1);
        let prev = monster_intents_of(ents, dirs, n - 1);
        let cur = monster_intents_of(ents, dirs, n);
        assert forall|a: int| 0 <= a < cur.len() implies exists|i: int|
            0 <= i < n && #[trigger] cur[a].entity.id == #[trigger] ents[i].id by {
            if a < prev.len() {
                assert(cur[a] == prev[a]);
                assert(exists|i: int|
                    0 <= i < n - 1 && #[trigger] prev[a].entity.id == #[trigger] ents[i].id);
                let i = choose|i: int|
                    0 <= i < n - 1 && #[trigger] prev[a].entity.id == #[trigger] ents[i].id;
                assert(cur[a].entity.id == ents[i].id);
            } else {
                assert(cur[a].entity.id == ents[n - 1].id);
            }
        }
        assert forall|a: int, b: int| 0 <= a < b < cur.len() implies cur[a].entity.id
            != cur[b].entity.id by {
            if b < prev.len() {
                assert(cur[a] == prev[a] && cur[b] == prev[b]);
            } else {
                assert(cur[b].entity.id == ents[n - 1].id);
                assert(cur[a] == prev[a]);
                assert(exists|i: int|
                    0 <= i < n - 1 && #[trigger] prev[a].entity.id == #[trigger] ents[i].id);
                let i = choose|i: int|
                    0 <= i < n - 1 && #[trigger] prev[a].entity.id == #[trigger] ents[i].id;
                assert(ents[i].id != ents[n - 1].id);
            }
        }
    }
}

/// The monster-intent batch.  For every wandering entity it queues one
/// movement intent toward an adjacent cell chosen by the caller's random
/// draws — one draw per record, by index — and mutates nothing else.  The
/// intents take the same resolution path as the player's.
pub fn random_move(world: &mut World, dirs: &Vec<u8>)
    requires
        dirs@.len() >= old(world).entities@.len(),
        forall|i: int|
            0 <= i < old(world).entities@.len() && old(world).entities@[i].moving_randomly
                ==> pos_step_safe(#[trigger] old(world).entities@[i].position),
    ensures
        final(world).entities@ == old(world).entities@,
        final(world).next_id == old(world).next_id,
        final(world).intents@ == old(world).intents@ + monster_intents_of(
            old(world).entities@,
            dirs@,
            old(world).entities@.len() as int,
        ),
{
    let ghost ents0 = world.entities@;
    let ghost ints0 = world.intents@;
    let ghost nid0 = world.next_id;
    assert(world.intents@ =~= ints0 + monster_intents_of(ents0, dirs@, 0));
    let mut i: usize = 0;
    while i < world.entities.len()
        invariant
            i <= ents0.len(),
            ents0.len() <= dirs@.len(),
            world.entities@ == ents0,
            world.next_id == nid0,
            forall|t: int|
                0 <= t < ents0.len() && ents0[t].moving_randomly ==> pos_step_safe(
                    #[trigger] ents0[t].position,
                ),
            world.intents@ == ints0 + monster_intents_of(ents0, dirs@, i as int),
        decreases ents0.len() - i,
    {
        let r = world.entities[i];
        if r.moving_randomly {
            let delta = dir_delta(dirs[i]);
            assert(-1 <= delta.x <= 1 && -1 <= delta.y <= 1);
            let destination = point_add(r.position, delta);
            world.intents.push(WantsToMove { entity: Entity { id: r.id }, destination });
            proof {
                assert(world.intents@ =~= ints0 + monster_intents_of(ents0, dirs@, i + 1));
            }
        } else {
            proof {
                assert(world.intents@ =~= ints0 + monster_intents_of(ents0, dirs@, i + 1));
            }
        }
        i = i + 1;
    }
    proof {
        assert(world.intents@ == ints0 + monster_intents_of(ents0, dirs@, ents0.len() as int));
    }
}

} // verus!
