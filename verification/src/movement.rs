use vstd::prelude::*;

use crate::camera::{Camera, camera_for};
use crate::components::WantsToMove;
use crate::geometry::Point;
use crate::map::GameMap;
use crate::world::{
    EntityRecord, World, at_most_one_player, find_entity, ids_unique, intent_for, intents_unique,
    lemma_intent_for_absent, lemma_intent_for_push,
};

verus! {

/// One intent's effect on a position: the destination when the map lets the
/// entity in, the unchanged position otherwise — an invalid intent is
/// dropped silently, the entity simply does not move this turn.
pub open spec fn resolve_one(m: GameMap, pos: Point, dest: Point) -> Point {
    if m.spec_can_enter(dest) {
        dest
    } else {
        pos
    }
}

/// Movement resolution is idempotent per intent: the cell one application of
/// an intent leaves an entity on is the cell a second application of the
/// same intent would leave it on.  Together with the resolver's consumption
/// of every intent exactly once, a queued intent can never move an entity
/// twice.
pub proof fn lemma_resolve_idempotent(m: GameMap, pos: Point, dest: Point)
    ensures
        resolve_one(m, resolve_one(m, pos, dest), dest) == resolve_one(m, pos, dest),
{
}

/// The position of record `i` once the whole intent queue is resolved.
pub open spec fn resolved_pos(
    ents: Seq<EntityRecord>,
    intents: Seq<WantsToMove>,
    m: GameMap,
    i: int,
) -> Point {
    match intent_for(intents, ents[i].id) {
        Some(d) => resolve_one(m, ents[i].position, d),
        None => ents[i].position,
    }
}

/// Whether record `i` has a queued intent the map lets through.
pub open spec fn spec_moved(
    ents: Seq<EntityRecord>,
    intents: Seq<WantsToMove>,
    m: GameMap,
    i: int,
) -> bool {
    match intent_for(intents, ents[i].id) {
        Some(d) => m.spec_can_enter(d),
        None => false,
    }
}

/// Record `i` after resolution: the same entity, on its resolved cell.
pub open spec fn moved_record(
    ents: Seq<EntityRecord>,
    intents: Seq<WantsToMove>,
    m: GameMap,
    i: int,
) -> EntityRecord {
    EntityRecord { position: resolved_pos(ents, intents, m, i), ..ents[i] }
}

/// The whole store after resolution.
pub open spec fn moved_entities(
    ents: Seq<EntityRecord>,
    intents: Seq<WantsToMove>,
    m: GameMap,
) -> Seq<EntityRecord> {
    Seq::new(ents.len(), |i: int| moved_record(ents, intents, m, i))
}

/// How a resolution batch moves the camera: it ends centered on the
/// player's resolved cell exactly when the player had an intent the map let
/// through, and ends where it began when no intent moved the player —
/// monsters' moves never re-center it.
pub open spec fn camera_tracks(
    ents: Seq<EntityRecord>,
    intents: Seq<WantsToMove>,
    m: GameMap,
    cam0: Camera,
    cam1: Camera,
) -> bool {
    &&& forall|i: int|
        0 <= i < ents.len() && ents[i].is_player && #[trigger] spec_moved(ents, intents, m, i)
            ==> cam1 == camera_for(resolved_pos(ents, intents, m, i))
    &&& ((forall|i: int|
        0 <= i < ents.len() && ents[i].is_player ==> !(#[trigger] spec_moved(ents, intents, m, i)))
        ==> cam1 == cam0)
}

/// The movement-resolution system.  It consumes every outstanding intent in
/// queue order: a destination the map admits overwrites the entity's
/// position, any other intent is dropped, and afterwards no intent remains.
/// The camera is re-centered exactly when the entity a valid intent moved is
/// the player.
pub fn movement(world: &mut World, map: &GameMap, camera: &mut Camera)
    requires
        map.wf(),
        ids_unique(old(world).entities@),
        at_most_one_player(old(world).entities@),
        intents_unique(old(world).intents@),
    ensures
        final(world).entities@ == moved_entities(old(world).entities@, old(world).intents@, *map),
        final(world).intents@.len() == 0,
        final(world).next_id == old(world).next_id,
        camera_tracks(
            old(world).entities@,
            old(world).intents@,
            *map,
            *old(camera),
            *final(camera),
        ),
{
    let ghost ents0 = world.entities@;
    let ghost ints0 = world.intents@;
    let ghost nid0 = world.next_id;
    let ghost cam0 = *camera;
    proof {
        assert(ints0.take(0) =~= Seq::<WantsToMove>::empty());
        assert forall|i: int| 0 <= i < ents0.len() implies world.entities@[i] == moved_record(
            ents0,
            ints0.take(0),
            *map,
            i,
        ) by {
            assert(intent_for(ints0.take(0), ents0[i].id) == None::<Point>);
        }
    }
    let mut j: usize = 0;
    while j < world.intents.len()
        invariant
            map.wf(),
            ids_unique(ents0),
            at_most_one_player(ents0),
            intents_unique(ints0),
            j <= ints0.len(),
            world.intents@ == ints0,
            world.next_id == nid0,
            world.entities@.len() == ents0.len(),
            forall|i: int|
                0 <= i < ents0.len() ==> world.entities@[i] == moved_record(
                    ents0,
                    ints0.take(j as int),
                    *map,
                    i,
                ),
            forall|i: int|
                0 <= i < ents0.len() && ents0[i].is_player && #[trigger] spec_moved(
                    ents0,
                    ints0.take(j as int),
                    *map,
                    i,
                ) ==> *camera == camera_for(resolved_pos(ents0, ints0.take(j as int), *map, i)),
            (forall|i: int|
                0 <= i < ents0.len() && ents0[i].is_player ==> !(#[trigger] spec_moved(
                    ents0,
                    ints0.take(j as int),
                    *map,
                    i,
                ))) ==> *camera == cam0,
        decreases ints0.len() - j,
    {
        let intent = world.intents[j];
        let ghost pre = ints0.take(j as int);
        let ghost post = ints0.take(j as int + 1);
        let ghost e = intent.entity.id;
        proof {
            assert(post =~= pre.push(ints0[j as int]));
            assert forall|k: int| 0 <= k < pre.len() implies #[trigger] pre[k].entity.id != e by {
                assert(pre[k] == ints0[k]);
            }
            lemma_intent_for_absent(pre, e);
            assert forall|i: int| 0 <= i < ents0.len() implies #[trigger] intent_for(
                post,
                ents0[i].id,
            ) == (if intent_for(pre, ents0[i].id) is Some {
                intent_for(pre, ents0[i].id)
            } else if ents0[i].id == e {
                Some(intent.destination)
            } else {
                None::<Point>
            }) by {
                lemma_intent_for_push(pre, ints0[j as int], ents0[i].id);
            }
        }
        if map.can_enter_tile(intent.destination) {
            match find_entity(&world.entities, intent.entity.id) {
                Some(k) => {
                    proof {
                        assert(world.entities@[k as int].id == ents0[k as int].id);
                    }
                    let is_p = world.entities[k].is_player;
                    world.entities[k].position = intent.destination;
                    proof {
                        assert forall|i: int| 0 <= i < ents0.len() implies world.entities@[i]
                            == moved_record(ents0, post, *map, i) by {
                            if i != k as int {
                                assert(ents0[i].id != ents0[k as int].id);
                            }
                        }
                    }
                    if is_p {
                        camera.on_player_move(intent.destination);
                        proof {
                            assert(spec_moved(ents0, post, *map, k as int));
                            assert forall|i: int|
                                0 <= i < ents0.len() && ents0[i].is_player && #[trigger] spec_moved(
                                    ents0,
                                    post,
                                    *map,
                                    i,
                                ) implies *camera == camera_for(
                                resolved_pos(ents0, post, *map, i),
                            ) by {
                                assert(i == k as int);
                            }
                            assert(!(forall|i: int|
                                0 <= i < ents0.len() && ents0[i].is_player ==> !(
                                #[trigger] spec_moved(ents0, post, *map, i)))) by {
                                assert(ents0[k as int].is_player && spec_moved(
                                    ents0,
                                    post,
                                    *map,
                                    k as int,
                                ));
                            }
                        }
                    } else {
                        proof {
                            assert forall|i: int|
                                0 <= i < ents0.len() && ents0[i].is_player implies (
                                #[trigger] spec_moved(ents0, post, *map, i) == spec_moved(
                                    ents0,
                                    pre,
                                    *map,
                                    i,
                                ) && resolved_pos(ents0, post, *map, i) == resolved_pos(
                                    ents0,
                                    pre,
                                    *map,
                                    i,
                                )) by {
                                assert(i != k as int);
                                assert(ents0[i].id != e);
                            }
                            assert((forall|i: int|
                                0 <= i < ents0.len() && ents0[i].is_player ==> !(
                                #[trigger] spec_moved(ents0, post, *map, i))) ==> *camera
                                == cam0) by {
                                if forall|i: int|
                                    0 <= i < ents0.len() && ents0[i].is_player ==> !(
                                    #[trigger] spec_moved(ents0, post, *map, i)) {
                                    assert forall|i: int|
                                        0 <= i < ents0.len() && ents0[i].is_player implies !(
                                    #[trigger] spec_moved(ents0, pre, *map, i)) by {
                                        assert(spec_moved(ents0, post, *map, i) == spec_moved(
                                            ents0,
                                            pre,
                                            *map,
                                            i,
                                        ));
                                    }
                                }
                            }
                        }
                    }
                },
                None => {
                    proof {
                        assert forall|i: int| 0 <= i < ents0.len() implies ents0[i].id != e by {
                            assert(world.entities@[i].id == ents0[i].id);
                        }
                        assert forall|i: int| 0 <= i < ents0.len() implies world.entities@[i]
                            == moved_record(ents0, post, *map, i) && spec_moved(
                            ents0,
                            post,
                            *map,
                            i,
                        ) == spec_moved(ents0, pre, *map, i) && resolved_pos(ents0, post, *map, i)
                            == resolved_pos(ents0, pre, *map, i) by {
                            assert(intent_for(post, ents0[i].id) == intent_for(pre, ents0[i].id));
                        }
                        assert((forall|i: int|
                            0 <= i < ents0.len() && ents0[i].is_player ==> !(
                            #[trigger] spec_moved(ents0, post, *map, i))) ==> *camera == cam0) by {
                            if forall|i: int|
                                0 <= i < ents0.len() && ents0[i].is_player ==> !(
                                #[trigger] spec_moved(ents0, post, *map, i)) {
                                assert forall|i: int|
                                    0 <= i < ents0.len() && ents0[i].is_player implies !(
                                #[trigger] spec_moved(ents0, pre, *map, i)) by {
                                    assert(spec_moved(ents0, post, *map, i) == spec_moved(
                                        ents0,
                                        pre,
                                        *map,
                                        i,
                                    ));
                                }
                            }
                        }
                    }
                },
            }
        } else {
            proof {
                assert forall|i: int| 0 <= i < ents0.len() implies world.entities@[i]
                    == moved_record(ents0, post, *map, i) && spec_moved(ents0, post, *map, i)
                    == spec_moved(ents0, pre, *map, i) && resolved_pos(ents0, post, *map, i)
                    == resolved_pos(ents0, pre, *map, i) by {
                    if ents0[i].id == e {
                        assert(intent_for(pre, ents0[i].id) == None::<Point>);
                        assert(intent_for(post, ents0[i].id) == Some(intent.destination));
                        assert(!map.spec_can_enter(intent.destination));
                    }
                }
                assert((forall|i: int|
                    0 <= i < ents0.len() && ents0[i].is_player ==> !(#[trigger] spec_moved(
                        ents0,
                        post,
                        *map,
                        i,
                    ))) ==> *camera == cam0) by {
                    if forall|i: int|
                        0 <= i < ents0.len() && ents0[i].is_player ==> !(#[trigger] spec_moved(
                            ents0,
                            post,
                            *map,
                            i,
                        )) {
                        assert forall|i: int|
                            0 <= i < ents0.len() && ents0[i].is_player implies !(
                        #[trigger] spec_moved(ents0, pre, *map, i)) by {
                            assert(spec_moved(ents0, post, *map, i) == spec_moved(
                                ents0,
                                pre,
                                *map,
                                i,
                            ));
                        }
                    }
                }
            }
        }
        j = j + 1;
    }
    proof {
        assert(ints0.take(ints0.len() as int) =~= ints0);
        assert(world.entities@ =~= moved_entities(ents0, ints0, *map));
    }
    world.intents = Vec::new();
}

} // verus!
