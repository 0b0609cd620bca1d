use vstd::prelude::*;

use crate::camera::{Camera, camera_for};
use crate::collisions::{colliding_ids, collisions, lemma_collision_iff};
use crate::components::{InputKey, MONSTER_GLYPH, WantsToMove, spec_key_delta};
use crate::geometry::{Point, pos_step_safe};
use crate::map::GameMap;
use crate::movement::{camera_tracks, moved_entities, movement, resolved_pos, spec_moved};
use crate::player_input::{lemma_player_intents_of, player_input, player_intents_of};
use crate::random_move::{lemma_monster_intents_of, monster_intents_of, random_move};
use crate::turn_state::{TurnState, spec_next_turn};
use crate::world::{
    CommandBuffer, EntityRecord, World, at_most_one_player, ids_unique, intents_unique,
    lemma_retained_ids_unique, lemma_retained_keeps, lemma_retained_membership, monster_record,
    one_player, player_index, player_not_enemy, player_pos, player_record, retained,
};

verus! {

/// Whether this tick's key queues a movement intent: a key was pressed and
/// its direction-table entry is a real step.
pub open spec fn input_emits(key: Option<InputKey>) -> bool {
    match key {
        Some(k) => spec_key_delta(k) != (Point { x: 0, y: 0 }),
        None => false,
    }
}

/// The store after one resolution-plus-collision batch: every queued intent
/// is resolved against the map, then every enemy standing exactly on the
/// player's resolved cell is removed.
pub open spec fn batch_entities(
    ents: Seq<EntityRecord>,
    intents: Seq<WantsToMove>,
    m: GameMap,
) -> Seq<EntityRecord> {
    let moved = moved_entities(ents, intents, m);
    retained(
        moved,
        colliding_ids(moved, player_pos(moved), moved.len() as int),
        moved.len() as int,
    )
}

/// Resolution alone keeps the store well formed: it changes positions only,
/// and only to cells the map admits.
pub proof fn lemma_moved_preserves(ents: Seq<EntityRecord>, intents: Seq<WantsToMove>, m: GameMap)
    requires
        m.wf(),
        ids_unique(ents),
        one_player(ents),
        player_not_enemy(ents),
        forall|i: int| 0 <= i < ents.len() ==> m.spec_in_bounds(#[trigger] ents[i].position),
    ensures
        moved_entities(ents, intents, m).len() == ents.len(),
        forall|i: int|
            0 <= i < ents.len() ==> (#[trigger] moved_entities(ents, intents, m)[i]).id
                == ents[i].id && moved_entities(ents, intents, m)[i].is_player
                == ents[i].is_player && moved_entities(ents, intents, m)[i].is_enemy
                == ents[i].is_enemy && m.spec_in_bounds(
                moved_entities(ents, intents, m)[i].position,
            ),
        ids_unique(moved_entities(ents, intents, m)),
        one_player(moved_entities(ents, intents, m)),
        player_not_enemy(moved_entities(ents, intents, m)),
{
    let moved = moved_entities(ents, intents, m);
    assert forall|i: int| 0 <= i < moved.len() implies (#[trigger] moved[i]).id == ents[i].id
        && moved[i].is_player == ents[i].is_player && moved[i].is_enemy == ents[i].is_enemy
        && m.spec_in_bounds(moved[i].position) by {
        assert(moved[i].position == resolved_pos(ents, intents, m, i));
        if spec_moved(ents, intents, m, i) {
            assert(m.spec_can_enter(resolved_pos(ents, intents, m, i)));
        } else {
            assert(resolved_pos(ents, intents, m, i) == ents[i].position);
        }
    }
    assert(ids_unique(moved));
    assert(one_player(moved)) by {
        let p = player_index(ents);
        assert(0 <= p < ents.len() && ents[p].is_player);
        assert(moved[p].is_player);
    }
    assert(player_not_enemy(moved));
}

/// Resolution then collision keeps the store well formed: identifiers stay
/// unique and below `nid`, exactly one player remains, the player is still
/// no enemy, and every surviving position lies on the map.
proof fn lemma_batch_preserves(
    ents: Seq<EntityRecord>,
    intents: Seq<WantsToMove>,
    m: GameMap,
    nid: u64,
)
    requires
        m.wf(),
        ids_unique(ents),
        one_player(ents),
        player_not_enemy(ents),
        forall|i: int|
            0 <= i < ents.len() ==> m.spec_in_bounds(#[trigger] ents[i].position),
        forall|i: int| 0 <= i < ents.len() ==> (#[trigger] ents[i].id) < nid,
    ensures
        ids_unique(batch_entities(ents, intents, m)),
        one_player(batch_entities(ents, intents, m)),
        player_not_enemy(batch_entities(ents, intents, m)),
        forall|i: int|
            0 <= i < batch_entities(ents, intents, m).len() ==> m.spec_in_bounds(
                #[trigger] batch_entities(ents, intents, m)[i].position,
            ),
        forall|i: int|
            0 <= i < batch_entities(ents, intents, m).len() ==> (#[trigger] batch_entities(
                ents,
                intents,
                m,
            )[i].id) < nid,
{
    lemma_moved_preserves(ents, intents, m);
    let moved = moved_entities(ents, intents, m);
    let n = moved.len() as int;
    let ppos = player_pos(moved);
    let rem = colliding_ids(moved, ppos, n);
    let batch = retained(moved, rem, n);
    lemma_retained_ids_unique(moved, rem, n);
    lemma_retained_membership(moved, rem, n);
    let p = player_index(moved);
    assert(0 <= p < moved.len() && moved[p].is_player);
    lemma_collision_iff(moved, ppos, n, p);
    assert(!rem.contains(moved[p].id));
    lemma_retained_keeps(moved, rem, n, p);
    assert(one_player(batch)) by {
        let a0 = choose|a: int| 0 <= a < batch.len() && #[trigger] batch[a] == moved[p];
        assert(batch[a0].is_player);
        assert forall|a: int, b: int|
            0 <= a < batch.len() && 0 <= b < batch.len() && batch[a].is_player
                && batch[b].is_player implies a == b by {
            let i = choose|i: int|
                0 <= i < n && #[trigger] batch[a] == moved[i] && !rem.contains(moved[i].id);
            let j = choose|j: int|
                0 <= j < n && #[trigger] batch[b] == moved[j] && !rem.contains(moved[j].id);
            assert(moved[i].is_player && moved[j].is_player);
            assert(i == j);
            assert(batch[a].id == batch[b].id);
            if a < b {
                assert(batch[a].id != batch[b].id);
            } else if b < a {
                assert(batch[b].id != batch[a].id);
            }
        }
    }
    assert forall|a: int| 0 <= a < batch.len() implies player_not_enemy_at(batch, a)
        && m.spec_in_bounds(#[trigger] batch[a].position) && batch[a].id < nid by {
        let i = choose|i: int|
            0 <= i < n && #[trigger] batch[a] == moved[i] && !rem.contains(moved[i].id);
        assert(m.spec_in_bounds(moved[i].position));
        assert(moved[i].id == ents[i].id);
    }
}

/// Whether the record at `a` respects the player-is-no-enemy rule.
pub open spec fn player_not_enemy_at(s: Seq<EntityRecord>, a: int) -> bool {
    s[a].is_player ==> !s[a].is_enemy
}

/// The whole game state the driver owns: the entity store, the pre-built
/// map, the camera, and the turn-state machine's current mode.
pub struct State {
    pub world: World,
    pub map: GameMap,
    pub camera: Camera,
    pub turn_state: TurnState,
}

impl State {
    /// The state's running invariant: a well-formed map and store, exactly
    /// one player who is no enemy, every entity on the map, at most one
    /// queued intent per entity, and an empty intent queue whenever no
    /// resolution batch is pending.
    pub open spec fn inv(self) -> bool {
        &&& self.map.wf()
        &&& self.world.wf()
        &&& one_player(self.world.entities@)
        &&& player_not_enemy(self.world.entities@)
        &&& forall|i: int|
            0 <= i < self.world.entities@.len() ==> self.map.spec_in_bounds(
                #[trigger] self.world.entities@[i].position,
            )
        &&& intents_unique(self.world.intents@)
        &&& (self.turn_state == TurnState::AwaitingInput ==> self.world.intents@.len() == 0)
        &&& (self.turn_state == TurnState::MonsterTurn ==> self.world.intents@.len() == 0)
    }

    /// Set up a game: the pre-built map and spawn points come from the
    /// external generator; the player is created first, then one wandering
    /// enemy per remaining spawn point.  The machine starts awaiting input.
    pub fn new(map: GameMap, player_start: Point, monster_starts: &Vec<Point>) -> (s: State)
        requires
            map.wf(),
            map.spec_in_bounds(player_start),
            forall|i: int|
                0 <= i < monster_starts@.len() ==> map.spec_in_bounds(#[trigger] monster_starts@[i]),
            monster_starts@.len() < 1000000000,
        ensures
            s.inv(),
            s.map == map,
            s.turn_state == TurnState::AwaitingInput,
            s.camera == camera_for(player_start),
            s.world.intents@.len() == 0,
            s.world.entities@.len() == 1 + monster_starts@.len(),
            s.world.entities@[0] == player_record(0, player_start),
            forall|k: int|
                0 <= k < monster_starts@.len() ==> s.world.entities@[k + 1] == monster_record(
                    (k + 1) as u64,
                    #[trigger] monster_starts@[k],
                    MONSTER_GLYPH,
                ),
    {
        let mut world = World::new();
        world.spawn_player(player_start);
        let mut i: usize = 0;
        while i < monster_starts.len()
            invariant
                map.wf(),
                map.spec_in_bounds(player_start),
                forall|t: int|
                    0 <= t < monster_starts@.len() ==> map.spec_in_bounds(
                        #[trigger] monster_starts@[t],
                    ),
                monster_starts@.len() < 1000000000,
                i <= monster_starts@.len(),
                world.wf(),
                world.next_id == i + 1,
                world.intents@.len() == 0,
                world.entities@.len() == i + 1,
                world.entities@[0] == player_record(0, player_start),
                forall|k: int|
                    0 <= k < i ==> world.entities@[k + 1] == monster_record(
                        (k + 1) as u64,
                        #[trigger] monster_starts@[k],
                        MONSTER_GLYPH,
                    ),
            decreases monster_starts@.len() - i,
        {
            world.spawn_monster(monster_starts[i], MONSTER_GLYPH);
            i = i + 1;
        }
        proof {
            assert(one_player(world.entities@)) by {
                assert(world.entities@[0].is_player);
                assert forall|a: int, b: int|
                    0 <= a < world.entities@.len() && 0 <= b < world.entities@.len()
                        && world.entities@[a].is_player && world.entities@[b].is_player implies a
                    == b by {
                    if a != 0 {
                        assert(world.entities@[a] == monster_record(
                            a as u64,
                            monster_starts@[a - 1],
                            MONSTER_GLYPH,
                        ));
                    }
                    if b != 0 {
                        assert(world.entities@[b] == monster_record(
                            b as u64,
                            monster_starts@[b - 1],
                            MONSTER_GLYPH,
                        ));
                    }
                }
            }
            assert forall|t: int| 0 <= t < world.entities@.len() implies map.spec_in_bounds(
                #[trigger] world.entities@[t].position,
            ) && player_not_enemy_at(world.entities@, t) by {
                if t != 0 {
                    assert(world.entities@[t] == monster_record(
                        t as u64,
                        monster_starts@[t - 1],
                        MONSTER_GLYPH,
                    ));
                }
            }
        }
        State {
            world,
            map,
            camera: Camera::new(player_start),
            turn_state: TurnState::AwaitingInput,
        }
    }

    /// One external tick: run exactly the batch the current mode selects,
    /// to completion, then transition.  Awaiting input, a move key queues
    /// the player's intent and hands the turn over, and a tick without one
    /// changes nothing at all.  The player batch resolves the queued
    /// intents and settles collisions; the monster batch first queues one
    /// intent per wandering entity — from the caller's random draws, one
    /// per record by index — then resolves and settles the same way,
    /// closing the cycle.
    pub fn tick(&mut self, key: Option<InputKey>, monster_dirs: &Vec<u8>)
        requires
            old(self).inv(),
            monster_dirs@.len() >= old(self).world.entities@.len(),
        ensures
            final(self).inv(),
            final(self).map == old(self).map,
            final(self).world.next_id == old(self).world.next_id,
            final(self).turn_state == spec_next_turn(old(self).turn_state, input_emits(key)),
            old(self).turn_state == TurnState::AwaitingInput ==> match key {
                None => *final(self) == *old(self),
                Some(k) => if spec_key_delta(k) == (Point { x: 0, y: 0 }) {
                    *final(self) == *old(self)
                } else {
                    final(self).world.entities@ == old(self).world.entities@
                        && final(self).world.intents@ == player_intents_of(
                        old(self).world.entities@,
                        spec_key_delta(k),
                        old(self).world.entities@.len() as int,
                    ) && final(self).camera == old(self).camera
                },
            },
            old(self).turn_state == TurnState::PlayerTurn ==> final(self).world.entities@
                == batch_entities(
                old(self).world.entities@,
                old(self).world.intents@,
                old(self).map,
            ) && final(self).world.intents@.len() == 0 && camera_tracks(
                old(self).world.entities@,
                old(self).world.intents@,
                old(self).map,
                old(self).camera,
                final(self).camera,
            ),
            old(self).turn_state == TurnState::MonsterTurn ==> final(self).world.entities@
                == batch_entities(
                old(self).world.entities@,
                monster_intents_of(
                    old(self).world.entities@,
                    monster_dirs@,
                    old(self).world.entities@.len() as int,
                ),
                old(self).map,
            ) && final(self).world.intents@.len() == 0 && camera_tracks(
                old(self).world.entities@,
                monster_intents_of(
                    old(self).world.entities@,
                    monster_dirs@,
                    old(self).world.entities@.len() as int,
                ),
                old(self).map,
                old(self).camera,
                final(self).camera,
            ),
    {
        let ghost ents0 = self.world.entities@;
        let ghost ints0 = self.world.intents@;
        let ghost nid0 = self.world.next_id;
        match self.turn_state {
            TurnState::AwaitingInput => {
                proof {
                    assert forall|i: int|
                        0 <= i < ents0.len() && ents0[i].is_player implies pos_step_safe(
                        #[trigger] ents0[i].position,
                    ) by {
                        assert(self.map.spec_in_bounds(ents0[i].position));
                    }
                }
                player_input(&mut self.world, key, &mut self.turn_state);
                proof {
                    match key {
                        Some(k) => {
                            if spec_key_delta(k) != (Point { x: 0, y: 0 }) {
                                lemma_player_intents_of(
                                    ents0,
                                    spec_key_delta(k),
                                    ents0.len() as int,
                                );
                                assert(self.world.intents@ =~= player_intents_of(
                                    ents0,
                                    spec_key_delta(k),
                                    ents0.len() as int,
                                ));
                            }
                        },
                        None => {},
                    }
                }
            },
            TurnState::PlayerTurn => {
                proof {
                    assert(at_most_one_player(ents0));
                    lemma_moved_preserves(ents0, ints0, self.map);
                }
                movement(&mut self.world, &self.map, &mut self.camera);
                let mut commands = CommandBuffer::new();
                collisions(&self.world, &mut commands);
                proof {
                    assert(commands.removals@ =~= colliding_ids(
                        moved_entities(ents0, ints0, self.map),
                        player_pos(moved_entities(ents0, ints0, self.map)),
                        moved_entities(ents0, ints0, self.map).len() as int,
                    ));
                }
                commands.flush(&mut self.world);
                self.turn_state = TurnState::MonsterTurn;
                proof {
                    lemma_batch_preserves(ents0, ints0, self.map, nid0);
                }
            },
            TurnState::MonsterTurn => {
                proof {
                    assert forall|i: int|
                        0 <= i < ents0.len() && ents0[i].moving_randomly implies pos_step_safe(
                        #[trigger] ents0[i].position,
                    ) by {
                        assert(self.map.spec_in_bounds(ents0[i].position));
                    }
                }
                random_move(&mut self.world, monster_dirs);
                let ghost ints1 = monster_intents_of(ents0, monster_dirs@, ents0.len() as int);
                proof {
                    lemma_monster_intents_of(ents0, monster_dirs@, ents0.len() as int);
                    assert(self.world.intents@ =~= ints1);
                    assert(at_most_one_player(ents0));
                    lemma_moved_preserves(ents0, ints1, self.map);
                }
                movement(&mut self.world, &self.map, &mut self.camera);
                let mut commands = CommandBuffer::new();
                collisions(&self.world, &mut commands);
                proof {
                    assert(commands.removals@ =~= colliding_ids(
                        moved_entities(ents0, ints1, self.map),
                        player_pos(moved_entities(ents0, ints1, self.map)),
                        moved_entities(ents0, ints1, self.map).len() as int,
                    ));
                }
                commands.flush(&mut self.world);
                self.turn_state = TurnState::AwaitingInput;
                proof {
                    lemma_batch_preserves(ents0, ints1, self.map, nid0);
                }
            },
        }
    }
}

} // verus!
