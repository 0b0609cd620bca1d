use vstd::prelude::*;

use crate::components::{Entity, InputKey, WantsToMove, key_delta, spec_key_delta};
use crate::geometry::{Point, point_add, pos_step_safe, spec_point_add};
use crate::turn_state::TurnState;
use crate::world::{EntityRecord, World, ids_unique, intent_ids_from, intents_unique};

verus! {

/// The intents the input batch queues: one per player-tagged record among the
/// first `n`, aiming one `delta` step from its position.
pub open spec fn player_intents_of(ents: Seq<EntityRecord>, delta: Point, n: int) -> Seq<
    WantsToMove,
>
    decreases n,
{
    if n <= 0 {
        Seq::empty()
    } else {
        let prev = player_intents_of(ents, delta, n - 1);
        let r = ents[n - 1];
        if r.is_player {
            prev.push(
                WantsToMove {
                    entity: Entity { id: r.id },
                    destination: spec_point_add(r.position, delta),
                },
            )
        } else {
            prev
        }
    }
}

/// Each queued intent belongs to a distinct player record, so the queue
/// holds at most one intent per entity.
pub proof fn lemma_player_intents_of(ents: Seq<EntityRecord>, delta: Point, n: int)
    requires
        0 <= n <= ents.len(),
        ids_unique(ents),
    ensures
        intent_ids_from(player_intents_of(ents, delta, n), ents, n),
        intents_unique(player_intents_of(ents, delta, n)),
    decreases n,
{
    if n > 0 {
        lemma_player_intents_of(ents, delta, n - 1);
        let prev = player_intents_of(ents, delta, n - 1);
        let cur = player_intents_of(ents, delta, n);
        assert forall|a: int| 0 <= a < cur.len() implies exists|i: int|
            0 <= i < n && #[trigger] cur[a].entity.id == #[trigger] ents[i].id by {
            if a < prev.len() {
                assert(cur[a] == prev[a]);
                assert(exists|i: int|
                    0 <= i < n - 1 && #[trigger] prev[a].entity.id == #[trigger] ents[i].id);
                let i = choose|i: int|
                    0 <= i < n - 1 && #[trigger] prev[a].entity.id == #[trigger] ents[i].id;
                assert(cur[a].entity.id == ents[i].id);
            } else {
                assert(cur[a].entity.id == ents[n - 1].id);
            }
        }
        assert forall|a: int, b: int| 0 <= a < b < cur.len() implies cur[a].entity.id
            != cur[b].entity.id by {
            if b < prev.len() {
                assert(cur[a] == prev[a] && cur[b] == prev[b]);
            } else {
                assert(cur[b].entity.id == ents[n - 1].id);
                assert(cur[a] == prev[a]);
                assert(exists|i: int|
                    0 <= i < n - 1 && #[trigger] prev[a].entity.id == #[trigger] ents[i].id);
                let i = choose|i: int|
                    0 <= i < n - 1 && #[trigger] prev[a].entity.id == #[trigger] ents[i].id;
                assert(ents[i].id != ents[n - 1].id);
            }
        }
    }
}

/// The input-capture batch.  A pressed move key queues one movement intent
/// per player record — never a direct position change — and hands the turn
/// to the player batch; any other tick leaves everything untouched.
pub fn player_input(world: &mut World, key: Option<InputKey>, turn_state: &mut TurnState)
    requires
        forall|i: int|
            0 <= i < old(world).entities@.len() && old(world).entities@[i].is_player
                ==> pos_step_safe(#[trigger] old(world).entities@[i].position),
    ensures
        final(world).entities@ == old(world).entities@,
        final(world).next_id == old(world).next_id,
        match key {
            None => *final(world) == *old(world) && *final(turn_state) == *old(turn_state),
            Some(k) => if spec_key_delta(k) == (Point { x: 0, y: 0 }) {
                *final(world) == *old(world) && *final(turn_state) == *old(turn_state)
            } else {
                final(world).intents@ == old(world).intents@ + player_intents_of(
                    old(world).entities@,
                    spec_key_delta(k),
                    old(world).entities@.len() as int,
                ) && *final(turn_state) == TurnState::PlayerTurn
            },
        },
{
    if let Some(k) = key {
        let delta = key_delta(k);
        if delta.x != 0 || delta.y != 0 {
            let ghost ents0 = world.entities@;
            let ghost ints0 = world.intents@;
            let ghost nid0 = world.next_id;
            assert(world.intents@ =~= ints0 + player_intents_of(ents0, delta, 0));
            let mut i: usize = 0;
            while i < world.entities.len()
                invariant
                    i <= ents0.len(),
                    world.entities@ == ents0,
                    world.next_id == nid0,
                    delta == spec_key_delta(k),
                    forall|t: int|
                        0 <= t < ents0.len() && ents0[t].is_player ==> pos_step_safe(
                            #[trigger] ents0[t].position,
                        ),
                    world.intents@ == ints0 + player_intents_of(ents0, delta, i as int),
                decreases ents0.len() - i,
            {
                let r = world.entities[i];
                if r.is_player {
                    assert(-1 <= delta.x <= 1 && -1 <= delta.y <= 1);
                    let destination = point_add(r.position, delta);
                    world.intents.push(WantsToMove { entity: Entity { id: r.id }, destination });
                    proof {
                        assert(world.intents@ =~= ints0 + player_intents_of(
                            ents0,
                            delta,
                            i + 1,
                        ));
                    }
                } else {
                    proof {
                        assert(world.intents@ =~= ints0 + player_intents_of(
                            ents0,
                            delta,
                            i + 1,
                        ));
                    }
                }
                i = i + 1;
            }
            proof {
                assert(world.intents@ == ints0 + player_intents_of(
                    ents0,
                    delta,
                    ents0.len() as int,
                ));
            }
            *turn_state = TurnState::PlayerTurn;
        }
    }
}

} // verus!
