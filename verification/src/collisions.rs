use vstd::prelude::*;

use crate::components::Entity;
use crate::geometry::Point;
use crate::world::{CommandBuffer, EntityRecord, World, ids_unique, one_player, player_pos, player_position};

verus! {

/// The identifiers the collision pass queues for removal: those of the
/// enemy-tagged records among the first `n` standing exactly on `ppos`.
pub open spec fn colliding_ids(ents: Seq<EntityRecord>, ppos: Point, n: int) -> Seq<u64>
    decreases n,
{
    if n <= 0 {
        Seq::empty()
    } else {
        let prev = colliding_ids(ents, ppos, n - 1);
        let r = ents[n - 1];
        if r.is_enemy && r.position == ppos {
            prev.push(r.id)
        } else {
            prev
        }
    }
}

/// An identifier is queued for removal exactly when its record is an enemy
/// whose position equals the player's — integer equality, no tolerance; so
/// every coincident enemy is removed and no other entity ever is.
pub proof fn lemma_collision_iff(ents: Seq<EntityRecord>, ppos: Point, n: int, i: int)
    requires
        ids_unique(ents),
        0 <= i < ents.len(),
        0 <= n <= ents.len(),
    ensures
        colliding_ids(ents, ppos, n).contains(ents[i].id) <==> (i < n && ents[i].is_enemy
            && ents[i].position == ppos),
    decreases n,
{
    if n > 0 {
        lemma_collision_iff(ents, ppos, n - 1, i);
        let prev = colliding_ids(ents, ppos, n - 1);
        let cur = colliding_ids(ents, ppos, n);
        if ents[n - 1].is_enemy && ents[n - 1].position == ppos {
            assert(cur[cur.len() - 1] == ents[n - 1].id);
            if i < n && ents[i].is_enemy && ents[i].position == ppos {
                if i == n - 1 {
                    assert(cur.contains(ents[i].id));
                } else {
                    let a = choose|a: int| 0 <= a < prev.len() && prev[a] == ents[i].id;
                    assert(cur[a] == ents[i].id);
                    assert(cur.contains(ents[i].id));
                }
            }
            if cur.contains(ents[i].id) && i != n - 1 {
                let a = choose|a: int| 0 <= a < cur.len() && cur[a] == ents[i].id;
                if a < prev.len() {
                    assert(prev[a] == ents[i].id);
                    assert(prev.contains(ents[i].id));
                } else {
                    assert(ents[i].id == ents[n - 1].id);
                }
            }
        } else {
            assert(cur =~= prev);
        }
    }
}

/// The collision resolver.  It runs after movement resolution, reads the
/// unique player's position, and queues a deferred removal for every enemy
/// standing exactly on it; the store itself is not touched while it is
/// enumerated.
pub fn collisions(world: &World, commands: &mut CommandBuffer)
    requires
        one_player(world.entities@),
    ensures
        final(commands).removals@ == old(commands).removals@ + colliding_ids(
            world.entities@,
            player_pos(world.entities@),
            world.entities@.len() as int,
        ),
{
    let ghost ents = world.entities@;
    let ghost rem0 = commands.removals@;
    let ppos = player_position(world);
    assert(commands.removals@ =~= rem0 + colliding_ids(ents, ppos, 0));
    let mut k: usize = 0;
    while k < world.entities.len()
        invariant
            k <= ents.len(),
            world.entities@ == ents,
            ppos == player_pos(ents),
            commands.removals@ == rem0 + colliding_ids(ents, ppos, k as int),
        decreases ents.len() - k,
    {
        let r = world.entities[k];
        if r.is_enemy && r.position == ppos {
            commands.remove(Entity { id: r.id });
            proof {
                assert(commands.removals@ =~= rem0 + colliding_ids(ents, ppos, k + 1));
            }
        } else {
            proof {
                assert(commands.removals@ =~= rem0 + colliding_ids(ents, ppos, k + 1));
            }
        }
        k = k + 1;
    }
}

} // verus!
