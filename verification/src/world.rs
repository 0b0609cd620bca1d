use vstd::prelude::*;

use crate::components::{BLACK, ColorPair, Entity, MONSTER_GLYPH, PLAYER_GLYPH, Render, WHITE, WantsToMove};
use crate::geometry::Point;

verus! {

/// One entity of the store: a stable identifier, its spatial and drawable
/// components, and the closed set of tag components it carries.
#[derive(Clone, Copy, Debug, PartialEq, Eq, Structural)]
pub struct EntityRecord {
    pub id: u64,
    pub position: Point,
    pub render: Render,
    pub is_player: bool,
    pub is_enemy: bool,
    pub moving_randomly: bool,
}

/// No two records share an identifier.
pub open spec fn ids_unique(s: Seq<EntityRecord>) -> bool {
    forall|i: int, j: int| 0 <= i < j < s.len() ==> s[i].id != s[j].id
}

/// Exactly one record carries the player tag.
pub open spec fn one_player(s: Seq<EntityRecord>) -> bool {
    &&& exists|i: int| 0 <= i < s.len() && s[i].is_player
    &&& forall|i: int, j: int|
        0 <= i < s.len() && 0 <= j < s.len() && s[i].is_player && s[j].is_player ==> i == j
}

/// No two records carry the player tag.
pub open spec fn at_most_one_player(s: Seq<EntityRecord>) -> bool {
    forall|i: int, j: int|
        0 <= i < s.len() && 0 <= j < s.len() && s[i].is_player && s[j].is_player ==> i == j
}

/// No record is both the player and an enemy, so the collision pass can
/// never remove the player.
pub open spec fn player_not_enemy(s: Seq<EntityRecord>) -> bool {
    forall|i: int| 0 <= i < s.len() && (#[trigger] s[i]).is_player ==> !s[i].is_enemy
}

/// The index of the player record.
pub open spec fn player_index(s: Seq<EntityRecord>) -> int {
    choose|i: int| 0 <= i < s.len() && s[i].is_player
}

/// The player's position.
pub open spec fn player_pos(s: Seq<EntityRecord>) -> Point {
    s[player_index(s)].position
}

/// The destination of the first queued intent for entity `id`, if any.
pub open spec fn intent_for(s: Seq<WantsToMove>, id: u64) -> Option<Point>
    decreases s.len(),
{
    if s.len() == 0 {
        None
    } else if s[0].entity.id == id {
        Some(s[0].destination)
    } else {
        intent_for(s.skip(1), id)
    }
}

/// Every queued intent names the identifier of one of the first `n` records.
pub open spec fn intent_ids_from(s: Seq<WantsToMove>, ents: Seq<EntityRecord>, n: int) -> bool {
    forall|a: int|
        0 <= a < s.len() ==> exists|i: int|
            0 <= i < n && #[trigger] s[a].entity.id == #[trigger] ents[i].id
}

/// At most one outstanding intent per entity.
pub open spec fn intents_unique(s: Seq<WantsToMove>) -> bool {
    forall|i: int, j: int| 0 <= i < j < s.len() ==> s[i].entity.id != s[j].entity.id
}

/// How appending an intent changes the lookup: an earlier intent for the same
/// entity still wins; otherwise the new intent is found.
pub proof fn lemma_intent_for_push(s: Seq<WantsToMove>, m: WantsToMove, id: u64)
    ensures
        intent_for(s.push(m), id) == (if intent_for(s, id) is Some {
            intent_for(s, id)
        } else if m.entity.id == id {
            Some(m.destination)
        } else {
            None::<Point>
        }),
    decreases s.len(),
{
    if s.len() == 0 {
        assert(s.push(m)[0] == m);
        assert(s.push(m).skip(1) =~= Seq::<WantsToMove>::empty());
        if m.entity.id == id {
            assert(intent_for(s.push(m), id) == Some(m.destination));
        } else {
            assert(intent_for(s.push(m), id) == intent_for(s.push(m).skip(1), id));
            assert(intent_for(s.push(m).skip(1), id) == None::<Point>);
        }
    } else {
        assert(s.push(m)[0] == s[0]);
        assert(s.push(m).skip(1) =~= s.skip(1).push(m));
        lemma_intent_for_push(s.skip(1), m, id);
        if s[0].entity.id == id {
            assert(intent_for(s.push(m), id) == Some(s[0].destination));
            assert(intent_for(s, id) == Some(s[0].destination));
        } else {
            assert(intent_for(s.push(m), id) == intent_for(s.skip(1).push(m), id));
            assert(intent_for(s, id) == intent_for(s.skip(1), id));
        }
    }
}

/// An entity none of the queued intents name has no intent.
pub proof fn lemma_intent_for_absent(s: Seq<WantsToMove>, id: u64)
    requires
        forall|k: int| 0 <= k < s.len() ==> s[k].entity.id != id,
    ensures
        intent_for(s, id) == None::<Point>,
    decreases s.len(),
{
    if s.len() > 0 {
        assert(forall|k: int| 0 <= k < s.skip(1).len() ==> s.skip(1)[k] == s[k + 1]);
        lemma_intent_for_absent(s.skip(1), id);
    }
}

/// The record a player spawn creates.
pub open spec fn player_record(id: u64, position: Point) -> EntityRecord {
    EntityRecord {
        id,
        position,
        render: Render { color: ColorPair { fg: WHITE, bg: BLACK }, glyph: PLAYER_GLYPH },
        is_player: true,
        is_enemy: false,
        moving_randomly: false,
    }
}

/// The record a monster spawn creates.
pub open spec fn monster_record(id: u64, position: Point, glyph: u16) -> EntityRecord {
    EntityRecord {
        id,
        position,
        render: Render { color: ColorPair { fg: WHITE, bg: BLACK }, glyph },
        is_player: false,
        is_enemy: true,
        moving_randomly: true,
    }
}

/// The data-oriented entity store: records keyed by stable identifiers,
/// together with the queue of movement intents awaiting resolution.
pub struct World {
    pub entities: Vec<EntityRecord>,
    pub intents: Vec<WantsToMove>,
    pub next_id: u64,
}

impl World {
    /// Identifiers are unique and every identifier already handed out is
    /// below `next_id`.
    pub open spec fn wf(self) -> bool {
        &&& ids_unique(self.entities@)
        &&& forall|i: int| 0 <= i < self.entities@.len() ==> self.entities@[i].id < self.next_id
    }

    /// An empty store.
    pub fn new() -> (w: World)
        ensures
            w.wf(),
            w.entities@.len() == 0,
            w.intents@.len() == 0,
            w.next_id == 0,
    {
        World { entities: Vec::new(), intents: Vec::new(), next_id: 0 }
    }

    /// Create the player entity at `position`.
    pub fn spawn_player(&mut self, position: Point) -> (e: Entity)
        requires
            old(self).wf(),
            old(self).next_id < u64::MAX,
        ensures
            final(self).wf(),
            e.id == old(self).next_id,
            final(self).next_id == old(self).next_id + 1,
            final(self).intents@ == old(self).intents@,
            final(self).entities@ == old(self).entities@.push(
                player_record(old(self).next_id, position),
            ),
    {
        let id = self.next_id;
        self.entities.push(World::player_record_exec(id, position));
        self.next_id = self.next_id + 1;
        Entity { id }
    }

    /// Create a monster entity at `position`, drawn with `glyph`.
    pub fn spawn_monster(&mut self, position: Point, glyph: u16) -> (e: Entity)
        requires
            old(self).wf(),
            old(self).next_id < u64::MAX,
        ensures
            final(self).wf(),
            e.id == old(self).next_id,
            final(self).next_id == old(self).next_id + 1,
            final(self).intents@ == old(self).intents@,
            final(self).entities@ == old(self).entities@.push(
                monster_record(old(self).next_id, position, glyph),
            ),
    {
        let id = self.next_id;
        self.entities.push(World::monster_record_exec(id, position, glyph));
        self.next_id = self.next_id + 1;
        Entity { id }
    }

    fn player_record_exec(id: u64, position: Point) -> (r: EntityRecord)
        ensures
            r == player_record(id, position),
    {
        EntityRecord {
            id,
            position,
            render: Render { color: ColorPair { fg: WHITE, bg: BLACK }, glyph: PLAYER_GLYPH },
            is_player: true,
            is_enemy: false,
            moving_randomly: false,
        }
    }

    fn monster_record_exec(id: u64, position: Point, glyph: u16) -> (r: EntityRecord)
        ensures
            r == monster_record(id, position, glyph),
    {
        EntityRecord {
            id,
            position,
            render: Render { color: ColorPair { fg: WHITE, bg: BLACK }, glyph },
            is_player: false,
            is_enemy: true,
            moving_randomly: true,
        }
    }
}

/// The index of the record with identifier `id`, or nothing when no record
/// carries it.
pub fn find_entity(entities: &Vec<EntityRecord>, id: u64) -> (r: Option<usize>)
    ensures
        match r {
            Some(k) => k < entities@.len() && entities@[k as int].id == id,
            None => forall|i: int| 0 <= i < entities@.len() ==> entities@[i].id != id,
        },
{
    let mut k: usize = 0;
    while k < entities.len()
        invariant
            k <= entities@.len(),
            forall|i: int| 0 <= i < k ==> entities@[i].id != id,
        decreases entities@.len() - k,
    {
        if entities[k].id == id {
            return Some(k);
        }
        k = k + 1;
    }
    None
}

/// The position of the unique player record.
pub fn player_position(world: &World) -> (r: Point)
    requires
        one_player(world.entities@),
    ensures
        r == player_pos(world.entities@),
{
    let ghost s = world.entities@;
    let mut k: usize = 0;
    while k < world.entities.len()
        invariant
            one_player(s),
            s == world.entities@,
            k <= s.len(),
            forall|i: int| 0 <= i < k ==> !s[i].is_player,
        decreases s.len() - k,
    {
        if world.entities[k].is_player {
            proof {
                assert(s[player_index(s)].is_player);
                assert(player_index(s) == k as int);
            }
            return world.entities[k].position;
        }
        k = k + 1;
    }
    proof {
        assert(s[player_index(s)].is_player);
        assert(false);
    }
    Point { x: 0, y: 0 }
}

/// The records among the first `n` whose identifier is not queued for
/// removal, in their original order.
pub open spec fn retained(ents: Seq<EntityRecord>, removed: Seq<u64>, n: int) -> Seq<EntityRecord>
    decreases n,
{
    if n <= 0 {
        Seq::empty()
    } else {
        let prev = retained(ents, removed, n - 1);
        if removed.contains(ents[n - 1].id) {
            prev
        } else {
            prev.push(ents[n - 1])
        }
    }
}

/// Every retained record is one of the first `n` records, and one whose
/// identifier was not queued for removal.
pub proof fn lemma_retained_membership(ents: Seq<EntityRecord>, removed: Seq<u64>, n: int)
    requires
        0 <= n <= ents.len(),
    ensures
        forall|a: int|
            0 <= a < retained(ents, removed, n).len() ==> exists|i: int|
                0 <= i < n && #[trigger] retained(ents, removed, n)[a] == ents[i]
                    && !removed.contains(ents[i].id),
    decreases n,
{
    if n > 0 {
        lemma_retained_membership(ents, removed, n - 1);
        let prev = retained(ents, removed, n - 1);
        let cur = retained(ents, removed, n);
        assert forall|a: int| 0 <= a < cur.len() implies exists|i: int|
            0 <= i < n && #[trigger] cur[a] == ents[i] && !removed.contains(ents[i].id) by {
            if a < prev.len() {
                assert(cur[a] == prev[a]);
                let i = choose|i: int|
                    0 <= i < n - 1 && #[trigger] prev[a] == ents[i] && !removed.contains(
                        ents[i].id,
                    );
                assert(0 <= i < n && cur[a] == ents[i] && !removed.contains(ents[i].id));
            } else {
                assert(!removed.contains(ents[n - 1].id));
                assert(cur[a] == ents[n - 1]);
            }
        }
    }
}

/// A record not queued for removal survives the removal pass.
pub proof fn lemma_retained_keeps(ents: Seq<EntityRecord>, removed: Seq<u64>, n: int, i: int)
    requires
        0 <= i < n <= ents.len(),
        !removed.contains(ents[i].id),
    ensures
        exists|a: int|
            0 <= a < retained(ents, removed, n).len() && #[trigger] retained(ents, removed, n)[a]
                == ents[i],
    decreases n,
{
    let cur = retained(ents, removed, n);
    if i == n - 1 {
        assert(cur[cur.len() - 1] == ents[i]);
    } else {
        lemma_retained_keeps(ents, removed, n - 1, i);
        let prev = retained(ents, removed, n - 1);
        let a = choose|a: int| 0 <= a < prev.len() && #[trigger] prev[a] == ents[i];
        assert(cur[a] == ents[i]);
    }
}

/// Removal keeps identifiers unique.
pub proof fn lemma_retained_ids_unique(ents: Seq<EntityRecord>, removed: Seq<u64>, n: int)
    requires
        0 <= n <= ents.len(),
        ids_unique(ents),
    ensures
        ids_unique(retained(ents, removed, n)),
    decreases n,
{
    if n > 0 {
        lemma_retained_ids_unique(ents, removed, n - 1);
        lemma_retained_membership(ents, removed, n - 1);
        let prev = retained(ents, removed, n - 1);
        let cur = retained(ents, removed, n);
        assert forall|a: int, b: int| 0 <= a < b < cur.len() implies cur[a].id != cur[b].id by {
            if b < prev.len() {
                assert(cur[a] == prev[a] && cur[b] == prev[b]);
            } else {
                assert(cur[b] == ents[n - 1]);
                assert(cur[a] == prev[a]);
                let i = choose|i: int|
                    0 <= i < n - 1 && #[trigger] prev[a] == ents[i] && !removed.contains(
                        ents[i].id,
                    );
                assert(ents[i].id != ents[n - 1].id);
            }
        }
    }
}

/// Whether `ids` holds `id`.
fn contains_id(ids: &Vec<u64>, id: u64) -> (r: bool)
    ensures
        r == ids@.contains(id),
{
    let mut k: usize = 0;
    while k < ids.len()
        invariant
            k <= ids@.len(),
            forall|i: int| 0 <= i < k ==> ids@[i] != id,
        decreases ids@.len() - k,
    {
        if ids[k] == id {
            assert(ids@[k as int] == id);
            return true;
        }
        k = k + 1;
    }
    false
}

/// The staging area for structural changes produced while a system iterates
/// the store: removals are queued here and applied at the batch boundary,
/// never during iteration.
pub struct CommandBuffer {
    pub removals: Vec<u64>,
}

impl CommandBuffer {
    /// An empty buffer.
    pub fn new() -> (c: CommandBuffer)
        ensures
            c.removals@.len() == 0,
    {
        CommandBuffer { removals: Vec::new() }
    }

    /// Queue `entity` for removal at the next flush.
    pub fn remove(&mut self, entity: Entity)
        ensures
            final(self).removals@ == old(self).removals@.push(entity.id),
    {
        self.removals.push(entity.id);
    }

    /// Apply the queued removals atomically: every record whose identifier
    /// was queued disappears, every other record stays, in order.  The
    /// buffer is drained.
    pub fn flush(&mut self, world: &mut World)
        ensures
            final(world).entities@ == retained(
                old(world).entities@,
                old(self).removals@,
                old(world).entities@.len() as int,
            ),
            final(world).intents@ == old(world).intents@,
            final(world).next_id == old(world).next_id,
            final(self).removals@.len() == 0,
    {
        let ghost ents0 = world.entities@;
        let ghost rem0 = self.removals@;
        let mut out: Vec<EntityRecord> = Vec::new();
        let mut k: usize = 0;
        while k < world.entities.len()
            invariant
                k <= world.entities@.len(),
                world.entities@ == ents0,
                self.removals@ == rem0,
                out@ == retained(ents0, rem0, k as int),
            decreases world.entities@.len() - k,
        {
            let r = world.entities[k];
            if !contains_id(&self.removals, r.id) {
                out.push(r);
            }
            k = k + 1;
        }
        world.entities = out;
        self.removals = Vec::new();
    }
}

} // verus!
