use under_journey::camera::Camera;
use under_journey::collisions::collisions;
use under_journey::components::{Entity, InputKey, PLAYER_GLYPH, WantsToMove};
use under_journey::geometry::Point;
use under_journey::map::{GameMap, TileType};
use under_journey::movement::movement;
use under_journey::player_input::player_input;
use under_journey::random_move::random_move;
use under_journey::turn_state::TurnState;
use under_journey::world::{CommandBuffer, World, find_entity, player_position};

#[test]
fn spawns_hand_out_fresh_ids() {
    let mut w = World::new();
    let p = w.spawn_player(Point::new(2, 3));
    let m = w.spawn_monster(Point::new(4, 5), 111);
    assert_eq!(p.id, 0);
    assert_eq!(m.id, 1);
    assert_eq!(w.entities.len(), 2);
    assert!(w.entities[0].is_player);
    assert!(!w.entities[0].is_enemy);
    assert_eq!(w.entities[0].position, Point::new(2, 3));
    assert_eq!(w.entities[0].render.glyph, PLAYER_GLYPH);
    assert!(w.entities[1].is_enemy);
    assert!(w.entities[1].moving_randomly);
    assert_eq!(w.entities[1].render.glyph, 111);
}

#[test]
fn find_entity_by_id() {
    let mut w = World::new();
    w.spawn_player(Point::new(0, 0));
    w.spawn_monster(Point::new(1, 1), 111);
    assert_eq!(find_entity(&w.entities, 1), Some(1));
    assert_eq!(find_entity(&w.entities, 0), Some(0));
    assert_eq!(find_entity(&w.entities, 7), None);
}

#[test]
fn player_position_reads_the_player() {
    let mut w = World::new();
    w.spawn_monster(Point::new(9, 9), 111);
    w.spawn_player(Point::new(4, 7));
    assert_eq!(player_position(&w), Point::new(4, 7));
}

#[test]
fn player_input_queues_one_intent_and_advances() {
    let mut w = World::new();
    w.spawn_player(Point::new(3, 3));
    let mut ts = TurnState::AwaitingInput;
    player_input(&mut w, Some(InputKey::D), &mut ts);
    assert_eq!(ts, TurnState::PlayerTurn);
    assert_eq!(w.intents.len(), 1);
    assert_eq!(w.intents[0].entity.id, 0);
    assert_eq!(w.intents[0].destination, Point::new(4, 3));
    assert_eq!(w.entities[0].position, Point::new(3, 3));
}

#[test]
fn player_input_without_key_is_a_no_op() {
    let mut w = World::new();
    w.spawn_player(Point::new(3, 3));
    let mut ts = TurnState::AwaitingInput;
    player_input(&mut w, None, &mut ts);
    assert_eq!(ts, TurnState::AwaitingInput);
    assert_eq!(w.intents.len(), 0);
}

#[test]
fn player_input_other_key_is_a_no_op() {
    let mut w = World::new();
    w.spawn_player(Point::new(3, 3));
    let mut ts = TurnState::AwaitingInput;
    player_input(&mut w, Some(InputKey::Other), &mut ts);
    assert_eq!(ts, TurnState::AwaitingInput);
    assert_eq!(w.intents.len(), 0);
}

#[test]
fn random_move_queues_per_wanderer() {
    let mut w = World::new();
    w.spawn_player(Point::new(0, 0));
    w.spawn_monster(Point::new(5, 5), 111);
    w.spawn_monster(Point::new(8, 8), 111);
    let dirs = vec![0u8, 1, 2];
    random_move(&mut w, &dirs);
    assert_eq!(w.intents.len(), 2);
    assert_eq!(w.intents[0].entity.id, 1);
    assert_eq!(w.intents[0].destination, Point::new(6, 5));
    assert_eq!(w.intents[1].entity.id, 2);
    assert_eq!(w.intents[1].destination, Point::new(8, 7));
}

#[test]
fn movement_commits_valid_intents_and_consumes_all() {
    let m = GameMap {
        width: 3,
        height: 1,
        tiles: vec![TileType::Floor, TileType::Floor, TileType::Wall],
    };
    let mut w = World::new();
    w.spawn_player(Point::new(0, 0));
    w.spawn_monster(Point::new(1, 0), 111);
    w.intents.push(WantsToMove { entity: Entity { id: 0 }, destination: Point::new(1, 0) });
    w.intents.push(WantsToMove { entity: Entity { id: 1 }, destination: Point::new(2, 0) });
    let mut cam = Camera::new(Point::new(0, 0));
    movement(&mut w, &m, &mut cam);
    assert_eq!(w.intents.len(), 0);
    assert_eq!(w.entities[0].position, Point::new(1, 0));
    assert_eq!(w.entities[1].position, Point::new(1, 0));
    assert_eq!(cam, Camera::new(Point::new(1, 0)));
}

#[test]
fn movement_for_a_monster_leaves_the_camera() {
    let m = GameMap::new();
    let mut w = World::new();
    w.spawn_player(Point::new(0, 0));
    w.spawn_monster(Point::new(5, 5), 111);
    w.intents.push(WantsToMove { entity: Entity { id: 1 }, destination: Point::new(6, 5) });
    let cam0 = Camera::new(Point::new(0, 0));
    let mut cam = cam0;
    movement(&mut w, &m, &mut cam);
    assert_eq!(w.entities[1].position, Point::new(6, 5));
    assert_eq!(cam, cam0);
}

#[test]
fn collisions_remove_coincident_enemies_only() {
    let mut w = World::new();
    w.spawn_player(Point::new(5, 5));
    w.spawn_monster(Point::new(5, 5), 111);
    w.spawn_monster(Point::new(5, 6), 111);
    let mut commands = CommandBuffer::new();
    collisions(&w, &mut commands);
    assert_eq!(commands.removals, vec![1]);
    commands.flush(&mut w);
    assert_eq!(w.entities.len(), 2);
    assert!(w.entities[0].is_player);
    assert_eq!(w.entities[1].position, Point::new(5, 6));
}
