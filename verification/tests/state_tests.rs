use under_journey::camera::Camera;
use under_journey::components::InputKey;
use under_journey::geometry::Point;
use under_journey::map::{GameMap, TileType};
use under_journey::state::State;
use under_journey::turn_state::TurnState;

fn corridor() -> GameMap {
    GameMap {
        width: 3,
        height: 1,
        tiles: vec![TileType::Floor, TileType::Floor, TileType::Wall],
    }
}

#[test]
fn scenario_floor_then_wall() {
    let mut s = State::new(corridor(), Point::new(0, 0), &vec![]);
    let dirs: Vec<u8> = vec![0];
    s.tick(Some(InputKey::D), &dirs);
    assert_eq!(s.turn_state, TurnState::PlayerTurn);
    s.tick(None, &dirs);
    assert_eq!(s.world.entities[0].position, Point::new(1, 0));
    assert_eq!(s.turn_state, TurnState::MonsterTurn);
    s.tick(None, &dirs);
    assert_eq!(s.turn_state, TurnState::AwaitingInput);
    s.tick(Some(InputKey::D), &dirs);
    s.tick(None, &dirs);
    s.tick(None, &dirs);
    assert_eq!(s.world.entities[0].position, Point::new(1, 0));
    assert_eq!(s.turn_state, TurnState::AwaitingInput);
}

#[test]
fn scenario_enemy_moves_onto_player_and_dies() {
    let mut s = State::new(GameMap::new(), Point::new(5, 5), &vec![Point::new(5, 6)]);
    s.turn_state = TurnState::MonsterTurn;
    let dirs: Vec<u8> = vec![0, 2];
    s.tick(None, &dirs);
    assert_eq!(s.world.entities.len(), 1);
    assert!(s.world.entities[0].is_player);
    assert_eq!(s.world.entities[0].position, Point::new(5, 5));
    assert_eq!(s.turn_state, TurnState::AwaitingInput);
}

#[test]
fn scenario_two_enemies_both_removed() {
    let mut s = State::new(
        GameMap::new(),
        Point::new(5, 5),
        &vec![Point::new(5, 4), Point::new(5, 6)],
    );
    s.turn_state = TurnState::MonsterTurn;
    let dirs: Vec<u8> = vec![0, 3, 2];
    s.tick(None, &dirs);
    assert_eq!(s.world.entities.len(), 1);
    assert!(s.world.entities[0].is_player);
}

#[test]
fn adjacent_enemy_is_never_removed() {
    let mut s = State::new(GameMap::new(), Point::new(5, 5), &vec![Point::new(5, 7)]);
    s.turn_state = TurnState::MonsterTurn;
    let dirs: Vec<u8> = vec![0, 2];
    s.tick(None, &dirs);
    assert_eq!(s.world.entities.len(), 2);
    assert_eq!(s.world.entities[1].position, Point::new(5, 6));
}

#[test]
fn no_key_tick_changes_nothing() {
    let mut s = State::new(GameMap::new(), Point::new(5, 5), &vec![Point::new(9, 9)]);
    let positions: Vec<Point> = s.world.entities.iter().map(|e| e.position).collect();
    let cam = s.camera;
    let dirs: Vec<u8> = vec![0, 0];
    s.tick(None, &dirs);
    assert_eq!(s.turn_state, TurnState::AwaitingInput);
    let after: Vec<Point> = s.world.entities.iter().map(|e| e.position).collect();
    assert_eq!(positions, after);
    assert_eq!(s.camera, cam);
    assert_eq!(s.world.intents.len(), 0);
}

#[test]
fn other_key_tick_changes_nothing() {
    let mut s = State::new(GameMap::new(), Point::new(5, 5), &vec![]);
    let dirs: Vec<u8> = vec![0];
    s.tick(Some(InputKey::Other), &dirs);
    assert_eq!(s.turn_state, TurnState::AwaitingInput);
    assert_eq!(s.world.entities[0].position, Point::new(5, 5));
    assert_eq!(s.world.intents.len(), 0);
}

#[test]
fn turn_cycle_returns_to_awaiting_input() {
    let mut s = State::new(GameMap::new(), Point::new(5, 5), &vec![Point::new(20, 20)]);
    let dirs: Vec<u8> = vec![0, 1];
    assert_eq!(s.turn_state, TurnState::AwaitingInput);
    s.tick(Some(InputKey::W), &dirs);
    assert_eq!(s.turn_state, TurnState::PlayerTurn);
    s.tick(None, &dirs);
    assert_eq!(s.turn_state, TurnState::MonsterTurn);
    s.tick(None, &dirs);
    assert_eq!(s.turn_state, TurnState::AwaitingInput);
    assert_eq!(s.world.entities[0].position, Point::new(5, 4));
}

#[test]
fn setup_spawns_player_then_monsters() {
    let s = State::new(GameMap::new(), Point::new(2, 2), &vec![Point::new(7, 7)]);
    assert_eq!(s.turn_state, TurnState::AwaitingInput);
    assert_eq!(s.world.entities.len(), 2);
    assert!(s.world.entities[0].is_player);
    assert_eq!(s.world.entities[0].position, Point::new(2, 2));
    assert!(s.world.entities[1].is_enemy);
    assert!(s.world.entities[1].moving_randomly);
    assert_eq!(s.world.entities[1].position, Point::new(7, 7));
    assert_eq!(s.camera, Camera::new(Point::new(2, 2)));
}

#[test]
fn camera_follows_only_the_player() {
    let mut s = State::new(GameMap::new(), Point::new(10, 10), &vec![Point::new(30, 30)]);
    let dirs: Vec<u8> = vec![0, 1];
    s.tick(Some(InputKey::S), &dirs);
    s.tick(None, &dirs);
    assert_eq!(s.camera, Camera::new(Point::new(10, 11)));
    let cam = s.camera;
    s.tick(None, &dirs);
    assert_eq!(s.world.entities[1].position, Point::new(31, 30));
    assert_eq!(s.camera, cam);
}
