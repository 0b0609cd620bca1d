use under_journey::camera::Camera;
use under_journey::components::{BLACK, InputKey, PLAYER_GLYPH, WHITE};
use under_journey::geometry::Point;
use under_journey::map::{GameMap, TileType};
use under_journey::player::Player;

#[test]
fn player_new_holds_position() {
    let p = Player::new(Point::new(6, 7));
    assert_eq!(p.position, Point::new(6, 7));
}

#[test]
fn update_moves_on_floor_and_recenters() {
    let m = GameMap::new();
    let mut p = Player::new(Point::new(10, 10));
    let mut cam = Camera::new(Point::new(10, 10));
    p.update(Some(InputKey::D), &m, &mut cam);
    assert_eq!(p.position, Point::new(11, 10));
    assert_eq!(cam, Camera::new(Point::new(11, 10)));
    p.update(Some(InputKey::W), &m, &mut cam);
    assert_eq!(p.position, Point::new(11, 9));
    assert_eq!(cam, Camera::new(Point::new(11, 9)));
}

#[test]
fn update_is_blocked_by_walls_and_edges() {
    let m = GameMap {
        width: 2,
        height: 1,
        tiles: vec![TileType::Floor, TileType::Wall],
    };
    let mut p = Player::new(Point::new(0, 0));
    let cam0 = Camera::new(Point::new(0, 0));
    let mut cam = cam0;
    p.update(Some(InputKey::D), &m, &mut cam);
    assert_eq!(p.position, Point::new(0, 0));
    assert_eq!(cam, cam0);
    p.update(Some(InputKey::A), &m, &mut cam);
    assert_eq!(p.position, Point::new(0, 0));
    p.update(Some(InputKey::S), &m, &mut cam);
    assert_eq!(p.position, Point::new(0, 0));
    assert_eq!(cam, cam0);
}

#[test]
fn update_with_no_move_key_is_a_complete_no_op() {
    let m = GameMap::new();
    let mut p = Player::new(Point::new(3, 3));
    // A camera pointing elsewhere must stay there: a no-move key fires no
    // camera notification.
    let cam0 = Camera::new(Point::new(40, 30));
    let mut cam = cam0;
    p.update(Some(InputKey::Other), &m, &mut cam);
    assert_eq!(p.position, Point::new(3, 3));
    assert_eq!(cam, cam0);
}

#[test]
fn update_without_key_stands_still() {
    let m = GameMap::new();
    let mut p = Player::new(Point::new(3, 3));
    let cam0 = Camera::new(Point::new(3, 3));
    let mut cam = cam0;
    p.update(None, &m, &mut cam);
    assert_eq!(p.position, Point::new(3, 3));
    assert_eq!(cam, cam0);
}

#[test]
fn render_is_camera_relative() {
    let p = Player::new(Point::new(25, 14));
    let cam = Camera::new(Point::new(25, 14));
    let g = p.render(&cam);
    assert_eq!(g.x, 25 - cam.left_x);
    assert_eq!(g.y, 14 - cam.top_y);
    assert_eq!(g.x, 20);
    assert_eq!(g.y, 12);
    assert_eq!(g.glyph, PLAYER_GLYPH);
    assert_eq!(g.color.fg, WHITE);
    assert_eq!(g.color.bg, BLACK);
}
