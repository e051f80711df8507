use dungmul::camera::aligned_rect;
use dungmul::collision::{diagonal_speed, is_collide, replace_collide, replace_speed};
use dungmul::game::{frame_delay, needs_timer_reset, walk_column_exec, Game, FRAME_LIMIT};
use dungmul::input::{press, release, steer, Key};
use dungmul::map::{parse_map, MapError, Tile};
use dungmul::player::Player;
use dungmul::rect::{Rect, MAX_INT_VALUE, MIN_INT_VALUE};
use dungmul::scene::{is_object_drawable, is_tile_drawable, object_source_rect, tile_source_rect, Sheet};
use dungmul::text::{parse_i32_exec, split_lines, split_words};
use dungmul::velocity::Velocity;
use dungmul::world::{collide, place_objects, spawn_objects, Object, OBJECT_COUNT};

fn chars(s: &str) -> Vec<char> {
    s.chars().collect()
}

fn strings(v: Vec<Vec<char>>) -> Vec<String> {
    v.into_iter().map(|w| w.into_iter().collect()).collect()
}

fn tuple(r: Rect) -> (i32, i32, u32, u32) {
    (r.x(), r.y(), r.width(), r.height())
}

#[test]
fn velocity_new_and_getters() {
    let v = Velocity::new(3, -4, 7);
    assert_eq!((v.x(), v.y(), v.mass()), (3, -4, 7));
}

#[test]
fn velocity_setters_change_one_component() {
    let mut v = Velocity::new(1, 2, 3);
    v.set_x(10);
    assert_eq!((v.x(), v.y(), v.mass()), (10, 2, 3));
    v.set_y(-20);
    assert_eq!((v.x(), v.y(), v.mass()), (10, -20, 3));
    v.set_mass(30);
    assert_eq!((v.x(), v.y(), v.mass()), (10, -20, 30));
}

#[test]
fn rect_new_clamps() {
    assert_eq!(tuple(Rect::new(0, 0, 0, 0)), (0, 0, 1, 1));
    assert_eq!(tuple(Rect::new(i32::MIN, i32::MIN, 1, 1)), (MIN_INT_VALUE, MIN_INT_VALUE, 1, 1));
    let m = MAX_INT_VALUE as u32;
    assert_eq!(tuple(Rect::new(0, 0, m + 1, m + 1)), (0, 0, m, m));
    assert_eq!(tuple(Rect::new(0, 0, i32::MAX as u32, i32::MAX as u32)), (0, 0, m, m));
    assert_eq!(
        tuple(Rect::new(MAX_INT_VALUE + 1, MAX_INT_VALUE + 1, 1, 1)),
        (MAX_INT_VALUE, MAX_INT_VALUE, 1, 1)
    );
}

#[test]
fn rect_sides_and_center() {
    let r = Rect::new(1, 0, 2, 3);
    assert_eq!(r.center(), (2, 1));
    assert_eq!((r.left(), r.right(), r.top(), r.bottom()), (1, 3, 0, 3));
}

#[test]
fn rect_setters() {
    let mut r = Rect::new(10, 20, 30, 40);
    r.set_right(100);
    assert_eq!(tuple(r), (70, 20, 30, 40));
    r.set_bottom(100);
    assert_eq!(tuple(r), (70, 60, 30, 40));
    r.set_x(i32::MAX);
    assert_eq!(r.x(), MAX_INT_VALUE);
    r.center_on((0, 0));
    assert_eq!(tuple(r), (-15, -20, 30, 40));
}

#[test]
fn rect_intersection_examples() {
    let rect = Rect::new(0, 0, 5, 5);
    assert_eq!(rect.intersection(rect), Some(rect));
    assert_eq!(rect.intersection(Rect::new(2, 2, 5, 5)), Some(Rect::new(2, 2, 3, 3)));
    assert_eq!(rect.intersection(Rect::new(5, 0, 5, 5)), None);
    let rect = Rect::new(0, 0, 10, 10);
    assert_eq!(rect.intersection(Rect::new(9, 9, 10, 10)), Some(Rect::new(9, 9, 1, 1)));
    assert_eq!(rect.intersection(Rect::new(11, 11, 10, 10)), None);
    assert_eq!(rect.intersection(Rect::new(10, 10, 10, 10)), None);
}

#[test]
fn aligned_rect_shifts_by_camera() {
    let cam = Rect::new(100, 50, 1024, 768);
    let obj = Rect::new(130, 40, 64, 32);
    assert_eq!(tuple(aligned_rect(cam, obj)), (30, -10, 64, 32));
    assert_eq!(aligned_rect(Rect::new(0, 0, 5, 5), obj), obj);
}

#[test]
fn player_accessors_and_render_rect() {
    let src = Rect::new(0, 0, 34, 52);
    let dst = Rect::new(200, 300, 64, 64);
    let mut p = Player::new(src, dst, Velocity::new(1, 2, 3));
    assert_eq!(p.speed(), 4);
    assert_eq!(p.src_rect(), src);
    assert_eq!(p.dst_rect(), dst);
    assert_eq!(tuple(p.render_rect(&Rect::new(100, 100, 1024, 768))), (100, 200, 64, 64));
    assert_eq!(p.render_rect(&Rect::new(7, 9, 3, 3)), aligned_rect(Rect::new(7, 9, 3, 3), dst));
    p.set_velocity(5, 6, 7);
    assert_eq!((p.velocity().x(), p.velocity().y(), p.velocity().mass()), (5, 6, 7));
    p.set_velocity_x(-1);
    assert_eq!((p.velocity().x(), p.velocity().y(), p.velocity().mass()), (-1, 6, 7));
    p.set_velocity_y(-2);
    assert_eq!((p.velocity().x(), p.velocity().y(), p.velocity().mass()), (-1, -2, 7));
}

#[test]
fn is_collide_is_the_overlap() {
    let a = Rect::new(0, 0, 64, 64);
    let b = Rect::new(60, 10, 64, 64);
    assert_eq!(is_collide(a, b), Some(Rect::new(60, 10, 4, 54)));
    assert_eq!(is_collide(b, a), is_collide(a, b));
    assert_eq!(is_collide(a, Rect::new(64, 0, 10, 10)), None);
}

#[test]
fn diagonal_speed_matches_float_rounding() {
    let mut samples: Vec<i32> = (-2000..2000).collect();
    samples.extend_from_slice(&[i32::MIN, i32::MIN + 1, i32::MAX, i32::MAX - 1, 1414213, -1414213, 707107]);
    let mut x: u64 = 0x9e3779b97f4a7c15;
    for _ in 0..20000 {
        x ^= x << 13;
        x ^= x >> 7;
        x ^= x << 17;
        samples.push(x as u32 as i32);
    }
    for v in samples {
        let expected = ((v as f64) / 1.414213).round() as i32;
        assert_eq!(diagonal_speed(v), expected, "v = {}", v);
    }
    assert_eq!(diagonal_speed(4), 3);
    assert_eq!(diagonal_speed(-4), -3);
    assert_eq!(diagonal_speed(0), 0);
}

#[test]
fn replace_speed_scales_only_diagonal_moves() {
    assert_eq!(replace_speed(Velocity::new(4, 0, 0)), (4, 0));
    assert_eq!(replace_speed(Velocity::new(0, -4, 0)), (0, -4));
    assert_eq!(replace_speed(Velocity::new(4, -4, 0)), (3, -3));
}

#[test]
fn replace_collide_moving_right_pushes_back_left() {
    let dst = Rect::new(100, 100, 64, 64);
    let wall = Rect::new(161, 90, 64, 200);
    let c = is_collide(dst, wall).unwrap();
    let r = replace_collide(c, dst, Velocity::new(4, 0, 0));
    assert_eq!(tuple(r), (96, 100, 64, 64));
    assert_eq!(is_collide(r, wall), None);
}

#[test]
fn replace_collide_moving_left_pushes_back_right() {
    let dst = Rect::new(100, 100, 64, 64);
    let wall = Rect::new(40, 0, 62, 300);
    let c = is_collide(dst, wall).unwrap();
    assert_eq!(c.x(), dst.x());
    let r = replace_collide(c, dst, Velocity::new(-4, 0, 0));
    assert_eq!(tuple(r), (104, 100, 64, 64));
    assert_eq!(is_collide(r, wall), None);
}

#[test]
fn replace_collide_vertical_both_ways() {
    let dst = Rect::new(100, 100, 64, 64);
    let floor = Rect::new(0, 162, 500, 64);
    let c = is_collide(dst, floor).unwrap();
    assert_eq!(tuple(replace_collide(c, dst, Velocity::new(0, 4, 0))), (100, 96, 64, 64));
    let ceiling = Rect::new(0, 0, 500, 103);
    let c = is_collide(dst, ceiling).unwrap();
    assert_eq!(tuple(replace_collide(c, dst, Velocity::new(0, -4, 0))), (100, 104, 64, 64));
}

#[test]
fn replace_collide_deep_overlap_or_rest_leaves_player() {
    let dst = Rect::new(100, 100, 64, 64);
    let block = Rect::new(120, 120, 64, 64);
    let c = is_collide(dst, block).unwrap();
    assert_eq!(replace_collide(c, dst, Velocity::new(4, 0, 0)), dst);
    assert_eq!(replace_collide(c, dst, Velocity::new(0, 0, 0)), dst);
}

#[test]
fn replace_collide_diagonal_uses_scaled_speed() {
    let dst = Rect::new(100, 100, 64, 64);
    let block = Rect::new(161, 161, 64, 64);
    let c = is_collide(dst, block).unwrap();
    assert_eq!(tuple(c), (161, 161, 3, 3));
    assert_eq!(tuple(replace_collide(c, dst, Velocity::new(4, 4, 0))), (97, 100, 64, 64));
}

#[test]
fn collide_only_when_overlapping() {
    let dst = Rect::new(100, 100, 64, 64);
    let far = Rect::new(500, 500, 64, 64);
    assert_eq!(collide(dst, Velocity::new(4, 0, 0), far), dst);
    let wall = Rect::new(161, 90, 64, 200);
    assert_eq!(tuple(collide(dst, Velocity::new(4, 0, 0), wall)), (96, 100, 64, 64));
}

#[test]
fn split_lines_like_str_lines() {
    for text in ["", "\n", "a", "a\n", "a\n\nb", "a\r\nb\r\n", "\n\n", " x y \n z"] {
        let expected: Vec<String> = text.lines().map(|l| l.to_string()).collect();
        let got: Vec<String> = strings(split_lines(&chars(text)))
            .into_iter()
            .map(|l| l.strip_suffix('\r').map(|s| s.to_string()).unwrap_or(l))
            .collect();
        assert_eq!(got, expected, "text {:?}", text);
    }
}

#[test]
fn split_words_like_split_whitespace() {
    for text in ["", "  ", "a", " a  bc\td ", "1\u{a0}2\u{3000}3", "x\u{2028}y\r"] {
        let expected: Vec<String> = text.split_whitespace().map(|w| w.to_string()).collect();
        assert_eq!(strings(split_words(&chars(text))), expected, "text {:?}", text);
    }
}

#[test]
fn parse_i32_like_str_parse() {
    for text in [
        "0", "7", "-7", "+7", "-", "+", "", "12a", "007", "2147483647", "2147483648", "-2147483648",
        "-2147483649", "99999999999999999999", "+-1", "1+", "٣",
    ] {
        assert_eq!(parse_i32_exec(&chars(text)), text.parse::<i32>().ok(), "text {:?}", text);
    }
}

#[test]
fn parse_map_lays_tiles_on_grid() {
    let m = parse_map(&chars("1 2 3\n4 5\n")).unwrap();
    assert_eq!(m.height, 128);
    assert_eq!(m.width, 128);
    let got: Vec<(i32, i32, u32, u32, i32)> =
        m.tiles.iter().map(|t: &Tile| (t.rect.x(), t.rect.y(), t.rect.width(), t.rect.height(), t.index)).collect();
    assert_eq!(
        got,
        vec![(0, 0, 64, 64, 1), (64, 0, 64, 64, 2), (128, 0, 64, 64, 3), (0, 64, 64, 64, 4), (64, 64, 64, 64, 5)]
    );
}

#[test]
fn parse_map_width_comes_from_last_row() {
    let m = parse_map(&chars("1 1 1 1\n\n2")).unwrap();
    assert_eq!((m.height, m.width), (192, 64));
    assert_eq!(m.tiles.len(), 5);
    assert_eq!(m.tiles[4].rect.y(), 128);
    let empty = parse_map(&chars("")).unwrap();
    assert_eq!((empty.height, empty.width, empty.tiles.len()), (0, 0, 0));
}

#[test]
fn parse_map_rejects_bad_tile() {
    assert_eq!(parse_map(&chars("1 2\n3 x\n")).err(), Some(MapError::BadTile));
    assert_eq!(parse_map(&chars("99999999999")).err(), Some(MapError::BadTile));
}

#[test]
fn steering_with_arrow_keys() {
    let mut v = Velocity::new(0, 0, 0);
    steer(&mut v, &vec![], &vec![Key::Down]);
    assert_eq!((v.x(), v.y()), (0, 4));
    steer(&mut v, &vec![Key::Down], &vec![Key::Down, Key::Left]);
    assert_eq!((v.x(), v.y()), (-4, 4));
    steer(&mut v, &vec![Key::Down, Key::Left], &vec![Key::Left]);
    assert_eq!((v.x(), v.y()), (-4, 0));
    steer(&mut v, &vec![Key::Left], &vec![Key::Left]);
    assert_eq!((v.x(), v.y()), (-4, 0));
    steer(&mut v, &vec![Key::Left], &vec![Key::Right]);
    assert_eq!((v.x(), v.y()), (0, 0));
    steer(&mut v, &vec![], &vec![Key::Up, Key::Right]);
    assert_eq!((v.x(), v.y()), (4, -4));
}

#[test]
fn switching_direction_in_one_frame_stops() {
    let mut v = Velocity::new(-4, 0, 0);
    steer(&mut v, &vec![Key::Left], &vec![Key::Right]);
    assert_eq!((v.x(), v.y()), (0, 0));
}

#[test]
fn press_and_release_single_keys() {
    let mut v = Velocity::new(0, 0, 9);
    press(&mut v, Key::Right);
    assert_eq!((v.x(), v.y(), v.mass()), (4, 0, 9));
    press(&mut v, Key::Up);
    assert_eq!((v.x(), v.y()), (4, -4));
    release(&mut v, Key::Down);
    assert_eq!((v.x(), v.y()), (4, 0));
    release(&mut v, Key::Left);
    assert_eq!((v.x(), v.y()), (0, 0));
}

#[test]
fn new_game_starts_centred() {
    let g = Game::new(2000, 1500);
    assert_eq!(tuple(g.player_dst), (480, 352, 64, 64));
    assert_eq!(tuple(g.player_src), (0, 0, 34, 52));
    assert_eq!(tuple(g.camera), (0, 0, 1024, 768));
    assert_eq!(tuple(g.background), (0, 0, 2000, 1500));
    assert_eq!(tuple(g.object), (640, 640, 64, 64));
    assert_eq!(g.frame, 0);
}

#[test]
fn walk_column_cycles_every_eight_frames() {
    let cols: Vec<i32> = (0..40).map(walk_column_exec).collect();
    for (f, c) in cols.iter().enumerate() {
        assert_eq!(*c, (f as i32 / 8) % 4);
    }
    assert_eq!(walk_column_exec(u32::MAX), ((u32::MAX as i32) / 8) % 4);
}

#[test]
fn update_walks_animates_and_follows() {
    let mut g = Game::new(2000, 1500);
    let tiles: Vec<Tile> = vec![];
    let objects: Vec<Object> = vec![];
    g.update(&vec![], &vec![Key::Right], &tiles, &objects);
    assert_eq!(g.frame, 1);
    assert_eq!((g.velocity.x(), g.velocity.y()), (4, 0));
    assert_eq!(tuple(g.player_dst), (484, 352, 64, 64));
    assert_eq!(tuple(g.player_src), (0, 104, 34, 52));
    assert_eq!(tuple(g.camera), (4, 0, 1024, 768));
    for _ in 0..8 {
        g.update(&vec![Key::Right], &vec![Key::Right], &tiles, &objects);
    }
    assert_eq!(g.frame, 9);
    assert_eq!(tuple(g.player_src), (34, 104, 34, 52));
    g.update(&vec![Key::Right], &vec![], &tiles, &objects);
    assert_eq!((g.velocity.x(), g.velocity.y()), (0, 0));
    assert_eq!(g.player_src.x(), 0);
}

#[test]
fn update_keeps_player_on_map() {
    let mut g = Game::new(2000, 1500);
    let tiles: Vec<Tile> = vec![];
    let objects: Vec<Object> = vec![];
    g.player_dst.set_x(1);
    g.update(&vec![], &vec![Key::Left], &tiles, &objects);
    assert_eq!(g.player_dst.x(), 0);
    assert_eq!(g.camera.x(), 0);
    g.player_dst.set_right(1999);
    g.update(&vec![Key::Left], &vec![], &tiles, &objects);
    g.update(&vec![], &vec![Key::Right], &tiles, &objects);
    assert_eq!(g.player_dst.right(), 2000);
    assert_eq!(g.camera.right(), 2000);
}

#[test]
fn update_diagonal_walk_does_not_move() {
    let mut g = Game::new(2000, 1500);
    let start = g.player_dst;
    g.update(&vec![], &vec![Key::Right, Key::Down], &vec![], &vec![]);
    assert_eq!(g.player_dst, start);
    assert_eq!(g.player_src.y(), 104);
}

#[test]
fn update_stops_at_solid_tile_only() {
    let map = parse_map(&chars("0 0 0 0 0 0 0 0 0\n0 0 0 0 0 0 0 0 0\n0 0 0 0 0 0 0 0 0\n0 0 0 0 0 0 0 0 0\n0 0 0 0 0 0 0 0 0\n0 0 0 0 0 0 0 0 0\n0 0 0 0 0 0 0 0 0\n0 0 0 0 0 0 0 0 8\n0 0 0 0 0 0 0 0 0\n0 0 0 0 0 0 0 0 0\n0 0 0 0 0 0 0 0 0\n0 0 0 0 0 0 0 0 0\n0 0 0 0 0 0 0 0 0\n0 0 0 0 0 0 0 0 0\n0 0 0 0 0 0 0 0 0\n0 0 0 0 0 0 0 0 0\n0 0 0 0 0 0 0 0 0\n0 0 0 0 0 0 0 0 0\n0 0 0 0 0 0 0 0 0\n0 0 0 0 0 0 0 0 0\n0 0 0 0 0 0 0 0 0\n0 0 0 0 0 0 0 0 0\n0 0 0 0 0 0 0 0 0\n0 0 0 0 0 0 0 0 0\n0 0 0 0 0 0 0 0 0\n0 0 0 0 0 0 0 0 0\n0 0 0 0 0 0 0 0 0 0 0 0 0 0 0 0 0 0 0 0 0 0 0 0 0 0 0 0 0 0 0 0")).unwrap();
    // The solid tile 8 lies at (512, 448).
    let mut g = Game::new(map.width, map.height);
    g.player_dst = Rect::new(447, 448, 64, 64);
    g.update(&vec![], &vec![Key::Right], &map.tiles, &vec![]);
    assert_eq!(tuple(g.player_dst), (447, 448, 64, 64));
    g.player_dst = Rect::new(447, 384, 64, 64);
    g.update(&vec![Key::Right], &vec![Key::Right], &map.tiles, &vec![]);
    assert_eq!(tuple(g.player_dst), (451, 384, 64, 64));
}

#[test]
fn update_stops_at_object() {
    let mut g = Game::new(2000, 1500);
    let objects = vec![Object { rect: Rect::new(600, 352, 64, 64), number: 3 }];
    g.player_dst = Rect::new(533, 352, 64, 64);
    g.update(&vec![], &vec![Key::Right], &vec![], &objects);
    assert_eq!(tuple(g.player_dst), (533, 352, 64, 64));
}

#[test]
fn frame_counter_starts_over() {
    let mut g = Game::new(2000, 1500);
    g.frame = FRAME_LIMIT - 2;
    g.update(&vec![], &vec![], &vec![], &vec![]);
    assert_eq!(g.frame, FRAME_LIMIT - 1);
    g.update(&vec![], &vec![], &vec![], &vec![]);
    assert_eq!(g.frame, 0);
}

#[test]
fn draw_list_order_and_placement() {
    let mut g = Game::new(2000, 1500);
    g.camera = Rect::new(10, 20, 1024, 768);
    let tiles = vec![Tile { rect: Rect::new(64, 0, 64, 64), index: 23 }];
    let objects = vec![Object { rect: Rect::new(100, 100, 64, 64), number: 6 }];
    let bg_src = Rect::new(0, 0, 300, 200);
    let list = g.draw_list(&tiles, &objects, bg_src);
    let sheets: Vec<Sheet> = list.iter().map(|d| d.sheet).collect();
    assert_eq!(
        sheets,
        vec![Sheet::Background, Sheet::Tiles, Sheet::Objects, Sheet::Objects, Sheet::Player, Sheet::Label]
    );
    assert_eq!(list[0].src, Some(bg_src));
    assert_eq!(tuple(list[0].dst), (-10, -20, 2000, 1500));
    assert_eq!(tuple(list[1].src.unwrap()), (192, 128, 64, 64));
    assert_eq!(tuple(list[1].dst), (54, -20, 64, 64));
    assert_eq!(tuple(list[2].src.unwrap()), (32, 16, 16, 16));
    assert_eq!(tuple(list[2].dst), (90, 80, 64, 64));
    assert_eq!(tuple(list[3].src.unwrap()), (0, 0, 16, 16));
    assert_eq!(tuple(list[3].dst), (630, 620, 64, 64));
    assert_eq!(list[4].src, Some(g.player_src));
    assert_eq!(tuple(list[4].dst), (470, 332, 64, 64));
    assert_eq!(list[5].src, None);
    assert_eq!(tuple(list[5].dst), (470, 316, 64, 16));
}

#[test]
fn sheet_sources() {
    assert_eq!(tuple(tile_source_rect(0)), (0, 0, 64, 64));
    assert_eq!(tuple(tile_source_rect(49)), (576, 256, 64, 64));
    assert_eq!(tuple(tile_source_rect(-13)), (-192, -64, 64, 64));
    assert_eq!(tuple(object_source_rect(19)), (48, 64, 16, 16));
    assert!(is_tile_drawable(335544319));
    assert!(!is_tile_drawable(335544320));
    assert!(!is_tile_drawable(i32::MIN + 8));
    assert!(is_tile_drawable(-335544329));
    assert!(!is_tile_drawable(-335544330));
    assert!(is_object_drawable(19));
    assert!(!is_object_drawable(536870912));
    assert!(is_object_drawable(u32::MAX));
}

#[test]
fn spawn_objects_within_bounds() {
    let objects = spawn_objects(2000, 1500).unwrap();
    assert_eq!(objects.len(), OBJECT_COUNT as usize);
    for (i, o) in objects.iter().enumerate() {
        assert_eq!(o.number, i as u32);
        assert!(0 <= o.rect.x() && o.rect.x() < 1500 - 64);
        assert!(0 <= o.rect.y() && o.rect.y() < 2000 - 64);
        assert_eq!((o.rect.width(), o.rect.height()), (64, 64));
    }
}

#[test]
fn spawn_objects_needs_room() {
    assert!(spawn_objects(2000, 64).is_none());
    assert!(spawn_objects(64, 2000).is_none());
    assert!(spawn_objects(2000, 65).is_some());
    assert!(spawn_objects(3_000_000_000, 2000).is_none());
}

#[test]
fn frame_timing() {
    assert_eq!(frame_delay(100, 100), Some(16));
    assert_eq!(frame_delay(100, 110), Some(6));
    assert_eq!(frame_delay(100, 116), Some(0));
    assert_eq!(frame_delay(100, 117), None);
    assert!(!needs_timer_reset(999_999_999));
    assert!(needs_timer_reset(1_000_000_000));
}

#[test]
fn place_objects_uses_drawn_coordinates() {
    let objects = place_objects(&vec![5, 0, 1300], &vec![7, 2000, 0]);
    let got: Vec<(i32, i32, u32, u32, u32)> =
        objects.iter().map(|o| (o.rect.x(), o.rect.y(), o.rect.width(), o.rect.height(), o.number)).collect();
    assert_eq!(got, vec![(5, 7, 64, 64, 0), (0, 2000, 64, 64, 1), (1300, 0, 64, 64, 2)]);
}

#[test]
fn player_speed_never_changes() {
    let mut p = Player::new(Rect::new(0, 0, 34, 52), Rect::new(0, 0, 64, 64), Velocity::new(0, 0, 0));
    p.set_velocity(9, 9, 9);
    p.set_velocity_x(-3);
    p.set_velocity_y(12);
    assert_eq!(p.speed(), 4);
}
