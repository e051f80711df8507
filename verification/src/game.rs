//! One frame of the game: steering, animating and moving the player,
//! keeping it and the camera on the map, and resolving collisions.
use vstd::prelude::*;
use crate::rect::{Rect, RectModel, MAX_INT_VALUE, MIN_INT_VALUE};
use crate::velocity::{Velocity, VelocityModel};
use crate::input::{Key, is_walk, steer, steered, lemma_steer_keeps_walk};
use crate::collision::runs_into;
use crate::map::{Tile, TileModel, tile_views, wrap_i32, wrapping_i32, TILE_SIZE};
use crate::world::{Object, ObjectModel, object_views, collide, collide_with, collide_tiles,
    collide_objects, collide_with_tiles, collide_with_objects, lemma_object_pass};

verus! {

/// The size of the window, which is also the size of the camera.
pub const SCREEN_WIDTH: u32 = 1024;
pub const SCREEN_HEIGHT: u32 = 768;

/// The size of one frame of the player's sprite sheet.
pub const SPRITE_WIDTH: u32 = 34;
pub const SPRITE_HEIGHT: u32 = 52;

/// The number of frames of the walking animation.
pub const WALKING_SPRITES: i32 = 4;

/// The frame counter starts over from zero when it reaches this.
pub const FRAME_LIMIT: u32 = 1000000000;

/// Rust's `/` on integers: the quotient rounded towards zero.
pub open spec fn trunc_div(a: int, b: int) -> int {
    if a >= 0 {
        a / b
    } else {
        -((-a) / b)
    }
}

/// Rust's `%` on integers: the remainder takes the sign of `a`.
pub open spec fn trunc_rem(a: int, b: int) -> int {
    if a >= 0 {
        a % b
    } else {
        -((-a) % b)
    }
}

pub fn trunc_div_exec(a: i64, b: i64) -> (r: i64)
    requires
        b > 0,
        a > i64::MIN,
    ensures
        r == trunc_div(a as int, b as int),
        a >= 0 ==> 0 <= r <= a,
        a < 0 ==> a <= r <= 0,
{
    proof {
        if a >= 0 {
            vstd::arithmetic::div_mod::lemma_div_is_ordered_by_denominator(a as int, 1, b as int);
            vstd::arithmetic::div_mod::lemma_div_pos_is_pos(a as int, b as int);
        } else {
            vstd::arithmetic::div_mod::lemma_div_is_ordered_by_denominator(-a, 1, b as int);
            vstd::arithmetic::div_mod::lemma_div_pos_is_pos(-a, b as int);
        }
    }
    if a >= 0 {
        a / b
    } else {
        -((-a) / b)
    }
}

pub fn trunc_rem_exec(a: i64, b: i64) -> (r: i64)
    requires
        b > 0,
        a > i64::MIN,
    ensures
        r == trunc_rem(a as int, b as int),
        -b < r < b,
{
    if a >= 0 {
        a % b
    } else {
        -((-a) % b)
    }
}

/// The column of the walking animation shown at `frame` (the counter read as
/// an `i32`, eight frames per picture, four pictures).
pub open spec fn walk_column(frame: int) -> int {
    trunc_rem(trunc_div(wrap_i32(frame), 8), WALKING_SPRITES as int)
}

/// The sprite frame after a frame at velocity `v`: the row shows the
/// direction of the walk (right, then left, then down, then up take
/// precedence), the column the step of the animation; standing still shows
/// the first column.
pub open spec fn animated(src: RectModel, v: VelocityModel, frame: int) -> RectModel {
    let col = SPRITE_WIDTH * walk_column(frame);
    if v.x > 0 {
        src.with_y(2 * SPRITE_HEIGHT).with_x(col)
    } else if v.x < 0 {
        src.with_y(1 * SPRITE_HEIGHT).with_x(col)
    } else if v.y > 0 {
        src.with_y(0).with_x(col)
    } else if v.y < 0 {
        src.with_y(3 * SPRITE_HEIGHT).with_x(col)
    } else {
        src.with_x(0)
    }
}

/// The player after a frame's walk: a step along each axis, except that a
/// diagonal walk does not move at all.
pub open spec fn moved(dst: RectModel, v: VelocityModel) -> RectModel {
    if v.x != 0 && v.y != 0 {
        dst
    } else {
        dst.with_x(dst.x + v.x).with_y(dst.y + v.y)
    }
}

/// The player moved back onto the map: the left and top sides to at least
/// zero, then the right and bottom sides to at most those of the map.
pub open spec fn kept_inside(r: RectModel, map: RectModel) -> RectModel {
    let a = if r.x < 0 { r.with_x(0) } else { r };
    let b = if a.y < 0 { a.with_y(0) } else { a };
    let c = if b.right() > map.right() { b.with_right(map.right()) } else { b };
    if c.bottom() > map.bottom() { c.with_bottom(map.bottom()) } else { c }
}

/// The camera centred on the player, then moved back onto the map: the
/// left and top sides to those of the map, then the right and bottom sides
/// to at most those of the map.
pub open spec fn followed(camera: RectModel, player: RectModel, map: RectModel) -> RectModel {
    let c0 = camera.centered_on(player.center());
    let a = if c0.x < 0 { c0.with_x(map.x) } else { c0 };
    let b = if a.y < 0 { a.with_y(map.y) } else { a };
    let c = if b.right() > map.right() { b.with_right(map.right()) } else { b };
    if c.bottom() > map.bottom() { c.with_bottom(map.bottom()) } else { c }
}

/// The mathematical content of the game state.
pub struct GameModel {
    pub player_src: RectModel,
    pub player_dst: RectModel,
    pub velocity: VelocityModel,
    pub camera: RectModel,
    pub background: RectModel,
    pub object: RectModel,
    pub frame: int,
}

/// The state of the game between two frames: the player's sprite frame,
/// position and velocity, the camera, the map's extent, the lone object
/// placed on the map, and the frame counter.
pub struct Game {
    pub player_src: Rect,
    pub player_dst: Rect,
    pub velocity: Velocity,
    pub camera: Rect,
    pub background: Rect,
    pub object: Rect,
    pub frame: u32,
}

impl View for Game {
    type V = GameModel;

    open spec fn view(&self) -> GameModel {
        GameModel {
            player_src: self.player_src@,
            player_dst: self.player_dst@,
            velocity: self.velocity@,
            camera: self.camera@,
            background: self.background@,
            object: self.object@,
            frame: self.frame as int,
        }
    }
}

/// The state after one frame in which the arrow keys held went from
/// `before` to `now`.
pub open spec fn stepped(
    g: GameModel,
    before: Seq<Key>,
    now: Seq<Key>,
    tiles: Seq<TileModel>,
    objects: Seq<ObjectModel>,
) -> GameModel {
    let frame = g.frame + 1;
    let v = steered(g.velocity, before, now);
    let src = animated(g.player_src, v, frame);
    let dst = kept_inside(moved(g.player_dst, v), g.background);
    let camera = followed(g.camera, dst, g.background);
    let pushed = collide_objects(
        collide_tiles(collide_with(dst, v, g.object), v, tiles),
        v,
        objects,
    );
    GameModel {
        player_src: src,
        player_dst: pushed,
        velocity: v,
        camera,
        background: g.background,
        object: g.object,
        frame: if frame >= FRAME_LIMIT { 0 } else { frame },
    }
}

impl Game {
    /// What every game state satisfies: the frame counter is below its
    /// limit, the player walks or stands, and the player is a tile in size.
    pub open spec fn wf(&self) -> bool {
        &&& self.frame < FRAME_LIMIT
        &&& is_walk(self.velocity@)
        &&& self.player_dst@.w == TILE_SIZE
        &&& self.player_dst@.h == TILE_SIZE
    }

    /// The state at the start: the player stands in the middle of the
    /// screen, the camera at the top-left of the map, which is `map_width`
    /// by `map_height` pixels.
    pub fn new(map_width: u32, map_height: u32) -> (r: Game)
        ensures
            r.wf(),
            r@.player_src == RectModel::new(0, 0, SPRITE_WIDTH as int, SPRITE_HEIGHT as int),
            r@.player_dst == RectModel::new(0, 0, 64, 64).centered_on(
                ((SCREEN_WIDTH / 2) as int, (SCREEN_HEIGHT / 2) as int),
            ),
            r@.velocity == (VelocityModel { x: 0, y: 0, mass: 0 }),
            r@.camera == RectModel::new(0, 0, SCREEN_WIDTH as int, SCREEN_HEIGHT as int),
            r@.background == RectModel::new(0, 0, map_width as int, map_height as int),
            r@.object == RectModel::new(640, 640, 64, 64),
            r@.frame == 0,
    {
        let mut player_dst = Rect::new(0, 0, TILE_SIZE, TILE_SIZE);
        player_dst.center_on(((SCREEN_WIDTH / 2) as i32, (SCREEN_HEIGHT / 2) as i32));
        Game {
            player_src: Rect::new(0, 0, SPRITE_WIDTH, SPRITE_HEIGHT),
            player_dst,
            velocity: Velocity::new(0, 0, 0),
            camera: Rect::new(0, 0, SCREEN_WIDTH, SCREEN_HEIGHT),
            background: Rect::new(0, 0, map_width, map_height),
            object: Rect::new(640, 640, TILE_SIZE, TILE_SIZE),
            frame: 0,
        }
    }

    /// Plays one frame: the arrow keys held went from `before` to `now`.
    pub fn update(&mut self, before: &Vec<Key>, now: &Vec<Key>, tiles: &Vec<Tile>, objects: &Vec<
        Object,
    >)
        requires
            old(self).wf(),
        ensures
            final(self).wf(),
            final(self)@ == stepped(
                old(self)@,
                before@,
                now@,
                tile_views(tiles@),
                object_views(objects@),
            ),
    {
        self.frame = self.frame + 1;
        proof {
            lemma_steer_keeps_walk(self.velocity@, before@, now@);
        }
        steer(&mut self.velocity, before, now);
        self.player_src = animate(self.player_src, self.velocity, self.frame);
        let dst = keep_inside(walk(self.player_dst, self.velocity), self.background);
        self.camera = follow(self.camera, dst, self.background);
        let dst = collide(dst, self.velocity, self.object);
        let dst = collide_with_tiles(dst, self.velocity, tiles);
        self.player_dst = collide_with_objects(dst, self.velocity, objects);
        if self.frame >= FRAME_LIMIT {
            self.frame = 0;
        }
    }
}

/// The column of the walking animation shown at `frame`.
pub fn walk_column_exec(frame: u32) -> (r: i32)
    ensures
        r == walk_column(frame as int),
        -WALKING_SPRITES < r < WALKING_SPRITES,
{
    let f = wrapping_i32(frame) as i64;
    let q = trunc_div_exec(f, 8);
    trunc_rem_exec(q, WALKING_SPRITES as i64) as i32
}

/// The sprite frame shown after a frame at `velocity`.
pub fn animate(src: Rect, velocity: Velocity, frame: u32) -> (r: Rect)
    ensures
        r@ == animated(src@, velocity@, frame as int),
{
    let mut src = src;
    let col = SPRITE_WIDTH as i32 * walk_column_exec(frame);
    if velocity.x() > 0 {
        src.set_y(2 * SPRITE_HEIGHT as i32);
        src.set_x(col);
    } else if velocity.x() < 0 {
        src.set_y(1 * SPRITE_HEIGHT as i32);
        src.set_x(col);
    } else if velocity.y() > 0 {
        src.set_y(0 * SPRITE_HEIGHT as i32);
        src.set_x(col);
    } else if velocity.y() < 0 {
        src.set_y(3 * SPRITE_HEIGHT as i32);
        src.set_x(col);
    } else {
        src.set_x(0 * SPRITE_WIDTH as i32);
    }
    src
}

/// The player after a frame's walk at `velocity`.
pub fn walk(dst: Rect, velocity: Velocity) -> (r: Rect)
    requires
        is_walk(velocity@),
    ensures
        r@ == moved(dst@, velocity@),
        r@.w == dst@.w,
        r@.h == dst@.h,
{
    let mut dst = dst;
    if velocity.x() != 0 && velocity.y() != 0 {
    } else {
        let x = dst.x();
        dst.set_x(x + velocity.x());
        let y = dst.y();
        dst.set_y(y + velocity.y());
    }
    dst
}

/// Moves the player back onto the map.
pub fn keep_inside(dst: Rect, map: Rect) -> (r: Rect)
    ensures
        r@ == kept_inside(dst@, map@),
        r@.w == dst@.w,
        r@.h == dst@.h,
{
    let mut dst = dst;
    if dst.x() < 0 {
        dst.set_x(0);
    }
    if dst.y() < 0 {
        dst.set_y(0);
    }
    if dst.right() > map.right() {
        dst.set_right(map.right());
    }
    if dst.bottom() > map.bottom() {
        dst.set_bottom(map.bottom());
    }
    dst
}

/// Centres the camera on the player and moves it back onto the map.
pub fn follow(camera: Rect, player: Rect, map: Rect) -> (r: Rect)
    ensures
        r@ == followed(camera@, player@, map@),
{
    let mut camera = camera;
    camera.center_on(player.center());
    if camera.x() < 0 {
        camera.set_x(map.left());
    }
    if camera.y() < 0 {
        camera.set_y(map.top());
    }
    if camera.right() > map.right() {
        camera.set_right(map.right());
    }
    if camera.bottom() > map.bottom() {
        camera.set_bottom(map.bottom());
    }
    camera
}

/// The frame rate the game aims at.
pub const FRAME_PER_SECOND: u32 = 60;

/// The timer is started over when its ticks reach this.
pub const TIMER_LIMIT: u32 = 1000000000;

/// The milliseconds one frame lasts.
pub open spec fn frame_budget() -> int {
    1000int / FRAME_PER_SECOND as int
}

/// How long to wait after a frame that started at `start_tick` and ended at
/// `now_tick` (in milliseconds): what is left of the frame's budget, or
/// `None` where the frame took longer than the budget.
pub fn frame_delay(start_tick: u32, now_tick: u32) -> (r: Option<u32>)
    requires
        start_tick <= now_tick,
    ensures
        r == if now_tick - start_tick <= frame_budget() {
            Some((frame_budget() - (now_tick - start_tick)) as u32)
        } else {
            None::<u32>
        },
{
    let elapsed = now_tick - start_tick;
    if elapsed <= 1000 / FRAME_PER_SECOND {
        Some((1000 / FRAME_PER_SECOND) - elapsed)
    } else {
        None
    }
}

/// Whether the timer has run long enough to be started over.
pub fn needs_timer_reset(ticks: u32) -> (r: bool)
    ensures
        r == (ticks >= TIMER_LIMIT),
{
    ticks >= TIMER_LIMIT
}

/// The frame counter counts up by one each frame, starting over from zero
/// at `FRAME_LIMIT`.
pub proof fn lemma_frame_counter(
    g: GameModel,
    before: Seq<Key>,
    now: Seq<Key>,
    tiles: Seq<TileModel>,
    objects: Seq<ObjectModel>,
)
    requires
        0 <= g.frame < FRAME_LIMIT,
    ensures
        stepped(g, before, now, tiles, objects).frame == (g.frame + 1) % (FRAME_LIMIT as int),
{
}

/// A player no larger than the map ends up on the map, with its size kept,
/// moved as little as possible: each coordinate is clamped into the range
/// that keeps the player on the map.
pub proof fn lemma_kept_inside(r: RectModel, map: RectModel)
    requires
        r.valid(),
        map.valid(),
        map.x == 0,
        map.y == 0,
        r.w <= map.w,
        r.h <= map.h,
    ensures
        ({
            let k = kept_inside(r, map);
            &&& k.valid()
            &&& k.w == r.w && k.h == r.h
            &&& 0 <= k.x && k.right() <= map.right()
            &&& 0 <= k.y && k.bottom() <= map.bottom()
            &&& k.x == if r.x < 0 {
                0
            } else if r.right() > map.right() {
                map.right() - r.w
            } else {
                r.x
            }
            &&& k.y == if r.y < 0 {
                0
            } else if r.bottom() > map.bottom() {
                map.bottom() - r.h
            } else {
                r.y
            }
        }),
{
}

/// A camera no larger than the map shows only the map.
pub proof fn lemma_camera_on_map(camera: RectModel, player: RectModel, map: RectModel)
    requires
        camera.valid(),
        player.valid(),
        map.valid(),
        map.x == 0,
        map.y == 0,
        camera.w <= map.w,
        camera.h <= map.h,
    ensures
        ({
            let c = followed(camera, player, map);
            &&& c.valid()
            &&& c.w == camera.w && c.h == camera.h
            &&& 0 <= c.x && c.right() <= map.right()
            &&& 0 <= c.y && c.bottom() <= map.bottom()
        }),
{
}

/// Where centring on the player keeps the camera on the map, the camera is
/// centred on the player's centre (rounded down) along that axis.
pub proof fn lemma_camera_centred(camera: RectModel, player: RectModel, map: RectModel)
    requires
        camera.valid(),
        player.valid(),
        map.valid(),
        map.x == 0,
        map.y == 0,
        camera.w <= map.w,
        camera.h <= map.h,
    ensures
        ({
            let c = followed(camera, player, map);
            let x = player.x + player.w / 2 - camera.w / 2;
            let y = player.y + player.h / 2 - camera.h / 2;
            &&& 0 <= x && x + camera.w <= map.right() ==> c.x == x
            &&& 0 <= y && y + camera.h <= map.bottom() ==> c.y == y
        }),
{
}

/// A player on the map no larger than the camera, on a map no smaller than
/// the camera, is always in view of the camera that follows it.
pub proof fn lemma_camera_shows_player(camera: RectModel, player: RectModel, map: RectModel)
    requires
        camera.valid(),
        player.valid(),
        map.valid(),
        map.x == 0,
        map.y == 0,
        camera.w <= map.w,
        camera.h <= map.h,
        player.w <= camera.w,
        player.h <= camera.h,
        0 <= player.x,
        player.right() <= map.right(),
        0 <= player.y,
        player.bottom() <= map.bottom(),
    ensures
        ({
            let c = followed(camera, player, map);
            &&& c.x <= player.x && player.right() <= c.right()
            &&& c.y <= player.y && player.bottom() <= c.bottom()
        }),
{
}

/// A walk along one axis moves the player by the velocity (inside the
/// coordinate range); a diagonal walk leaves it where it is.
pub proof fn lemma_walk(dst: RectModel, v: VelocityModel)
    requires
        dst.valid(),
    ensures
        v.x != 0 && v.y != 0 ==> moved(dst, v) == dst,
        (v.x == 0 || v.y == 0) && MIN_INT_VALUE <= dst.x + v.x <= MAX_INT_VALUE && MIN_INT_VALUE
            <= dst.y + v.y <= MAX_INT_VALUE ==> moved(dst, v) == (RectModel {
            x: dst.x + v.x,
            y: dst.y + v.y,
            ..dst
        }),
{
}

/// The walking animation shows picture `(frame / 8) % 4` of the row for the
/// direction of the walk: right, left, down and up are rows 2, 1, 0 and 3;
/// a player standing still shows the first picture of its row.
pub proof fn lemma_animation(src: RectModel, v: VelocityModel, frame: int)
    requires
        src.valid(),
        0 <= frame <= i32::MAX,
    ensures
        walk_column(frame) == (frame / 8) % 4,
        ({
            let a = animated(src, v, frame);
            let col = SPRITE_WIDTH * ((frame / 8) % 4);
            &&& a.w == src.w && a.h == src.h
            &&& v.x > 0 ==> a.x == col && a.y == 2 * SPRITE_HEIGHT
            &&& v.x < 0 ==> a.x == col && a.y == SPRITE_HEIGHT
            &&& v.x == 0 && v.y > 0 ==> a.x == col && a.y == 0
            &&& v.x == 0 && v.y < 0 ==> a.x == col && a.y == 3 * SPRITE_HEIGHT
            &&& v.x == 0 && v.y == 0 ==> a.x == 0 && a.y == src.y
        }),
{
}

/// In a frame with no tiles and no other objects, a player that, after its
/// walk, runs into the lone object with its leading edge ends the frame out
/// of it.
pub proof fn lemma_frame_pushes_out_of_object(g: GameModel, before: Seq<Key>, now: Seq<Key>)
    requires
        g.player_dst.valid(),
        g.background.valid(),
        g.object.valid(),
        g.background.x == 0,
        g.background.y == 0,
        g.player_dst.w == TILE_SIZE,
        g.player_dst.h == TILE_SIZE,
        TILE_SIZE <= g.background.w,
        TILE_SIZE <= g.background.h,
        is_walk(g.velocity),
        runs_into(
            kept_inside(moved(g.player_dst, steered(g.velocity, before, now)), g.background),
            g.object,
            steered(g.velocity, before, now),
        ),
    ensures
        stepped(g, before, now, Seq::empty(), Seq::empty()).player_dst.intersect(g.object) is None,
{
    let v = steered(g.velocity, before, now);
    lemma_steer_keeps_walk(g.velocity, before, now);
    let d = kept_inside(moved(g.player_dst, v), g.background);
    lemma_kept_inside(moved(g.player_dst, v), g.background);
    let o = ObjectModel { rect: g.object, number: 0 };
    lemma_object_pass(d, v, o);
    let os = seq![o];
    assert(os.drop_last() =~= Seq::<ObjectModel>::empty());
    assert(collide_tiles(collide_with(d, v, g.object), v, Seq::empty()) == collide_with(d, v, g.object));
    assert(collide_objects(collide_with(d, v, g.object), v, Seq::empty()) == collide_with(d, v, g.object));
}

} // verus!
