//! The collision pass of a frame: the player is pushed out of each solid
//! tile and each object it overlaps, one after the other.
use vstd::prelude::*;
use rand::Rng;
use crate::rect::{Rect, RectModel, MAX_INT_VALUE, MIN_INT_VALUE};
use crate::velocity::{Velocity, VelocityModel};
use crate::input::is_walk;
use crate::collision::{is_collide, replace_collide, replace_collide_defined, replaced, push_speed, scaled_diagonal,
    runs_into, abs, lemma_push_back_separates};
use crate::map::{Tile, TileModel, tile_views, wrap_i32, wrapping_i32, TILE_SIZE};

verus! {

/// The mathematical content of an object.
pub struct ObjectModel {
    pub rect: RectModel,
    pub number: int,
}

/// An object lying on the map; `number` picks its picture from the object sheet.
#[derive(Clone, Copy, Debug, PartialEq, Eq)]
pub struct Object {
    pub rect: Rect,
    pub number: u32,
}

impl View for Object {
    type V = ObjectModel;

    open spec fn view(&self) -> ObjectModel {
        ObjectModel { rect: self.rect@, number: self.number as int }
    }
}

pub open spec fn object_views(v: Seq<Object>) -> Seq<ObjectModel> {
    v.map_values(|o: Object| o@)
}

/// The tile numbers of the tile sheet that the player cannot walk through.
pub open spec fn is_solid(index: int) -> bool {
    index == 8 || index == 9 || index == 18 || index == 19 || index == 28 || index == 29 || index
        == 38 || index == 39 || index == 48 || index == 49
}

/// The player after meeting `obstacle`: pushed back out of the overlap if
/// there is one, unchanged otherwise.
pub open spec fn collide_with(dst: RectModel, v: VelocityModel, obstacle: RectModel) -> RectModel {
    match dst.intersect(obstacle) {
        Some(c) => replaced(c, dst, v),
        None => dst,
    }
}

/// The player after meeting each solid tile in turn.
pub open spec fn collide_tiles(dst: RectModel, v: VelocityModel, tiles: Seq<TileModel>) -> RectModel
    decreases tiles.len(),
{
    if tiles.len() == 0 {
        dst
    } else {
        let d = collide_tiles(dst, v, tiles.drop_last());
        if is_solid(tiles.last().index) {
            collide_with(d, v, tiles.last().rect)
        } else {
            d
        }
    }
}

/// The player after meeting each object in turn.
pub open spec fn collide_objects(dst: RectModel, v: VelocityModel, objects: Seq<ObjectModel>) -> RectModel
    decreases objects.len(),
{
    if objects.len() == 0 {
        dst
    } else {
        collide_with(collide_objects(dst, v, objects.drop_last()), v, objects.last().rect)
    }
}

/// A player of at most a tile's size, walking, can always be pushed back.
proof fn lemma_push_defined(c: RectModel, d: RectModel, v: VelocityModel)
    requires
        d.valid(),
        d.w <= 64,
        d.h <= 64,
        is_walk(v),
    ensures
        replace_collide_defined(c, d, v),
{
    assert(scaled_diagonal(4) == 3);
    assert(scaled_diagonal(-4) == -3);
    assert(-4 <= push_speed(v).0 <= 4 && -4 <= push_speed(v).1 <= 4);
}

/// Meeting an obstacle keeps the player's size.
pub proof fn lemma_collide_keeps_size(dst: RectModel, v: VelocityModel, obstacle: RectModel)
    requires
        dst.valid(),
    ensures
        collide_with(dst, v, obstacle).w == dst.w,
        collide_with(dst, v, obstacle).h == dst.h,
        collide_with(dst, v, obstacle).valid(),
{
}

/// Pushes the player out of `obstacle` if it overlaps it.
pub fn collide(dst: Rect, velocity: Velocity, obstacle: Rect) -> (r: Rect)
    requires
        dst@.w <= 64,
        dst@.h <= 64,
        is_walk(velocity@),
    ensures
        r@ == collide_with(dst@, velocity@, obstacle@),
        r@.w == dst@.w,
        r@.h == dst@.h,
{
    match is_collide(dst, obstacle) {
        Some(c) => {
            proof {
                lemma_push_defined(c@, dst@, velocity@);
            }
            replace_collide(c, dst, velocity)
        },
        None => dst,
    }
}

/// Pushes the player out of each solid tile it overlaps, in map order.
pub fn collide_with_tiles(dst: Rect, velocity: Velocity, tiles: &Vec<Tile>) -> (r: Rect)
    requires
        dst@.w <= 64,
        dst@.h <= 64,
        is_walk(velocity@),
    ensures
        r@ == collide_tiles(dst@, velocity@, tile_views(tiles@)),
        r@.w == dst@.w,
        r@.h == dst@.h,
{
    let mut d = dst;
    let mut i: usize = 0;
    while i < tiles.len()
        invariant
            i <= tiles.len(),
            is_walk(velocity@),
            d@.w == dst@.w,
            d@.h == dst@.h,
            dst@.w <= 64,
            dst@.h <= 64,
            d@ == collide_tiles(dst@, velocity@, tile_views(tiles@).take(i as int)),
        decreases tiles.len() - i,
    {
        assert(tile_views(tiles@).take(i + 1).drop_last() =~= tile_views(tiles@).take(i as int));
        assert(tile_views(tiles@)[i as int] == tiles@[i as int]@);
        let t = tiles[i];
        let idx = t.index;
        if idx == 8 || idx == 9 || idx == 18 || idx == 19 || idx == 28 || idx == 29 || idx == 38
            || idx == 39 || idx == 48 || idx == 49 {
            d = collide(d, velocity, t.rect);
        }
        i = i + 1;
    }
    assert(tile_views(tiles@).take(tiles.len() as int) =~= tile_views(tiles@));
    d
}

/// Pushes the player out of each object it overlaps, in order.
pub fn collide_with_objects(dst: Rect, velocity: Velocity, objects: &Vec<Object>) -> (r: Rect)
    requires
        dst@.w <= 64,
        dst@.h <= 64,
        is_walk(velocity@),
    ensures
        r@ == collide_objects(dst@, velocity@, object_views(objects@)),
        r@.w == dst@.w,
        r@.h == dst@.h,
{
    let mut d = dst;
    let mut i: usize = 0;
    while i < objects.len()
        invariant
            i <= objects.len(),
            is_walk(velocity@),
            d@.w == dst@.w,
            d@.h == dst@.h,
            dst@.w <= 64,
            dst@.h <= 64,
            d@ == collide_objects(dst@, velocity@, object_views(objects@).take(i as int)),
        decreases objects.len() - i,
    {
        assert(object_views(objects@).take(i + 1).drop_last() =~= object_views(objects@).take(
            i as int,
        ));
        assert(object_views(objects@)[i as int] == objects@[i as int]@);
        d = collide(d, velocity, objects[i].rect);
        i = i + 1;
    }
    assert(object_views(objects@).take(objects.len() as int) =~= object_views(objects@));
    d
}

/// How many objects are scattered over the map.
pub const OBJECT_COUNT: u32 = 20;

/// Calls `rand::thread_rng().gen_range(0, high)`, which rand documents as a
/// value in `[0, high)` and which panics where `high <= 0`; which value comes
/// back is left to chance.
#[verifier::external_body]
fn random_below(high: i32) -> (r: i32)
    requires
        0 < high,
    ensures
        0 <= r < high,
{
    rand::thread_rng().gen_range(0, high)
}

/// The bound below which object positions are drawn along an axis of
/// `size` pixels (the size read as an `i32`, less a tile).
pub open spec fn spawn_bound(size: int) -> int {
    wrap_i32(size) - TILE_SIZE
}

/// The object numbered `number` with its left side at `x` and its top side at `y`.
pub open spec fn placed(x: int, y: int, number: int) -> ObjectModel {
    ObjectModel { rect: RectModel::new(x, y, TILE_SIZE as int, TILE_SIZE as int), number }
}

/// Places one tile-sized object at each pair of drawn coordinates, numbered
/// from zero in order.
pub fn place_objects(xs: &Vec<i32>, ys: &Vec<i32>) -> (r: Vec<Object>)
    requires
        xs@.len() == ys@.len() <= u32::MAX,
    ensures
        r@.len() == xs@.len(),
        forall|i: int| 0 <= i < r@.len() ==> #[trigger] r@[i]@ == placed(xs@[i] as int, ys@[i] as int, i),
{
    let mut objects: Vec<Object> = Vec::new();
    let mut i: usize = 0;
    while i < xs.len()
        invariant
            i <= xs@.len() == ys@.len() <= u32::MAX,
            objects@.len() == i,
            forall|k: int| 0 <= k < i ==> #[trigger] objects@[k]@ == placed(xs@[k] as int, ys@[k] as int, k),
        decreases xs.len() - i,
    {
        objects.push(Object { rect: Rect::new(xs[i], ys[i], TILE_SIZE, TILE_SIZE), number: i as u32 });
        i = i + 1;
    }
    objects
}

/// Scatters `OBJECT_COUNT` objects at random over a map of the given size,
/// numbered from zero: an object's left side is drawn below the spawn bound
/// of `map_height` and its top side below that of `map_width`. There is room
/// for the objects only where both bounds are positive; otherwise `None`.
pub fn spawn_objects(map_width: u32, map_height: u32) -> (r: Option<Vec<Object>>)
    ensures
        r is Some <==> spawn_bound(map_height as int) > 0 && spawn_bound(map_width as int) > 0,
        r matches Some(objects) ==> {
            &&& objects@.len() == OBJECT_COUNT
            &&& forall|i: int|
                0 <= i < objects@.len() ==> {
                    let o = #[trigger] objects@[i]@;
                    &&& o.number == i
                    &&& 0 <= o.rect.x < spawn_bound(map_height as int)
                    &&& 0 <= o.rect.y < spawn_bound(map_width as int)
                    &&& o == placed(o.rect.x, o.rect.y, i)
                }
        },
{
    let bound_x = wrapping_i32(map_height) as i64 - TILE_SIZE as i64;
    let bound_y = wrapping_i32(map_width) as i64 - TILE_SIZE as i64;
    if bound_x <= 0 || bound_y <= 0 {
        return None;
    }
    let bound_x = bound_x as i32;
    let bound_y = bound_y as i32;
    let mut xs: Vec<i32> = Vec::new();
    let mut ys: Vec<i32> = Vec::new();
    let mut n: u32 = 0;
    while n < OBJECT_COUNT
        invariant
            n <= OBJECT_COUNT,
            xs@.len() == n,
            ys@.len() == n,
            0 < bound_x,
            0 < bound_y,
            forall|k: int| 0 <= k < n ==> 0 <= #[trigger] xs@[k] < bound_x,
            forall|k: int| 0 <= k < n ==> 0 <= #[trigger] ys@[k] < bound_y,
        decreases OBJECT_COUNT - n,
    {
        xs.push(random_below(bound_x));
        ys.push(random_below(bound_y));
        n = n + 1;
    }
    let objects = place_objects(&xs, &ys);
    assert forall|i: int| 0 <= i < objects@.len() implies {
        let o = #[trigger] objects@[i]@;
        &&& o.number == i
        &&& 0 <= o.rect.x < spawn_bound(map_height as int)
        &&& 0 <= o.rect.y < spawn_bound(map_width as int)
        &&& o == placed(o.rect.x, o.rect.y, i)
    } by {
        assert(objects@[i]@ == placed(xs@[i] as int, ys@[i] as int, i));
        assert(0 <= xs@[i] < bound_x);
        assert(0 <= ys@[i] < bound_y);
    }
    Some(objects)
}

/// The solid tiles are the last two of each of the first five rows of the
/// ten-wide tile sheet: numbers 8, 9, 18, 19, 28, 29, 38, 39, 48 and 49.
pub proof fn lemma_solid_tiles(index: int)
    ensures
        is_solid(index) <==> 0 <= index < 50 && (index % 10 == 8 || index % 10 == 9),
{
}

/// A player that runs into a solid tile with its leading edge is pushed back
/// out of it by the tile pass; a tile that is not solid never moves the player.
pub proof fn lemma_tile_pass(dst: RectModel, velocity: VelocityModel, tile: TileModel)
    requires
        dst.valid(),
        tile.rect.valid(),
    ensures
        !is_solid(tile.index) ==> collide_tiles(dst, velocity, seq![tile]) == dst,
        is_solid(tile.index) && runs_into(dst, tile.rect, velocity)
            && MIN_INT_VALUE <= dst.x - abs(velocity.x) && dst.x + abs(velocity.x) <= MAX_INT_VALUE
            && MIN_INT_VALUE <= dst.y - abs(velocity.y) && dst.y + abs(velocity.y) <= MAX_INT_VALUE
            ==> collide_tiles(dst, velocity, seq![tile]).intersect(tile.rect) is None,
{
    let ts = seq![tile];
    assert(ts.drop_last() =~= Seq::<TileModel>::empty());
    assert(collide_tiles(dst, velocity, ts.drop_last()) == dst);
    if is_solid(tile.index) && runs_into(dst, tile.rect, velocity)
        && MIN_INT_VALUE <= dst.x - abs(velocity.x) && dst.x + abs(velocity.x) <= MAX_INT_VALUE
        && MIN_INT_VALUE <= dst.y - abs(velocity.y) && dst.y + abs(velocity.y) <= MAX_INT_VALUE {
        lemma_push_back_separates(dst, tile.rect, velocity);
    }
}

/// A player that runs into an object with its leading edge is pushed back
/// out of it by the object pass.
pub proof fn lemma_object_pass(dst: RectModel, velocity: VelocityModel, object: ObjectModel)
    requires
        dst.valid(),
        object.rect.valid(),
        runs_into(dst, object.rect, velocity),
        MIN_INT_VALUE <= dst.x - abs(velocity.x),
        dst.x + abs(velocity.x) <= MAX_INT_VALUE,
        MIN_INT_VALUE <= dst.y - abs(velocity.y),
        dst.y + abs(velocity.y) <= MAX_INT_VALUE,
    ensures
        collide_objects(dst, velocity, seq![object]).intersect(object.rect) is None,
{
    let os = seq![object];
    assert(os.drop_last() =~= Seq::<ObjectModel>::empty());
    assert(collide_objects(dst, velocity, os.drop_last()) == dst);
    lemma_push_back_separates(dst, object.rect, velocity);
}

} // verus!
