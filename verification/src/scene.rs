//! What a frame draws, in drawing order: for each picture, the sheet it comes
//! from, the part of the sheet, and where it goes on the screen.
use vstd::prelude::*;
use crate::rect::{Rect, RectModel};
use crate::camera::{aligned, aligned_rect};
use crate::collision::fits_i32;
use crate::map::{Tile, TileModel, tile_views, wrap_i32, wrapping_i32, TILE_SIZE};
use crate::world::{Object, ObjectModel, object_views};
use crate::game::{Game, GameModel, trunc_div, trunc_rem, trunc_div_exec, trunc_rem_exec};

verus! {

/// Tiles in one row of the tile sheet.
pub const TILES_PER_SHEET_ROW: i32 = 10;

/// Objects in one row of the object sheet.
pub const OBJECTS_PER_SHEET_ROW: i32 = 4;

/// The side of one picture of the object sheet.
pub const OBJECT_SPRITE_SIZE: u32 = 16;

/// The picture sheets a frame draws from.
#[derive(Clone, Copy, Debug, PartialEq, Eq, Structural)]
pub enum Sheet {
    Background,
    Tiles,
    Objects,
    Player,
    /// The rendered name shown above the player.
    Label,
}

/// The mathematical content of a drawing step.
pub struct DrawModel {
    pub sheet: Sheet,
    pub src: Option<RectModel>,
    pub dst: RectModel,
}

/// Copy `src` of `sheet` (all of it where `src` is `None`) to `dst` on the screen.
#[derive(Clone, Copy, Debug, PartialEq, Eq)]
pub struct Draw {
    pub sheet: Sheet,
    pub src: Option<Rect>,
    pub dst: Rect,
}

pub open spec fn opt_view(r: Option<Rect>) -> Option<RectModel> {
    match r {
        Some(x) => Some(x@),
        None => None,
    }
}

impl View for Draw {
    type V = DrawModel;

    open spec fn view(&self) -> DrawModel {
        DrawModel { sheet: self.sheet, src: opt_view(self.src), dst: self.dst@ }
    }
}

pub open spec fn draw_views(v: Seq<Draw>) -> Seq<DrawModel> {
    v.map_values(|d: Draw| d@)
}

/// The tile numbers whose place on the tile sheet is within the `i32` range.
pub open spec fn tile_drawable(index: int) -> bool {
    fits_i32(trunc_div(index, TILES_PER_SHEET_ROW as int) * TILE_SIZE)
}

/// The picture of tile `index`: tiles are laid out ten to a row of the sheet.
pub open spec fn tile_source(index: int) -> RectModel {
    RectModel::new(
        trunc_rem(index, TILES_PER_SHEET_ROW as int) * TILE_SIZE,
        trunc_div(index, TILES_PER_SHEET_ROW as int) * TILE_SIZE,
        TILE_SIZE as int,
        TILE_SIZE as int,
    )
}

/// The object numbers whose place on the object sheet is within the `i32` range.
pub open spec fn object_drawable(number: int) -> bool {
    fits_i32(trunc_div(wrap_i32(number), OBJECTS_PER_SHEET_ROW as int) * OBJECT_SPRITE_SIZE)
}

/// The picture of object `number` (read as an `i32`): four to a row of the sheet.
pub open spec fn object_source(number: int) -> RectModel {
    RectModel::new(
        trunc_rem(wrap_i32(number), OBJECTS_PER_SHEET_ROW as int) * OBJECT_SPRITE_SIZE,
        trunc_div(wrap_i32(number), OBJECTS_PER_SHEET_ROW as int) * OBJECT_SPRITE_SIZE,
        OBJECT_SPRITE_SIZE as int,
        OBJECT_SPRITE_SIZE as int,
    )
}

/// Where the player's name goes: above the player, as wide and a quarter as tall.
pub open spec fn label_rect(player: RectModel) -> RectModel {
    RectModel::new(player.x, player.y - 16, player.w, player.h / 4)
}

/// Everything a frame draws, in order: the background, the tiles, the
/// objects, the lone object, the player and the player's name, each placed
/// relative to the camera.
pub open spec fn scene(
    g: GameModel,
    tiles: Seq<TileModel>,
    objects: Seq<ObjectModel>,
    background_src: RectModel,
) -> Seq<DrawModel> {
    let cam = g.camera;
    seq![DrawModel { sheet: Sheet::Background, src: Some(background_src), dst: aligned(cam, g.background) }]
        + Seq::new(
        tiles.len(),
        |i: int|
            DrawModel {
                sheet: Sheet::Tiles,
                src: Some(tile_source(tiles[i].index)),
                dst: aligned(cam, tiles[i].rect),
            },
    ) + Seq::new(
        objects.len(),
        |i: int|
            DrawModel {
                sheet: Sheet::Objects,
                src: Some(object_source(objects[i].number)),
                dst: aligned(cam, objects[i].rect),
            },
    ) + seq![
        DrawModel {
            sheet: Sheet::Objects,
            src: Some(RectModel::new(0, 0, OBJECT_SPRITE_SIZE as int, OBJECT_SPRITE_SIZE as int)),
            dst: aligned(cam, g.object),
        },
        DrawModel { sheet: Sheet::Player, src: Some(g.player_src), dst: aligned(cam, g.player_dst) },
        DrawModel { sheet: Sheet::Label, src: None, dst: aligned(cam, label_rect(g.player_dst)) },
    ]
}

/// Whether tile `index` has a picture within the `i32` range.
pub fn is_tile_drawable(index: i32) -> (r: bool)
    ensures
        r == tile_drawable(index as int),
{
    let q = trunc_div_exec(index as i64, TILES_PER_SHEET_ROW as i64);
    assert(i32::MIN <= q <= i32::MAX);
    let size = TILE_SIZE as i64;
    let y = q * size;
    i32::MIN as i64 <= y && y <= i32::MAX as i64
}

/// Whether object `number` has a picture within the `i32` range.
pub fn is_object_drawable(number: u32) -> (r: bool)
    ensures
        r == object_drawable(number as int),
{
    let q = trunc_div_exec(wrapping_i32(number) as i64, OBJECTS_PER_SHEET_ROW as i64);
    let y = q * OBJECT_SPRITE_SIZE as i64;
    i32::MIN as i64 <= y && y <= i32::MAX as i64
}

/// The picture of tile `index` on the tile sheet.
pub fn tile_source_rect(index: i32) -> (r: Rect)
    requires
        tile_drawable(index as int),
    ensures
        r@ == tile_source(index as int),
{
    let x = trunc_rem_exec(index as i64, TILES_PER_SHEET_ROW as i64) * TILE_SIZE as i64;
    let y = trunc_div_exec(index as i64, TILES_PER_SHEET_ROW as i64) * TILE_SIZE as i64;
    Rect::new(x as i32, y as i32, TILE_SIZE, TILE_SIZE)
}

/// The picture of object `number` on the object sheet.
pub fn object_source_rect(number: u32) -> (r: Rect)
    requires
        object_drawable(number as int),
    ensures
        r@ == object_source(number as int),
{
    let n = wrapping_i32(number) as i64;
    let x = trunc_rem_exec(n, OBJECTS_PER_SHEET_ROW as i64) * OBJECT_SPRITE_SIZE as i64;
    let y = trunc_div_exec(n, OBJECTS_PER_SHEET_ROW as i64) * OBJECT_SPRITE_SIZE as i64;
    Rect::new(x as i32, y as i32, OBJECT_SPRITE_SIZE, OBJECT_SPRITE_SIZE)
}

/// Where the player's name goes.
pub fn label_for(player: Rect) -> (r: Rect)
    ensures
        r@ == label_rect(player@),
{
    Rect::new(player.x(), player.y() - 16, player.width(), player.height() / 4)
}

impl Game {
    /// Everything this frame draws, in order; `background_src` is the part of
    /// the background picture to draw (all of it).
    pub fn draw_list(&self, tiles: &Vec<Tile>, objects: &Vec<Object>, background_src: Rect) -> (r:
        Vec<Draw>)
        requires
            forall|i: int| 0 <= i < tiles@.len() ==> tile_drawable(#[trigger] tiles@[i].index as int),
            forall|i: int|
                0 <= i < objects@.len() ==> object_drawable(#[trigger] objects@[i].number as int),
        ensures
            draw_views(r@) == scene(self@, tile_views(tiles@), object_views(objects@), background_src@),
    {
        let ghost sc = scene(self@, tile_views(tiles@), object_views(objects@), background_src@);
        let cam = self.camera;
        let mut out: Vec<Draw> = Vec::new();
        out.push(
            Draw { sheet: Sheet::Background, src: Some(background_src), dst: aligned_rect(cam, self.background) },
        );
        assert(draw_views(out@) =~= sc.take(1));
        let mut i: usize = 0;
        while i < tiles.len()
            invariant
                i <= tiles.len(),
                sc == scene(self@, tile_views(tiles@), object_views(objects@), background_src@),
                cam == self.camera,
                forall|k: int| 0 <= k < tiles@.len() ==> tile_drawable(#[trigger] tiles@[k].index as int),
                draw_views(out@) =~= sc.take(1 + i),
            decreases tiles.len() - i,
        {
            let t = tiles[i];
            let d = Draw { sheet: Sheet::Tiles, src: Some(tile_source_rect(t.index)), dst: aligned_rect(cam, t.rect) };
            let ghost old_out = out@;
            out.push(d);
            assert(d@ == sc[1 + i]);
            assert(draw_views(out@) =~= draw_views(old_out).push(d@));
            assert(sc.take(1 + i + 1) =~= sc.take(1 + i).push(sc[1 + i]));
            i = i + 1;
        }
        let mut j: usize = 0;
        while j < objects.len()
            invariant
                j <= objects.len(),
                sc == scene(self@, tile_views(tiles@), object_views(objects@), background_src@),
                cam == self.camera,
                forall|k: int|
                    0 <= k < objects@.len() ==> object_drawable(#[trigger] objects@[k].number as int),
                draw_views(out@) =~= sc.take(1 + tiles.len() + j),
            decreases objects.len() - j,
        {
            let o = objects[j];
            let d = Draw {
                sheet: Sheet::Objects,
                src: Some(object_source_rect(o.number)),
                dst: aligned_rect(cam, o.rect),
            };
            let ghost old_out = out@;
            let ghost n = 1 + tiles.len() + j;
            out.push(d);
            assert(d@ == sc[n]);
            assert(draw_views(out@) =~= draw_views(old_out).push(d@));
            assert(sc.take(n + 1) =~= sc.take(n).push(sc[n]));
            j = j + 1;
        }
        let ghost n = 1 + tiles.len() + objects.len();
        let d1 = Draw {
            sheet: Sheet::Objects,
            src: Some(Rect::new(0, 0, OBJECT_SPRITE_SIZE, OBJECT_SPRITE_SIZE)),
            dst: aligned_rect(cam, self.object),
        };
        let d2 = Draw { sheet: Sheet::Player, src: Some(self.player_src), dst: aligned_rect(cam, self.player_dst) };
        let d3 = Draw { sheet: Sheet::Label, src: None, dst: aligned_rect(cam, label_for(self.player_dst)) };
        assert(sc.len() == n + 3);
        assert(d1@ == sc[n]);
        assert(d2@ == sc[n + 1]);
        assert(d3@ == sc[n + 2]);
        let ghost old_out = out@;
        out.push(d1);
        out.push(d2);
        out.push(d3);
        assert(draw_views(out@) =~= draw_views(old_out).push(d1@).push(d2@).push(d3@));
        assert(sc =~= sc.take(n).push(sc[n]).push(sc[n + 1]).push(sc[n + 2]));
        out
    }
}

} // verus!
