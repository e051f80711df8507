//! The tile map: a text of whitespace-separated tile numbers, one row of
//! tiles per line, laid out on a grid of 64-pixel squares.
use vstd::prelude::*;
use crate::rect::{Rect, RectModel, MAX_INT_VALUE};
use crate::text::{lines, words, parse_i32, views, split_lines, split_words, parse_i32_exec};

verus! {

/// The side of a map tile in pixels.
pub const TILE_SIZE: u32 = 64;

/// A map with this many rows, or with a row of this many tiles, is too large:
/// its size in pixels does not fit in a `u32`.
pub const MAX_TILES_PER_AXIS: usize = 67108864;

/// The mathematical content of a tile.
pub struct TileModel {
    pub rect: RectModel,
    pub index: int,
}

/// One tile of the map: where it lies and which picture of the tile sheet it shows.
#[derive(Clone, Copy, Debug, PartialEq, Eq)]
pub struct Tile {
    pub rect: Rect,
    pub index: i32,
}

impl View for Tile {
    type V = TileModel;

    open spec fn view(&self) -> TileModel {
        TileModel { rect: self.rect@, index: self.index as int }
    }
}

/// A map read from text: its tiles, row after row, and its size in pixels.
/// `height` counts the rows; `width` counts the tiles of the last row.
pub struct TileMap {
    pub tiles: Vec<Tile>,
    pub height: u32,
    pub width: u32,
}

/// Why a map text was refused.
#[derive(Clone, Copy, Debug, PartialEq, Eq, Structural)]
pub enum MapError {
    /// The map is too large for its size in pixels to fit in a `u32`.
    TooLarge,
    /// A word of the map is not a decimal `i32`.
    BadTile,
}

/// The value of a pixel offset below 2^32 read as an `i32` (it wraps around
/// above `i32::MAX`).
pub open spec fn wrap_i32(v: int) -> int {
    if v > i32::MAX {
        v - 0x1_0000_0000
    } else {
        v
    }
}

/// The square of the tile in row `row` and column `col`.
pub open spec fn tile_rect(row: int, col: int) -> RectModel {
    RectModel::new(wrap_i32(col * 64), wrap_i32(row * 64), 64, 64)
}

pub open spec fn parsed_index(w: Seq<char>) -> int {
    match parse_i32(w) {
        Some(v) => v as int,
        None => 0,
    }
}

/// The tiles of row `row` whose words are `ws`.
pub open spec fn row_tiles(row: int, ws: Seq<Seq<char>>) -> Seq<TileModel> {
    Seq::new(ws.len(), |c: int| TileModel { rect: tile_rect(row, c), index: parsed_index(ws[c]) })
}

/// The tiles of all rows, row after row.
pub open spec fn map_tiles(ls: Seq<Seq<char>>) -> Seq<TileModel>
    decreases ls.len(),
{
    if ls.len() == 0 {
        Seq::empty()
    } else {
        map_tiles(ls.drop_last()) + row_tiles(ls.len() - 1, words(ls.last()))
    }
}

pub open spec fn map_too_large(ls: Seq<Seq<char>>) -> bool {
    ||| ls.len() >= MAX_TILES_PER_AXIS
    ||| exists|r: int| 0 <= r < ls.len() && words(#[trigger] ls[r]).len() >= MAX_TILES_PER_AXIS
}

pub open spec fn map_words_parse(ls: Seq<Seq<char>>) -> bool {
    forall|r: int, c: int|
        0 <= r < ls.len() && 0 <= c < words(ls[r]).len() ==> parse_i32(
            #[trigger] words(ls[r])[c],
        ) is Some
}

pub open spec fn map_width(ls: Seq<Seq<char>>) -> int {
    if ls.len() == 0 {
        0
    } else {
        64 * (words(ls.last()).len() as int)
    }
}

pub open spec fn tile_views(v: Seq<Tile>) -> Seq<TileModel> {
    v.map_values(|t: Tile| t@)
}

/// A `u32` read as an `i32`, wrapping around above `i32::MAX`.
pub fn wrapping_i32(v: u32) -> (r: i32)
    ensures
        r == wrap_i32(v as int),
{
    assert(v <= 0x7fffffffu32 ==> (v as i32) == v) by (bit_vector);
    assert(v > 0x7fffffffu32 ==> (v as i32) == v - 0x100000000int) by (bit_vector);
    v as i32
}

/// Reads a tile map. The map has one row per line of `text`; each
/// whitespace-separated word of a line is one tile, whose number is the word
/// read as a decimal `i32` and whose square is the next one along the row.
pub fn parse_map(text: &Vec<char>) -> (r: Result<TileMap, MapError>)
    ensures
        ({
            let ls = lines(text@);
            match r {
                Err(MapError::TooLarge) => map_too_large(ls),
                Err(MapError::BadTile) => !map_too_large(ls) && !map_words_parse(ls),
                Ok(m) => {
                    &&& !map_too_large(ls)
                    &&& map_words_parse(ls)
                    &&& tile_views(m.tiles@) == map_tiles(ls)
                    &&& m.height == 64 * ls.len()
                    &&& m.width == map_width(ls)
                },
            }
        }),
{
    let ls = split_lines(text);
    let ghost gl = lines(text@);
    assert(views(ls@).len() == ls@.len());
    if ls.len() >= MAX_TILES_PER_AXIS {
        return Err(MapError::TooLarge);
    }
    let mut rows: Vec<Vec<Vec<char>>> = Vec::new();
    let mut r: usize = 0;
    while r < ls.len()
        invariant
            r <= ls.len() < MAX_TILES_PER_AXIS,
            views(ls@) == gl,
            gl == lines(text@),
            rows@.len() == r,
            forall|k: int| 0 <= k < r ==> views(#[trigger] rows@[k]@) == words(gl[k]),
            forall|k: int| 0 <= k < r ==> words(#[trigger] gl[k]).len() < MAX_TILES_PER_AXIS,
        decreases ls.len() - r,
    {
        assert(ls@[r as int]@ == gl[r as int]);
        let ws = split_words(&ls[r]);
        assert(views(ws@).len() == ws@.len());
        if ws.len() >= MAX_TILES_PER_AXIS {
            assert(words(gl[r as int]).len() >= MAX_TILES_PER_AXIS);
            return Err(MapError::TooLarge);
        }
        rows.push(ws);
        r = r + 1;
    }
    assert(!map_too_large(gl));
    let mut tiles: Vec<Tile> = Vec::new();
    let mut r: usize = 0;
    while r < rows.len()
        invariant
            r <= rows.len() == gl.len() < MAX_TILES_PER_AXIS,
            gl == lines(text@),
            !map_too_large(gl),
            forall|k: int| 0 <= k < rows@.len() ==> views(#[trigger] rows@[k]@) == words(gl[k]),
            forall|k: int| 0 <= k < rows@.len() ==> words(#[trigger] gl[k]).len()
                < MAX_TILES_PER_AXIS,
            forall|k: int, c: int|
                0 <= k < r && 0 <= c < words(gl[k]).len() ==> parse_i32(
                    #[trigger] words(gl[k])[c],
                ) is Some,
            tile_views(tiles@) == map_tiles(gl.take(r as int)),
        decreases rows.len() - r,
    {
        let row = &rows[r];
        let ghost ws = words(gl[r as int]);
        assert(views(row@) == ws);
        let mut c: usize = 0;
        while c < row.len()
            invariant
                r < rows.len() == gl.len() < MAX_TILES_PER_AXIS,
                gl == lines(text@),
                !map_too_large(gl),
                row == &rows@[r as int],
                views(row@) == ws,
                ws == words(gl[r as int]),
                ws.len() < MAX_TILES_PER_AXIS,
                c <= row.len(),
                forall|k: int, c2: int|
                    0 <= k < r && 0 <= c2 < words(gl[k]).len() ==> parse_i32(
                        #[trigger] words(gl[k])[c2],
                    ) is Some,
                forall|c2: int| 0 <= c2 < c ==> parse_i32(#[trigger] ws[c2]) is Some,
                tile_views(tiles@) == map_tiles(gl.take(r as int)) + row_tiles(r as int, ws).take(
                    c as int,
                ),
            decreases row.len() - c,
        {
            assert(row@[c as int]@ == ws[c as int]);
            let index = match parse_i32_exec(&row[c]) {
                Some(v) => v,
                None => {
                    assert(!map_words_parse(gl)) by {
                        assert(words(gl[r as int])[c as int] == ws[c as int]);
                    }
                    return Err(MapError::BadTile);
                },
            };
            let x = wrapping_i32((c as u32) * TILE_SIZE);
            let y = wrapping_i32((r as u32) * TILE_SIZE);
            let tile = Tile { rect: Rect::new(x, y, TILE_SIZE, TILE_SIZE), index };
            let ghost old_tiles = tiles@;
            tiles.push(tile);
            proof {
                assert(tile@ == row_tiles(r as int, ws)[c as int]);
                assert(tile_views(tiles@) =~= tile_views(old_tiles).push(tile@));
                assert(row_tiles(r as int, ws).take(c + 1) =~= row_tiles(r as int, ws).take(
                    c as int,
                ).push(tile@));
                assert(tile_views(tiles@) =~= map_tiles(gl.take(r as int)) + row_tiles(
                    r as int,
                    ws,
                ).take(c + 1));
            }
            c = c + 1;
        }
        proof {
            assert(row_tiles(r as int, ws).take(c as int) =~= row_tiles(r as int, ws));
            assert(gl.take(r + 1).drop_last() =~= gl.take(r as int));
            assert(gl.take(r + 1).last() == gl[r as int]);
        }
        r = r + 1;
    }
    assert(gl.take(gl.len() as int) =~= gl);
    let height = (rows.len() as u32) * TILE_SIZE;
    let width = if rows.len() == 0 {
        0
    } else {
        (rows[rows.len() - 1].len() as u32) * TILE_SIZE
    };
    Ok(TileMap { tiles, height, width })
}

/// Every tile of a map is a tile-sized square, each row's tiles following
/// one another along the row from the left edge.
pub proof fn lemma_map_tiles_grid(ls: Seq<Seq<char>>)
    ensures
        forall|k: int|
            0 <= k < map_tiles(ls).len() ==> {
                &&& (#[trigger] map_tiles(ls)[k]).rect.w == TILE_SIZE
                &&& map_tiles(ls)[k].rect.h == TILE_SIZE
                &&& map_tiles(ls)[k].rect.valid()
            },
        ls.len() > 0 ==> forall|c: int|
            0 <= c < words(ls.last()).len() ==> (#[trigger] map_tiles(ls)[map_tiles(
                ls.drop_last(),
            ).len() + c]).rect == tile_rect(ls.len() - 1, c),
    decreases ls.len(),
{
    if ls.len() > 0 {
        lemma_map_tiles_grid(ls.drop_last());
        let a = map_tiles(ls.drop_last());
        let b = row_tiles(ls.len() - 1, words(ls.last()));
        assert forall|k: int| 0 <= k < map_tiles(ls).len() implies {
            &&& (#[trigger] map_tiles(ls)[k]).rect.w == TILE_SIZE
            &&& map_tiles(ls)[k].rect.h == TILE_SIZE
            &&& map_tiles(ls)[k].rect.valid()
        } by {
            if k >= a.len() {
                assert(map_tiles(ls)[k] == b[k - a.len()]);
            } else {
                assert(map_tiles(ls)[k] == a[k]);
            }
        }
    }
}

/// The tile in row `row` and column `col` covers pixels `64 * col` to
/// `64 * col + 63` across and `64 * row` to `64 * row + 63` down, where these
/// lie in the coordinate range.
pub proof fn lemma_tile_rect(row: int, col: int)
    requires
        0 <= row,
        0 <= col,
        64 * row <= MAX_INT_VALUE,
        64 * col <= MAX_INT_VALUE,
    ensures
        tile_rect(row, col) == (RectModel { x: 64 * col, y: 64 * row, w: 64, h: 64 }),
{
}

} // verus!
