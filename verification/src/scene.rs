//! Where everything is drawn: tiles in relief, the objective and the units.
//!
//! The map is seen from below: what lies further down the screen is nearer and covers
//! what lies behind it. Depth goes by screen row, one thousandth of a layer for each
//! pixel.

use vstd::prelude::*;

use crate::army::{
    deploy_armies, deployed_unit, fresh_unit, stands_in_formation, Kind, Team, UnitSpawn,
};
use crate::field::{
    apply_edits, deploy_count, field_edits, grid_count, grid_hex, grid_hexes, in_deploy_zone,
    in_river, is_river_course, law_battlefield, on_map,
};
use crate::hash::{hash_of, law_every_shade_is_hashed, shade_index};
use crate::hex::{half_rows, hex_to_world, world_point, Hex, Placement, Point};
use crate::palette::{objective_color, objective_wall_color, shades_of, Rgb, SHADES};
use crate::surd::{is_positive, Surd};
use crate::terrain::{elevation, terrain_height, Terrain};

verus! {

/// A cliff wall: a rectangle round the point `at`. Lengths are in half pixels, `z` in
/// half thousandths of a layer.
#[derive(Clone, Copy, Debug, PartialEq, Eq, Structural)]
pub struct Wall {
    pub at: Point,
    pub width: i64,
    pub height: Surd,
    pub z: Surd,
}

/// One hex of the map, drawn: a top in one of the shades of its ground, over a wall
/// if the ground rises at all.
#[derive(Clone, Copy, Debug)]
pub struct Tile {
    pub hex: Hex,
    pub terrain: Terrain,
    pub shade: usize,
    pub wall: Option<Wall>,
    pub top: Placement,
}

/// The marker of the central objective.
#[derive(Clone, Copy, Debug, PartialEq, Eq, Structural)]
pub struct Marker {
    pub wall: Wall,
    pub wall_color: Rgb,
    pub top: Placement,
    pub top_color: Rgb,
}

/// All that is drawn at the start of the battle.
#[derive(Debug)]
pub struct Scene {
    pub tiles: Vec<Tile>,
    pub objective: Marker,
    pub units: Vec<UnitSpawn>,
}

/// The depth of the ground at a hex, raised by `extra` half thousandths of a layer.
/// The ground starts ten layers below zero.
pub open spec fn ground_depth(hex: Hex, extra: int) -> Surd {
    Surd { whole: (-20_000 + extra) as i64, root: (12 * half_rows(hex)) as i64 }
}

/// The centre of a hex that is raised by `pixels`.
pub open spec fn raised_point(hex: Hex, pixels: int) -> Point {
    Point {
        x: world_point(hex).x,
        y: Surd { whole: (2 * pixels) as i64, root: world_point(hex).y.root },
    }
}

/// The wall below a hex that is raised by `pixels`: as wide as the columns are apart,
/// and as high as half a hex and the rise.
pub open spec fn wall_below(hex: Hex, pixels: int, extra: int) -> Wall {
    Wall {
        at: Point {
            x: world_point(hex).x,
            y: Surd { whole: pixels as i64, root: (world_point(hex).y.root - 6) as i64 },
        },
        width: 36,
        height: Surd { whole: (2 * pixels) as i64, root: 12 },
        z: ground_depth(hex, extra),
    }
}

/// The tile of a hex with a kind of ground.
pub open spec fn tile_of(hex: Hex, terrain: Terrain) -> Tile {
    Tile {
        hex,
        terrain,
        shade: (hash_of(hex.q, hex.r) as int % SHADES as int) as usize,
        wall: if 2 * elevation(terrain) > 1 {
            Some(wall_below(hex, elevation(terrain), 0))
        } else {
            None
        },
        top: Placement {
            at: raised_point(hex, elevation(terrain)),
            z: ground_depth(hex, 1),
        },
    }
}

/// The marker at the centre of the map, raised by 42 pixels.
pub open spec fn marker() -> Marker {
    let centre = Hex { q: 0, r: 0 };
    Marker {
        wall: wall_below(centre, 42, 100),
        wall_color: Rgb { red: 4_500, green: 3_800, blue: 1_200 },
        top: Placement { at: raised_point(centre, 42), z: ground_depth(centre, 102) },
        top_color: Rgb { red: 8_800, green: 7_400, blue: 2_800 },
    }
}

/// Where a unit on a hex is drawn: a little above the top of the tile that it stands
/// on, one layer over zero.
pub open spec fn standing_at(hex: Hex, terrain: Terrain) -> Placement {
    Placement {
        at: raised_point(hex, elevation(terrain) + 3),
        z: Surd { whole: 2_000, root: (12 * half_rows(hex)) as i64 },
    }
}

fn raise(hex: Hex, pixels: i64) -> (point: Point)
    requires
        0 <= pixels <= 100,
    ensures
        point == raised_point(hex, pixels as int),
{
    let base: Point = hex_to_world(hex);
    Point { x: base.x, y: Surd { whole: 2 * pixels, root: base.y.root } }
}

/// Depth grows by a thousandth of a layer for each pixel down the screen, so in half
/// thousandths it is the way down in half pixels.
fn depth(hex: Hex, extra: i64) -> (z: Surd)
    requires
        0 <= extra <= 1_000,
    ensures
        z == ground_depth(hex, extra as int),
{
    let base: Point = hex_to_world(hex);
    Surd { whole: -20_000 + extra, root: -base.y.root }
}

fn cliff(hex: Hex, pixels: i64, extra: i64) -> (wall: Wall)
    requires
        0 <= pixels <= 100,
        0 <= extra <= 1_000,
    ensures
        wall == wall_below(hex, pixels as int, extra as int),
{
    let base: Point = hex_to_world(hex);
    let height: Surd = Surd { whole: 2 * pixels, root: 12 };
    Wall {
        at: Point {
            x: base.x,
            y: Surd { whole: 2 * pixels - height.whole / 2, root: base.y.root - height.root / 2 },
        },
        width: 36,
        height,
        z: depth(hex, extra),
    }
}

/// The tile of a hex with a kind of ground.
pub fn draw_tile(hex: Hex, terrain: Terrain) -> (tile: Tile)
    ensures
        tile == tile_of(hex, terrain),
        tile.hex == hex && tile.terrain == terrain,
        tile.shade == hash_of(hex.q, hex.r) as int % 5,
        tile.wall is Some <==> terrain != Terrain::Water,
{
    let pixels: i64 = terrain_height(terrain);
    let wall: Option<Wall> = if 2 * pixels > 1 {
        Some(cliff(hex, pixels, 0))
    } else {
        None
    };
    Tile {
        hex,
        terrain,
        shade: shade_index(hex.q, hex.r),
        wall,
        top: Placement { at: raise(hex, pixels), z: depth(hex, 1) },
    }
}

/// The tiles of the whole map; `terrains` holds the ground of each hex of the map, in
/// the order of the grid.
pub fn draw_tiles(terrains: &Vec<Terrain>) -> (tiles: Vec<Tile>)
    requires
        terrains@.len() == grid_count(),
    ensures
        tiles@ == Seq::new(grid_count(), |i: int| tile_of(grid_hex(i), terrains@[i])),
        forall|i: int|
            0 <= i < grid_count() ==> (#[trigger] tiles@[i]).hex == grid_hex(i) && tiles@[i].terrain
                == terrains@[i],
{
    let hexes: Vec<Hex> = grid_hexes();
    let mut tiles: Vec<Tile> = Vec::new();
    let mut i: usize = 0;
    while i < hexes.len()
        invariant
            i <= hexes@.len(),
            hexes@ == Seq::new(grid_count(), |k: int| grid_hex(k)),
            terrains@.len() == grid_count(),
            tiles@.len() == i,
            forall|k: int| 0 <= k < i ==> tiles@[k] == tile_of(grid_hex(k), terrains@[k]),
        decreases hexes@.len() - i,
    {
        tiles.push(draw_tile(hexes[i], terrains[i]));
        i = i + 1;
    }
    tiles
}

/// The marker of the central objective, round which the battle is fought.
pub fn draw_objective() -> (objective: Marker)
    ensures
        objective == marker(),
{
    let centre: Hex = Hex::new(0, 0);
    Marker {
        wall: cliff(centre, 42, 100),
        wall_color: objective_wall_color(),
        top: Placement { at: raise(centre, 42), z: depth(centre, 102) },
        top_color: objective_color(),
    }
}

/// The scene at the start of the battle; `terrains` holds the ground of each hex of the
/// map, in the order of the grid.
pub fn setup(terrains: &Vec<Terrain>) -> (scene: Scene)
    requires
        terrains@.len() == grid_count(),
    ensures
        scene.tiles@ == Seq::new(grid_count(), |i: int| tile_of(grid_hex(i), terrains@[i])),
        scene.objective == marker(),
        scene.units@ == Seq::new(deploy_count(), |k: int| deployed_unit(k)),
        forall|i: int|
            0 <= i < grid_count() ==> (#[trigger] scene.tiles@[i]).hex == grid_hex(i)
                && scene.tiles@[i].terrain == terrains@[i],
        forall|k: int|
            0 <= k < deploy_count() ==> stands_in_formation(#[trigger] scene.units@[k]),
{
    Scene {
        tiles: draw_tiles(terrains),
        objective: draw_objective(),
        units: deploy_armies(),
    }
}

/// Where a unit on a hex is drawn: lifted onto the tile that it stands on, and sorted
/// above the ground, front units over back units.
pub fn unit_placement(hex: Hex, terrain: Terrain) -> (place: Placement)
    ensures
        place == standing_at(hex, terrain),
{
    let base: Point = hex_to_world(hex);
    Placement {
        at: raise(hex, terrain_height(terrain) + 3),
        z: Surd { whole: 2_000, root: -base.y.root },
    }
}

/// Depth and height on the screen agree: of two hexes the one that lies lower down is
/// the one that lies nearer.
pub proof fn law_depth_goes_by_screen_row(near: Hex, far: Hex)
    ensures
        half_rows(far) < half_rows(near) <==> world_point(near).y.below(world_point(far).y),
        half_rows(far) < half_rows(near) <==> ground_depth(far, 0).below(ground_depth(near, 0)),
{
}

/// Tiles in front cover those behind: all of a nearer tile is drawn over all of a
/// farther one, and in one tile the top is drawn over the wall.
pub proof fn law_front_tiles_cover_those_behind(
    near: Hex,
    near_terrain: Terrain,
    far: Hex,
    far_terrain: Terrain,
)
    ensures
        half_rows(far) < half_rows(near) ==> {
            let front = tile_of(near, near_terrain);
            let back = tile_of(far, far_terrain);
            &&& back.top.z.below(front.top.z)
            &&& front.wall is Some ==> back.top.z.below(front.wall->0.z)
            &&& back.wall is Some ==> back.wall->0.z.below(front.top.z)
            &&& front.wall is Some && back.wall is Some ==> back.wall->0.z.below(front.wall->0.z)
        },
        tile_of(near, near_terrain).wall is Some ==> tile_of(
            near,
            near_terrain,
        ).wall->0.z.below(tile_of(near, near_terrain).top.z),
{
    if half_rows(far) < half_rows(near) {
        let gap = ground_depth(near, 0).root - ground_depth(far, 1).root;
        assert(3 * (gap * gap) > 1) by (nonlinear_arith)
            requires
                gap >= 1,
        ;
        assert(is_positive(-1, gap));
    }
}

/// The wall joins the tile to the ground: its upper edge runs through the centre of
/// the raised top, its lower edge along the south side of the hex on the ground.
pub proof fn law_wall_joins_top_and_ground(hex: Hex, terrain: Terrain)
    ensures
        ({
            let tile = tile_of(hex, terrain);
            tile.wall is Some ==> {
                let wall = tile.wall->0;
                &&& wall.at.x == tile.top.at.x
                &&& 2 * wall.at.y.whole + wall.height.whole == 2 * tile.top.at.y.whole
                &&& 2 * wall.at.y.root + wall.height.root == 2 * tile.top.at.y.root
                &&& 2 * wall.at.y.whole - wall.height.whole == 0
                &&& 2 * wall.at.y.root - wall.height.root == 2 * (world_point(hex).y.root - 12)
            }
        }),
{
}

/// Only water is drawn without a wall: it reads as a channel cut into the land.
pub proof fn law_only_water_has_no_wall(hex: Hex, terrain: Terrain)
    ensures
        tile_of(hex, terrain).wall is None <==> terrain == Terrain::Water,
        tile_of(hex, Terrain::Water).top.at == world_point(hex),
{
}

/// The ground that is drawn is the carved ground: where `terrains` is read off the map
/// after the edits, a tile in the river is water without a wall, any other tile in a
/// deploy zone is plains, and every other tile shows what the map held before.
pub proof fn law_tiles_show_the_battlefield(
    map: Map<Hex, Terrain>,
    centres: Seq<i32>,
    terrains: Seq<Terrain>,
    i: int,
)
    requires
        is_river_course(centres),
        forall|j: int|
            0 <= j < grid_count() ==> #[trigger] terrains[j] == apply_edits(
                map,
                field_edits(centres),
            )[grid_hex(j)],
        0 <= i < grid_count(),
    ensures
        ({
            let hex = grid_hex(i);
            let tile = tile_of(hex, terrains[i]);
            if in_river(centres, hex) {
                tile.wall is None && tile.terrain == Terrain::Water
            } else if in_deploy_zone(hex) {
                tile.terrain == Terrain::Plains
            } else {
                tile.terrain == map[hex]
            }
        }),
{
    law_battlefield(map, centres, grid_hex(i));
    assert(terrains[i] == apply_edits(map, field_edits(centres))[grid_hex(i)]);
}

/// Every tile has a shade: the place that it takes is one among the shades of its ground.
pub proof fn law_every_tile_has_a_shade(hex: Hex, terrain: Terrain)
    ensures
        tile_of(hex, terrain).shade < shades_of(terrain).len(),
{
}

/// The marker of the objective is drawn over the tile that it stands on.
pub proof fn law_objective_over_its_tile(terrain: Terrain)
    ensures
        ({
            let tile = tile_of(Hex { q: 0, r: 0 }, terrain);
            &&& tile.top.z.below(marker().wall.z)
            &&& marker().wall.z.below(marker().top.z)
        }),
{
}

/// A unit stands three pixels above the centre of the top of its tile.
pub proof fn law_units_stand_on_tiles(hex: Hex, terrain: Terrain)
    ensures
        ({
            let unit = standing_at(hex, terrain).at;
            let top = tile_of(hex, terrain).top.at;
            &&& unit.x == top.x
            &&& unit.y.root == top.y.root
            &&& unit.y.whole == top.y.whole + 2 * 3
        }),
{
}

/// On the map every unit is drawn over every tile and over the objective.
pub proof fn law_units_over_the_ground(
    unit: Hex,
    unit_terrain: Terrain,
    hex: Hex,
    terrain: Terrain,
)
    requires
        on_map(unit),
        on_map(hex),
    ensures
        tile_of(hex, terrain).top.z.below(standing_at(unit, unit_terrain).z),
        marker().top.z.below(standing_at(unit, unit_terrain).z),
{
    let d = 12 * (half_rows(unit) - half_rows(hex));
    assert(3 * (d * d) < 21_999 * 21_999) by (nonlinear_arith)
        requires
            -2_592 <= d <= 2_592,
    ;
    let e = 12 * half_rows(unit);
    assert(3 * (e * e) < 21_898 * 21_898) by (nonlinear_arith)
        requires
            -1_296 <= e <= 1_296,
    ;
}

/// Front units are drawn over back units.
pub proof fn law_front_units_over_back_units(
    near: Hex,
    near_terrain: Terrain,
    far: Hex,
    far_terrain: Terrain,
)
    ensures
        half_rows(far) < half_rows(near) <==> standing_at(far, far_terrain).z.below(
            standing_at(near, near_terrain).z,
        ),
{
}

/// The shade of a tile is picked by its own hex and nothing else: it is the remainder
/// modulo five of that hex's hash, whatever ground lies there, so tiles whose hashes
/// leave different remainders have different shades.
pub proof fn law_shade_goes_by_hash(a: Hex, a_terrain: Terrain, b: Hex, b_terrain: Terrain)
    ensures
        tile_of(a, a_terrain).shade == hash_of(a.q, a.r) as int % 5,
        tile_of(a, a_terrain).shade == tile_of(b, b_terrain).shade <==> hash_of(a.q, a.r) as int % 5
            == hash_of(b.q, b.r) as int % 5,
{
}

/// The ground is textured: each of the five shades of a kind of ground is the shade of
/// some hex of the map.
pub proof fn law_every_shade_occurs(terrain: Terrain, shade: int)
    requires
        0 <= shade < 5,
    ensures
        SHADES == 5,
        exists|hex: Hex| on_map(hex) && (#[trigger] tile_of(hex, terrain)).shade == shade,
{
    law_every_shade_is_hashed(shade);
    let q = choose|q: i32| 0 <= q <= 7 && #[trigger] hash_of(q, 0) as int % 5 == shade;
    let hex = Hex { q, r: 0 };
    assert(on_map(hex) && tile_of(hex, terrain).shade == shade);
}

/// A tile is its hex, lifted straight up by the height of its ground: the top lies that
/// many pixels over the place of the hex, the wall below is as wide as the columns are
/// apart, and the depth is ten layers down and a thousandth of a layer nearer for each
/// pixel down the screen, the top half a thousandth over the wall.
pub proof fn law_tile_is_its_hex_lifted(hex: Hex, terrain: Terrain)
    ensures
        ({
            let tile = tile_of(hex, terrain);
            let place = world_point(hex);
            &&& tile.hex == hex
            &&& tile.terrain == terrain
            &&& tile.top.at.x == place.x
            &&& tile.top.at.y.whole == place.y.whole + 2 * elevation(terrain)
            &&& tile.top.at.y.root == place.y.root
            &&& tile.top.z.whole == -20_000 + 1
            &&& tile.top.z.root == -place.y.root
            &&& tile.wall matches Some(wall) ==> {
                &&& wall.width == world_point(Hex { q: 1, r: 0 }).x
                &&& wall.height.whole == 2 * elevation(terrain)
                &&& wall.height.root == 12
                &&& wall.z.whole == -20_000
                &&& wall.z.root == -place.y.root
            }
        }),
{
}

/// A unit is one layer over zero and a thousandth of a layer nearer for each pixel down
/// the screen, whatever ground it stands on.
pub proof fn law_unit_depth(hex: Hex, terrain: Terrain)
    ensures
        standing_at(hex, terrain).z.whole == 2_000,
        standing_at(hex, terrain).z.root == -world_point(hex).y.root,
{
}

/// From the start units are drawn over every tile of the map.
pub proof fn law_fresh_units_over_the_ground(
    team: Team,
    kind: Kind,
    unit: Hex,
    hex: Hex,
    terrain: Terrain,
)
    requires
        on_map(hex),
    ensures
        tile_of(hex, terrain).top.z.below(fresh_unit(team, kind, unit).place.z),
{
    let d = 12 * half_rows(hex);
    assert(3 * (d * d) < 19_999 * 19_999) by (nonlinear_arith)
        requires
            -1_296 <= d <= 1_296,
    ;
    assert((-d) * (-d) == d * d) by (nonlinear_arith);
}

/// The marker is the centre of the map, lifted by 42 pixels, with a wall of its own.
pub proof fn law_marker_is_the_centre_lifted()
    ensures
        ({
            let place = world_point(Hex { q: 0, r: 0 });
            let top = marker().top.at;
            let wall = marker().wall;
            &&& top.x == place.x && wall.at.x == place.x
            &&& top.y.whole == place.y.whole + 2 * 42 && top.y.root == place.y.root
            &&& 2 * wall.at.y.whole + wall.height.whole == 2 * top.y.whole
            &&& 2 * wall.at.y.root + wall.height.root == 2 * top.y.root
            &&& 2 * wall.at.y.whole - wall.height.whole == 0
            &&& 2 * wall.at.y.root - wall.height.root == -2 * 12
        }),
{
}

} // verus!
