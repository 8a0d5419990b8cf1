//! Colours of the ground, the cliff walls, the units and the objective.

use vstd::prelude::*;

use crate::army::{Kind, Team};
use crate::terrain::Terrain;

verus! {

/// Full intensity of a channel.
pub const FULL: u32 = 10_000;

/// How many shades the tops of one kind of ground come in.
pub const SHADES: usize = 5;

/// A colour; each channel is in ten-thousandths of full intensity.
#[derive(Clone, Copy, Debug, PartialEq, Eq, Structural)]
pub struct Rgb {
    pub red: u32,
    pub green: u32,
    pub blue: u32,
}

/// The paints of one kind of ground: the shades of its top, and its cliff wall.
#[derive(Debug)]
pub struct TerrainPaint {
    pub terrain: Terrain,
    pub shades: Vec<Rgb>,
    pub wall: Rgb,
}

/// The paint of one kind of unit of one team.
#[derive(Clone, Copy, Debug, PartialEq, Eq, Structural)]
pub struct UnitPaint {
    pub team: Team,
    pub kind: Kind,
    pub color: Rgb,
}

/// A channel of `channel` percent at `brightness` percent, cut off at full intensity.
pub open spec fn tinted_channel(channel: int, brightness: int) -> int {
    if channel * brightness < FULL {
        channel * brightness
    } else {
        FULL as int
    }
}

/// A base colour, given in percent, at `brightness` percent.
pub open spec fn tinted(base: (u32, u32, u32), brightness: int) -> Rgb {
    Rgb {
        red: tinted_channel(base.0 as int, brightness) as u32,
        green: tinted_channel(base.1 as int, brightness) as u32,
        blue: tinted_channel(base.2 as int, brightness) as u32,
    }
}

/// The base colour of a kind of ground, in percent.
pub open spec fn ground(terrain: Terrain) -> (u32, u32, u32) {
    match terrain {
        Terrain::Plains => (20, 28, 17),
        Terrain::Forest => (11, 21, 12),
        Terrain::Hill => (36, 29, 18),
        Terrain::Mountain => (36, 36, 40),
        Terrain::Water => (11, 21, 42),
    }
}

/// The hue of a team, in percent.
pub open spec fn hue(team: Team) -> (u32, u32, u32) {
    match team {
        Team::Red => (92, 30, 30),
        Team::Blue => (34, 52, 96),
    }
}

/// The brightness of a kind of unit, in percent.
pub open spec fn brightness(kind: Kind) -> int {
    match kind {
        Kind::Cavalry => 125,
        Kind::Infantry => 100,
        Kind::Skirmisher => 65,
    }
}

/// The shades of the tops of a kind of ground, from 80 to 120 percent of its colour.
pub open spec fn shades_of(terrain: Terrain) -> Seq<Rgb> {
    Seq::new(SHADES as nat, |i: int| tinted(ground(terrain), 80 + 10 * i))
}

/// The colour of the cliff walls of a kind of ground.
pub open spec fn wall_of(terrain: Terrain) -> Rgb {
    tinted(ground(terrain), 45)
}

/// The colour of a kind of unit of a team.
pub open spec fn color_of(team: Team, kind: Kind) -> Rgb {
    tinted(hue(team), brightness(kind))
}

/// All kinds of ground, in the order of the terrain palette.
pub open spec fn grounds() -> Seq<Terrain> {
    seq![
        Terrain::Plains,
        Terrain::Forest,
        Terrain::Hill,
        Terrain::Mountain,
        Terrain::Water,
    ]
}

/// All kinds of units of both teams, in the order of the unit palette.
pub open spec fn corps() -> Seq<(Team, Kind)> {
    seq![
        (Team::Red, Kind::Infantry),
        (Team::Red, Kind::Cavalry),
        (Team::Red, Kind::Skirmisher),
        (Team::Blue, Kind::Infantry),
        (Team::Blue, Kind::Cavalry),
        (Team::Blue, Kind::Skirmisher),
    ]
}

fn tint_channel(channel: u32, brightness: u32) -> (c: u32)
    requires
        channel <= 100,
        brightness <= 125,
    ensures
        c == tinted_channel(channel as int, brightness as int),
{
    proof {
        assert(0 <= channel * brightness <= 12_500) by (nonlinear_arith)
            requires
                channel <= 100,
                brightness <= 125,
        ;
    }
    let product: u32 = channel * brightness;
    if product < FULL {
        product
    } else {
        FULL
    }
}

fn tint(base: (u32, u32, u32), brightness: u32) -> (color: Rgb)
    requires
        base.0 <= 100,
        base.1 <= 100,
        base.2 <= 100,
        brightness <= 125,
    ensures
        color == tinted(base, brightness as int),
{
    Rgb {
        red: tint_channel(base.0, brightness),
        green: tint_channel(base.1, brightness),
        blue: tint_channel(base.2, brightness),
    }
}

fn ground_percent(terrain: Terrain) -> (base: (u32, u32, u32))
    ensures
        base == ground(terrain),
{
    match terrain {
        Terrain::Plains => (20, 28, 17),
        Terrain::Forest => (11, 21, 12),
        Terrain::Hill => (36, 29, 18),
        Terrain::Mountain => (36, 36, 40),
        Terrain::Water => (11, 21, 42),
    }
}

/// The colour of a kind of ground.
pub fn terrain_color(terrain: Terrain) -> (color: Rgb)
    ensures
        color == tinted(ground(terrain), 100),
{
    tint(ground_percent(terrain), 100)
}

/// The darkened colour of the ground, for the shaded cliff face.
pub fn wall_color(terrain: Terrain) -> (color: Rgb)
    ensures
        color == wall_of(terrain),
{
    tint(ground_percent(terrain), 45)
}

/// The shades of the tops of a kind of ground: tonal jitter that fakes texture.
pub fn tile_shades(terrain: Terrain) -> (shades: Vec<Rgb>)
    ensures
        shades@ == shades_of(terrain),
{
    let base: (u32, u32, u32) = ground_percent(terrain);
    let mut shades: Vec<Rgb> = Vec::new();
    let mut i: usize = 0;
    while i < SHADES
        invariant
            i <= SHADES,
            base == ground(terrain),
            shades@.len() == i,
            forall|j: int| 0 <= j < i ==> shades@[j] == shades_of(terrain)[j],
        decreases SHADES - i,
    {
        shades.push(tint(base, 80 + 10 * i as u32));
        i = i + 1;
    }
    shades
}

/// The colour of a unit: the hue of its team, at the brightness of its kind.
pub fn unit_color(team: Team, kind: Kind) -> (color: Rgb)
    ensures
        color == color_of(team, kind),
{
    let base: (u32, u32, u32) = match team {
        Team::Red => (92, 30, 30),
        Team::Blue => (34, 52, 96),
    };
    let percent: u32 = match kind {
        Kind::Cavalry => 125,
        Kind::Infantry => 100,
        Kind::Skirmisher => 65,
    };
    tint(base, percent)
}

fn paint_terrain(terrain: Terrain) -> (paint: TerrainPaint)
    ensures
        paint.terrain == terrain,
        paint.shades@ == shades_of(terrain),
        paint.wall == wall_of(terrain),
{
    TerrainPaint { terrain, shades: tile_shades(terrain), wall: wall_color(terrain) }
}

/// The paints of every kind of ground.
pub fn terrain_palette() -> (palette: Vec<TerrainPaint>)
    ensures
        palette@.len() == grounds().len(),
        forall|i: int|
            #![trigger palette@[i]]
            0 <= i < palette@.len() ==> {
                &&& palette@[i].terrain == grounds()[i]
                &&& palette@[i].shades@ == shades_of(grounds()[i])
                &&& palette@[i].wall == wall_of(grounds()[i])
            },
{
    let mut palette: Vec<TerrainPaint> = Vec::new();
    palette.push(paint_terrain(Terrain::Plains));
    palette.push(paint_terrain(Terrain::Forest));
    palette.push(paint_terrain(Terrain::Hill));
    palette.push(paint_terrain(Terrain::Mountain));
    palette.push(paint_terrain(Terrain::Water));
    palette
}

/// The place of a kind of ground in the terrain palette.
pub fn terrain_slot(terrain: Terrain) -> (slot: usize)
    ensures
        slot < grounds().len(),
        grounds()[slot as int] == terrain,
{
    match terrain {
        Terrain::Plains => 0,
        Terrain::Forest => 1,
        Terrain::Hill => 2,
        Terrain::Mountain => 3,
        Terrain::Water => 4,
    }
}

/// The paints of every kind of unit of both teams.
pub fn unit_palette() -> (palette: Vec<UnitPaint>)
    ensures
        palette@ == corps().map_values(
            |c: (Team, Kind)| UnitPaint { team: c.0, kind: c.1, color: color_of(c.0, c.1) },
        ),
{
    let mut palette: Vec<UnitPaint> = Vec::new();
    let mut place: usize = 0;
    while place < 6
        invariant
            place <= 6,
            palette@.len() == place,
            forall|i: int|
                #![trigger palette@[i]]
                0 <= i < place ==> palette@[i] == (UnitPaint {
                    team: corps()[i].0,
                    kind: corps()[i].1,
                    color: color_of(corps()[i].0, corps()[i].1),
                }),
        decreases 6 - place,
    {
        let team: Team = if place < 3 {
            Team::Red
        } else {
            Team::Blue
        };
        let kind: Kind = if place % 3 == 0 {
            Kind::Infantry
        } else if place % 3 == 1 {
            Kind::Cavalry
        } else {
            Kind::Skirmisher
        };
        palette.push(UnitPaint { team, kind, color: unit_color(team, kind) });
        place = place + 1;
    }
    palette
}

/// The place of a kind of unit of a team in the unit palette.
pub fn unit_slot(team: Team, kind: Kind) -> (slot: usize)
    ensures
        slot < corps().len(),
        corps()[slot as int] == (team, kind),
{
    let first: usize = match team {
        Team::Red => 0,
        Team::Blue => 3,
    };
    let offset: usize = match kind {
        Kind::Infantry => 0,
        Kind::Cavalry => 1,
        Kind::Skirmisher => 2,
    };
    first + offset
}

/// The colour of the shaded side of the central objective.
pub fn objective_wall_color() -> (color: Rgb)
    ensures
        color == (Rgb { red: 4_500, green: 3_800, blue: 1_200 }),
{
    Rgb { red: 4_500, green: 3_800, blue: 1_200 }
}

/// The gold of the top of the central objective.
pub fn objective_color() -> (color: Rgb)
    ensures
        color == (Rgb { red: 8_800, green: 7_400, blue: 2_800 }),
{
    Rgb { red: 8_800, green: 7_400, blue: 2_800 }
}

/// The palettes are complete: every kind of ground and every kind of unit of either
/// team has a paint.
pub proof fn law_palettes_are_complete(terrain: Terrain, team: Team, kind: Kind)
    ensures
        grounds().contains(terrain),
        corps().contains((team, kind)),
{
    assert(grounds()[0] == Terrain::Plains && grounds()[1] == Terrain::Forest);
    assert(grounds()[2] == Terrain::Hill && grounds()[3] == Terrain::Mountain);
    assert(grounds()[4] == Terrain::Water);
    assert(corps()[0] == (Team::Red, Kind::Infantry) && corps()[1] == (Team::Red, Kind::Cavalry));
    assert(corps()[2] == (Team::Red, Kind::Skirmisher));
    assert(corps()[3] == (Team::Blue, Kind::Infantry) && corps()[4] == (Team::Blue, Kind::Cavalry));
    assert(corps()[5] == (Team::Blue, Kind::Skirmisher));
}

/// Whether no channel of one colour is brighter than that of another.
pub open spec fn no_brighter(dark: Rgb, light: Rgb) -> bool {
    dark.red <= light.red && dark.green <= light.green && dark.blue <= light.blue
}

/// Whether every channel of one colour is darker than that of another.
pub open spec fn darker(dark: Rgb, light: Rgb) -> bool {
    dark.red < light.red && dark.green < light.green && dark.blue < light.blue
}

/// A cliff wall is darker in every channel than each shade of the top above it.
pub proof fn law_walls_are_darker(terrain: Terrain, shade: int)
    requires
        0 <= shade < SHADES,
    ensures
        darker(wall_of(terrain), shades_of(terrain)[shade]),
{
}

/// Every colour of the ground and of the units is one that a screen can show.
pub proof fn law_colors_in_range(terrain: Terrain, shade: int, team: Team, kind: Kind)
    requires
        0 <= shade < SHADES,
    ensures
        no_brighter(wall_of(terrain), Rgb { red: FULL, green: FULL, blue: FULL }),
        no_brighter(shades_of(terrain)[shade], Rgb { red: FULL, green: FULL, blue: FULL }),
        no_brighter(color_of(team, kind), Rgb { red: FULL, green: FULL, blue: FULL }),
{
}

/// The brightness of a unit goes by its kind: within a team cavalry is brighter than
/// infantry, and infantry brighter than skirmishers, in every channel.
pub proof fn law_brightness_by_kind(team: Team)
    ensures
        darker(color_of(team, Kind::Skirmisher), color_of(team, Kind::Infantry)),
        darker(color_of(team, Kind::Infantry), color_of(team, Kind::Cavalry)),
{
}

} // verus!
