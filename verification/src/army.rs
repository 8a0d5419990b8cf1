//! The two armies and how they form up.

use vstd::prelude::*;

use crate::field::{deploy_count, deploy_hex, in_deploy_zone, ARMY_COLS, ARMY_ROWS, GAP};
use crate::hex::{hex_to_world, world_point, Hex, Placement};
use crate::surd::Surd;

verus! {

#[derive(Clone, Copy, Debug, PartialEq, Eq, Hash, Structural)]
pub enum Team {
    Red,
    Blue,
}

#[derive(Clone, Copy, Debug, PartialEq, Eq, Hash, Structural)]
pub enum Kind {
    Infantry,
    Cavalry,
    Skirmisher,
}

/// The group that every unit is enrolled in.
pub const GROUP: u32 = 1;

/// A unit at the start of the battle.
#[derive(Clone, Copy, Debug, PartialEq, Eq, Structural)]
pub struct UnitSpawn {
    pub team: Team,
    pub kind: Kind,
    pub hex: Hex,
    pub group: u32,
    pub place: Placement,
}

/// The quotient of two integers with the fraction cut off; `b` is positive.
pub open spec fn truncated_quotient(a: int, b: int) -> int {
    if a >= 0 {
        a / b
    } else {
        -((-a) / b)
    }
}

/// The kind of unit in column `col` of a formation of `cols` columns.
pub open spec fn formation_kind(col: int, cols: int) -> Kind {
    if col < truncated_quotient(cols, 4) {
        Kind::Cavalry
    } else if col >= truncated_quotient(cols * 3, 4) {
        Kind::Skirmisher
    } else {
        Kind::Infantry
    }
}

/// The unit of a team and kind that starts on a hex.
pub open spec fn fresh_unit(team: Team, kind: Kind, hex: Hex) -> UnitSpawn {
    UnitSpawn {
        team,
        kind,
        hex,
        group: GROUP,
        place: Placement { at: world_point(hex), z: Surd { whole: 0, root: 0 } },
    }
}

/// The unit at place `k` of the deployment.
pub open spec fn deployed_unit(k: int) -> UnitSpawn {
    fresh_unit(
        if k % 2 == 0 {
            Team::Red
        } else {
            Team::Blue
        },
        formation_kind(k / 108, ARMY_COLS as int),
        deploy_hex(k),
    )
}

/// How many columns a unit stands behind the innermost column of its army.
pub open spec fn columns_behind(unit: UnitSpawn) -> int {
    match unit.team {
        Team::Red => -6 - unit.hex.q,
        Team::Blue => unit.hex.q - 7,
    }
}

/// Whether a unit stands where its army puts its kind: the seven innermost of the 28
/// columns are cavalry, the seven outermost skirmishers, the others infantry.
pub open spec fn stands_in_formation(unit: UnitSpawn) -> bool {
    &&& 0 <= columns_behind(unit) < 28
    &&& -27 <= unit.hex.r <= 26
    &&& unit.kind == Kind::Cavalry <==> columns_behind(unit) < 7
    &&& unit.kind == Kind::Skirmisher <==> columns_behind(unit) >= 21
    &&& unit.group == 1
    &&& unit.place.at == world_point(unit.hex)
}

/// Front line is cavalry, centre infantry, rear skirmishers, by how deep the column
/// sits in the formation; column 0 is the innermost.
pub fn kind_for(col: i32, cols: i32) -> (kind: Kind)
    requires
        col < truncated_quotient(cols as int, 4) || i32::MIN <= cols * 3 <= i32::MAX,
    ensures
        kind == formation_kind(col as int, cols as int),
{
    if col < cols / 4 {
        Kind::Cavalry
    } else if col >= cols * 3 / 4 {
        Kind::Skirmisher
    } else {
        Kind::Infantry
    }
}

/// A unit at the start of the battle, standing on its hex.
pub fn spawn_unit(team: Team, kind: Kind, hex: Hex) -> (unit: UnitSpawn)
    ensures
        unit == fresh_unit(team, kind, hex),
        unit.team == team && unit.kind == kind && unit.hex == hex && unit.group == 1,
        unit.place.at == world_point(hex),
{
    UnitSpawn {
        team,
        kind,
        hex,
        group: GROUP,
        place: Placement { at: hex_to_world(hex), z: Surd { whole: 0, root: 0 } },
    }
}

/// Both armies, drawn up: red on the left, blue on the right, a gap in the middle.
pub fn deploy_armies() -> (units: Vec<UnitSpawn>)
    ensures
        units@ == Seq::new(deploy_count(), |k: int| deployed_unit(k)),
        forall|k: int|
            0 <= k < units@.len() ==> stands_in_formation(#[trigger] units@[k]),
{
    let mut units: Vec<UnitSpawn> = Vec::new();
    let mut col: i32 = 0;
    while col < ARMY_COLS
        invariant
            0 <= col <= ARMY_COLS,
            units@.len() == col * 108,
            forall|k: int| 0 <= k < units@.len() ==> units@[k] == deployed_unit(k),
        decreases ARMY_COLS - col,
    {
        let kind: Kind = kind_for(col, ARMY_COLS);
        let mut row: i32 = 0;
        while row < ARMY_ROWS
            invariant
                0 <= col < ARMY_COLS,
                0 <= row <= ARMY_ROWS,
                kind == formation_kind(col as int, ARMY_COLS as int),
                units@.len() == col * 108 + row * 2,
                forall|k: int| 0 <= k < units@.len() ==> units@[k] == deployed_unit(k),
            decreases ARMY_ROWS - row,
        {
            let r: i32 = row - ARMY_ROWS / 2;
            let (rq, bq): (i32, i32) = (-(GAP / 2) - col, (GAP / 2) + 1 + col);
            proof {
                let place = units@.len() as int;
                assert(place / 108 == col && place % 108 / 2 == row && place % 2 == 0);
                assert((place + 1) / 108 == col && (place + 1) % 108 / 2 == row);
                assert((place + 1) % 2 == 1);
            }
            units.push(spawn_unit(Team::Red, kind, Hex::new(rq, r)));
            units.push(spawn_unit(Team::Blue, kind, Hex::new(bq, r)));
            row = row + 1;
        }
        col = col + 1;
    }
    proof {
        assert forall|k: int| 0 <= k < units@.len() implies stands_in_formation(
            #[trigger] units@[k],
        ) by {
            law_kind_goes_by_column(k, k);
        }
    }
    units
}

/// In a formation of at least four columns the first column is cavalry, the middle one
/// infantry and the last one skirmishers.
pub proof fn law_front_centre_rear(cols: int)
    requires
        cols >= 4,
    ensures
        formation_kind(0, cols) == Kind::Cavalry,
        formation_kind(cols / 2, cols) == Kind::Infantry,
        formation_kind(cols - 1, cols) == Kind::Skirmisher,
{
}

/// How far back a kind of unit stands.
pub open spec fn depth_of(kind: Kind) -> int {
    match kind {
        Kind::Cavalry => 0,
        Kind::Infantry => 1,
        Kind::Skirmisher => 2,
    }
}

/// Further back in a formation, no column holds a kind of unit that belongs further to
/// the front.
pub proof fn law_formation_order(near: int, far: int, cols: int)
    requires
        near <= far,
    ensures
        depth_of(formation_kind(near, cols)) <= depth_of(formation_kind(far, cols)),
{
}

/// The armies mirror each other: next to every red unit in the deployment comes a blue
/// unit of the same kind in the same row, as far to the right of the middle of the gap,
/// which lies between columns 0 and 1, as the red one is to the left.
pub proof fn law_armies_mirror(k: int)
    requires
        0 <= k < deploy_count(),
        k % 2 == 0,
    ensures
        k + 1 < deploy_count(),
        deployed_unit(k).team == Team::Red,
        deployed_unit(k + 1).team == Team::Blue,
        deployed_unit(k).kind == deployed_unit(k + 1).kind,
        deployed_unit(k).hex.r == deployed_unit(k + 1).hex.r,
        deployed_unit(k).hex.q == 1 - deployed_unit(k + 1).hex.q,
{
    assert(deploy_count() == 3024);
    assert((k + 1) / 108 == k / 108 && (k + 1) % 108 / 2 == k % 108 / 2);
}

/// Red stands on the left and blue on the right, each beyond half of the gap and in a
/// block of its columns and rows.
pub proof fn law_armies_face_each_other(k: int)
    requires
        0 <= k < deploy_count(),
    ensures
        ({
            let unit = deployed_unit(k);
            &&& unit.team == Team::Red ==> -(GAP / 2) - ARMY_COLS < unit.hex.q <= -(GAP / 2)
            &&& unit.team == Team::Blue ==> GAP / 2 < unit.hex.q <= GAP / 2 + ARMY_COLS
            &&& in_deploy_zone(unit.hex)
        }),
{
    assert(deploy_count() == 3024);
}

/// In every row of the armies `GAP` hexes lie between the innermost red unit and the
/// innermost blue unit, and no unit of either army stands further in.
pub proof fn law_gap_between_armies(row: int, k: int)
    requires
        0 <= row < ARMY_ROWS,
        0 <= k < deploy_count(),
    ensures
        ({
            let red = deployed_unit(2 * row);
            let blue = deployed_unit(2 * row + 1);
            let unit = deployed_unit(k);
            &&& red.team == Team::Red && blue.team == Team::Blue
            &&& red.hex.r == row - ARMY_ROWS / 2 && blue.hex.r == row - ARMY_ROWS / 2
            &&& blue.hex.q - red.hex.q - 1 == GAP
            &&& unit.hex.q <= red.hex.q || unit.hex.q >= blue.hex.q
        }),
{
    assert(deploy_count() == 3024);
}

/// No two units start on the same hex.
pub proof fn law_one_unit_per_hex(i: int, j: int)
    requires
        0 <= i < deploy_count(),
        0 <= j < deploy_count(),
        deployed_unit(i).hex == deployed_unit(j).hex,
    ensures
        i == j,
{
    assert(deploy_count() == 3024);
}

/// The first quarter of a formation is front line and the last is rear: a column is
/// cavalry exactly if the columns up to it, itself included, are at most a quarter of
/// all, and skirmishers exactly if they are more than three quarters.
pub proof fn law_formation_quarters(col: int, cols: int)
    requires
        cols >= 0,
    ensures
        formation_kind(col, cols) == Kind::Cavalry <==> 4 * (col + 1) <= cols,
        formation_kind(col, cols) == Kind::Skirmisher <==> 4 * (col + 1) > 3 * cols,
{
}

/// A formation of a negative number of columns has no centre.
pub proof fn law_formation_without_columns(col: int, cols: int)
    requires
        cols < 0,
    ensures
        formation_kind(col, cols) == Kind::Cavalry <==> 4 * col < cols,
        formation_kind(col, cols) == Kind::Skirmisher <==> 4 * col >= cols,
{
}

/// A unit is what it was asked to be: of that team and kind, on that hex and drawn there,
/// enrolled in the group that takes orders.
pub proof fn law_unit_as_ordered(team: Team, kind: Kind, hex: Hex)
    ensures
        ({
            let unit = fresh_unit(team, kind, hex);
            &&& unit.team == team
            &&& unit.kind == kind
            &&& unit.hex == hex
            &&& unit.group == GROUP && GROUP == 1
            &&& unit.place.at == world_point(hex)
            &&& unit.place.z == (Surd { whole: 0, root: 0 })
        }),
{
}

/// The kind of a unit goes by its column alone: the seven innermost columns of either
/// army are cavalry, the seven outermost skirmishers and those between infantry. Units
/// of one team in one column are of one kind, and so are units of both teams that stand
/// equally far behind their front.
pub proof fn law_kind_goes_by_column(i: int, j: int)
    requires
        0 <= i < deploy_count(),
        0 <= j < deploy_count(),
    ensures
        stands_in_formation(deployed_unit(i)),
        ({
            let a = deployed_unit(i);
            let b = deployed_unit(j);
            let behind = if a.team == Team::Red {
                -6 - a.hex.q
            } else {
                a.hex.q - 7
            };
            &&& 0 <= behind < 28
            &&& a.kind == Kind::Cavalry <==> behind < 7
            &&& a.kind == Kind::Infantry <==> 7 <= behind < 21
            &&& a.kind == Kind::Skirmisher <==> 21 <= behind
            &&& a.team == b.team && a.hex.q == b.hex.q ==> a.kind == b.kind
            &&& columns_behind(a) == columns_behind(b) ==> a.kind == b.kind
        }),
{
    assert(deploy_count() == 3024);
}

/// The armies are complete and in order: column by column from the inside out, in a
/// column from the top row down, first the red unit and then the blue one.
pub proof fn law_deployment_order(col: int, row: int)
    requires
        0 <= col < 28,
        0 <= row < 54,
    ensures
        deploy_count() == 2 * 28 * 54,
        ({
            let red = deployed_unit(108 * col + 2 * row);
            let blue = deployed_unit(108 * col + 2 * row + 1);
            &&& red.team == Team::Red && blue.team == Team::Blue
            &&& red.hex == (Hex { q: (-6 - col) as i32, r: (row - 27) as i32 })
            &&& blue.hex == (Hex { q: (7 + col) as i32, r: (row - 27) as i32 })
        }),
{
    let k = 108 * col + 2 * row;
    assert(k / 108 == col && k % 108 / 2 == row && k % 2 == 0);
    assert((k + 1) / 108 == col && (k + 1) % 108 / 2 == row && (k + 1) % 2 == 1);
}

} // verus!
