//! The ground that the battle is fought on: deploy zones, river and grid.

use vstd::prelude::*;

use crate::hex::{steps, Hex};
use crate::terrain::Terrain;

verus! {

/// Columns of units in one army.
pub const ARMY_COLS: i32 = 28;

/// Rows of units in one army.
pub const ARMY_ROWS: i32 = 54;

/// Hexes between the two armies' inner edges.
pub const GAP: i32 = 12;

/// The map reaches from column `-GRID_Q` to column `GRID_Q`.
pub const GRID_Q: i32 = 40;

/// The map reaches from row `-GRID_R` to row `GRID_R`.
pub const GRID_R: i32 = 34;

/// One change of the map: the hex is to have this terrain.
#[derive(Clone, Copy, Debug, PartialEq, Eq, Structural)]
pub struct Edit {
    pub hex: Hex,
    pub terrain: Terrain,
}

/// The map after the edits have been made, one after the other.
pub open spec fn apply_edits(map: Map<Hex, Terrain>, edits: Seq<Edit>) -> Map<Hex, Terrain>
    decreases edits.len(),
{
    if edits.len() == 0 {
        map
    } else {
        apply_edits(map, edits.drop_last()).insert(edits.last().hex, edits.last().terrain)
    }
}

/// The hex at place `k` of the deployment: column by column from the inside out,
/// in a column from the top row down, in a row the left army before the right. A column
/// of both armies holds 108 places.
pub open spec fn deploy_hex(k: int) -> Hex {
    let col = k / 108;
    let row = k % 108 / 2;
    Hex {
        q: (if k % 2 == 0 {
            -(GAP / 2) - col
        } else {
            GAP / 2 + 1 + col
        }) as i32,
        r: (row - ARMY_ROWS / 2) as i32,
    }
}

/// Number of places in the deployment.
pub open spec fn deploy_count() -> nat {
    (2 * ARMY_COLS * ARMY_ROWS) as nat
}

/// The deploy zones, each hex of them made plains.
pub open spec fn deploy_edits() -> Seq<Edit> {
    Seq::new(deploy_count(), |k: int| Edit { hex: deploy_hex(k), terrain: Terrain::Plains })
}

/// Whether a hex lies in the deploy zone of either army.
pub open spec fn in_deploy_zone(hex: Hex) -> bool {
    &&& {
        ||| -(GAP / 2) - ARMY_COLS < hex.q <= -(GAP / 2)
        ||| GAP / 2 < hex.q <= GAP / 2 + ARMY_COLS
    }
    &&& -(ARMY_ROWS / 2) <= hex.r < ARMY_ROWS - ARMY_ROWS / 2
}

/// Number of rows of the map.
pub open spec fn row_count() -> nat {
    (2 * GRID_R + 1) as nat
}

/// Whether the river leaves a row dry: two rows of every ten are a land bridge.
pub open spec fn is_ford(r: int) -> bool {
    r % 10 < 2
}

/// The water at one hex of the river; the central objective and the hexes round it
/// are kept on land.
pub open spec fn water_at(q: int, r: int) -> Seq<Edit> {
    if steps(q, r) > 1 {
        seq![Edit { hex: Hex { q: q as i32, r: r as i32 }, terrain: Terrain::Water }]
    } else {
        seq![]
    }
}

/// The river in one row, two hexes wide from column `centre` on.
pub open spec fn river_row(centre: int, r: int) -> Seq<Edit> {
    if is_ford(r) {
        seq![]
    } else {
        water_at(centre, r) + water_at(centre + 1, r)
    }
}

/// The river in the first `rows` rows of the map, where the map's row `i`, counted
/// from the top, has the river at column `centres[i]`.
pub open spec fn river_edits(centres: Seq<i32>, rows: nat) -> Seq<Edit>
    decreases rows,
{
    if rows == 0 {
        seq![]
    } else {
        river_edits(centres, (rows - 1) as nat) + river_row(
            centres[rows - 1] as int,
            rows - 1 - GRID_R,
        )
    }
}

/// Whether a hex lies in the river.
pub open spec fn in_river(centres: Seq<i32>, hex: Hex) -> bool {
    &&& -GRID_R <= hex.r <= GRID_R
    &&& !is_ford(hex.r as int)
    &&& centres[hex.r + GRID_R] <= hex.q <= centres[hex.r + GRID_R] + 1
    &&& steps(hex.q as int, hex.r as int) > 1
}

/// Whether `centres` gives the river a column in every row of the map, with room for
/// its second hex in every row that it flows through.
pub open spec fn is_river_course(centres: Seq<i32>) -> bool {
    &&& centres.len() == row_count()
    &&& forall|i: int|
        0 <= i < centres.len() && !is_ford(i - GRID_R) ==> #[trigger] centres[i] < i32::MAX
}

/// Whether `centres` gives the river a column in every row of the map, and both of its
/// hexes lie between the armies in every row that it flows through.
pub open spec fn stays_in_gap(centres: Seq<i32>) -> bool {
    &&& centres.len() == row_count()
    &&& forall|i: int|
        0 <= i < centres.len() && !is_ford(i - GRID_R) ==> -(GAP / 2) < #[trigger] centres[i]
            < GAP / 2
}

/// All edits of the map: the deploy zones, then the river.
pub open spec fn field_edits(centres: Seq<i32>) -> Seq<Edit> {
    deploy_edits() + river_edits(centres, row_count())
}

/// Whether a hex lies on the map.
pub open spec fn on_map(hex: Hex) -> bool {
    -GRID_Q <= hex.q <= GRID_Q && -GRID_R <= hex.r <= GRID_R
}

/// The hex at place `i` of the map: column by column from the left, in a column from
/// the top row down. A column holds 69 hexes.
pub open spec fn grid_hex(i: int) -> Hex {
    Hex { q: (i / 69 - GRID_Q) as i32, r: (i % 69 - GRID_R) as i32 }
}

/// Number of hexes of the map: 81 columns of 69.
pub open spec fn grid_count() -> nat {
    81 * 69
}

fn ford_row(r: i32) -> (ford: bool)
    ensures
        ford == is_ford(r as int),
{
    match r.checked_rem_euclid(10) {
        Some(place) => place < 2,
        None => false,
    }
}

fn carve_deploy_zones() -> (edits: Vec<Edit>)
    ensures
        edits@ == deploy_edits(),
{
    let mut edits: Vec<Edit> = Vec::new();
    let mut col: i32 = 0;
    while col < ARMY_COLS
        invariant
            0 <= col <= ARMY_COLS,
            edits@.len() == col * 108,
            forall|k: int| 0 <= k < edits@.len() ==> edits@[k] == deploy_edits()[k],
        decreases ARMY_COLS - col,
    {
        let mut row: i32 = 0;
        while row < ARMY_ROWS
            invariant
                0 <= col < ARMY_COLS,
                0 <= row <= ARMY_ROWS,
                edits@.len() == col * 108 + row * 2,
                forall|k: int| 0 <= k < edits@.len() ==> edits@[k] == deploy_edits()[k],
            decreases ARMY_ROWS - row,
        {
            let r: i32 = row - ARMY_ROWS / 2;
            edits.push(Edit { hex: Hex::new(-(GAP / 2) - col, r), terrain: Terrain::Plains });
            edits.push(Edit { hex: Hex::new((GAP / 2) + 1 + col, r), terrain: Terrain::Plains });
            row = row + 1;
        }
        col = col + 1;
    }
    edits
}

fn carve_river(centres: &Vec<i32>, edits: &mut Vec<Edit>)
    requires
        is_river_course(centres@),
    ensures
        final(edits)@ == old(edits)@ + river_edits(centres@, row_count()),
{
    let mut r: i32 = -GRID_R;
    proof {
        assert(edits@ =~= old(edits)@ + river_edits(centres@, 0));
    }
    while r <= GRID_R
        invariant
            -GRID_R <= r <= GRID_R + 1,
            is_river_course(centres@),
            edits@ == old(edits)@ + river_edits(centres@, (r + GRID_R) as nat),
        decreases GRID_R + 1 - r,
    {
        let ghost before = edits@;
        if !ford_row(r) {
            let centre: i32 = centres[(r + GRID_R) as usize];
            let mut dq: i32 = 0;
            while dq <= 1
                invariant
                    0 <= dq <= 2,
                    centre < i32::MAX,
                    dq == 0 ==> edits@ == before,
                    dq == 1 ==> edits@ == before + water_at(centre as int, r as int),
                    dq == 2 ==> edits@ == before + water_at(centre as int, r as int) + water_at(
                        centre + 1,
                        r as int,
                    ),
                decreases 2 - dq,
            {
                let hex: Hex = Hex::new(centre + dq, r);
                if hex.distance(Hex::new(0, 0)) > 1 {
                    edits.push(Edit { hex, terrain: Terrain::Water });
                }
                dq = dq + 1;
            }
        }
        proof {
            assert(edits@ =~= before + river_row(centres@[r + GRID_R] as int, r as int));
        }
        r = r + 1;
        proof {
            assert(edits@ =~= old(edits)@ + river_edits(centres@, (r + GRID_R) as nat));
        }
    }
}

/// Whether the river keeps to the gap between the armies, with a column in every row of
/// the map.
pub fn keeps_to_gap(centres: &Vec<i32>) -> (ok: bool)
    ensures
        ok == stays_in_gap(centres@),
{
    if centres.len() != (2 * GRID_R + 1) as usize {
        return false;
    }
    let mut r: i32 = -GRID_R;
    while r <= GRID_R
        invariant
            -GRID_R <= r <= GRID_R + 1,
            centres@.len() == row_count(),
            forall|i: int|
                0 <= i < r + GRID_R && !is_ford(i - GRID_R) ==> -(GAP / 2) < #[trigger] centres@[i]
                    < GAP / 2,
        decreases GRID_R + 1 - r,
    {
        let centre: i32 = centres[(r + GRID_R) as usize];
        if !ford_row(r) && (centre <= -(GAP / 2) || centre >= GAP / 2) {
            proof {
                let i = r + GRID_R;
                assert(!is_ford(i - GRID_R) && centres@[i] == centre);
            }
            return false;
        }
        r = r + 1;
    }
    true
}

/// The changes that make a generated map into a battlefield.
///
/// The two deploy zones become plains, so that no unit starts on ground that it cannot
/// leave. Then a river, two hexes wide, runs down the middle; row `i` of the map,
/// counted from the top, has it at column `centres[i]`. Every few rows there is a ford.
pub fn terrain_edits(centres: &Vec<i32>) -> (edits: Vec<Edit>)
    requires
        is_river_course(centres@),
    ensures
        edits@ == field_edits(centres@),
{
    let mut edits: Vec<Edit> = carve_deploy_zones();
    carve_river(centres, &mut edits);
    edits
}

/// Every hex of the map, in the order in which tiles are drawn.
pub fn grid_hexes() -> (hexes: Vec<Hex>)
    ensures
        hexes@ == Seq::new(grid_count(), |i: int| grid_hex(i)),
{
    let mut hexes: Vec<Hex> = Vec::new();
    let mut q: i32 = -GRID_Q;
    while q <= GRID_Q
        invariant
            -GRID_Q <= q <= GRID_Q + 1,
            hexes@.len() == (q + GRID_Q) * 69,
            forall|i: int| 0 <= i < hexes@.len() ==> hexes@[i] == grid_hex(i),
        decreases GRID_Q + 1 - q,
    {
        let mut r: i32 = -GRID_R;
        while r <= GRID_R
            invariant
                -GRID_Q <= q <= GRID_Q,
                -GRID_R <= r <= GRID_R + 1,
                hexes@.len() == (q + GRID_Q) * 69 + r + GRID_R,
                forall|i: int| 0 <= i < hexes@.len() ==> hexes@[i] == grid_hex(i),
            decreases GRID_R + 1 - r,
        {
            proof {
                let place = hexes@.len() as int;
                assert(place / 69 == q + GRID_Q && place % 69 == r + GRID_R);
            }
            hexes.push(Hex::new(q, r));
            r = r + 1;
        }
        q = q + 1;
    }
    hexes
}

proof fn lemma_apply_concat(map: Map<Hex, Terrain>, first: Seq<Edit>, second: Seq<Edit>)
    ensures
        apply_edits(map, first + second) == apply_edits(apply_edits(map, first), second),
    decreases second.len(),
{
    if second.len() == 0 {
        assert(first + second =~= first);
    } else {
        assert((first + second).drop_last() =~= first + second.drop_last());
        lemma_apply_concat(map, first, second.drop_last());
    }
}

/// Edits that all bring the same terrain put it on the hexes that they name and leave
/// every other hex alone.
proof fn lemma_apply_uniform(
    map: Map<Hex, Terrain>,
    edits: Seq<Edit>,
    terrain: Terrain,
    hex: Hex,
)
    requires
        forall|k: int| 0 <= k < edits.len() ==> (#[trigger] edits[k]).terrain == terrain,
    ensures
        ({
            let after = apply_edits(map, edits);
            if exists|k: int| 0 <= k < edits.len() && (#[trigger] edits[k]).hex == hex {
                after.contains_key(hex) && after[hex] == terrain
            } else {
                &&& after.contains_key(hex) == map.contains_key(hex)
                &&& after[hex] == map[hex]
            }
        }),
    decreases edits.len(),
{
    if edits.len() > 0 {
        let shorter = edits.drop_last();
        lemma_apply_uniform(map, shorter, terrain, hex);
        assert(forall|k: int| 0 <= k < shorter.len() ==> #[trigger] shorter[k] == edits[k]);
        if exists|k: int| 0 <= k < shorter.len() && (#[trigger] shorter[k]).hex == hex {
            let k = choose|k: int| 0 <= k < shorter.len() && (#[trigger] shorter[k]).hex == hex;
            assert(edits[k].hex == hex);
        }
        if edits.last().hex != hex {
            assert(forall|k: int| 0 <= k < edits.len() && (#[trigger] edits[k]).hex == hex ==> k
                < shorter.len() && shorter[k].hex == hex);
        }
    }
}

proof fn lemma_deploy_edits_cover_zone(hex: Hex)
    ensures
        (exists|k: int|
            0 <= k < deploy_edits().len() && (#[trigger] deploy_edits()[k]).hex == hex)
            <==> in_deploy_zone(hex),
{
    if in_deploy_zone(hex) {
        let (col, side): (int, int) = if hex.q < 0 {
            (-(GAP / 2) - hex.q, 0)
        } else {
            (hex.q - GAP / 2 - 1, 1)
        };
        let row = hex.r + 27;
        let k = 108 * col + 2 * row + side;
        assert(k / 108 == col && k % 108 / 2 == row && k % 2 == side);
        assert(deploy_edits()[k].hex == hex);
    }
}

proof fn lemma_river_edits_cover_river(centres: Seq<i32>, rows: nat, hex: Hex)
    requires
        is_river_course(centres),
        rows <= row_count(),
    ensures
        (exists|k: int|
            0 <= k < river_edits(centres, rows).len() && (#[trigger] river_edits(
                centres,
                rows,
            )[k]).hex == hex) <==> in_river(centres, hex) && hex.r + GRID_R < rows,
        forall|k: int|
            0 <= k < river_edits(centres, rows).len() ==> (#[trigger] river_edits(
                centres,
                rows,
            )[k]).terrain == Terrain::Water,
    decreases rows,
{
    if rows > 0 {
        let above = river_edits(centres, (rows - 1) as nat);
        let r = rows - 1 - GRID_R;
        let centre = centres[rows - 1] as int;
        let row = river_row(centre, r);
        let all = river_edits(centres, rows);
        lemma_river_edits_cover_river(centres, (rows - 1) as nat, hex);
        assert(all == above + row);
        if in_river(centres, hex) && hex.r + GRID_R < rows {
            if hex.r == r {
                let first = water_at(centre, r);
                if hex.q == centre {
                    assert(row[0].hex == hex);
                    assert(all[above.len() as int].hex == hex);
                } else {
                    let k = above.len() + first.len();
                    assert(row[first.len() as int].hex == hex);
                    assert(all[k as int].hex == hex);
                }
            } else {
                let k = choose|k: int| 0 <= k < above.len() && (#[trigger] above[k]).hex == hex;
                assert(all[k].hex == hex);
            }
        }
        if exists|k: int| 0 <= k < all.len() && (#[trigger] all[k]).hex == hex {
            let k = choose|k: int| 0 <= k < all.len() && (#[trigger] all[k]).hex == hex;
            if k < above.len() {
                assert(above[k].hex == hex);
            } else {
                assert(row[k - above.len()].hex == hex);
            }
        }
        assert forall|k: int| 0 <= k < all.len() implies (#[trigger] all[k]).terrain
            == Terrain::Water by {
            if k < above.len() {
                assert(above[k].terrain == Terrain::Water);
            } else {
                assert(row[k - above.len()].terrain == Terrain::Water);
            }
        }
    }
}

/// What the battlefield looks like, whatever the map was before: the river is water,
/// the rest of the deploy zones is plains, and no other hex has changed.
pub proof fn law_battlefield(map: Map<Hex, Terrain>, centres: Seq<i32>, hex: Hex)
    requires
        is_river_course(centres),
    ensures
        ({
            let field = apply_edits(map, field_edits(centres));
            if in_river(centres, hex) {
                field.contains_key(hex) && field[hex] == Terrain::Water
            } else if in_deploy_zone(hex) {
                field.contains_key(hex) && field[hex] == Terrain::Plains
            } else {
                &&& field.contains_key(hex) == map.contains_key(hex)
                &&& field[hex] == map[hex]
            }
        }),
{
    let zones = deploy_edits();
    let river = river_edits(centres, row_count());
    lemma_apply_concat(map, zones, river);
    lemma_deploy_edits_cover_zone(hex);
    lemma_river_edits_cover_river(centres, row_count(), hex);
    lemma_apply_uniform(map, zones, Terrain::Plains, hex);
    lemma_apply_uniform(apply_edits(map, zones), river, Terrain::Water, hex);
}

/// Whatever the map was before, a place of the deployment that the river does not run
/// through is plains.
pub proof fn law_units_start_on_plains(map: Map<Hex, Terrain>, centres: Seq<i32>, k: int)
    requires
        is_river_course(centres),
        0 <= k < deploy_count(),
        !in_river(centres, deploy_hex(k)),
    ensures
        ({
            let field = apply_edits(map, field_edits(centres));
            field.contains_key(deploy_hex(k)) && field[deploy_hex(k)] == Terrain::Plains
        }),
{
    assert(deploy_edits()[k].hex == deploy_hex(k));
    lemma_deploy_edits_cover_zone(deploy_hex(k));
    law_battlefield(map, centres, deploy_hex(k));
}

/// A river that keeps to the gap between the armies can be carved and runs through no
/// deploy zone.
pub proof fn law_river_in_the_gap_misses_the_armies(centres: Seq<i32>, hex: Hex)
    requires
        stays_in_gap(centres),
        in_deploy_zone(hex),
    ensures
        is_river_course(centres),
        !in_river(centres, hex),
{
    if in_river(centres, hex) {
        let i = hex.r + GRID_R;
        assert(!is_ford(i - GRID_R));
        assert(-(GAP / 2) < centres[i] < GAP / 2);
    }
}

/// No unit starts stuck: where the river keeps to the gap, every place of the deployment
/// is plains, whatever the map was before.
pub proof fn law_no_unit_starts_stuck(map: Map<Hex, Terrain>, centres: Seq<i32>, k: int)
    requires
        stays_in_gap(centres),
        0 <= k < deploy_count(),
    ensures
        ({
            let field = apply_edits(map, field_edits(centres));
            field.contains_key(deploy_hex(k)) && field[deploy_hex(k)] == Terrain::Plains
        }),
{
    assert(deploy_edits()[k].hex == deploy_hex(k));
    lemma_deploy_edits_cover_zone(deploy_hex(k));
    law_river_in_the_gap_misses_the_armies(centres, deploy_hex(k));
    law_battlefield(map, centres, deploy_hex(k));
}

/// The central objective and the hexes round it stay as they were.
pub proof fn law_objective_stays_as_it_was(map: Map<Hex, Terrain>, centres: Seq<i32>, hex: Hex)
    requires
        is_river_course(centres),
        steps(hex.q as int, hex.r as int) <= 1,
    ensures
        ({
            let field = apply_edits(map, field_edits(centres));
            &&& field.contains_key(hex) == map.contains_key(hex)
            &&& field[hex] == map[hex]
        }),
{
    law_battlefield(map, centres, hex);
}

/// The armies can cross the river: among any ten rows in succession there are two
/// fords, and the river has no hex in the row of a ford.
pub proof fn law_fords(centres: Seq<i32>, top: int)
    ensures
        exists|first: int, second: int|
            top <= first < second < top + 10 && #[trigger] is_ford(first) && #[trigger] is_ford(
                second,
            ),
        forall|hex: Hex| is_ford(hex.r as int) ==> !#[trigger] in_river(centres, hex),
{
    let place = top % 10;
    let (first, second) = if place == 0 {
        (top, top + 1)
    } else if place == 1 {
        (top, top + 9)
    } else {
        (top + 10 - place, top + 11 - place)
    };
    assert(is_ford(first) && is_ford(second));
}

/// Every hex of the deployment is a hex of the map.
pub proof fn law_deploy_zones_on_map(hex: Hex)
    requires
        in_deploy_zone(hex),
    ensures
        on_map(hex),
{
}

/// The tiles cover the map: every hex of the map has one place in the drawing order,
/// and every place has a hex of the map.
pub proof fn law_grid_covers_map(hex: Hex, i: int, j: int)
    ensures
        on_map(hex) <==> exists|p: int| 0 <= p < grid_count() && #[trigger] grid_hex(p) == hex,
        0 <= i < grid_count() && 0 <= j < grid_count() && grid_hex(i) == grid_hex(j) ==> i == j,
{
    if on_map(hex) {
        let p = 69 * (hex.q + GRID_Q) + hex.r + GRID_R;
        assert(p / 69 == hex.q + GRID_Q && p % 69 == hex.r + GRID_R);
        assert(grid_hex(p) == hex);
    }
}

/// The edits are the river and the deploy zones: a hex is made water exactly if it lies on
/// the map in a row that is not one of the two dry rows in ten, at the river's column of
/// that row or the next one, and neither is the centre nor touches it; a hex is made
/// plains exactly if it lies in one of two blocks of 28 columns and 54 rows, beyond the
/// twelve columns of the gap.
pub proof fn law_edits_are_zones_and_river(centres: Seq<i32>, hex: Hex)
    requires
        is_river_course(centres),
    ensures
        centres.len() == 69,
        field_edits(centres).contains(Edit { hex, terrain: Terrain::Water }) <==> {
            &&& -34 <= hex.r <= 34
            &&& hex.r as int % 10 >= 2
            &&& hex.q == centres[hex.r + 34] || hex.q == centres[hex.r + 34] + 1
            &&& !(-1 <= hex.q <= 1 && -1 <= hex.r <= 1 && -1 <= hex.q + hex.r <= 1)
        },
        field_edits(centres).contains(Edit { hex, terrain: Terrain::Plains }) <==> {
            &&& -33 <= hex.q <= -6 || 7 <= hex.q <= 34
            &&& -27 <= hex.r <= 26
        },
        forall|k: int|
            0 <= k < field_edits(centres).len() ==> (#[trigger] field_edits(centres)[k]).terrain
                == (if k < 3024 {
                Terrain::Plains
            } else {
                Terrain::Water
            }),
{
    let zones = deploy_edits();
    let river = river_edits(centres, row_count());
    let all = field_edits(centres);
    lemma_deploy_edits_cover_zone(hex);
    lemma_river_edits_cover_river(centres, row_count(), hex);
    assert(zones.len() == 3024);
    assert forall|k: int| 0 <= k < all.len() implies (#[trigger] all[k]).terrain == (if k < 3024 {
        Terrain::Plains
    } else {
        Terrain::Water
    }) by {
        if k < 3024 {
            assert(all[k] == zones[k]);
        } else {
            assert(all[k] == river[k - 3024]);
        }
    }
    let water = Edit { hex, terrain: Terrain::Water };
    let plains = Edit { hex, terrain: Terrain::Plains };
    if in_river(centres, hex) {
        let k = choose|k: int| 0 <= k < river.len() && (#[trigger] river[k]).hex == hex;
        assert(all[k + 3024] == water);
    }
    if all.contains(water) {
        let k = choose|k: int| 0 <= k < all.len() && all[k] == water;
        assert(river[k - 3024].hex == hex);
    }
    if in_deploy_zone(hex) {
        let k = choose|k: int| 0 <= k < zones.len() && (#[trigger] zones[k]).hex == hex;
        assert(all[k] == plains);
    }
    if all.contains(plains) {
        let k = choose|k: int| 0 <= k < all.len() && all[k] == plains;
        assert(zones[k].hex == hex);
    }
}

/// Whether one hex comes before another if the map is read row by row.
pub open spec fn reads_before(a: Hex, b: Hex) -> bool {
    a.r < b.r || (a.r == b.r && a.q < b.q)
}

/// The river is carved row by row from the top, in a row from the left, and no hex of it
/// twice.
pub proof fn law_river_runs_down(centres: Seq<i32>, rows: nat, i: int, j: int)
    requires
        is_river_course(centres),
        rows <= 69,
        0 <= i < j < river_edits(centres, rows).len(),
    ensures
        reads_before(river_edits(centres, rows)[i].hex, river_edits(centres, rows)[j].hex),
    decreases rows,
{
    let above = river_edits(centres, (rows - 1) as nat);
    let r = rows - 1 - GRID_R;
    let row = river_row(centres[rows - 1] as int, r);
    let all = river_edits(centres, rows);
    assert(all == above + row);
    if j < above.len() {
        law_river_runs_down(centres, (rows - 1) as nat, i, j);
    } else if i < above.len() {
        lemma_river_edits_cover_river(centres, (rows - 1) as nat, above[i].hex);
        assert(above[i].hex.r + GRID_R < rows - 1);
        assert(all[j] == row[j - above.len()]);
    } else {
        assert(all[i] == row[i - above.len()] && all[j] == row[j - above.len()]);
    }
}

/// The deploy zones are carved in the order in which the armies are drawn up.
pub proof fn law_deploy_order(col: int, row: int)
    requires
        0 <= col < 28,
        0 <= row < 54,
    ensures
        deploy_edits().len() == 2 * 28 * 54,
        deploy_edits()[108 * col + 2 * row].hex == (Hex {
            q: (-6 - col) as i32,
            r: (row - 27) as i32,
        }),
        deploy_edits()[108 * col + 2 * row + 1].hex == (Hex {
            q: (7 + col) as i32,
            r: (row - 27) as i32,
        }),
{
    let k = 108 * col + 2 * row;
    assert(k / 108 == col && k % 108 / 2 == row && k % 2 == 0);
    assert((k + 1) / 108 == col && (k + 1) % 108 / 2 == row && (k + 1) % 2 == 1);
}

/// Of several edits to one hex the last one counts, and no edit touches another hex.
pub proof fn law_last_edit_counts(map: Map<Hex, Terrain>, edits: Seq<Edit>, edit: Edit, hex: Hex)
    ensures
        apply_edits(map, Seq::<Edit>::empty()) == map,
        apply_edits(map, edits.push(edit)).contains_key(edit.hex),
        apply_edits(map, edits.push(edit))[edit.hex] == edit.terrain,
        hex != edit.hex ==> apply_edits(map, edits.push(edit)).contains_key(hex) == apply_edits(
            map,
            edits,
        ).contains_key(hex) && apply_edits(map, edits.push(edit))[hex] == apply_edits(
            map,
            edits,
        )[hex],
{
    assert(edits.push(edit).drop_last() =~= edits);
}

/// A river keeps to the gap exactly if it can be carved and wets no hex outside the twelve
/// columns between the armies.
pub proof fn law_gap_is_where_no_army_stands(centres: Seq<i32>)
    ensures
        stays_in_gap(centres) <==> is_river_course(centres) && forall|hex: Hex| #[trigger]
            in_river(centres, hex) ==> -5 <= hex.q <= 6,
{
    if stays_in_gap(centres) {
        assert forall|hex: Hex| #[trigger] in_river(centres, hex) implies -5 <= hex.q <= 6 by {
            let i = hex.r + GRID_R;
            assert(!is_ford(i - GRID_R));
            assert(-(GAP / 2) < centres[i] < GAP / 2);
        }
    }
    if is_river_course(centres) && (forall|hex: Hex| #[trigger]
        in_river(centres, hex) ==> -5 <= hex.q <= 6) {
        assert forall|i: int| 0 <= i < centres.len() && !is_ford(i - GRID_R) implies -(GAP / 2)
            < #[trigger] centres[i] < GAP / 2 by {
            let left = Hex { q: centres[i], r: (i - GRID_R) as i32 };
            let right = Hex { q: (centres[i] + 1) as i32, r: (i - GRID_R) as i32 };
            if centres[i] <= -6 {
                assert(in_river(centres, left));
            }
            if centres[i] >= 6 {
                assert(in_river(centres, right));
            }
        }
    }
}

/// The map is read column by column from the left, in a column from the top row down.
pub proof fn law_grid_order(col: int, row: int)
    requires
        0 <= col < 81,
        0 <= row < 69,
    ensures
        grid_count() == 81 * 69,
        grid_hex(69 * col + row) == (Hex { q: (col - 40) as i32, r: (row - 34) as i32 }),
{
    let p = 69 * col + row;
    assert(p / 69 == col && p % 69 == row);
}

} // verus!
