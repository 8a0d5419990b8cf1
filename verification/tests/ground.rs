use imperium::field::{grid_hexes, keeps_to_gap, terrain_edits, Edit, GRID_Q, GRID_R};
use imperium::hash::{shade_index, tile_hash};
use imperium::hex::{hex_to_world, Hex};
use imperium::terrain::{terrain_height, Terrain};

use std::collections::HashMap;

const SQRT_3: f32 = 1.732_050_8;

fn sine_course() -> Vec<i32> {
    (-GRID_R..=GRID_R)
        .map(|r| (6.0 * (r as f32 * 0.22).sin()) as i32)
        .collect()
}

fn apply(map: &mut HashMap<Hex, Terrain>, edits: &[Edit]) {
    for edit in edits {
        map.insert(edit.hex, edit.terrain);
    }
}

fn carved(fill: Terrain) -> HashMap<Hex, Terrain> {
    let mut map = HashMap::new();
    for hex in grid_hexes() {
        map.insert(hex, fill);
    }
    apply(&mut map, &terrain_edits(&sine_course()));
    map
}

#[test]
fn distance_counts_steps() {
    let origin = Hex::new(0, 0);
    assert_eq!(origin.distance(origin), 0);
    for (q, r) in [(1, 0), (1, -1), (0, -1), (-1, 0), (-1, 1), (0, 1)] {
        assert_eq!(Hex::new(q, r).distance(origin), 1);
        assert_eq!(origin.distance(Hex::new(q, r)), 1);
    }
    assert_eq!(Hex::new(1, 1).distance(origin), 2);
    assert_eq!(Hex::new(3, -7).distance(Hex::new(-2, 4)), 11);
    assert_eq!(Hex::new(5, 5).distance(Hex::new(-5, -5)), 20);
    assert_eq!(
        Hex::new(i32::MIN, i32::MIN).distance(Hex::new(i32::MAX, i32::MAX)),
        8_589_934_590
    );
}

#[test]
fn distance_is_a_metric() {
    let hexes = [
        Hex::new(0, 0),
        Hex::new(4, -9),
        Hex::new(-6, 2),
        Hex::new(7, 7),
    ];
    for a in hexes {
        for b in hexes {
            assert_eq!(a.distance(b), b.distance(a));
            assert_eq!(a.distance(b) == 0, a == b);
            for c in hexes {
                assert!(a.distance(c) <= a.distance(b) + b.distance(c));
            }
        }
    }
}

#[test]
fn world_points_are_exact() {
    let p = hex_to_world(Hex::new(2, 3));
    assert_eq!(p.x, 72);
    assert_eq!(p.y.whole, 0);
    assert_eq!(p.y.root, -96);
    for (q, r) in [(0, 0), (5, -3), (-40, 34), (17, 26)] {
        let p = hex_to_world(Hex::new(q, r));
        let x = 12.0 * 1.5 * q as f32;
        let y = -(12.0 * 3.0_f32.sqrt() * (r as f32 + q as f32 / 2.0));
        assert_eq!(p.x as f32 / 2.0, x);
        assert!(((p.y.whole as f32 + p.y.root as f32 * SQRT_3) / 2.0 - y).abs() < 1e-3);
    }
    assert_eq!(hex_to_world(Hex::new(i32::MAX, 0)).x, 36 * 2_147_483_647);
}

#[test]
fn heights_rise_from_water_to_mountain() {
    assert_eq!(terrain_height(Terrain::Water), 0);
    assert_eq!(terrain_height(Terrain::Plains), 3);
    assert_eq!(terrain_height(Terrain::Forest), 12);
    assert_eq!(terrain_height(Terrain::Hill), 32);
    assert_eq!(terrain_height(Terrain::Mountain), 60);
}

#[test]
fn hash_values_are_stable() {
    assert_eq!(tile_hash(0, 0), 0);
    assert_eq!(tile_hash(1, 0), 2182377942);
    assert_eq!(tile_hash(0, 1), 3299714085);
    assert_eq!(tile_hash(-1, 0), 2321422717);
    assert_eq!(tile_hash(3, -7), 1347741029);
    assert_eq!(tile_hash(-40, -34), 975099516);
    assert_eq!(tile_hash(i32::MAX, i32::MIN), 2321422717);
}

#[test]
fn hash_differs_along_rows_and_columns() {
    for fixed in [-34, 0, 12] {
        for a in -40..=40 {
            for b in (a + 1)..=40 {
                assert_ne!(tile_hash(a, fixed), tile_hash(b, fixed));
                assert_ne!(tile_hash(fixed, a), tile_hash(fixed, b));
            }
        }
    }
}

#[test]
fn shades_come_from_the_hash() {
    assert_eq!(shade_index(0, 0), 0);
    assert_eq!(shade_index(1, 0), 2);
    assert_eq!(shade_index(3, -7), 4);
    assert_eq!(shade_index(-40, -34), 1);
    let mut seen = [false; 5];
    for hex in grid_hexes() {
        seen[shade_index(hex.q, hex.r)] = true;
    }
    assert_eq!(seen, [true; 5]);
}

#[test]
fn grid_holds_each_hex_of_the_map_once() {
    let hexes = grid_hexes();
    assert_eq!(hexes.len(), 81 * 69);
    assert_eq!(hexes[0], Hex::new(-GRID_Q, -GRID_R));
    assert_eq!(hexes[1], Hex::new(-GRID_Q, -GRID_R + 1));
    assert_eq!(hexes[69], Hex::new(-GRID_Q + 1, -GRID_R));
    assert_eq!(hexes[81 * 69 - 1], Hex::new(GRID_Q, GRID_R));
    let distinct: std::collections::HashSet<Hex> = hexes.iter().copied().collect();
    assert_eq!(distinct.len(), hexes.len());
}

#[test]
fn edits_start_with_the_deploy_zones() {
    let edits = terrain_edits(&sine_course());
    let plains = |q, r| Edit {
        hex: Hex::new(q, r),
        terrain: Terrain::Plains,
    };
    assert_eq!(edits[0], plains(-6, -27));
    assert_eq!(edits[1], plains(7, -27));
    assert_eq!(edits[2], plains(-6, -26));
    assert_eq!(edits[107], plains(7, 26));
    assert_eq!(edits[108], plains(-7, -27));
    assert_eq!(edits[3022], plains(-33, 26));
    assert_eq!(edits[3023], plains(34, 26));
    assert_eq!(edits[3024].terrain, Terrain::Water);
}

#[test]
fn river_runs_two_hexes_wide() {
    let course = vec![3; 69];
    let edits = terrain_edits(&course);
    let water: Vec<Hex> = edits[3024..].iter().map(|e| e.hex).collect();
    assert!(edits[3024..].iter().all(|e| e.terrain == Terrain::Water));
    let mut expected = Vec::new();
    for r in -34_i32..=34 {
        if r.rem_euclid(10) >= 2 {
            expected.push(Hex::new(3, r));
            expected.push(Hex::new(4, r));
        }
    }
    assert_eq!(water, expected);
}

#[test]
fn river_spares_the_objective() {
    // Rows 0 and 1 are fords; in row -1 the river would meet two hexes next to the centre.
    let edits = terrain_edits(&vec![0; 69]);
    let row: Vec<Hex> = edits[3024..]
        .iter()
        .map(|e| e.hex)
        .filter(|h| h.r == -1)
        .collect();
    assert!(row.is_empty());
    let edits = terrain_edits(&vec![1; 69]);
    let row: Vec<Hex> = edits[3024..]
        .iter()
        .map(|e| e.hex)
        .filter(|h| h.r == -1)
        .collect();
    assert_eq!(row, vec![Hex::new(2, -1)]);
    let map = carved(Terrain::Hill);
    for (q, r) in [(0, 0), (1, 0), (1, -1), (0, -1), (-1, 0), (-1, 1), (0, 1)] {
        assert_eq!(map[&Hex::new(q, r)], Terrain::Hill);
    }
}

#[test]
fn fords_cross_the_river() {
    let map = carved(Terrain::Forest);
    for r in [-30, -29, -20, -19, -10, -9, 0, 1, 10, 11, 20, 21, 30, 31] {
        for q in -GRID_Q..=GRID_Q {
            assert_ne!(map[&Hex::new(q, r)], Terrain::Water);
        }
    }
    assert_eq!(map[&Hex::new(2, 2)], Terrain::Water);
}

#[test]
fn battlefield_changes_nothing_else() {
    let course = sine_course();
    let map = carved(Terrain::Mountain);
    for hex in grid_hexes() {
        let centre = course[(hex.r + GRID_R) as usize];
        let river = hex.r.rem_euclid(10) >= 2
            && (hex.q == centre || hex.q == centre + 1)
            && hex.distance(Hex::new(0, 0)) > 1;
        let column = (hex.q >= -33 && hex.q <= -6) || (hex.q >= 7 && hex.q <= 34);
        let zone = column && hex.r >= -27 && hex.r <= 26;
        assert!(!(river && zone));
        let expected = if river {
            Terrain::Water
        } else if zone {
            Terrain::Plains
        } else {
            Terrain::Mountain
        };
        assert_eq!(map[&hex], expected);
    }
}

#[test]
fn river_may_start_at_the_last_column_but_one() {
    let edits = terrain_edits(&vec![i32::MAX - 1; 69]);
    assert_eq!(edits[3024].hex.q, i32::MAX - 1);
    assert_eq!(edits[3025].hex.q, i32::MAX);
}

#[test]
fn two_fords_in_any_ten_rows() {
    let water: Vec<i32> = terrain_edits(&vec![3; 69])[3024..]
        .iter()
        .map(|e| e.hex.r)
        .collect();
    for top in -34..=25 {
        let dry = (top..top + 10).filter(|r| !water.contains(r)).count();
        assert_eq!(dry, 2);
    }
}

#[test]
fn sine_course_keeps_to_the_gap() {
    assert!(keeps_to_gap(&sine_course()));
    let columns: Vec<i32> = terrain_edits(&sine_course())[3024..]
        .iter()
        .map(|e| e.hex.q)
        .collect();
    assert_eq!(columns.iter().min(), Some(&-5));
    assert_eq!(columns.iter().max(), Some(&6));
}

#[test]
fn courses_outside_the_gap_are_told() {
    assert!(keeps_to_gap(&vec![-5; 69]));
    assert!(keeps_to_gap(&vec![5; 69]));
    assert!(!keeps_to_gap(&vec![-6; 69]));
    assert!(!keeps_to_gap(&vec![6; 69]));
    assert!(!keeps_to_gap(&vec![0; 68]));
    assert!(!keeps_to_gap(&vec![0; 70]));
    assert!(!keeps_to_gap(&vec![]));
    let mut course = vec![0; 69];
    // Row 10 is a ford, so its column does not count; row 12 is none.
    course[(10 + GRID_R) as usize] = 40;
    assert!(keeps_to_gap(&course));
    course[(12 + GRID_R) as usize] = 40;
    assert!(!keeps_to_gap(&course));
}
