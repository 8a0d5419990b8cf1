use imperium::army::{Kind, Team};
use imperium::field::{grid_hexes, terrain_edits};
use imperium::hash::shade_index;
use imperium::hex::Hex;
use imperium::palette::{
    terrain_color, terrain_palette, terrain_slot, tile_shades, unit_color, unit_palette, unit_slot,
    wall_color, Rgb,
};
use imperium::scene::{draw_objective, draw_tile, draw_tiles, setup, unit_placement};
use imperium::surd::Surd;
use imperium::terrain::{terrain_height, Terrain};

const GROUNDS: [Terrain; 5] = [
    Terrain::Plains,
    Terrain::Forest,
    Terrain::Hill,
    Terrain::Mountain,
    Terrain::Water,
];
const KINDS: [Kind; 3] = [Kind::Infantry, Kind::Cavalry, Kind::Skirmisher];

fn value(s: Surd) -> f64 {
    s.whole as f64 + s.root as f64 * 3.0_f64.sqrt()
}

fn base(terrain: Terrain) -> (f32, f32, f32) {
    match terrain {
        Terrain::Plains => (0.20, 0.28, 0.17),
        Terrain::Forest => (0.11, 0.21, 0.12),
        Terrain::Hill => (0.36, 0.29, 0.18),
        Terrain::Mountain => (0.36, 0.36, 0.40),
        Terrain::Water => (0.11, 0.21, 0.42),
    }
}

fn close(color: Rgb, expected: (f32, f32, f32)) -> bool {
    let near = |c: u32, e: f32| (c as f32 / 10_000.0 - e).abs() < 1e-6;
    near(color.red, expected.0) && near(color.green, expected.1) && near(color.blue, expected.2)
}

#[test]
fn terrain_colors_are_exact_decimals() {
    for t in GROUNDS {
        let c = terrain_color(t);
        assert_eq!(c.red as f32 / 10_000.0, base(t).0);
        assert_eq!(c.green as f32 / 10_000.0, base(t).1);
        assert_eq!(c.blue as f32 / 10_000.0, base(t).2);
    }
    assert_eq!(
        terrain_color(Terrain::Water),
        Rgb { red: 1_100, green: 2_100, blue: 4_200 }
    );
}

#[test]
fn walls_are_darkened() {
    for t in GROUNDS {
        let (r, g, b) = base(t);
        assert!(close(wall_color(t), (r * 0.45, g * 0.45, b * 0.45)));
        for shade in tile_shades(t) {
            assert!(wall_color(t).red < shade.red);
            assert!(wall_color(t).green < shade.green);
            assert!(wall_color(t).blue < shade.blue);
        }
    }
    assert_eq!(
        wall_color(Terrain::Hill),
        Rgb { red: 1_620, green: 1_305, blue: 810 }
    );
}

#[test]
fn shades_jitter_round_the_color() {
    for t in GROUNDS {
        let (r, g, b) = base(t);
        let shades = tile_shades(t);
        assert_eq!(shades.len(), 5);
        for (shade, f) in shades.iter().zip([0.80_f32, 0.90, 1.0, 1.10, 1.20]) {
            assert!(close(*shade, ((r * f).min(1.0), (g * f).min(1.0), (b * f).min(1.0))));
        }
        assert_eq!(shades[2], terrain_color(t));
    }
    assert_eq!(
        tile_shades(Terrain::Mountain)[4],
        Rgb { red: 4_320, green: 4_320, blue: 4_800 }
    );
}

#[test]
fn unit_colors_go_by_team_and_kind() {
    for (team, (r, g, b)) in [
        (Team::Red, (0.92_f32, 0.30_f32, 0.30_f32)),
        (Team::Blue, (0.34, 0.52, 0.96)),
    ] {
        for (kind, f) in [
            (Kind::Cavalry, 1.25_f32),
            (Kind::Infantry, 1.0),
            (Kind::Skirmisher, 0.65),
        ] {
            let expected = ((r * f).min(1.0), (g * f).min(1.0), (b * f).min(1.0));
            assert!(close(unit_color(team, kind), expected));
        }
    }
    assert_eq!(
        unit_color(Team::Red, Kind::Cavalry),
        Rgb { red: 10_000, green: 3_750, blue: 3_750 }
    );
    assert_eq!(
        unit_color(Team::Blue, Kind::Skirmisher),
        Rgb { red: 2_210, green: 3_380, blue: 6_240 }
    );
}

#[test]
fn brightness_goes_by_kind() {
    let darker = |a: Rgb, b: Rgb| a.red < b.red && a.green < b.green && a.blue < b.blue;
    for team in [Team::Red, Team::Blue] {
        let infantry = unit_color(team, Kind::Infantry);
        assert!(darker(unit_color(team, Kind::Skirmisher), infantry));
        assert!(darker(infantry, unit_color(team, Kind::Cavalry)));
    }
}

#[test]
fn palettes_hold_every_paint() {
    let ground = terrain_palette();
    assert_eq!(ground.len(), 5);
    for t in GROUNDS {
        let paint = &ground[terrain_slot(t)];
        assert_eq!(paint.terrain, t);
        assert_eq!(paint.shades, tile_shades(t));
        assert_eq!(paint.wall, wall_color(t));
    }
    let units = unit_palette();
    assert_eq!(units.len(), 6);
    for team in [Team::Red, Team::Blue] {
        for kind in KINDS {
            let paint = units[unit_slot(team, kind)];
            assert_eq!(paint.team, team);
            assert_eq!(paint.kind, kind);
            assert_eq!(paint.color, unit_color(team, kind));
        }
    }
    assert_eq!(units[0].kind, Kind::Infantry);
    assert_eq!(units[3].team, Team::Blue);
}

#[test]
fn tile_of_a_hill() {
    let tile = draw_tile(Hex::new(2, 3), Terrain::Hill);
    assert_eq!(tile.hex, Hex::new(2, 3));
    assert_eq!(tile.terrain, Terrain::Hill);
    assert_eq!(tile.shade, shade_index(2, 3));
    assert_eq!(tile.top.at.x, 72);
    assert_eq!(tile.top.at.y, Surd { whole: 64, root: -96 });
    assert_eq!(tile.top.z, Surd { whole: -19_999, root: 96 });
    let wall = tile.wall.unwrap();
    assert_eq!(wall.at.x, 72);
    assert_eq!(wall.at.y, Surd { whole: 32, root: -102 });
    assert_eq!(wall.width, 36);
    assert_eq!(wall.height, Surd { whole: 64, root: 12 });
    assert_eq!(wall.z, Surd { whole: -20_000, root: 96 });
}

#[test]
fn tiles_match_the_formulas() {
    let half_hex = 12.0 * 3.0_f64.sqrt() / 2.0;
    for hex in grid_hexes() {
        for t in GROUNDS {
            let tile = draw_tile(hex, t);
            let h = terrain_height(t) as f64;
            let x = 12.0 * 1.5 * hex.q as f64;
            let y = -(12.0 * 3.0_f64.sqrt() * (hex.r as f64 + hex.q as f64 / 2.0));
            let z = -10.0 + (-y) * 0.001;
            assert_eq!(tile.top.at.x as f64 / 2.0, x);
            assert!((value(tile.top.at.y) / 2.0 - (y + h)).abs() < 1e-9);
            assert!((value(tile.top.z) / 2_000.0 - (z + 0.0005)).abs() < 1e-9);
            assert_eq!(tile.wall.is_some(), h > 0.5);
            if let Some(wall) = tile.wall {
                let wall_h = half_hex + h;
                assert_eq!(wall.at.x as f64 / 2.0, x);
                assert!((value(wall.at.y) / 2.0 - ((y + h) - wall_h / 2.0)).abs() < 1e-9);
                assert_eq!(wall.width as f64 / 2.0, 12.0 * 1.5);
                assert!((value(wall.height) / 2.0 - wall_h).abs() < 1e-9);
                assert!((value(wall.z) / 2_000.0 - z).abs() < 1e-9);
            }
        }
    }
}

#[test]
fn water_has_no_wall() {
    for t in GROUNDS {
        let tile = draw_tile(Hex::new(-4, 9), t);
        assert_eq!(tile.wall.is_none(), t == Terrain::Water);
    }
    assert_eq!(draw_tile(Hex::new(-4, 9), Terrain::Water).top.at.y.whole, 0);
}

#[test]
fn front_tiles_cover_back_tiles() {
    let far = draw_tile(Hex::new(1, 4), Terrain::Mountain);
    let near = draw_tile(Hex::new(0, 5), Terrain::Plains);
    assert!(value(near.wall.unwrap().z) > value(far.top.z));
    assert!(value(near.top.at.y) < value(far.top.at.y));
    assert!(value(near.top.z) > value(near.wall.unwrap().z));
}

#[test]
fn walls_join_top_and_ground() {
    let tile = draw_tile(Hex::new(6, -2), Terrain::Forest);
    let wall = tile.wall.unwrap();
    let ground = draw_tile(Hex::new(6, -2), Terrain::Water).top.at;
    assert!((value(wall.at.y) + value(wall.height) / 2.0 - value(tile.top.at.y)).abs() < 1e-9);
    let south = value(ground.y) - 2.0 * (12.0 * 3.0_f64.sqrt() / 2.0);
    assert!((value(wall.at.y) - value(wall.height) / 2.0 - south).abs() < 1e-9);
}

#[test]
fn objective_stands_at_the_centre() {
    let marker = draw_objective();
    assert_eq!(marker.top.at.x, 0);
    assert_eq!(marker.top.at.y, Surd { whole: 84, root: 0 });
    assert_eq!(marker.top.z, Surd { whole: -19_898, root: 0 });
    assert_eq!(marker.wall.at.y, Surd { whole: 42, root: -6 });
    assert_eq!(marker.wall.height, Surd { whole: 84, root: 12 });
    assert_eq!(marker.wall.width, 36);
    assert_eq!(marker.wall.z, Surd { whole: -19_900, root: 0 });
    assert_eq!(marker.wall_color, Rgb { red: 4_500, green: 3_800, blue: 1_200 });
    assert_eq!(marker.top_color, Rgb { red: 8_800, green: 7_400, blue: 2_800 });
    let tile = draw_tile(Hex::new(0, 0), Terrain::Mountain);
    assert!(value(tile.top.z) < value(marker.wall.z));
}

#[test]
fn units_are_lifted_onto_their_tile() {
    let place = unit_placement(Hex::new(-8, 3), Terrain::Hill);
    assert_eq!(place.at.x, -288);
    assert_eq!(place.at.y, Surd { whole: 70, root: 24 });
    assert_eq!(place.z, Surd { whole: 2_000, root: -24 });
    for t in GROUNDS {
        let unit = unit_placement(Hex::new(11, 7), t).at;
        let top = draw_tile(Hex::new(11, 7), t).top.at;
        assert_eq!(unit.x, top.x);
        assert_eq!(unit.y.root, top.y.root);
        assert_eq!(unit.y.whole, top.y.whole + 6);
    }
}

#[test]
fn units_are_drawn_over_the_ground() {
    let back = unit_placement(Hex::new(-40, -34), Terrain::Plains);
    let front = unit_placement(Hex::new(40, 34), Terrain::Plains);
    let nearest = draw_tile(Hex::new(40, 34), Terrain::Mountain);
    assert!(value(back.z) > value(nearest.top.z));
    assert!(value(back.z) > value(draw_objective().top.z));
    assert!(value(front.z) > value(back.z));
}

#[test]
fn scene_holds_everything() {
    let terrains: Vec<Terrain> = (0..81 * 69).map(|i| GROUNDS[i % 5]).collect();
    let scene = setup(&terrains);
    assert_eq!(scene.tiles.len(), 5_589);
    assert_eq!(scene.units.len(), 3_024);
    assert_eq!(scene.objective, draw_objective());
    let tiles = draw_tiles(&terrains);
    for (i, hex) in grid_hexes().into_iter().enumerate() {
        assert_eq!(scene.tiles[i].hex, hex);
        assert_eq!(scene.tiles[i].terrain, terrains[i]);
        assert_eq!(scene.tiles[i].top, draw_tile(hex, terrains[i]).top);
        assert_eq!(scene.tiles[i].wall, tiles[i].wall);
    }
}

#[test]
fn tiles_show_the_carved_map() {
    let mut map: std::collections::HashMap<Hex, Terrain> =
        grid_hexes().into_iter().map(|h| (h, Terrain::Hill)).collect();
    for edit in terrain_edits(&vec![3; 69]) {
        map.insert(edit.hex, edit.terrain);
    }
    let terrains: Vec<Terrain> = grid_hexes().iter().map(|h| map[h]).collect();
    let scene = setup(&terrains);
    let tile = |q, r| {
        scene
            .tiles
            .iter()
            .find(|t| t.hex == Hex::new(q, r))
            .copied()
            .unwrap()
    };
    assert_eq!(tile(3, 2).terrain, Terrain::Water);
    assert!(tile(4, 2).wall.is_none());
    assert_eq!(tile(3, 10).terrain, Terrain::Hill);
    assert_eq!(tile(-6, 2).terrain, Terrain::Plains);
    assert_eq!(tile(7, 2).terrain, Terrain::Plains);
    assert_eq!(tile(-5, 2).terrain, Terrain::Hill);
    assert_eq!(tile(6, 2).terrain, Terrain::Hill);
    assert_eq!(tile(-34, 0).terrain, Terrain::Hill);
    assert!(tile(-34, 0).wall.is_some());
}
