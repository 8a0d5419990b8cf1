use bevy::input::keyboard::KeyCode;
use bevy::input::ButtonInput;
use imperium::army::{deploy_armies, kind_for, spawn_unit, Kind, Team};
use imperium::command::{control, digit_commands, order_notice, Command, Order};
use imperium::field::{grid_hexes, terrain_edits, GAP};
use imperium::hex::{hex_to_world, Hex};
use imperium::report::{log_status, opening_line};
use imperium::surd::Surd;
use imperium::terrain::Terrain;

use std::collections::{HashMap, HashSet};

#[test]
fn formation_of_the_armies() {
    for col in 0..28 {
        let expected = if col < 7 {
            Kind::Cavalry
        } else if col >= 21 {
            Kind::Skirmisher
        } else {
            Kind::Infantry
        };
        assert_eq!(kind_for(col, 28), expected);
    }
}

#[test]
fn formation_of_odd_sizes() {
    assert_eq!(kind_for(0, 4), Kind::Cavalry);
    assert_eq!(kind_for(2, 4), Kind::Infantry);
    assert_eq!(kind_for(3, 4), Kind::Skirmisher);
    assert_eq!(kind_for(0, 3), Kind::Infantry);
    assert_eq!(kind_for(2, 3), Kind::Skirmisher);
    assert_eq!(kind_for(0, 0), Kind::Skirmisher);
    assert_eq!(kind_for(-1, 0), Kind::Cavalry);
    assert_eq!(kind_for(-1, -5), Kind::Skirmisher);
    assert_eq!(kind_for(-2, -5), Kind::Cavalry);
    assert_eq!(kind_for(0, i32::MAX), Kind::Cavalry);
}

#[test]
fn columns_never_step_forward() {
    let depth = |kind| match kind {
        Kind::Cavalry => 0,
        Kind::Infantry => 1,
        Kind::Skirmisher => 2,
    };
    for cols in -9..40 {
        for col in -12..45 {
            assert!(depth(kind_for(col, cols)) <= depth(kind_for(col + 1, cols)));
        }
    }
}

#[test]
fn fresh_units_stand_on_their_hex() {
    let unit = spawn_unit(Team::Blue, Kind::Cavalry, Hex::new(9, -4));
    assert_eq!(unit.team, Team::Blue);
    assert_eq!(unit.kind, Kind::Cavalry);
    assert_eq!(unit.hex, Hex::new(9, -4));
    assert_eq!(unit.group, 1);
    assert_eq!(unit.place.at, hex_to_world(Hex::new(9, -4)));
    assert_eq!(unit.place.at.x, 324);
    assert_eq!(unit.place.at.y, Surd { whole: 0, root: -12 });
    assert_eq!(unit.place.z, Surd { whole: 0, root: 0 });
}

#[test]
fn armies_mirror_each_other() {
    let units = deploy_armies();
    assert_eq!(units.len(), 2 * 28 * 54);
    for pair in units.chunks(2) {
        assert_eq!(pair[0].team, Team::Red);
        assert_eq!(pair[1].team, Team::Blue);
        assert_eq!(pair[0].kind, pair[1].kind);
        assert_eq!(pair[0].hex.r, pair[1].hex.r);
        assert_eq!(pair[0].hex.q, 1 - pair[1].hex.q);
        assert!(pair[0].hex.q <= -6);
    }
    assert_eq!(units[0].hex, Hex::new(-6, -27));
    assert_eq!(units[0].kind, Kind::Cavalry);
    assert_eq!(units[3023].hex, Hex::new(34, 26));
    assert_eq!(units[3023].kind, Kind::Skirmisher);
}

#[test]
fn twelve_hexes_lie_between_the_armies() {
    assert_eq!(GAP, 12);
    let units = deploy_armies();
    for r in -27..=26 {
        let columns = |team: Team| {
            units
                .iter()
                .filter(move |u| u.team == team && u.hex.r == r)
                .map(|u| u.hex.q)
        };
        let red = columns(Team::Red).max().unwrap();
        let blue = columns(Team::Blue).min().unwrap();
        assert_eq!((red, blue), (-6, 7));
        assert_eq!(blue - red - 1, 12);
    }
}

#[test]
fn no_two_units_share_a_hex() {
    let units = deploy_armies();
    let hexes: HashSet<Hex> = units.iter().map(|u| u.hex).collect();
    assert_eq!(hexes.len(), units.len());
}

#[test]
fn units_start_on_plains() {
    let course: Vec<i32> = (-34..=34)
        .map(|r| (6.0 * (r as f32 * 0.22).sin()) as i32)
        .collect();
    let mut map: HashMap<Hex, Terrain> =
        grid_hexes().into_iter().map(|h| (h, Terrain::Water)).collect();
    for edit in terrain_edits(&course) {
        map.insert(edit.hex, edit.terrain);
    }
    for unit in deploy_armies() {
        assert_eq!(map[&unit.hex], Terrain::Plains);
    }
}

fn red(order: Order) -> Command {
    Command {
        team: Team::Red,
        group: 1,
        order,
    }
}

#[test]
fn digits_order_the_red_army() {
    assert_eq!(digit_commands(false, false, false), vec![]);
    assert_eq!(digit_commands(true, false, false), vec![red(Order::March)]);
    assert_eq!(digit_commands(false, true, false), vec![red(Order::Charge)]);
    assert_eq!(digit_commands(false, false, true), vec![red(Order::Hold)]);
    assert_eq!(
        digit_commands(true, true, true),
        vec![red(Order::March), red(Order::Charge), red(Order::Hold)]
    );
}

#[test]
fn keyboard_orders_the_red_army() {
    let mut keys = ButtonInput::<KeyCode>::default();
    assert_eq!(control(&keys), vec![]);
    keys.press(KeyCode::KeyA);
    keys.press(KeyCode::Digit4);
    assert_eq!(control(&keys), vec![]);
    keys.press(KeyCode::Digit2);
    assert_eq!(control(&keys), vec![red(Order::Charge)]);
    keys.press(KeyCode::Digit1);
    assert_eq!(control(&keys), vec![red(Order::March), red(Order::Charge)]);
    keys.clear();
    assert!(keys.pressed(KeyCode::Digit1));
    assert_eq!(control(&keys), vec![]);
    keys.press(KeyCode::Digit1);
    assert_eq!(control(&keys), vec![]);
    keys.press(KeyCode::Digit3);
    assert_eq!(control(&keys), vec![red(Order::Hold)]);
    keys.release(KeyCode::Digit1);
    assert_eq!(control(&keys), vec![red(Order::Hold)]);
}

#[test]
fn highest_key_counts() {
    for keys in 0..8 {
        let mut orders = HashMap::new();
        orders.insert((Team::Red, 1), Order::Charge);
        orders.insert((Team::Blue, 1), Order::March);
        for c in digit_commands(keys & 1 != 0, keys & 2 != 0, keys & 4 != 0) {
            orders.insert((c.team, c.group), c.order);
        }
        let expected = if keys & 4 != 0 {
            Order::Hold
        } else if keys & 2 != 0 || keys == 0 {
            Order::Charge
        } else {
            Order::March
        };
        assert_eq!(orders[&(Team::Red, 1)], expected);
        assert_eq!(orders[&(Team::Blue, 1)], Order::March);
        assert_eq!(orders.len(), 2);
    }
}

#[test]
fn notices_name_the_order() {
    assert_eq!(order_notice(Order::March), "Red → March");
    assert_eq!(order_notice(Order::Charge), "Red → Charge");
    assert_eq!(order_notice(Order::Hold), "Red → Hold");
}

#[test]
fn status_every_fourth_tick() {
    let teams = vec![Team::Red, Team::Blue, Team::Red];
    for tick in 0..12 {
        let line = log_status(tick, &teams, "Hold", "Charge");
        assert_eq!(line.is_some(), tick % 4 == 0);
    }
    assert_eq!(
        log_status(8, &teams, "Hold", "Charge").unwrap(),
        "tick    8 | red   2 (Hold) | blue   1 (AI Charge)"
    );
}

#[test]
fn status_matches_std_formatting() {
    for (tick, red, blue) in [
        (0_u64, 0_usize, 0_usize),
        (12, 9, 10),
        (1000, 99, 100),
        (10_000, 1512, 999),
        (18_446_744_073_709_551_612, 1, 1234),
    ] {
        let mut teams = vec![Team::Red; red];
        teams.extend(vec![Team::Blue; blue]);
        assert_eq!(
            log_status(tick, &teams, "March", "Hold").unwrap(),
            format!("tick {:>4} | red {:>3} (March) | blue {:>3} (AI Hold)", tick, red, blue)
        );
    }
}

#[test]
fn opening_line_counts_the_units() {
    assert_eq!(
        opening_line(deploy_armies().len()),
        "spawned 3024 units | controls: [1] Red March  [2] Red Charge  [3] Red Hold"
    );
    assert_eq!(
        opening_line(0),
        "spawned 0 units | controls: [1] Red March  [2] Red Charge  [3] Red Hold"
    );
}
