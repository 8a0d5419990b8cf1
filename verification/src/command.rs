//! Key presses and the orders that they give.

use bevy::input::keyboard::KeyCode;
use bevy::input::ButtonInput;
use vstd::prelude::*;

use crate::army::{deployed_unit, Team, GROUP};
use crate::field::deploy_count;

verus! {

#[derive(Clone, Copy, Debug, PartialEq, Eq, Hash, Structural)]
pub enum Order {
    March,
    Charge,
    Hold,
}

/// An order to one group of a team.
#[derive(Clone, Copy, Debug, PartialEq, Eq, Structural)]
pub struct Command {
    pub team: Team,
    pub group: u32,
    pub order: Order,
}

/// A key that gives an order.
#[derive(Clone, Copy, Debug, PartialEq, Eq, Hash, Structural)]
pub enum Key {
    Digit1,
    Digit2,
    Digit3,
}

/// Bevy's name for a key of the keyboard.
#[verifier::external_type_specification]
#[verifier::external_body]
pub struct ExKeyCode(KeyCode);

/// Bevy's record of which buttons are down, and which went down or up in this frame.
#[verifier::external_type_specification]
#[verifier::external_body]
#[verifier::reject_recursive_types(T)]
pub struct ExButtonInput<T: Clone + Eq + std::hash::Hash + Send + Sync + 'static>(ButtonInput<T>);

/// The keys, of those that give orders, that went down in this frame.
pub uninterp spec fn fresh_presses(keys: ButtonInput<KeyCode>) -> Set<Key>;

/// `ButtonInput::just_pressed`, for a key that gives an order: it says whether the key is
/// among those that went down in this frame. That is taken on trust.
#[verifier::external_body]
fn just_pressed(keys: &ButtonInput<KeyCode>, key: Key) -> (pressed: bool)
    ensures
        pressed == fresh_presses(*keys).contains(key),
{
    let code = match key {
        Key::Digit1 => KeyCode::Digit1,
        Key::Digit2 => KeyCode::Digit2,
        Key::Digit3 => KeyCode::Digit3,
    };
    keys.just_pressed(code)
}

/// The orders in force after the commands have been given, one after the other.
pub open spec fn obey(
    orders: Map<(Team, u32), Order>,
    commands: Seq<Command>,
) -> Map<(Team, u32), Order>
    decreases commands.len(),
{
    if commands.len() == 0 {
        orders
    } else {
        let last = commands.last();
        obey(orders, commands.drop_last()).insert((last.team, last.group), last.order)
    }
}

/// The command that a key gives if it is pressed: an order to the red army.
pub open spec fn command_if(pressed: bool, order: Order) -> Seq<Command> {
    if pressed {
        seq![Command { team: Team::Red, group: GROUP, order }]
    } else {
        seq![]
    }
}

/// The commands that the keys give, in the order in which they are given.
pub open spec fn commands_for(digit1: bool, digit2: bool, digit3: bool) -> Seq<Command> {
    command_if(digit1, Order::March) + command_if(digit2, Order::Charge) + command_if(
        digit3,
        Order::Hold,
    )
}

/// Orders for the red army: 1 is march, 2 is charge, 3 is hold. Each argument says
/// whether that key has just been pressed.
pub fn digit_commands(digit1: bool, digit2: bool, digit3: bool) -> (commands: Vec<Command>)
    ensures
        commands@ == commands_for(digit1, digit2, digit3),
{
    let mut commands: Vec<Command> = Vec::new();
    if digit1 {
        commands.push(Command { team: Team::Red, group: GROUP, order: Order::March });
    }
    if digit2 {
        commands.push(Command { team: Team::Red, group: GROUP, order: Order::Charge });
    }
    if digit3 {
        commands.push(Command { team: Team::Red, group: GROUP, order: Order::Hold });
    }
    commands
}

/// Keyboard to orders for the red army.
pub fn control(keys: &ButtonInput<KeyCode>) -> (commands: Vec<Command>)
    ensures
        commands@ == commands_for(
            fresh_presses(*keys).contains(Key::Digit1),
            fresh_presses(*keys).contains(Key::Digit2),
            fresh_presses(*keys).contains(Key::Digit3),
        ),
{
    digit_commands(
        just_pressed(keys, Key::Digit1),
        just_pressed(keys, Key::Digit2),
        just_pressed(keys, Key::Digit3),
    )
}

/// The line that is logged when the red army is given an order.
pub open spec fn notice_of(order: Order) -> Seq<char> {
    match order {
        Order::March => "Red → March"@,
        Order::Charge => "Red → Charge"@,
        Order::Hold => "Red → Hold"@,
    }
}

/// The line that is logged when the red army is given an order.
pub fn order_notice(order: Order) -> (line: &'static str)
    ensures
        line@ == notice_of(order),
{
    match order {
        Order::March => "Red → March",
        Order::Charge => "Red → Charge",
        Order::Hold => "Red → Hold",
    }
}

/// The keys decide what the red army does: of several keys pressed at once the one with
/// the highest digit counts, and without a key the order in force stays. No key changes
/// the orders of anyone else.
pub proof fn law_last_key_counts(
    orders: Map<(Team, u32), Order>,
    digit1: bool,
    digit2: bool,
    digit3: bool,
)
    ensures
        obey(orders, commands_for(digit1, digit2, digit3)) == (if digit3 {
            orders.insert((Team::Red, GROUP), Order::Hold)
        } else if digit2 {
            orders.insert((Team::Red, GROUP), Order::Charge)
        } else if digit1 {
            orders.insert((Team::Red, GROUP), Order::March)
        } else {
            orders
        }),
{
    let march = command_if(digit1, Order::March);
    let charge = march + command_if(digit2, Order::Charge);
    let hold = charge + command_if(digit3, Order::Hold);
    let red = (Team::Red, GROUP);
    assert(digit1 ==> march.drop_last() =~= Seq::<Command>::empty());
    assert(digit2 ==> charge.drop_last() =~= march);
    assert(!digit2 ==> charge =~= march);
    assert(digit3 ==> hold.drop_last() =~= charge);
    assert(!digit3 ==> hold =~= charge);
    let marching = if digit1 {
        orders.insert(red, Order::March)
    } else {
        orders
    };
    assert(obey(orders, Seq::<Command>::empty()) == orders);
    assert(obey(orders, march) == marching);
    let charging = if digit2 {
        orders.insert(red, Order::Charge)
    } else {
        marching
    };
    assert(marching.insert(red, Order::Charge) =~= orders.insert(red, Order::Charge));
    assert(obey(orders, charge) == charging);
    assert(charging.insert(red, Order::Hold) =~= orders.insert(red, Order::Hold));
}

/// Each key gives its own command and no other: 1 march, 2 charge, 3 hold, all to group 1
/// of the red army, in that order and none of them twice.
pub proof fn law_each_key_gives_its_command(digit1: bool, digit2: bool, digit3: bool)
    ensures
        ({
            let commands = commands_for(digit1, digit2, digit3);
            let march = Command { team: Team::Red, group: 1, order: Order::March };
            let charge = Command { team: Team::Red, group: 1, order: Order::Charge };
            let hold = Command { team: Team::Red, group: 1, order: Order::Hold };
            &&& commands.contains(march) <==> digit1
            &&& commands.contains(charge) <==> digit2
            &&& commands.contains(hold) <==> digit3
            &&& forall|i: int|
                0 <= i < commands.len() ==> (#[trigger] commands[i]).team == Team::Red
                    && commands[i].group == 1
            &&& forall|i: int, j: int|
                0 <= i < j < commands.len() ==> {
                    &&& (#[trigger] commands[i]).order != Order::Hold
                    &&& (#[trigger] commands[j]).order != Order::March
                    &&& commands[i].order != commands[j].order
                }
        }),
{
    let commands = commands_for(digit1, digit2, digit3);
    let before_charge = command_if(digit1, Order::March).len() as int;
    let before_hold = before_charge + command_if(digit2, Order::Charge).len();
    if digit1 {
        assert(commands[0].order == Order::March);
    }
    if digit2 {
        assert(commands[before_charge].order == Order::Charge);
    }
    if digit3 {
        assert(commands[before_hold].order == Order::Hold);
    }
}

/// The keys order the units that stand on the field: every command goes to the team and
/// group of every red unit, so after any key the red units follow the order of the
/// highest key pressed, and no blue unit's orders change.
pub proof fn law_keys_reach_the_red_units(
    orders: Map<(Team, u32), Order>,
    digit1: bool,
    digit2: bool,
    digit3: bool,
    i: int,
    k: int,
)
    requires
        0 <= k < deploy_count(),
    ensures
        ({
            let commands = commands_for(digit1, digit2, digit3);
            let unit = deployed_unit(k);
            0 <= i < commands.len() && unit.team == Team::Red ==> commands[i].team == unit.team
                && commands[i].group == unit.group
        }),
        ({
            let after = obey(orders, commands_for(digit1, digit2, digit3));
            let unit = deployed_unit(k);
            let address = (unit.team, unit.group);
            if unit.team == Team::Red && (digit1 || digit2 || digit3) {
                &&& after.contains_key(address)
                &&& after[address] == (if digit3 {
                    Order::Hold
                } else if digit2 {
                    Order::Charge
                } else {
                    Order::March
                })
            } else {
                &&& after.contains_key(address) == orders.contains_key(address)
                &&& after[address] == orders[address]
            }
        }),
{
    law_last_key_counts(orders, digit1, digit2, digit3);
    law_each_key_gives_its_command(digit1, digit2, digit3);
}

} // verus!
