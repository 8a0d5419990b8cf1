//! The lines that tell how the battle goes.

use vstd::prelude::*;

use crate::army::Team;

verus! {

/// A status line is written every so many ticks.
pub const REPORT_INTERVAL: u64 = 4;

/// The decimal digit for a number below ten.
pub open spec fn digit_char(digit: nat) -> char {
    (('0' as u8) + digit) as char
}

/// A number in decimal digits, without leading zeros.
pub open spec fn decimal(n: nat) -> Seq<char>
    decreases n,
{
    if n < 10 {
        seq![digit_char(n)]
    } else {
        decimal(n / 10).push(digit_char(n % 10))
    }
}

/// A text, moved to the right by spaces until it is at least `width` characters long.
pub open spec fn right_aligned(text: Seq<char>, width: nat) -> Seq<char> {
    Seq::new(
        if text.len() < width {
            (width - text.len()) as nat
        } else {
            0
        },
        |i: int| ' ',
    ) + text
}

/// The test for a team.
pub open spec fn is_team(team: Team) -> spec_fn(Team) -> bool {
    |t: Team| t == team
}

/// How many of the units are of a team.
pub open spec fn strength(teams: Seq<Team>, team: Team) -> nat {
    teams.filter(is_team(team)).len()
}

/// The status line.
pub open spec fn status_text(
    tick: nat,
    red: nat,
    red_order: Seq<char>,
    blue: nat,
    blue_order: Seq<char>,
) -> Seq<char> {
    "tick "@ + right_aligned(decimal(tick), 4) + " | red "@ + right_aligned(decimal(red), 3)
        + " ("@ + red_order + ") | blue "@ + right_aligned(decimal(blue), 3) + " (AI "@
        + blue_order + ")"@
}

/// Whether a status line is due.
pub open spec fn is_reporting_tick(tick: nat) -> bool {
    tick % 4 == 0
}

/// The line that opens the battle.
pub open spec fn opening_text(units: nat) -> Seq<char> {
    "spawned "@ + decimal(units)
        + " units | controls: [1] Red March  [2] Red Charge  [3] Red Hold"@
}

/// Whether a character is a decimal digit.
pub open spec fn is_digit(c: char) -> bool {
    48 <= c as int <= 57
}

/// The number that a row of decimal digits stands for.
pub open spec fn read_digits(digits: Seq<char>) -> int
    decreases digits.len(),
{
    if digits.len() == 0 {
        0
    } else {
        10 * read_digits(digits.drop_last()) + (digits.last() as int - 48)
    }
}

/// Whether a field starts with `blanks` spaces and then holds a number, right to its end
/// and without leading zeros; the field is `width` wide, or wider where the number is.
pub open spec fn holds_number(field: Seq<char>, width: nat, n: nat, blanks: int) -> bool {
    &&& 0 <= blanks < field.len()
    &&& forall|j: int| 0 <= j < blanks ==> #[trigger] field[j] == ' '
    &&& forall|j: int| blanks <= j < field.len() ==> is_digit(#[trigger] field[j])
    &&& read_digits(field.skip(blanks)) == n
    &&& field[blanks] as int == 48 ==> field.len() == blanks + 1
    &&& field.len() >= width
    &&& blanks > 0 ==> field.len() == width
}

/// Whether a field of at least `width` characters shows a number, and nothing else.
pub open spec fn shows_number(field: Seq<char>, width: nat, n: nat) -> bool {
    exists|blanks: int| holds_number(field, width, n, blanks)
}

/// Whether a line is put together from its three number fields and the two orders.
pub open spec fn joins_fields(
    line: Seq<char>,
    tick_field: Seq<char>,
    red_field: Seq<char>,
    red_order: Seq<char>,
    blue_field: Seq<char>,
    blue_order: Seq<char>,
) -> bool {
    line == "tick "@ + tick_field + " | red "@ + red_field + " ("@ + red_order + ") | blue "@
        + blue_field + " (AI "@ + blue_order + ")"@
}

/// Whether a line reports this tick, these numbers of units and these orders.
pub open spec fn reports(
    line: Seq<char>,
    tick: nat,
    red: nat,
    red_order: Seq<char>,
    blue: nat,
    blue_order: Seq<char>,
) -> bool {
    exists|tick_field: Seq<char>, red_field: Seq<char>, blue_field: Seq<char>|
        {
            &&& #[trigger] joins_fields(
                line,
                tick_field,
                red_field,
                red_order,
                blue_field,
                blue_order,
            )
            &&& shows_number(tick_field, 4, tick)
            &&& shows_number(red_field, 3, red)
            &&& shows_number(blue_field, 3, blue)
        }
}

fn digit_text(digit: u64) -> (text: &'static str)
    requires
        digit < 10,
    ensures
        text@ == seq![digit_char(digit as nat)],
{
    proof {
        reveal_strlit("0");
        reveal_strlit("1");
        reveal_strlit("2");
        reveal_strlit("3");
        reveal_strlit("4");
        reveal_strlit("5");
        reveal_strlit("6");
        reveal_strlit("7");
        reveal_strlit("8");
        reveal_strlit("9");
    }
    if digit == 0 {
        "0"
    } else if digit == 1 {
        "1"
    } else if digit == 2 {
        "2"
    } else if digit == 3 {
        "3"
    } else if digit == 4 {
        "4"
    } else if digit == 5 {
        "5"
    } else if digit == 6 {
        "6"
    } else if digit == 7 {
        "7"
    } else if digit == 8 {
        "8"
    } else {
        "9"
    }
}

fn append_decimal(line: &mut String, n: u64)
    ensures
        final(line)@ == old(line)@ + decimal(n as nat),
    decreases n,
{
    if n >= 10 {
        append_decimal(line, n / 10);
    }
    line.append(digit_text(n % 10));
    proof {
        assert(line@ =~= old(line)@ + decimal(n as nat));
    }
}

/// The number of decimal digits of a number, as far as it is below `width`.
fn decimal_len(n: u64, width: usize) -> (len: usize)
    ensures
        len < width ==> len == decimal(n as nat).len(),
        len >= width ==> decimal(n as nat).len() >= width,
{
    let mut len: usize = 1;
    let mut rest: u64 = n;
    while rest >= 10 && len < width
        invariant
            1 <= len,
            len - 1 + decimal(rest as nat).len() == decimal(n as nat).len(),
        decreases rest,
    {
        rest = rest / 10;
        len = len + 1;
    }
    len
}

fn append_aligned(line: &mut String, n: u64, width: usize)
    ensures
        final(line)@ == old(line)@ + right_aligned(decimal(n as nat), width as nat),
{
    let mut len: usize = decimal_len(n, width);
    proof {
        reveal_strlit(" ");
        assert(line@ =~= old(line)@ + Seq::new(0, |i: int| ' '));
    }
    let ghost mut pad: nat = 0;
    let ghost digits = decimal(n as nat).len();
    while len < width
        invariant
            pad == 0 && len >= width ==> digits >= width,
            pad > 0 || len < width ==> len == digits + pad && len <= width,
            line@ == old(line)@ + Seq::new(pad, |i: int| ' '),
            " "@ == seq![' '],
        decreases width - len,
    {
        line.append(" ");
        proof {
            pad = pad + 1;
            assert(line@ =~= old(line)@ + Seq::new(pad, |i: int| ' '));
        }
        len = len + 1;
    }
    append_decimal(line, n);
    proof {
        assert(line@ =~= old(line)@ + right_aligned(decimal(n as nat), width as nat));
    }
}

fn count_team(teams: &Vec<Team>, team: Team) -> (count: u64)
    ensures
        count == strength(teams@, team),
{
    let mut count: u64 = 0;
    let mut i: usize = 0;
    proof {
        assert(teams@.take(0).filter(is_team(team)) =~= Seq::<Team>::empty()) by {
            reveal(Seq::filter);
        }
    }
    while i < teams.len()
        invariant
            i <= teams@.len(),
            count <= i,
            count == teams@.take(i as int).filter(is_team(team)).len(),
        decreases teams@.len() - i,
    {
        proof {
            reveal(Seq::filter);
            assert(teams@.take(i + 1).drop_last() =~= teams@.take(i as int));
        }
        if teams[i] == team {
            count = count + 1;
        }
        i = i + 1;
    }
    proof {
        assert(teams@.take(teams@.len() as int) =~= teams@);
    }
    count
}

/// The status of the battle: how many units each team has left and what they are
/// ordered to do. `teams` holds the team of each unit. There is a line on every fourth
/// tick, none on the others.
pub fn log_status(tick: u64, teams: &Vec<Team>, red_order: &str, blue_order: &str) -> (line:
    Option<String>)
    ensures
        line is Some <==> tick % REPORT_INTERVAL == 0,
        line is Some <==> is_reporting_tick(tick as nat),
        line matches Some(text) ==> text@ == status_text(
            tick as nat,
            strength(teams@, Team::Red),
            red_order@,
            strength(teams@, Team::Blue),
            blue_order@,
        ),
        line matches Some(text) ==> reports(
            text@,
            tick as nat,
            teams@.to_multiset().count(Team::Red),
            red_order@,
            teams@.to_multiset().count(Team::Blue),
            blue_order@,
        ),
{
    if tick % REPORT_INTERVAL != 0 {
        return None;
    }
    let red: u64 = count_team(teams, Team::Red);
    let blue: u64 = count_team(teams, Team::Blue);
    let mut text: String = String::from_str("tick ");
    append_aligned(&mut text, tick, 4);
    text.append(" | red ");
    append_aligned(&mut text, red, 3);
    text.append(" (");
    text.append(red_order);
    text.append(") | blue ");
    append_aligned(&mut text, blue, 3);
    text.append(" (AI ");
    text.append(blue_order);
    text.append(")");
    proof {
        law_status_line(tick as nat, teams@, red_order@, blue_order@);
    }
    Some(text)
}

/// The line that opens the battle, with the number of units and the keys.
pub fn opening_line(units: usize) -> (line: String)
    ensures
        line@ == "spawned "@ + decimal(units as nat)
            + " units | controls: [1] Red March  [2] Red Charge  [3] Red Hold"@,
        line@ == opening_text(units as nat),
{
    let mut line: String = String::from_str("spawned ");
    append_decimal(&mut line, units as u64);
    line.append(" units | controls: [1] Red March  [2] Red Charge  [3] Red Hold");
    line
}

/// Every unit is counted once, for one team or the other.
pub proof fn law_every_unit_counts_once(teams: Seq<Team>)
    ensures
        strength(teams, Team::Red) + strength(teams, Team::Blue) == teams.len(),
    decreases teams.len(),
{
    reveal(Seq::filter);
    if teams.len() > 0 {
        law_every_unit_counts_once(teams.drop_last());
    }
}

/// A number can be read back from its decimal digits; they are digits only, and the first
/// is no zero but for the number zero itself.
pub proof fn law_decimal_reads_back(n: nat)
    ensures
        read_digits(decimal(n)) == n,
        decimal(n).len() > 0,
        forall|j: int| 0 <= j < decimal(n).len() ==> is_digit(#[trigger] decimal(n)[j]),
        decimal(n)[0] as int == 48 ==> n == 0 && decimal(n).len() == 1,
    decreases n,
{
    if n < 10 {
        assert(decimal(n).drop_last() =~= Seq::<char>::empty());
        assert(read_digits(Seq::<char>::empty()) == 0);
    } else {
        law_decimal_reads_back(n / 10);
        assert(decimal(n).drop_last() =~= decimal(n / 10));
        assert forall|j: int| 0 <= j < decimal(n).len() implies is_digit(#[trigger] decimal(n)[j]) by {
            if j < decimal(n / 10).len() {
                assert(decimal(n)[j] == decimal(n / 10)[j]);
            }
        }
    }
}

/// A number that is moved to the right in its field is still that number.
pub proof fn law_aligned_number_reads_back(n: nat, width: nat)
    ensures
        shows_number(right_aligned(decimal(n), width), width, n),
{
    law_decimal_reads_back(n);
    let field = right_aligned(decimal(n), width);
    let blanks = field.len() - decimal(n).len();
    assert(field.skip(blanks) =~= decimal(n));
    assert forall|j: int| blanks <= j < field.len() implies is_digit(#[trigger] field[j]) by {
        assert(field[j] == decimal(n)[j - blanks]);
    }
    assert(field[blanks] == decimal(n)[0]);
    assert(holds_number(field, width, n, blanks));
}

/// The strength of a team is the number of times it occurs among the units: one more unit
/// adds one to its own team and nothing to the other.
pub proof fn law_strength_counts_units(teams: Seq<Team>, team: Team)
    ensures
        strength(teams, team) == teams.to_multiset().count(team),
        forall|next: Team|
            strength(#[trigger] teams.push(next), team) == strength(teams, team) + (if next == team {
                1int
            } else {
                0int
            }),
    decreases teams.len(),
{
    broadcast use vstd::seq_lib::group_to_multiset_ensures;

    reveal(Seq::filter);
    if teams.len() > 0 {
        law_strength_counts_units(teams.drop_last(), team);
        assert(teams =~= teams.drop_last().push(teams.last()));
    } else {
        assert(teams.to_multiset().len() == 0);
    }
    assert forall|next: Team|
        strength(#[trigger] teams.push(next), team) == strength(teams, team) + (if next == team {
            1int
        } else {
            0int
        }) by {
        assert(teams.push(next).drop_last() =~= teams);
    }
}

/// On every reporting tick the line shows the tick, after `red` the number of red units
/// with the red order, and after `blue` the number of blue units with the blue order.
pub proof fn law_status_line(
    tick: nat,
    teams: Seq<Team>,
    red_order: Seq<char>,
    blue_order: Seq<char>,
)
    ensures
        REPORT_INTERVAL == 4,
        reports(
            status_text(
                tick,
                strength(teams, Team::Red),
                red_order,
                strength(teams, Team::Blue),
                blue_order,
            ),
            tick,
            teams.to_multiset().count(Team::Red),
            red_order,
            teams.to_multiset().count(Team::Blue),
            blue_order,
        ),
{
    let red = strength(teams, Team::Red);
    let blue = strength(teams, Team::Blue);
    law_strength_counts_units(teams, Team::Red);
    law_strength_counts_units(teams, Team::Blue);
    law_aligned_number_reads_back(tick, 4);
    law_aligned_number_reads_back(red, 3);
    law_aligned_number_reads_back(blue, 3);
    assert(joins_fields(
        status_text(tick, red, red_order, blue, blue_order),
        right_aligned(decimal(tick), 4),
        right_aligned(decimal(red), 3),
        red_order,
        right_aligned(decimal(blue), 3),
        blue_order,
    ));
}

/// What follows the tick in a line does not depend on the tick: two lines on the same
/// battle differ in the field of the tick and nowhere else.
pub proof fn law_rest_of_line_ignores_tick(
    one: nat,
    other: nat,
    red: nat,
    red_order: Seq<char>,
    blue: nat,
    blue_order: Seq<char>,
)
    ensures
        ({
            let first = status_text(one, red, red_order, blue, blue_order);
            let second = status_text(other, red, red_order, blue, blue_order);
            first.skip(5int + right_aligned(decimal(one), 4).len()) == second.skip(
                5int + right_aligned(decimal(other), 4).len(),
            )
        }),
{
    reveal_strlit("tick ");
    let first = status_text(one, red, red_order, blue, blue_order);
    let second = status_text(other, red, red_order, blue, blue_order);
    assert(first.skip(5int + right_aligned(decimal(one), 4).len()) =~= second.skip(
        5int + right_aligned(decimal(other), 4).len(),
    ));
}

/// Lines come in a steady rhythm from the first tick on: one is due on tick zero, none on
/// the three ticks after a due one, and then again.
pub proof fn law_lines_come_every_fourth_tick(tick: nat)
    ensures
        is_reporting_tick(0),
        is_reporting_tick(tick) <==> is_reporting_tick(tick + 4),
        is_reporting_tick(tick) ==> !is_reporting_tick(tick + 1) && !is_reporting_tick(tick + 2)
            && !is_reporting_tick(tick + 3),
{
}

/// The number of units can be read back from the opening line: it stands between the
/// first word and the keys.
pub proof fn law_opening_line_counts_units(units: nat)
    ensures
        exists|field: Seq<char>|
            {
                &&& #[trigger] shows_number(field, 1, units)
                &&& opening_text(units) == "spawned "@ + field
                    + " units | controls: [1] Red March  [2] Red Charge  [3] Red Hold"@
            },
{
    law_decimal_reads_back(units);
    law_aligned_number_reads_back(units, 1);
    assert(right_aligned(decimal(units), 1) =~= decimal(units));
}

} // verus!
