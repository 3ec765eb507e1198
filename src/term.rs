//! Terminal control text for a screen drawn on a terminal.
use vstd::prelude::*;
use crate::scr::Position;

verus! {

pub open spec fn digit_char(d: nat) -> char {
    if d == 0 {
        '0'
    } else if d == 1 {
        '1'
    } else if d == 2 {
        '2'
    } else if d == 3 {
        '3'
    } else if d == 4 {
        '4'
    } else if d == 5 {
        '5'
    } else if d == 6 {
        '6'
    } else if d == 7 {
        '7'
    } else if d == 8 {
        '8'
    } else {
        '9'
    }
}

/// The decimal digits of `n`, most significant first, without leading zeros.
pub open spec fn decimal(n: nat) -> Seq<char>
    decreases n,
{
    if n < 10 {
        seq![digit_char(n)]
    } else {
        decimal(n / 10).push(digit_char(n % 10))
    }
}

/// The control sequence that moves a terminal's cursor to the one-based
/// `row` and `col`: ESC, `[`, the row, `;`, the column, `H`.
pub open spec fn goto_text(row: nat, col: nat) -> Seq<char> {
    seq!['\x1b', '['] + decimal(row) + seq![';'] + decimal(col) + seq!['H']
}

/// Relies on the `Display` of `termion::cursor::Goto(col, row)`: it writes
/// ESC `[` row `;` col `H`, both numbers in decimal; `Goto(0, 0)` is refused
/// by an assertion.
#[verifier::external_body]
fn goto(col: u16, row: u16) -> (r: String)
    requires
        !(col == 0 && row == 0),
    ensures
        r@ == goto_text(row as nat, col as nat),
{
    format!("{}", termion::cursor::Goto(col, row))
}

/// The control sequence that moves a terminal's cursor to screen cell `pos`,
/// which counts from 0 where the terminal counts from 1.
pub fn cursor_goto(pos: Position) -> (r: String)
    requires
        pos.row < u16::MAX,
        pos.col < u16::MAX,
    ensures
        r@ == goto_text((pos.row + 1) as nat, (pos.col + 1) as nat),
{
    goto(pos.col + 1, pos.row + 1)
}

} // verus!
