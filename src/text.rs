//! The text form of a board: one line per row, a block for a live cell and a
//! space for a dead one, then a line with the generation number.
use vstd::prelude::*;

verus! {

pub open spec fn glyph(alive: bool) -> char {
    if alive {
        '█'
    } else {
        ' '
    }
}

/// The first `n` cells of a grid `width` cells wide, each row opened by a
/// line break.
pub open spec fn cells_text(alive: Seq<bool>, width: int, n: nat) -> Seq<char>
    decreases n,
{
    if n == 0 {
        Seq::empty()
    } else {
        let i = n - 1;
        let row_start: Seq<char> = if i % width == 0 {
            seq!['\n']
        } else {
            Seq::empty()
        };
        cells_text(alive, width, (n - 1) as nat) + row_start + seq![glyph(alive[i])]
    }
}

pub open spec fn digit_char(d: nat) -> char {
    if d == 0 {
        '0'
    } else if d == 1 {
        '1'
    } else if d == 2 {
        '2'
    } else if d == 3 {
        '3'
    } else if d == 4 {
        '4'
    } else if d == 5 {
        '5'
    } else if d == 6 {
        '6'
    } else if d == 7 {
        '7'
    } else if d == 8 {
        '8'
    } else {
        '9'
    }
}

/// The decimal digits of `n`, most significant first, without leading zeros.
pub open spec fn decimal(n: nat) -> Seq<char>
    decreases n,
{
    if n < 10 {
        seq![digit_char(n)]
    } else {
        decimal(n / 10) + seq![digit_char(n % 10)]
    }
}

/// The line that follows the rows, before the generation number.
pub open spec fn generation_label() -> Seq<char> {
    seq!['\n', 'G', 'E', 'N', 'E', 'R', 'A', 'T', 'I', 'O', 'N', ' ']
}

/// The whole text of a grid at a given generation.
pub open spec fn board_text(alive: Seq<bool>, width: int, generation: nat) -> Seq<char> {
    cells_text(alive, width, alive.len()) + generation_label() + decimal(generation)
}

fn digit_str(d: u64) -> (r: &'static str)
    requires
        d < 10,
    ensures
        r@ == seq![digit_char(d as nat)],
{
    proof {
        reveal_strlit("0");
        reveal_strlit("1");
        reveal_strlit("2");
        reveal_strlit("3");
        reveal_strlit("4");
        reveal_strlit("5");
        reveal_strlit("6");
        reveal_strlit("7");
        reveal_strlit("8");
        reveal_strlit("9");
    }
    match d {
        0 => "0",
        1 => "1",
        2 => "2",
        3 => "3",
        4 => "4",
        5 => "5",
        6 => "6",
        7 => "7",
        8 => "8",
        _ => "9",
    }
}

/// Appends the decimal digits of `n` to `out`.
pub fn push_decimal(out: &mut String, n: u64)
    ensures
        final(out)@ == old(out)@ + decimal(n as nat),
    decreases n,
{
    if n < 10 {
        out.append(digit_str(n));
    } else {
        push_decimal(out, n / 10);
        out.append(digit_str(n % 10));
        assert(final(out)@ =~= old(out)@ + decimal(n as nat));
    }
}

} // verus!
