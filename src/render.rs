use vstd::prelude::*;

use crate::walker::{Position, Size, Wearhouse};

verus! {

/// Relies on `String::push`: the character is appended at the end.
#[verifier::external_body]
fn push_char(s: &mut String, c: char)
    ensures
        final(s)@ == old(s)@.push(c),
{
    s.push(c);
}

/// `n` copies of `c`.
pub open spec fn repeated(c: char, n: nat) -> Seq<char> {
    Seq::new(n, |_i: int| c)
}

/// A horizontal border: a corner, `width` rules, a corner, a line break.
pub open spec fn border(left: char, right: char, width: nat) -> Seq<char> {
    seq![left] + repeated('─', width) + seq![right, '\n']
}

/// The character drawn in cell `(row, col)`: the marker or a blank.
pub open spec fn cell(p: Position, row: int, col: int) -> char {
    if p.0 == row && p.1 == col {
        'X'
    } else {
        ' '
    }
}

/// One grid row between vertical borders, with its line break.
pub open spec fn grid_row(p: Position, row: int, width: nat) -> Seq<char> {
    seq!['│'] + Seq::new(width, |col: int| cell(p, row, col)) + seq!['│', '\n']
}

/// The first `n` grid rows.
pub open spec fn grid_rows(p: Position, width: nat, n: nat) -> Seq<char>
    decreases n,
{
    if n == 0 {
        Seq::empty()
    } else {
        grid_rows(p, width, (n - 1) as nat) + grid_row(p, n - 1, width)
    }
}

/// The decimal digit for `d < 10`.
pub open spec fn digit(d: nat) -> char {
    ((d + 48) as u8) as char
}

/// `n` written in decimal, without leading zeros.
pub open spec fn decimal(n: nat) -> Seq<char>
    decreases n,
{
    if n < 10 {
        seq![digit(n)]
    } else {
        decimal(n / 10) + seq![digit(n % 10)]
    }
}

/// The whole drawing: the framed grid, then the position as `(row col)`.
pub open spec fn picture(s: Size, p: Position) -> Seq<char> {
    border('┌', '┐', s.0 as nat) + grid_rows(p, s.0 as nat, s.1 as nat) + border(
        '└',
        '┘',
        s.0 as nat,
    ) + seq!['('] + decimal(p.0 as nat) + seq![' '] + decimal(p.1 as nat) + seq![')', '\n']
}

fn push_border(out: &mut String, left: char, right: char, width: u8)
    ensures
        final(out)@ == old(out)@ + border(left, right, width as nat),
{
    push_char(out, left);
    let mut i: u8 = 0;
    while i < width
        invariant
            i <= width,
            out@ == old(out)@ + seq![left] + repeated('─', i as nat),
        decreases width - i,
    {
        push_char(out, '─');
        i = i + 1;
        assert(repeated('─', i as nat) =~= repeated('─', (i - 1) as nat).push('─'));
    }
    push_char(out, right);
    push_char(out, '\n');
    assert(out@ =~= old(out)@ + border(left, right, width as nat));
}

fn push_row(out: &mut String, p: Position, row: u8, width: u8)
    ensures
        final(out)@ == old(out)@ + grid_row(p, row as int, width as nat),
{
    push_char(out, '│');
    let mut col: u8 = 0;
    while col < width
        invariant
            col <= width,
            out@ == old(out)@ + seq!['│'] + Seq::new(col as nat, |c: int| cell(p, row as int, c)),
        decreases width - col,
    {
        if p.0 == row && p.1 == col {
            push_char(out, 'X');
        } else {
            push_char(out, ' ');
        }
        assert(Seq::new((col + 1) as nat, |c: int| cell(p, row as int, c)) =~= Seq::new(
            col as nat,
            |c: int| cell(p, row as int, c),
        ).push(cell(p, row as int, col as int)));
        col = col + 1;
    }
    push_char(out, '│');
    push_char(out, '\n');
    assert(out@ =~= old(out)@ + grid_row(p, row as int, width as nat));
}

fn push_decimal(out: &mut String, n: u8)
    ensures
        final(out)@ == old(out)@ + decimal(n as nat),
    decreases n,
{
    if n >= 10 {
        push_decimal(out, n / 10);
    }
    push_char(out, ((n % 10) + 48) as char);
    assert(out@ =~= old(out)@ + decimal(n as nat));
}

impl Wearhouse {
    /// Draws the grid with the marker as `X`, followed by a line with the
    /// position.
    pub fn visualize(&self) -> (r: String)
        ensures
            r@ == picture(self.size, self.position),
    {
        let width = self.size.0;
        let mut output = String::new();
        push_border(&mut output, '┌', '┐', width);
        let mut row: u8 = 0;
        while row < self.size.1
            invariant
                row <= self.size.1,
                width == self.size.0,
                output@ == border('┌', '┐', width as nat) + grid_rows(
                    self.position,
                    width as nat,
                    row as nat,
                ),
            decreases self.size.1 - row,
        {
            push_row(&mut output, self.position, row, width);
            row = row + 1;
        }
        push_border(&mut output, '└', '┘', width);
        push_char(&mut output, '(');
        push_decimal(&mut output, self.position.0);
        push_char(&mut output, ' ');
        push_decimal(&mut output, self.position.1);
        push_char(&mut output, ')');
        push_char(&mut output, '\n');
        assert(output@ =~= picture(self.size, self.position));
        output
    }
}

} // verus!
