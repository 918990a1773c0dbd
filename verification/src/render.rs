//! The drawing: a grid of pixels written out as text for a terminal.

use vstd::prelude::*;
use vstd::seq_lib::lemma_flatten_concat;
use crate::color::Rgba;
use crate::grid::{PixelGrid, PixelGridView};
use crate::palette::{closest_code, CliPixelView, Palette};

verus! {

/// What ends a cell after its colour code: one blank, which the terminal
/// shows in that colour, and the sequence that puts the terminal's
/// attributes back.
pub const CELL_END: &'static str = " \x1b[0m";

/// The character of one decimal digit.
pub open spec fn digit(value: nat) -> char {
    seq!['0', '1', '2', '3', '4', '5', '6', '7', '8', '9'][value as int]
}

/// A number in decimal, without a sign and without leading zeros.
pub open spec fn decimal(value: nat) -> Seq<char>
    decreases value,
{
    if value < 10 {
        seq![digit(value)]
    } else {
        decimal(value / 10).push(digit(value % 10))
    }
}

/// The number that a run of decimal digits stands for.
pub open spec fn decimal_value(digits: Seq<char>) -> nat
    decreases digits.len(),
{
    if digits.len() == 0 {
        0
    } else {
        10 * decimal_value(digits.drop_last()) + (digits.last() as int - '0' as int) as nat
    }
}

/// The text of one cell: the code of the palette entry that matches the
/// pixel's colour, then what ends a cell.
pub open spec fn cell_text(
    entries: Seq<CliPixelView>,
    cell_end: Seq<char>,
    color: Rgba,
) -> Seq<char> {
    closest_code(entries, color) + cell_end
}

/// The cells of row `y`, from left to right: the cell at `x` is that of the
/// pixel at `(x, y)`.
pub open spec fn row_cells(
    grid: PixelGridView,
    entries: Seq<CliPixelView>,
    cell_end: Seq<char>,
    y: int,
) -> Seq<Seq<char>> {
    Seq::new(grid.width, |x: int| cell_text(entries, cell_end, grid.pixel(x, y)))
}

/// The line of row `y`: its cells one after the other, then a line feed.
pub open spec fn row_text(
    grid: PixelGridView,
    entries: Seq<CliPixelView>,
    cell_end: Seq<char>,
    y: int,
) -> Seq<char> {
    row_cells(grid, entries, cell_end, y).flatten() + seq!['\n']
}

/// The lines of all rows, from top to bottom.
pub open spec fn rows(
    grid: PixelGridView,
    entries: Seq<CliPixelView>,
    cell_end: Seq<char>,
) -> Seq<Seq<char>> {
    Seq::new(grid.height, |y: int| row_text(grid, entries, cell_end, y))
}

/// The last line of a drawing: width and height in decimal, with a comma and
/// a blank between them.
pub open spec fn size_line(width: nat, height: nat) -> Seq<char> {
    decimal(width) + seq![',', ' '] + decimal(height) + seq!['\n']
}

/// The whole drawing: the lines of the rows, then the line of the size.
pub open spec fn image_text(
    grid: PixelGridView,
    entries: Seq<CliPixelView>,
    cell_end: Seq<char>,
) -> Seq<char> {
    rows(grid, entries, cell_end).flatten() + size_line(grid.width, grid.height)
}

/// A number written in decimal reads back as itself. What is written are
/// digits, at least one, and the first is a zero for the number zero only.
pub proof fn lemma_decimal_reads_back(value: nat)
    ensures
        decimal_value(decimal(value)) == value,
        decimal(value).len() >= 1,
        decimal(value)[0] == '0' <==> value == 0,
        forall|at: int|
            0 <= at < decimal(value).len() ==> '0' <= #[trigger] decimal(value)[at] <= '9',
    decreases value,
{
    let written = decimal(value);
    let last = value % 10;
    assert(digit(last) as int == '0' as int + last) by {
        assert(last == 0 || last == 1 || last == 2 || last == 3 || last == 4 || last == 5
            || last == 6 || last == 7 || last == 8 || last == 9);
    }
    assert(written.last() == digit(last));
    if value >= 10 {
        lemma_decimal_reads_back(value / 10);
        assert(written.drop_last() == decimal(value / 10));
    } else {
        assert(written.drop_last() == Seq::<char>::empty());
        assert(decimal_value(written.drop_last()) == 0);
    }
}

/// Parts put end to end hold each part in its place: after all parts before
/// it and before all parts after it.
proof fn lemma_flatten_split<A>(parts: Seq<Seq<A>>, at: int)
    requires
        0 <= at < parts.len(),
    ensures
        parts.flatten() == parts.take(at).flatten() + parts[at] + parts.skip(at + 1).flatten(),
{
    let before = parts.take(at);
    let after = parts.skip(at + 1);
    assert(parts =~= before.push(parts[at]) + after);
    lemma_flatten_concat(before.push(parts[at]), after);
    before.lemma_flatten_push(parts[at]);
}

/// The drawing goes through the grid row by row: the line of row `y` stands
/// after the lines of the rows above it and before those of the rows below,
/// which the line of the size follows.
pub proof fn lemma_rows_in_order(
    grid: PixelGridView,
    entries: Seq<CliPixelView>,
    cell_end: Seq<char>,
    y: int,
)
    requires
        0 <= y < grid.height,
    ensures
        ({
            let lines = rows(grid, entries, cell_end);
            let line = row_text(grid, entries, cell_end, y);
            image_text(grid, entries, cell_end) == lines.take(y).flatten() + line + lines.skip(
                y + 1,
            ).flatten() + size_line(grid.width, grid.height)
        }),
{
    lemma_flatten_split(rows(grid, entries, cell_end), y);
}

/// A line goes through its row from left to right: the cell of the pixel at
/// `(x, y)` stands after the cells of the pixels to its left and before
/// those of the pixels to its right, which a line feed follows.
pub proof fn lemma_cells_in_order(
    grid: PixelGridView,
    entries: Seq<CliPixelView>,
    cell_end: Seq<char>,
    x: int,
    y: int,
)
    requires
        grid.contains(x, y),
    ensures
        ({
            let cells = row_cells(grid, entries, cell_end, y);
            let cell = cell_text(entries, cell_end, grid.pixel(x, y));
            row_text(grid, entries, cell_end, y) == cells.take(x).flatten() + cell + cells.skip(
                x + 1,
            ).flatten() + seq!['\n']
        }),
{
    lemma_flatten_split(row_cells(grid, entries, cell_end, y), x);
}

/// The text of one decimal digit.
fn digit_str(value: u32) -> (text: &'static str)
    requires
        value < 10,
    ensures
        text@ == seq![digit(value as nat)],
{
    proof {
        reveal_strlit("0");
        reveal_strlit("1");
        reveal_strlit("2");
        reveal_strlit("3");
        reveal_strlit("4");
        reveal_strlit("5");
        reveal_strlit("6");
        reveal_strlit("7");
        reveal_strlit("8");
        reveal_strlit("9");
    }
    let text = if value == 0 {
        "0"
    } else if value == 1 {
        "1"
    } else if value == 2 {
        "2"
    } else if value == 3 {
        "3"
    } else if value == 4 {
        "4"
    } else if value == 5 {
        "5"
    } else if value == 6 {
        "6"
    } else if value == 7 {
        "7"
    } else if value == 8 {
        "8"
    } else {
        "9"
    };
    assert(text@ =~= seq![digit(value as nat)]);
    text
}

/// Writes a number in decimal at the end of a text.
fn push_decimal(text: &mut String, value: u32)
    ensures
        final(text)@ == old(text)@ + decimal(value as nat),
    decreases value,
{
    if value >= 10 {
        push_decimal(text, value / 10);
    }
    text.append(digit_str(value % 10));
    assert(text@ =~= old(text)@ + decimal(value as nat));
}

/// Draws an image: a line for each row, from top to bottom, and in it a cell
/// for each pixel, from left to right; then the line of the image's size.
///
/// A cell is the code of the palette entry nearest to the pixel's colour,
/// followed by `cell_end`.
pub fn render_image(image: &PixelGrid, palette: &Palette, cell_end: &str) -> (text: String)
    ensures
        text@ == image_text(image@, palette@, cell_end@),
{
    let (width, height) = image.dimensions();
    let ghost lines = rows(image@, palette@, cell_end@);
    let mut text = String::new();
    let mut y: u32 = 0;
    while y < height
        invariant
            y <= height,
            width == image@.width,
            height == image@.height,
            lines == rows(image@, palette@, cell_end@),
            text@ == lines.take(y as int).flatten(),
        decreases height - y,
    {
        let ghost cells = row_cells(image@, palette@, cell_end@, y as int);
        let ghost done = text@;
        let mut x: u32 = 0;
        while x < width
            invariant
                x <= width,
                y < height,
                width == image@.width,
                height == image@.height,
                cells == row_cells(image@, palette@, cell_end@, y as int),
                text@ == done + cells.take(x as int).flatten(),
            decreases width - x,
        {
            let code = palette.closest(&image.get_pixel(x, y));
            text.append(code.as_str());
            text.append(cell_end);
            proof {
                assert(cells.take(x + 1) =~= cells.take(x as int).push(cells[x as int]));
                cells.take(x as int).lemma_flatten_push(cells[x as int]);
            }
            x += 1;
        }
        proof {
            reveal_strlit("\n");
        }
        text.append("\n");
        proof {
            assert(cells.take(width as int) == cells);
            assert(lines.take(y + 1) =~= lines.take(y as int).push(lines[y as int]));
            lines.take(y as int).lemma_flatten_push(lines[y as int]);
        }
        y += 1;
    }
    proof {
        assert(lines.take(height as int) == lines);
        reveal_strlit(", ");
        reveal_strlit("\n");
    }
    push_decimal(&mut text, width);
    text.append(", ");
    push_decimal(&mut text, height);
    text.append("\n");
    text
}

} // verus!
