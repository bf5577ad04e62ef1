use vstd::prelude::*;
use crate::engine::storage;

verus! {

/// The shading ramp, darkest first.
pub open spec fn ascii_gradient() -> Seq<char> {
    seq![' ', '.', ':', ';', '+', '=', 'x', 'X', '$', '#', '&']
}

/// Output row `row` of a shade image `width` by `height` pixels (`shades`
/// row major, each an index into `gradient`), `count` chars wide: char `x` is
/// the shade of pixel `(x, row)`, coordinates wrapping around the image.
pub open spec fn ascii_row(
    gradient: Seq<char>,
    shades: Seq<usize>,
    width: nat,
    height: nat,
    row: int,
    count: nat,
) -> Seq<char>
    decreases count,
{
    if count == 0 {
        Seq::empty()
    } else {
        ascii_row(gradient, shades, width, height, row, (count - 1) as nat).push(
            gradient[shades[storage::wrapped_cell(width, height, count - 1, row)] as int],
        )
    }
}

/// A frame of `rows` output rows of `cols` chars each, top row first.
pub open spec fn ascii_frame(
    gradient: Seq<char>,
    shades: Seq<usize>,
    width: nat,
    height: nat,
    cols: nat,
    rows: nat,
) -> Seq<char>
    decreases rows,
{
    if rows == 0 {
        Seq::empty()
    } else {
        ascii_frame(gradient, shades, width, height, cols, (rows - 1) as nat) + ascii_row(
            gradient,
            shades,
            width,
            height,
            rows - 1,
            cols,
        )
    }
}

/// Output to a terminal as ASCII art: one char per pixel, picked from a
/// shading ramp by brightness.
pub struct AsciiTerminal {
    width: usize,
    height: usize,
    gradient: Vec<char>,
}

impl AsciiTerminal {
    pub closed spec fn spec_width(&self) -> nat {
        self.width as nat
    }

    pub closed spec fn spec_height(&self) -> nat {
        self.height as nat
    }

    /// The shading ramp.
    pub closed spec fn spec_gradient(&self) -> Seq<char> {
        self.gradient@
    }

    /// A terminal of `cols` by `rows` cells with the ramp `" .:;+=xX$#&"`.
    pub fn with_size(cols: usize, rows: usize) -> (r: Self)
        ensures
            r.spec_width() == cols,
            r.spec_height() == rows,
            r.spec_gradient() == ascii_gradient(),
    {
        let mut gradient: Vec<char> = Vec::new();
        gradient.push(' ');
        gradient.push('.');
        gradient.push(':');
        gradient.push(';');
        gradient.push('+');
        gradient.push('=');
        gradient.push('x');
        gradient.push('X');
        gradient.push('$');
        gradient.push('#');
        gradient.push('&');
        assert(gradient@ =~= ascii_gradient());
        AsciiTerminal { width: cols, height: rows, gradient }
    }

    /// The size the terminal was created with.
    pub fn width(&self) -> (r: usize)
        ensures
            r == self.spec_width(),
    {
        self.width
    }

    pub fn height(&self) -> (r: usize)
        ensures
            r == self.spec_height(),
    {
        self.height
    }

    /// The number of shades in the ramp.
    pub fn gradient_len(&self) -> (r: usize)
        ensures
            r == self.spec_gradient().len(),
    {
        self.gradient.len()
    }

    /// The char of shade `index`.
    pub fn glyph(&self, index: usize) -> (r: char)
        requires
            index < self.spec_gradient().len(),
        ensures
            r == self.spec_gradient()[index as int],
    {
        self.gradient[index]
    }

    /// Whether every shade of `shades` is a shade of the ramp.
    pub open spec fn shades_in_ramp(&self, shades: Seq<usize>) -> bool {
        forall|i: int| 0 <= i < shades.len() ==> #[trigger] shades[i] < self.spec_gradient().len()
    }

    /// Appends the chars of output row `row`.
    fn push_row(
        &self,
        out: &mut Vec<char>,
        shades: &Vec<usize>,
        width: usize,
        height: usize,
        row: usize,
        cols: usize,
    )
        requires
            width > 0,
            height > 0,
            shades@.len() == width * height,
            self.shades_in_ramp(shades@),
        ensures
            final(out)@ == old(out)@ + ascii_row(
                self.spec_gradient(),
                shades@,
                width as nat,
                height as nat,
                row as int,
                cols as nat,
            ),
    {
        let cells: usize = shades.len();
        let mut x: usize = 0;
        while x < cols
            invariant
                x <= cols,
                width > 0,
                height > 0,
                shades@.len() == width * height,
                cells == width * height,
                self.shades_in_ramp(shades@),
                out@ == old(out)@ + ascii_row(
                    self.spec_gradient(),
                    shades@,
                    width as nat,
                    height as nat,
                    row as int,
                    x as nat,
                ),
            decreases cols - x,
        {
            let shade = shades[storage::wrapped_index(width, height, x, row)];
            out.push(self.glyph(shade));
            x = x + 1;
            assert(out@ =~= old(out)@ + ascii_row(
                self.spec_gradient(),
                shades@,
                width as nat,
                height as nat,
                row as int,
                x as nat,
            ));
        }
    }

    /// Output row `row` for a shade image `width` by `height` pixels held row
    /// major in `shades`: `cols` chars of the ramp.
    pub fn row(&self, shades: &Vec<usize>, width: usize, height: usize, row: usize, cols: usize) -> (s: String)
        requires
            width > 0,
            height > 0,
            shades@.len() == width * height,
            self.shades_in_ramp(shades@),
        ensures
            s@ == ascii_row(self.spec_gradient(), shades@, width as nat, height as nat, row as int, cols as nat),
            s@.len() == cols,
            forall|x: int|
                0 <= x < cols ==> #[trigger] s@[x] == self.spec_gradient()[shades@[(row as int % height as int)
                    * width + x % width as int] as int],
    {
        let mut out: Vec<char> = Vec::new();
        self.push_row(&mut out, shades, width, height, row, cols);
        assert(out@ =~= ascii_row(self.spec_gradient(), shades@, width as nat, height as nat, row as int, cols as nat));
        proof {
            lemma_ascii_row_chars(self.spec_gradient(), shades@, width as nat, height as nat, row as int, cols as nat);
        }
        storage::string_from_chars(out.as_slice())
    }

    /// The whole frame for a shade image `width` by `height` pixels held row
    /// major in `shades`: `rows` rows of `cols` chars, top row first.
    pub fn frame(&self, shades: &Vec<usize>, width: usize, height: usize, cols: usize, rows: usize) -> (s: String)
        requires
            width > 0,
            height > 0,
            shades@.len() == width * height,
            self.shades_in_ramp(shades@),
        ensures
            s@ == ascii_frame(self.spec_gradient(), shades@, width as nat, height as nat, cols as nat, rows as nat),
            s@.len() == rows * cols,
            forall|y: int, x: int|
                0 <= y < rows && 0 <= x < cols ==> #[trigger] s@[storage::cell_index(cols as nat, x, y)]
                    == self.spec_gradient()[shades@[(y % height as int) * width + x % width as int] as int],
    {
        let mut out: Vec<char> = Vec::new();
        let mut y: usize = 0;
        while y < rows
            invariant
                y <= rows,
                width > 0,
                height > 0,
                shades@.len() == width * height,
                self.shades_in_ramp(shades@),
                out@ == ascii_frame(self.spec_gradient(), shades@, width as nat, height as nat, cols as nat, y as nat),
            decreases rows - y,
        {
            self.push_row(&mut out, shades, width, height, y, cols);
            y = y + 1;
        }
        proof {
            lemma_ascii_frame_chars(self.spec_gradient(), shades@, width as nat, height as nat, cols as nat, rows as nat);
        }
        storage::string_from_chars(out.as_slice())
    }
}

/// Char `x` of output row `row` is the ramp char of the shade at image pixel
/// `(x mod width, row mod height)`, found by its row-major index; the row has
/// exactly `count` chars.
pub proof fn lemma_ascii_row_chars(
    gradient: Seq<char>,
    shades: Seq<usize>,
    width: nat,
    height: nat,
    row: int,
    count: nat,
)
    ensures
        ascii_row(gradient, shades, width, height, row, count).len() == count,
        forall|x: int|
            0 <= x < count ==> #[trigger] ascii_row(gradient, shades, width, height, row, count)[x]
                == gradient[shades[(row % (height as int)) * width + x % (width as int)] as int],
    decreases count,
{
    if count > 0 {
        lemma_ascii_row_chars(gradient, shades, width, height, row, (count - 1) as nat);
    }
}

/// The frame is its rows one after another: char `x` of row `y` stands at
/// `y * cols + x` and is the ramp char of the shade at image pixel
/// `(x mod width, y mod height)`; the frame has exactly `rows * cols` chars.
pub proof fn lemma_ascii_frame_chars(
    gradient: Seq<char>,
    shades: Seq<usize>,
    width: nat,
    height: nat,
    cols: nat,
    rows: nat,
)
    ensures
        ascii_frame(gradient, shades, width, height, cols, rows).len() == rows * cols,
        forall|y: int, x: int|
            0 <= y < rows && 0 <= x < cols ==> #[trigger] ascii_frame(gradient, shades, width, height, cols, rows)[storage::cell_index(cols, x, y)]
                == gradient[shades[(y % (height as int)) * width + x % (width as int)] as int],
    decreases rows,
{
    if rows > 0 {
        let r1 = (rows - 1) as nat;
        lemma_ascii_frame_chars(gradient, shades, width, height, cols, r1);
        lemma_ascii_row_chars(gradient, shades, width, height, r1 as int, cols);
        let prev = ascii_frame(gradient, shades, width, height, cols, r1);
        let last = ascii_row(gradient, shades, width, height, r1 as int, cols);
        let f = ascii_frame(gradient, shades, width, height, cols, rows);
        assert(f == prev + last);
        assert(r1 * cols + cols == rows * cols) by (nonlinear_arith)
            requires r1 + 1 == rows;
        assert forall|y: int, x: int| 0 <= y < rows && 0 <= x < cols implies #[trigger] f[storage::cell_index(cols, x, y)]
            == gradient[shades[(y % (height as int)) * width + x % (width as int)] as int] by {
            if y < r1 {
                assert(y * cols + x < r1 * cols) by (nonlinear_arith)
                    requires 0 <= y < r1, 0 <= x < cols;
                assert(0 <= y * cols) by (nonlinear_arith)
                    requires 0 <= y, 0 <= cols;
                assert(f[storage::cell_index(cols, x, y)] == prev[storage::cell_index(cols, x, y)]);
            } else {
                assert(y == r1);
                assert(f[storage::cell_index(cols, x, y)] == last[x]);
            }
        }
    } else {
        assert(rows * cols == 0) by (nonlinear_arith)
            requires rows == 0;
    }
}

} // verus!