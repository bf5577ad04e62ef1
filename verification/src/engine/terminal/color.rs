use vstd::prelude::*;
use vstd::string::StringExecFns;
use crate::engine::storage;

verus! {

broadcast use vstd::string::group_string_axioms;

/// The char of decimal digit `d`.
pub open spec fn digit_char(d: nat) -> char {
    (48 + d) as char
}

/// The decimal digits of `n`, most significant first, without leading zeros.
pub open spec fn decimal(n: nat) -> Seq<char>
    decreases n,
{
    if n < 10 {
        seq![digit_char(n)]
    } else {
        decimal(n / 10).push(digit_char(n % 10))
    }
}

/// The number that a string of decimal digits spells, most significant
/// digit first.
pub open spec fn decimal_value(s: Seq<char>) -> int
    decreases s.len(),
{
    if s.len() == 0 {
        0
    } else {
        10 * decimal_value(s.drop_last()) + (s.last() as u32 - 48)
    }
}

/// The decimal text of `n` is a nonempty string of the digits `0` to `9`
/// that spells `n` back, with no leading zero unless `n` is zero.
pub proof fn lemma_decimal_spells(n: nat)
    ensures
        decimal(n).len() >= 1,
        forall|i: int| 0 <= i < decimal(n).len() ==> 48 <= #[trigger] decimal(n)[i] as u32 <= 57,
        decimal_value(decimal(n)) == n,
        decimal(n)[0] == '0' ==> n == 0,
    decreases n,
{
    if n >= 10 {
        lemma_decimal_spells(n / 10);
        let d = decimal(n);
        assert(d.drop_last() =~= decimal(n / 10));
        assert(d.last() == digit_char(n % 10));
        assert forall|i: int| 0 <= i < d.len() implies 48 <= #[trigger] d[i] as u32 <= 57 by {
            if i < d.len() - 1 {
                assert(d[i] == decimal(n / 10)[i]);
            }
        }
        assert(d[0] == decimal(n / 10)[0]);
        assert(digit_char(n % 10) as u32 == 48 + n % 10);
        assert(decimal_value(d) == 10 * decimal_value(decimal(n / 10)) + (n % 10));
    } else {
        let d = decimal(n);
        assert(digit_char(n) as u32 == 48 + n);
        assert(d.drop_last() =~= Seq::<char>::empty());
        assert(decimal_value(d) == 10 * decimal_value(d.drop_last()) + n);
    }
}

/// The text of decimal digit `d`.
fn digit_text(d: usize) -> (s: &'static str)
    requires
        d < 10,
    ensures
        s@ == seq![digit_char(d as nat)],
{
    proof {
        reveal_strlit("0");
        reveal_strlit("1");
        reveal_strlit("2");
        reveal_strlit("3");
        reveal_strlit("4");
        reveal_strlit("5");
        reveal_strlit("6");
        reveal_strlit("7");
        reveal_strlit("8");
        reveal_strlit("9");
    }
    match d {
        0 => "0",
        1 => "1",
        2 => "2",
        3 => "3",
        4 => "4",
        5 => "5",
        6 => "6",
        7 => "7",
        8 => "8",
        _ => "9",
    }
}

/// Appends the decimal digits of `n`.
fn append_decimal(buffer: &mut String, n: usize)
    ensures
        final(buffer)@ == old(buffer)@ + decimal(n as nat),
    decreases n,
{
    if n >= 10 {
        append_decimal(buffer, n / 10);
    }
    buffer.append(digit_text(n % 10));
    assert(buffer@ =~= old(buffer)@ + decimal(n as nat));
}

/// The decimal text of `n`.
fn decimal_string(n: usize) -> (s: String)
    ensures
        s@ == decimal(n as nat),
{
    let mut s = String::new();
    append_decimal(&mut s, n);
    assert(s@ =~= decimal(n as nat));
    s
}

/// `ESC [ 48 ; 2 ;`: the start of a 24-bit background color.
pub open spec fn background_prefix() -> Seq<char> {
    seq!['\u{1b}', '[', '4', '8', ';', '2', ';']
}

/// `ESC [ 38 ; 2 ;`: the start of a 24-bit foreground color.
pub open spec fn foreground_prefix() -> Seq<char> {
    seq!['\u{1b}', '[', '3', '8', ';', '2', ';']
}

/// `r;g;b` in decimal.
pub open spec fn rgb_text(c: (u8, u8, u8)) -> Seq<char> {
    decimal(c.0 as nat) + seq![';'] + decimal(c.1 as nat) + seq![';'] + decimal(c.2 as nat)
}

/// The escape text of one terminal cell: background `bg`, foreground `fg`,
/// and the lower half block, so that the cell shows two pixels stacked.
pub open spec fn pixel_escape(bg: (u8, u8, u8), fg: (u8, u8, u8)) -> Seq<char> {
    background_prefix() + rgb_text(bg) + seq!['m'] + foreground_prefix() + rgb_text(fg) + seq![
        'm',
        '\u{2584}',
    ]
}

/// Output row `row` of an image `width` by `height` pixels (`pixels` row
/// major), `count` cells wide: cell `x` shows pixel `(x, 2 row)` over pixel
/// `(x, 2 row + 1)`, coordinates wrapping around the image.
pub open spec fn color_row(
    pixels: Seq<(u8, u8, u8)>,
    width: nat,
    height: nat,
    row: int,
    count: nat,
) -> Seq<char>
    decreases count,
{
    if count == 0 {
        Seq::empty()
    } else {
        let x = count - 1;
        color_row(pixels, width, height, row, (count - 1) as nat) + pixel_escape(
            pixels[storage::wrapped_cell(width, height, x, 2 * row)],
            pixels[storage::wrapped_cell(width, height, x, 2 * row + 1)],
        )
    }
}

/// A frame of `rows` output rows of `cols` cells each, top row first.
pub open spec fn color_frame(
    pixels: Seq<(u8, u8, u8)>,
    width: nat,
    height: nat,
    cols: nat,
    rows: nat,
) -> Seq<char>
    decreases rows,
{
    if rows == 0 {
        Seq::empty()
    } else {
        color_frame(pixels, width, height, cols, (rows - 1) as nat) + color_row(
            pixels,
            width,
            height,
            rows - 1,
            cols,
        )
    }
}

/// Output to a terminal in 24-bit color, two pixels per cell.
pub struct ColorTerminal {
    width: usize,
    height: usize,
    numeric_cache: Vec<String>,
}

impl ColorTerminal {
    /// The cache holds the decimal text of every byte value.
    #[verifier::type_invariant]
    spec fn cache_holds_decimals(&self) -> bool {
        &&& self.numeric_cache@.len() == 256
        &&& forall|i: int| 0 <= i < 256 ==> (#[trigger] self.numeric_cache@[i])@ == decimal(i as nat)
    }

    pub closed spec fn spec_width(&self) -> nat {
        self.width as nat
    }

    pub closed spec fn spec_height(&self) -> nat {
        self.height as nat
    }

    /// A terminal of `cols` by `rows` cells.
    pub fn with_size(cols: usize, rows: usize) -> (r: Self)
        ensures
            r.spec_width() == cols,
            r.spec_height() == rows,
    {
        let mut numeric_cache: Vec<String> = Vec::new();
        let mut i: usize = 0;
        while i < 256
            invariant
                i <= 256,
                numeric_cache@.len() == i,
                forall|k: int| 0 <= k < i ==> (#[trigger] numeric_cache@[k])@ == decimal(k as nat),
            decreases 256 - i,
        {
            numeric_cache.push(decimal_string(i));
            i = i + 1;
        }
        ColorTerminal { width: cols, height: rows, numeric_cache }
    }

    pub fn width(&self) -> (r: usize)
        ensures
            r == self.spec_width(),
    {
        self.width
    }

    pub fn height(&self) -> (r: usize)
        ensures
            r == self.spec_height(),
    {
        self.height
    }

    /// Appends `r;g;b` in decimal.
    fn write_rgb(&self, buffer: &mut String, c: (u8, u8, u8))
        ensures
            final(buffer)@ == old(buffer)@ + rgb_text(c),
    {
        proof {
            use_type_invariant(self);
            reveal_strlit(";");
        }
        buffer.append(self.numeric_cache[c.0 as usize].as_str());
        buffer.append(";");
        buffer.append(self.numeric_cache[c.1 as usize].as_str());
        buffer.append(";");
        buffer.append(self.numeric_cache[c.2 as usize].as_str());
        assert(buffer@ =~= old(buffer)@ + rgb_text(c));
    }

    /// Appends one cell: background `color_bg`, foreground `color_fg`, and
    /// the lower half block.
    pub fn write_pixel(&self, buffer: &mut String, color_bg: (u8, u8, u8), color_fg: (u8, u8, u8))
        ensures
            final(buffer)@ == old(buffer)@ + pixel_escape(color_bg, color_fg),
    {
        proof {
            reveal_strlit("\x1b[48;2;");
            reveal_strlit("\x1b[38;2;");
            reveal_strlit("m");
            reveal_strlit("\u{2584}");
        }
        buffer.append("\x1b[48;2;");
        self.write_rgb(buffer, color_bg);
        buffer.append("m");
        buffer.append("\x1b[38;2;");
        self.write_rgb(buffer, color_fg);
        buffer.append("m");
        buffer.append("\u{2584}");
        assert(buffer@ =~= old(buffer)@ + pixel_escape(color_bg, color_fg));
    }

    /// Appends output row `row` of the image: `cols` cells, each the pixel
    /// of row `2 row` over the pixel of row `2 row + 1`, wrapping around.
    fn write_row(
        &self,
        buffer: &mut String,
        pixels: &Vec<(u8, u8, u8)>,
        width: usize,
        height: usize,
        row: usize,
        cols: usize,
    )
        requires
            width > 0,
            height > 0,
            pixels@.len() == width * height,
            2 * row + 1 <= usize::MAX,
        ensures
            final(buffer)@ == old(buffer)@ + color_row(pixels@, width as nat, height as nat, row as int, cols as nat),
    {
        let top_y: usize = 2 * row;
        let bottom_y: usize = 2 * row + 1;
        let cells: usize = pixels.len();
        let mut x: usize = 0;
        while x < cols
            invariant
                x <= cols,
                width > 0,
                height > 0,
                pixels@.len() == width * height,
                cells == width * height,
                top_y == 2 * row,
                bottom_y == 2 * row + 1,
                buffer@ == old(buffer)@ + color_row(pixels@, width as nat, height as nat, row as int, x as nat),
            decreases cols - x,
        {
            let top = pixels[storage::wrapped_index(width, height, x, top_y)];
            let bottom = pixels[storage::wrapped_index(width, height, x, bottom_y)];
            self.write_pixel(buffer, top, bottom);
            x = x + 1;
            assert(buffer@ =~= old(buffer)@ + color_row(pixels@, width as nat, height as nat, row as int, x as nat));
        }
    }

    /// Output row `row` of an image `width` by `height` pixels held row major
    /// in `pixels`, `cols` cells wide.
    pub fn row(&self, pixels: &Vec<(u8, u8, u8)>, width: usize, height: usize, row: usize, cols: usize) -> (s: String)
        requires
            width > 0,
            height > 0,
            pixels@.len() == width * height,
            2 * row + 1 <= usize::MAX,
        ensures
            s@ == color_row(pixels@, width as nat, height as nat, row as int, cols as nat),
            s@ == Seq::new(cols as nat, |x: int| color_cell(pixels@, width as nat, height as nat, row as int, x)).flatten(),
    {
        let mut s = String::new();
        self.write_row(&mut s, pixels, width, height, row, cols);
        assert(s@ =~= color_row(pixels@, width as nat, height as nat, row as int, cols as nat));
        proof {
            lemma_color_row_cells(pixels@, width as nat, height as nat, row as int, cols as nat);
        }
        s
    }

    /// The whole frame for an image `width` by `height` pixels held row major
    /// in `pixels`: `rows` output rows of `cols` cells, top row first.
    pub fn frame(&self, pixels: &Vec<(u8, u8, u8)>, width: usize, height: usize, cols: usize, rows: usize) -> (s: String)
        requires
            width > 0,
            height > 0,
            pixels@.len() == width * height,
            2 * rows <= usize::MAX,
        ensures
            s@ == color_frame(pixels@, width as nat, height as nat, cols as nat, rows as nat),
            s@ == Seq::new(
                rows as nat,
                |y: int| Seq::new(cols as nat, |x: int| color_cell(pixels@, width as nat, height as nat, y, x)).flatten(),
            ).flatten(),
    {
        let mut s = String::new();
        let mut y: usize = 0;
        while y < rows
            invariant
                y <= rows,
                width > 0,
                height > 0,
                pixels@.len() == width * height,
                2 * rows <= usize::MAX,
                s@ == color_frame(pixels@, width as nat, height as nat, cols as nat, y as nat),
            decreases rows - y,
        {
            self.write_row(&mut s, pixels, width, height, y, cols);
            y = y + 1;
        }
        proof {
            lemma_color_frame_cells(pixels@, width as nat, height as nat, cols as nat, rows as nat);
        }
        s
    }
}

/// The text of output cell `x` of row `row`: image pixel `(x mod width,
/// 2 row mod height)` over `(x mod width, (2 row + 1) mod height)`, each
/// found by its row-major index.
pub open spec fn color_cell(pixels: Seq<(u8, u8, u8)>, width: nat, height: nat, row: int, x: int) -> Seq<char> {
    pixel_escape(
        pixels[((2 * row) % (height as int)) * width + x % (width as int)],
        pixels[((2 * row + 1) % (height as int)) * width + x % (width as int)],
    )
}

/// An output row is its `count` cells, left to right, one after another.
pub proof fn lemma_color_row_cells(pixels: Seq<(u8, u8, u8)>, width: nat, height: nat, row: int, count: nat)
    ensures
        color_row(pixels, width, height, row, count) == Seq::new(
            count,
            |x: int| color_cell(pixels, width, height, row, x),
        ).flatten(),
    decreases count,
{
    let f = |x: int| color_cell(pixels, width, height, row, x);
    if count == 0 {
        assert(Seq::new(count, f) =~= Seq::<Seq<char>>::empty());
    } else {
        let c1 = (count - 1) as nat;
        lemma_color_row_cells(pixels, width, height, row, c1);
        assert(Seq::new(count, f) =~= Seq::new(c1, f).push(f(c1 as int)));
        Seq::new(c1, f).lemma_flatten_push(f(c1 as int));
    }
}

/// A frame is its `rows` output rows, top first, each its `cols` cells left
/// to right, one after another.
pub proof fn lemma_color_frame_cells(pixels: Seq<(u8, u8, u8)>, width: nat, height: nat, cols: nat, rows: nat)
    ensures
        color_frame(pixels, width, height, cols, rows) == Seq::new(
            rows,
            |y: int| Seq::new(cols, |x: int| color_cell(pixels, width, height, y, x)).flatten(),
        ).flatten(),
    decreases rows,
{
    let g = |y: int| Seq::new(cols, |x: int| color_cell(pixels, width, height, y, x)).flatten();
    if rows == 0 {
        assert(Seq::new(rows, g) =~= Seq::<Seq<char>>::empty());
    } else {
        let r1 = (rows - 1) as nat;
        lemma_color_frame_cells(pixels, width, height, cols, r1);
        lemma_color_row_cells(pixels, width, height, r1 as int, cols);
        assert(Seq::new(rows, g) =~= Seq::new(r1, g).push(g(r1 as int)));
        Seq::new(r1, g).lemma_flatten_push(g(r1 as int));
    }
}

} // verus!