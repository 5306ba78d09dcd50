//! The executable display driver: colours, character cells, the grid of
//! volatile cells, and the cursor-tracking writer.

use vstd::prelude::*;

use crate::screen::advanced;
use crate::screen::blank_row;
use crate::screen::blank_screen;
use crate::screen::cell_val;
use crate::screen::printed;
use crate::screen::sanitized;
use crate::screen::written_byte;
use crate::screen::written_bytes;
use crate::screen::written_string;
use crate::screen::ScreenState;
use crate::screen::BLANK;
use crate::screen::BUFFER_HEIGHT;
use crate::screen::BUFFER_WIDTH;
use crate::screen::NEWLINE;
use crate::screen::PLACEHOLDER;
use vstd::string::StringSliceAdditionalSpecFns;
use vstd::utf8::encode_utf8;

verus! {

/// The colour of a character: one of the 16 colours of the 4-bit palette.
#[allow(dead_code)]
#[derive(Debug, Clone, Copy, PartialEq, Eq, Structural)]
pub enum Color {
    Black,
    Blue,
    Green,
    Cyan,
    Red,
    Magenta,
    Brown,
    LightGray,
    DarkGray,
    LightBlue,
    LightGreen,
    LightCyan,
    LightRed,
    Pink,
    Yellow,
    White,
}

impl Color {
    /// The fixed 4-bit palette code of this colour.
    pub open spec fn spec_code(self) -> u8 {
        match self {
            Color::Black => 0x0,
            Color::Blue => 0x1,
            Color::Green => 0x2,
            Color::Cyan => 0x3,
            Color::Red => 0x4,
            Color::Magenta => 0x5,
            Color::Brown => 0x6,
            Color::LightGray => 0x7,
            Color::DarkGray => 0x8,
            Color::LightBlue => 0x9,
            Color::LightGreen => 0xa,
            Color::LightCyan => 0xb,
            Color::LightRed => 0xc,
            Color::Pink => 0xd,
            Color::Yellow => 0xe,
            Color::White => 0xf,
        }
    }

    /// The fixed 4-bit palette code of this colour.
    #[verifier::when_used_as_spec(spec_code)]
    pub fn code(self) -> (c: u8)
        ensures
            c == self.spec_code(),
            c < 0x10,
    {
        match self {
            Color::Black => 0x0,
            Color::Blue => 0x1,
            Color::Green => 0x2,
            Color::Cyan => 0x3,
            Color::Red => 0x4,
            Color::Magenta => 0x5,
            Color::Brown => 0x6,
            Color::LightGray => 0x7,
            Color::DarkGray => 0x8,
            Color::LightBlue => 0x9,
            Color::LightGreen => 0xa,
            Color::LightCyan => 0xb,
            Color::LightRed => 0xc,
            Color::Pink => 0xd,
            Color::Yellow => 0xe,
            Color::White => 0xf,
        }
    }
}

/// The colour code of a character cell: the 4-bit background code in the
/// high half of the byte, the 4-bit foreground code in the low half.
#[derive(Debug, Clone, Copy, PartialEq, Eq, Structural)]
pub struct ColorCode(pub u8);

impl ColorCode {
    /// Packs a foreground and a background colour into one byte. Total over
    /// all 256 combinations; only valid codes are representable.
    pub fn new(foreground: Color, background: Color) -> (r: ColorCode)
        ensures
            r.0 == background.spec_code() * 0x10 + foreground.spec_code(),
    {
        let fg = foreground.code();
        let bg = background.code();
        proof {
            assert(bg << 4 | fg == bg * 0x10 + fg) by (bit_vector)
                requires
                    fg < 0x10 && bg < 0x10,
            ;
        }
        ColorCode(bg << 4 | fg)
    }
}

/// A character cell as the driver renders it: one display byte and the
/// colour code it is shown in.
#[derive(Debug, Clone, Copy, PartialEq, Eq, Structural)]
pub struct ScreenChar {
    pub ascii_character: u8,
    pub color_code: ColorCode,
}

impl ScreenChar {
    /// The 16-bit cell value this character occupies in the grid.
    pub open spec fn spec_cell(self) -> u16 {
        cell_val(self.ascii_character, self.color_code.0)
    }
}

/// The 16-bit value a character cell holds: the character byte in the low
/// half, the colour byte in the high half.
fn encode_cell(character: u8, color: ColorCode) -> (v: u16)
    ensures
        v == cell_val(character, color.0),
{
    (character as u16) + (color.0 as u16) * 0x100
}

/// The volatile cell wrapper of the `volatile` crate, which the grid below
/// stores its cells in so that no cell access can be reordered, merged or
/// optimized away.
#[verifier::external_type_specification]
#[verifier::external_body]
#[verifier::reject_recursive_types(T)]
pub struct ExVolatile<T: Copy>(volatile::Volatile<T>);

/// The value a volatile cell currently holds.
pub uninterp spec fn vol_value(v: volatile::Volatile<u16>) -> u16;

/// Relies on volatile::Volatile::new: wraps the given value; never panics.
#[verifier::external_body]
fn vol_new(value: u16) -> (v: volatile::Volatile<u16>)
    ensures
        vol_value(v) == value,
{
    volatile::Volatile::new(value)
}

/// Relies on volatile::Volatile::read: a volatile load of the held value,
/// returned as a copy; never panics.
#[verifier::external_body]
fn vol_read(v: &volatile::Volatile<u16>) -> (r: u16)
    ensures
        r == vol_value(*v),
{
    v.read()
}

/// Relies on volatile::Volatile::write: a volatile store of the given
/// value into the cell; never panics.
#[verifier::external_body]
fn vol_write(v: &mut volatile::Volatile<u16>, value: u16)
    ensures
        vol_value(*final(v)) == value,
{
    v.write(value)
}

/// The text grid: `BUFFER_HEIGHT` rows of `BUFFER_WIDTH` cells, every one
/// behind the volatile access primitive.
pub struct Buffer {
    chars: Vec<Vec<volatile::Volatile<u16>>>,
}

impl View for Buffer {
    type V = Seq<Seq<u16>>;

    closed spec fn view(&self) -> Seq<Seq<u16>> {
        self.chars@.map_values(
            |row: Vec<volatile::Volatile<u16>>|
                row@.map_values(|c: volatile::Volatile<u16>| vol_value(c)),
        )
    }
}

impl Buffer {
    /// The grid has exactly `BUFFER_HEIGHT` rows of `BUFFER_WIDTH` cells.
    pub closed spec fn wf(&self) -> bool {
        &&& self.chars@.len() == BUFFER_HEIGHT
        &&& forall|r: int|
            0 <= r < BUFFER_HEIGHT ==> (#[trigger] self.chars@[r])@.len() == BUFFER_WIDTH
    }

    /// A sound grid looks like `BUFFER_HEIGHT` rows of `BUFFER_WIDTH` cells.
    pub proof fn lemma_view_shape(&self)
        requires
            self.wf(),
        ensures
            self@.len() == BUFFER_HEIGHT,
            forall|r: int| 0 <= r < BUFFER_HEIGHT ==> (#[trigger] self@[r]).len() == BUFFER_WIDTH,
    {
    }

    /// A fresh grid, every cell blank in the given colour.
    fn new(color: ColorCode) -> (b: Buffer)
        ensures
            b.wf(),
            b@ == blank_screen(color.0),
    {
        let blank = encode_cell(BLANK, color);
        let mut chars: Vec<Vec<volatile::Volatile<u16>>> = Vec::new();
        let mut r: usize = 0;
        while r < BUFFER_HEIGHT
            invariant
                r <= BUFFER_HEIGHT,
                chars@.len() == r,
                blank == cell_val(BLANK, color.0),
                forall|i: int|
                    0 <= i < r ==> (#[trigger] chars@[i])@.map_values(
                        |c: volatile::Volatile<u16>| vol_value(c),
                    ) == blank_row(color.0),
            decreases BUFFER_HEIGHT - r,
        {
            let mut row: Vec<volatile::Volatile<u16>> = Vec::new();
            let mut c: usize = 0;
            while c < BUFFER_WIDTH
                invariant
                    c <= BUFFER_WIDTH,
                    row@.len() == c,
                    blank == cell_val(BLANK, color.0),
                    forall|j: int|
                        0 <= j < c ==> vol_value(#[trigger] row@[j]) == cell_val(BLANK, color.0),
                decreases BUFFER_WIDTH - c,
            {
                row.push(vol_new(blank));
                c = c + 1;
            }
            proof {
                assert(row@.map_values(|cl: volatile::Volatile<u16>| vol_value(cl)) =~= blank_row(
                    color.0,
                ));
            }
            chars.push(row);
            r = r + 1;
        }
        let b = Buffer { chars };
        proof {
            assert(b@ =~~= blank_screen(color.0));
        }
        b
    }

    /// Reads one cell through the volatile primitive.
    fn read_cell(&self, row: usize, col: usize) -> (r: u16)
        requires
            self.wf(),
            row < BUFFER_HEIGHT,
            col < BUFFER_WIDTH,
        ensures
            r == self@[row as int][col as int],
    {
        vol_read(&self.chars[row][col])
    }

    /// Writes one cell through the volatile primitive.
    fn write_cell(&mut self, row: usize, col: usize, value: u16)
        requires
            old(self).wf(),
            row < BUFFER_HEIGHT,
            col < BUFFER_WIDTH,
        ensures
            final(self).wf(),
            final(self)@ == old(self)@.update(
                row as int,
                old(self)@[row as int].update(col as int, value),
            ),
    {
        let cell = &mut self.chars[row][col];
        vol_write(cell, value);
        proof {
            assert(self@ =~~= old(self)@.update(
                row as int,
                old(self)@[row as int].update(col as int, value),
            ));
        }
    }
}

/// A safe abstraction for writing to the grid: tracks the cursor column on
/// the bottom row and the active colour, scrolls on newline and on overflow.
pub struct Writer {
    /// The current position in the bottom row.
    column_position: usize,
    /// The current background and foreground colour.
    color_code: ColorCode,
    /// The grid itself.
    buffer: Buffer,
}

impl View for Writer {
    type V = ScreenState;

    closed spec fn view(&self) -> ScreenState {
        ScreenState {
            col: self.column_position as int,
            color: self.color_code.0,
            screen: self.buffer@,
        }
    }
}

impl Writer {
    /// The writer's invariant: a sound grid, and a cursor at most one place
    /// past the last column.
    pub closed spec fn wf(&self) -> bool {
        &&& self.buffer.wf()
        &&& self.column_position <= BUFFER_WIDTH
    }

    /// A sound writer is sound in the abstract too.
    pub proof fn lemma_wf_state(&self)
        requires
            self.wf(),
        ensures
            crate::screen::state_wf(self@),
    {
        self.buffer.lemma_view_shape();
    }

    /// A fresh writer: cursor at column 0, the given colours active, and
    /// every cell blank in those colours.
    pub fn new(foreground: Color, background: Color) -> (w: Writer)
        ensures
            w.wf(),
            w@.col == 0,
            w@.color == background.spec_code() * 0x10 + foreground.spec_code(),
            w@.screen == blank_screen(w@.color),
    {
        let color_code = ColorCode::new(foreground, background);
        Writer { column_position: 0, color_code, buffer: Buffer::new(color_code) }
    }

    /// The current cursor column.
    pub fn column_position(&self) -> (c: usize)
        ensures
            c == self@.col,
    {
        self.column_position
    }

    /// The currently active colour code.
    pub fn color_code(&self) -> (c: ColorCode)
        ensures
            c.0 == self@.color,
    {
        self.color_code
    }

    /// The character and colour shown at the given cell.
    pub fn char_at(&self, row: usize, col: usize) -> (r: ScreenChar)
        requires
            self.wf(),
            row < BUFFER_HEIGHT,
            col < BUFFER_WIDTH,
        ensures
            r.spec_cell() == self@.screen[row as int][col as int],
    {
        proof {
            self.buffer.lemma_view_shape();
        }
        let v = self.buffer.read_cell(row, col);
        let character = (v % 0x100) as u8;
        let color = (v / 0x100) as u8;
        proof {
            vstd::arithmetic::div_mod::lemma_fundamental_div_mod(v as int, 0x100);
        }
        ScreenChar { ascii_character: character, color_code: ColorCode(color) }
    }

    /// Writes one byte: a newline advances the line; any other byte is
    /// placed at the cursor in the current colour, after a line advance if
    /// the row is already full.
    pub fn write_byte(&mut self, byte: u8)
        requires
            old(self).wf(),
        ensures
            final(self).wf(),
            final(self)@ == written_byte(old(self)@, byte),
    {
        if byte == NEWLINE {
            self.new_line();
        } else {
            if self.column_position >= BUFFER_WIDTH {
                self.new_line();
            }
            let ghost mid = self@;
            proof {
                self.buffer.lemma_view_shape();
            }
            let row = BUFFER_HEIGHT - 1;
            let col = self.column_position;
            let color_code = self.color_code;
            let value = encode_cell(byte, color_code);
            self.buffer.write_cell(row, col, value);
            self.column_position = self.column_position + 1;
            proof {
                assert(self@ =~~= printed(mid, byte));
            }
        }
    }

    /// Writes a string as raw bytes: printable bytes and newlines pass to
    /// `write_byte` unchanged, every other byte becomes the placeholder glyph.
    pub fn write_string(&mut self, s: &str)
        requires
            old(self).wf(),
        ensures
            final(self).wf(),
            final(self)@ == written_string(old(self)@, s.spec_bytes()),
    {
        let bytes = s.as_bytes();
        let n = bytes.len();
        let mut i: usize = 0;
        while i < n
            invariant
                i <= n,
                n == bytes@.len(),
                bytes@ == s.spec_bytes(),
                self.wf(),
                self@ == written_bytes(
                    old(self)@,
                    bytes@.take(i as int).map_values(|b: u8| sanitized(b)),
                ),
            decreases n - i,
        {
            let byte = bytes[i];
            let ghost before = bytes@.take(i as int).map_values(|b: u8| sanitized(b));
            let ghost after = bytes@.take(i + 1 as int).map_values(|b: u8| sanitized(b));
            proof {
                assert(after.drop_last() =~= before);
                assert(after.last() == sanitized(bytes@[i as int]));
            }
            if (0x20 <= byte && byte <= 0x7e) || byte == NEWLINE {
                self.write_byte(byte);
            } else {
                self.write_byte(PLACEHOLDER);
            }
            i = i + 1;
        }
        proof {
            assert(bytes@.take(n as int) =~= bytes@);
        }
    }

    /// Advances to a fresh line: every row moves up one place, the freed
    /// bottom row is cleared, and the cursor returns to column 0.
    fn new_line(&mut self)
        requires
            old(self).wf(),
        ensures
            final(self).wf(),
            final(self)@ == advanced(old(self)@),
    {
        proof {
            self.buffer.lemma_view_shape();
        }
        let mut row: usize = 1;
        while row < BUFFER_HEIGHT
            invariant
                1 <= row <= BUFFER_HEIGHT,
                self.wf(),
                self@.col == old(self)@.col,
                self@.color == old(self)@.color,
                self@.screen.len() == BUFFER_HEIGHT,
                old(self)@.screen.len() == BUFFER_HEIGHT,
                forall|r: int|
                    0 <= r < BUFFER_HEIGHT ==> (#[trigger] old(self)@.screen[r]).len()
                        == BUFFER_WIDTH,
                forall|r: int|
                    0 <= r < row - 1 ==> #[trigger] self@.screen[r] == old(self)@.screen[r + 1],
                forall|r: int|
                    row - 1 <= r < BUFFER_HEIGHT ==> #[trigger] self@.screen[r] == old(
                        self,
                    )@.screen[r],
            decreases BUFFER_HEIGHT - row,
        {
            let mut col: usize = 0;
            while col < BUFFER_WIDTH
                invariant
                    1 <= row < BUFFER_HEIGHT,
                    col <= BUFFER_WIDTH,
                    self.wf(),
                    self@.col == old(self)@.col,
                    self@.color == old(self)@.color,
                    self@.screen.len() == BUFFER_HEIGHT,
                    old(self)@.screen.len() == BUFFER_HEIGHT,
                    forall|r: int|
                        0 <= r < BUFFER_HEIGHT ==> (#[trigger] old(self)@.screen[r]).len()
                            == BUFFER_WIDTH,
                    forall|r: int|
                        0 <= r < row - 1 ==> #[trigger] self@.screen[r] == old(self)@.screen[r + 1],
                    forall|r: int|
                        row <= r < BUFFER_HEIGHT ==> #[trigger] self@.screen[r] == old(
                            self,
                        )@.screen[r],
                    self@.screen[row - 1].len() == BUFFER_WIDTH,
                    forall|c: int|
                        0 <= c < col ==> #[trigger] self@.screen[row - 1][c] == old(
                            self,
                        )@.screen[row as int][c],
                    forall|c: int|
                        col <= c < BUFFER_WIDTH ==> #[trigger] self@.screen[row - 1][c] == old(
                            self,
                        )@.screen[row - 1][c],
                decreases BUFFER_WIDTH - col,
            {
                let character = self.buffer.read_cell(row, col);
                self.buffer.write_cell(row - 1, col, character);
                col = col + 1;
            }
            proof {
                assert(self@.screen[row - 1] =~= old(self)@.screen[row as int]);
            }
            row = row + 1;
        }
        self.clear_row(BUFFER_HEIGHT - 1);
        self.column_position = 0;
        proof {
            assert(self@.screen =~~= advanced(old(self)@).screen);
        }
    }

    /// Clears a row by overwriting every cell with a blank character in the
    /// writer's current colour.
    fn clear_row(&mut self, row: usize)
        requires
            old(self).wf(),
            row < BUFFER_HEIGHT,
        ensures
            final(self).wf(),
            final(self)@.col == old(self)@.col,
            final(self)@.color == old(self)@.color,
            final(self)@.screen == old(self)@.screen.update(
                row as int,
                blank_row(old(self)@.color),
            ),
    {
        proof {
            self.buffer.lemma_view_shape();
        }
        let blank = encode_cell(BLANK, self.color_code);
        let mut col: usize = 0;
        while col < BUFFER_WIDTH
            invariant
                row < BUFFER_HEIGHT,
                col <= BUFFER_WIDTH,
                self.wf(),
                blank == cell_val(BLANK, old(self)@.color),
                self@.col == old(self)@.col,
                self@.color == old(self)@.color,
                self@.screen.len() == BUFFER_HEIGHT,
                old(self)@.screen.len() == BUFFER_HEIGHT,
                self@.screen[row as int].len() == BUFFER_WIDTH,
                forall|r: int|
                    0 <= r < BUFFER_HEIGHT && r != row ==> #[trigger] self@.screen[r] == old(
                        self,
                    )@.screen[r],
                forall|c: int|
                    0 <= c < col ==> #[trigger] self@.screen[row as int][c] == cell_val(
                        BLANK,
                        old(self)@.color,
                    ),
                forall|c: int|
                    col <= c < BUFFER_WIDTH ==> #[trigger] self@.screen[row as int][c] == old(
                        self,
                    )@.screen[row as int][c],
            decreases BUFFER_WIDTH - col,
        {
            self.buffer.write_cell(row, col, blank);
            col = col + 1;
        }
        proof {
            assert(self@.screen[row as int] =~= blank_row(old(self)@.color));
            assert(self@.screen =~~= old(self)@.screen.update(
                row as int,
                blank_row(old(self)@.color),
            ));
        }
    }
}

/// The precompiled format template and argument list of the standard
/// formatting machinery, which the two entry points below render.
#[verifier::external_type_specification]
#[verifier::external_body]
pub struct ExArguments<'a>(core::fmt::Arguments<'a>);

/// Relies on alloc::fmt::format: renders a format template and its
/// arguments into the resulting text. Formatting into a string cannot fail.
#[verifier::external_body]
fn render(args: core::fmt::Arguments) -> String {
    std::fmt::format(args)
}

/// The formatting entry point: renders the template and arguments, then
/// writes the resulting text through `write_string`. The ghost result names
/// the rendered text. Formatting into this sink cannot fail, so no error is
/// ever signalled.
pub fn _print(w: &mut Writer, args: core::fmt::Arguments) -> (rendered: Ghost<Seq<char>>)
    requires
        old(w).wf(),
    ensures
        final(w).wf(),
        final(w)@ == written_string(old(w)@, encode_utf8(rendered@)),
{
    let s = render(args);
    let ghost text = s@;
    w.write_string(s.as_str());
    Ghost(text)
}

/// The line-terminated formatting entry point: exactly `_print`, followed
/// by one newline byte.
pub fn _println(w: &mut Writer, args: core::fmt::Arguments) -> (rendered: Ghost<Seq<char>>)
    requires
        old(w).wf(),
    ensures
        final(w).wf(),
        final(w)@ == written_string(old(w)@, encode_utf8(rendered@).push(NEWLINE)),
{
    let rendered = _print(w, args);
    w.write_byte(NEWLINE);
    proof {
        let bytes = encode_utf8(rendered@);
        let sb = bytes.map_values(|b: u8| sanitized(b));
        let sb2 = bytes.push(NEWLINE).map_values(|b: u8| sanitized(b));
        assert(sb2.drop_last() =~= sb);
        assert(sb2.last() == NEWLINE);
    }
    rendered
}

} // verus!
