//! The text console: a 25 by 80 grid of coloured character cells with a
//! cursor on the bottom row. The grid held here is the console's state; the
//! kernel copies it to the display memory.

use vstd::prelude::*;
use vstd::string::StringSliceAdditionalSpecFns;
use vstd::utf8::{char_is_scalar, encode_scalar, encode_utf8};

verus! {

/// The sixteen colours of the text mode palette.
#[derive(Debug, Clone, Copy, PartialEq, Eq, Structural)]
pub enum Color {
    Black,
    Blue,
    Green,
    Cyan,
    Red,
    Magenta,
    Brown,
    LightGray,
    DarkGray,
    LightBlue,
    LightGreen,
    LightCyan,
    LightRed,
    Pink,
    Yellow,
    White,
}

impl Color {
    /// The colour's four-bit palette number.
    pub open spec fn spec_code(self) -> u8 {
        match self {
            Color::Black => 0,
            Color::Blue => 1,
            Color::Green => 2,
            Color::Cyan => 3,
            Color::Red => 4,
            Color::Magenta => 5,
            Color::Brown => 6,
            Color::LightGray => 7,
            Color::DarkGray => 8,
            Color::LightBlue => 9,
            Color::LightGreen => 10,
            Color::LightCyan => 11,
            Color::LightRed => 12,
            Color::Pink => 13,
            Color::Yellow => 14,
            Color::White => 15,
        }
    }

    /// The colour's four-bit palette number.
    #[verifier::when_used_as_spec(spec_code)]
    pub fn code(self) -> (code: u8)
        ensures
            code == self.spec_code(),
            code < 16,
    {
        match self {
            Color::Black => 0,
            Color::Blue => 1,
            Color::Green => 2,
            Color::Cyan => 3,
            Color::Red => 4,
            Color::Magenta => 5,
            Color::Brown => 6,
            Color::LightGray => 7,
            Color::DarkGray => 8,
            Color::LightBlue => 9,
            Color::LightGreen => 10,
            Color::LightCyan => 11,
            Color::LightRed => 12,
            Color::Pink => 13,
            Color::Yellow => 14,
            Color::White => 15,
        }
    }
}

/// A cell's attribute byte: background in the high four bits, foreground in
/// the low four.
#[derive(Debug, Clone, Copy, PartialEq, Eq, Structural)]
pub struct ColorCode(pub u8);

impl ColorCode {
    /// The attribute byte for `foreground` on `background`.
    pub open spec fn of(foreground: Color, background: Color) -> ColorCode {
        ColorCode((background.spec_code() * 16 + foreground.spec_code()) as u8)
    }

    /// Packs a foreground and a background colour into one attribute byte.
    pub fn new(foreground: Color, background: Color) -> (code: ColorCode)
        ensures
            code == ColorCode::of(foreground, background),
    {
        let high: u8 = background.code();
        let low: u8 = foreground.code();
        assert((high << 4 | low) == high * 16 + low) by (bit_vector)
            requires
                high < 16,
                low < 16,
        ;
        ColorCode(high << 4 | low)
    }
}

/// One cell of the console: a character byte and its colours.
#[derive(Debug, Clone, Copy, PartialEq, Eq, Structural)]
pub struct ScreenChar {
    pub ascii_character: u8,
    pub color_code: ColorCode,
}

/// The number of rows of the console.
pub const BUFFER_HEIGHT: usize = 25;

/// The number of columns of the console.
pub const BUFFER_WIDTH: usize = 80;

/// The byte shown in place of anything that is not printable ASCII.
pub const UNPRINTABLE: u8 = 0xfe;

/// An empty cell in the given colours.
pub open spec fn blank(color: ColorCode) -> ScreenChar {
    ScreenChar { ascii_character: 0x20, color_code: color }
}

/// The byte that the console shows for `byte`: itself if it is printable
/// ASCII or a line feed, the placeholder otherwise.
pub open spec fn shown(byte: u8) -> u8 {
    if (0x20 <= byte <= 0x7e) || byte == 0x0a {
        byte
    } else {
        UNPRINTABLE
    }
}

/// The console as a value: the cells in row-major order, the cursor's column
/// on the bottom row, and the colours that new cells get.
pub struct Screen {
    pub cells: Seq<ScreenChar>,
    pub column: nat,
    pub color: ColorCode,
}

impl Screen {
    /// The cell in `row` and `col`.
    pub open spec fn at(self, row: int, col: int) -> ScreenChar {
        self.cells[row * BUFFER_WIDTH + col]
    }

    /// A console of empty cells with the cursor at the left.
    pub open spec fn cleared(color: ColorCode) -> Screen {
        Screen {
            cells: Seq::new((BUFFER_HEIGHT * BUFFER_WIDTH) as nat, |i: int| blank(color)),
            column: 0,
            color,
        }
    }

    /// Every row moves up by one, the top row is lost, the bottom row is
    /// empty, and the cursor returns to the left.
    pub open spec fn new_line(self) -> Screen {
        Screen {
            cells: Seq::new(
                (BUFFER_HEIGHT * BUFFER_WIDTH) as nat,
                |i: int|
                    if i < (BUFFER_HEIGHT - 1) * BUFFER_WIDTH {
                        self.cells[i + BUFFER_WIDTH]
                    } else {
                        blank(self.color)
                    },
            ),
            column: 0,
            color: self.color,
        }
    }

    /// The cells of `row` become empty.
    pub open spec fn clear_row(self, row: int) -> Screen {
        Screen {
            cells: Seq::new(
                self.cells.len(),
                |i: int|
                    if row * BUFFER_WIDTH <= i < (row + 1) * BUFFER_WIDTH {
                        blank(self.color)
                    } else {
                        self.cells[i]
                    },
            ),
            ..self
        }
    }

    /// One byte is written at the cursor: a line feed starts a new line, any
    /// other byte fills the cell under the cursor, after a new line if the
    /// bottom row is full.
    pub open spec fn write_byte(self, byte: u8) -> Screen {
        if byte == 0x0a {
            self.new_line()
        } else {
            let s = if self.column >= BUFFER_WIDTH {
                self.new_line()
            } else {
                self
            };
            Screen {
                cells: s.cells.update(
                    (BUFFER_HEIGHT - 1) * BUFFER_WIDTH + s.column,
                    ScreenChar { ascii_character: byte, color_code: s.color },
                ),
                column: s.column + 1,
                color: s.color,
            }
        }
    }

    /// The bytes of a text are written one after the other, each as the
    /// console shows it.
    pub open spec fn write_bytes(self, bytes: Seq<u8>) -> Screen
        decreases bytes.len(),
    {
        if bytes.len() == 0 {
            self
        } else {
            self.write_bytes(bytes.drop_last()).write_byte(shown(bytes.last()))
        }
    }

    /// The placeholder is written `count` times.
    pub open spec fn write_placeholders(self, count: nat) -> Screen
        decreases count,
    {
        if count == 0 {
            self
        } else {
            self.write_placeholders((count - 1) as nat).write_byte(UNPRINTABLE)
        }
    }

    /// One character is written as its UTF-8 bytes would be: an ASCII
    /// character as the console shows its byte, any other as one placeholder
    /// for each byte of its encoding.
    pub open spec fn write_char(self, c: char) -> Screen {
        if (c as u32) < 0x80 {
            self.write_byte(shown(c as u32 as u8))
        } else {
            self.write_placeholders(crate::text::utf8_len(c))
        }
    }

    /// The characters of a text are written one after the other.
    pub open spec fn write_chars(self, text: Seq<char>) -> Screen
        decreases text.len(),
    {
        if text.len() == 0 {
            self
        } else {
            self.write_chars(text.drop_last()).write_char(text.last())
        }
    }

    /// The cell left of the cursor is emptied and the cursor moves onto it;
    /// at the left edge nothing happens.
    pub open spec fn backspace(self) -> Screen {
        if self.column > 0 {
            Screen {
                cells: self.cells.update(
                    (BUFFER_HEIGHT - 1) * BUFFER_WIDTH + self.column - 1,
                    blank(self.color),
                ),
                column: (self.column - 1) as nat,
                color: self.color,
            }
        } else {
            self
        }
    }

    /// One cell is overwritten; the cursor stays.
    pub open spec fn write_byte_at(self, col: int, row: int, byte: u8) -> Screen {
        Screen {
            cells: self.cells.update(
                row * BUFFER_WIDTH + col,
                ScreenChar { ascii_character: byte, color_code: self.color },
            ),
            ..self
        }
    }

    /// The colours of the cells written from now on.
    pub open spec fn set_color(self, foreground: Color, background: Color) -> Screen {
        Screen { color: ColorCode::of(foreground, background), ..self }
    }
}

/// The grid of cells.
pub struct Buffer {
    chars: Vec<ScreenChar>,
}

impl Buffer {
    /// The grid has all its rows and columns.
    pub closed spec fn wf(&self) -> bool {
        self.chars.len() == BUFFER_HEIGHT * BUFFER_WIDTH
    }

    /// The cells in row-major order.
    pub closed spec fn view(&self) -> Seq<ScreenChar> {
        self.chars@
    }

    /// A grid of empty cells.
    pub fn new(color: ColorCode) -> (buffer: Self)
        ensures
            buffer.wf(),
            buffer@ == Screen::cleared(color).cells,
    {
        let mut chars: Vec<ScreenChar> = Vec::new();
        let mut i: usize = 0;
        while i < BUFFER_HEIGHT * BUFFER_WIDTH
            invariant
                i <= BUFFER_HEIGHT * BUFFER_WIDTH,
                chars.len() == i,
                forall|k: int| 0 <= k < i ==> chars[k] == blank(color),
            decreases BUFFER_HEIGHT * BUFFER_WIDTH - i,
        {
            chars.push(ScreenChar { ascii_character: 0x20, color_code: color });
            i = i + 1;
        }
        Buffer { chars }
    }

    /// The cell in `row` and `col`.
    pub fn read(&self, row: usize, col: usize) -> (cell: ScreenChar)
        requires
            self.wf(),
            row < BUFFER_HEIGHT,
            col < BUFFER_WIDTH,
        ensures
            self@.len() == BUFFER_HEIGHT * BUFFER_WIDTH,
            cell == self@[row * BUFFER_WIDTH + col],
    {
        self.chars[row * BUFFER_WIDTH + col]
    }

    /// Replaces the cell in `row` and `col`.
    pub fn write(&mut self, row: usize, col: usize, cell: ScreenChar)
        requires
            old(self).wf(),
            row < BUFFER_HEIGHT,
            col < BUFFER_WIDTH,
        ensures
            final(self).wf(),
            old(self)@.len() == BUFFER_HEIGHT * BUFFER_WIDTH,
            final(self)@ == old(self)@.update(row * BUFFER_WIDTH + col, cell),
    {
        self.chars.set(row * BUFFER_WIDTH + col, cell);
    }
}

/// The console writer: the grid, the cursor's column on the bottom row, and
/// the colours in use.
pub struct Writer {
    column_position: usize,
    color_code: ColorCode,
    buffer: Buffer,
}

impl Writer {
    /// The grid is complete and the cursor is on the bottom row or just past
    /// its end.
    pub closed spec fn wf(&self) -> bool {
        &&& self.buffer.wf()
        &&& self.buffer@.len() == BUFFER_HEIGHT * BUFFER_WIDTH
        &&& self.column_position <= BUFFER_WIDTH
    }

    /// The console as a value.
    pub closed spec fn view(&self) -> Screen {
        Screen {
            cells: self.buffer@,
            column: self.column_position as nat,
            color: self.color_code,
        }
    }

    /// A well-formed writer shows a console of 25 rows of 80 cells, with the
    /// cursor on the bottom row or just past its end.
    pub proof fn lemma_wf_size(&self)
        requires
            self.wf(),
        ensures
            self@.cells.len() == BUFFER_HEIGHT * BUFFER_WIDTH,
            self@.column <= BUFFER_WIDTH,
    {
    }

    /// An empty console, light blue on black, with the cursor at the left.
    pub fn new() -> (writer: Self)
        ensures
            writer.wf(),
            writer@ == Screen::cleared(ColorCode::of(Color::LightBlue, Color::Black)),
    {
        let color_code = ColorCode::new(Color::LightBlue, Color::Black);
        Writer { column_position: 0, color_code, buffer: Buffer::new(color_code) }
    }

    /// The cursor's column on the bottom row.
    pub fn column_position(&self) -> (column: usize)
        requires
            self.wf(),
        ensures
            column == self@.column,
            column <= BUFFER_WIDTH,
    {
        self.column_position
    }

    /// The colours that new cells get.
    pub fn color_code(&self) -> (color: ColorCode)
        ensures
            color == self@.color,
    {
        self.color_code
    }

    /// The cell in `row` and `col`.
    pub fn cell(&self, row: usize, col: usize) -> (cell: ScreenChar)
        requires
            self.wf(),
            row < BUFFER_HEIGHT,
            col < BUFFER_WIDTH,
        ensures
            cell == self@.at(row as int, col as int),
    {
        self.buffer.read(row, col)
    }

    /// Writes one byte at the cursor. A line feed starts a new line; any
    /// other byte is stored as it is, after a new line if the bottom row is
    /// full.
    pub fn write_byte(&mut self, byte: u8)
        requires
            old(self).wf(),
        ensures
            final(self).wf(),
            final(self)@ == old(self)@.write_byte(byte),
    {
        if byte == 0x0a {
            self.new_line();
        } else {
            if self.column_position >= BUFFER_WIDTH {
                self.new_line();
            }
            let row = BUFFER_HEIGHT - 1;
            let col = self.column_position;
            let color_code = self.color_code;
            self.buffer.write(row, col, ScreenChar { ascii_character: byte, color_code });
            self.column_position = self.column_position + 1;
        }
    }

    /// Empties the cell left of the cursor and moves the cursor onto it. At
    /// the left edge nothing happens.
    pub fn backspace(&mut self)
        requires
            old(self).wf(),
        ensures
            final(self).wf(),
            final(self)@ == old(self)@.backspace(),
    {
        if self.column_position > 0 {
            self.column_position = self.column_position - 1;
            let row = BUFFER_HEIGHT - 1;
            let col = self.column_position;
            let color_code = self.color_code;
            self.buffer.write(row, col, ScreenChar { ascii_character: 0x20, color_code });
        }
    }

    /// Empties every cell, in the colours in use, and puts the cursor at the
    /// left.
    pub fn clear_screen(&mut self)
        requires
            old(self).wf(),
        ensures
            final(self).wf(),
            final(self)@ == Screen::cleared(old(self)@.color),
    {
        let mut r: usize = 0;
        while r < BUFFER_HEIGHT
            invariant
                r <= BUFFER_HEIGHT,
                self.wf(),
                self.color_code == old(self).color_code,
                forall|i: int| 0 <= i < r * BUFFER_WIDTH ==> self.buffer@[i] == blank(self.color_code),
            decreases BUFFER_HEIGHT - r,
        {
            self.clear_row(r);
            r = r + 1;
        }
        self.column_position = 0;
        assert(self@.cells =~= Screen::cleared(old(self)@.color).cells);
    }

    /// Moves every row up by one and empties the bottom row.
    fn new_line(&mut self)
        requires
            old(self).wf(),
        ensures
            final(self).wf(),
            final(self)@ == old(self)@.new_line(),
    {
        let ghost before = self@;
        let mut row: usize = 1;
        while row < BUFFER_HEIGHT
            invariant
                1 <= row <= BUFFER_HEIGHT,
                self.wf(),
                before.cells.len() == BUFFER_HEIGHT * BUFFER_WIDTH,
                self.color_code == before.color,
                forall|i: int|
                    0 <= i < (row - 1) * BUFFER_WIDTH ==> self.buffer@[i] == before.cells[i
                        + BUFFER_WIDTH],
                forall|i: int|
                    (row - 1) * BUFFER_WIDTH <= i < BUFFER_HEIGHT * BUFFER_WIDTH
                        ==> self.buffer@[i] == before.cells[i],
            decreases BUFFER_HEIGHT - row,
        {
            let mut col: usize = 0;
            while col < BUFFER_WIDTH
                invariant
                    1 <= row < BUFFER_HEIGHT,
                    col <= BUFFER_WIDTH,
                    self.wf(),
                    before.cells.len() == BUFFER_HEIGHT * BUFFER_WIDTH,
                    self.color_code == before.color,
                    forall|i: int|
                        0 <= i < (row - 1) * BUFFER_WIDTH + col ==> self.buffer@[i]
                            == before.cells[i + BUFFER_WIDTH],
                    forall|i: int|
                        (row - 1) * BUFFER_WIDTH + col <= i < BUFFER_HEIGHT * BUFFER_WIDTH
                            ==> self.buffer@[i] == before.cells[i],
                decreases BUFFER_WIDTH - col,
            {
                let character = self.buffer.read(row, col);
                self.buffer.write(row - 1, col, character);
                col = col + 1;
            }
            row = row + 1;
        }
        self.clear_row(BUFFER_HEIGHT - 1);
        self.column_position = 0;
        assert(self@.cells =~= before.new_line().cells);
    }

    /// Empties the cells of one row.
    fn clear_row(&mut self, row: usize)
        requires
            old(self).wf(),
            row < BUFFER_HEIGHT,
        ensures
            final(self).wf(),
            final(self)@ == old(self)@.clear_row(row as int),
    {
        let ghost before = self@;
        let blank_cell = ScreenChar { ascii_character: 0x20, color_code: self.color_code };
        let mut col: usize = 0;
        while col < BUFFER_WIDTH
            invariant
                col <= BUFFER_WIDTH,
                row < BUFFER_HEIGHT,
                self.wf(),
                blank_cell == blank(before.color),
                self.color_code == before.color,
                self.column_position == before.column,
                before.cells.len() == BUFFER_HEIGHT * BUFFER_WIDTH,
                forall|i: int|
                    row * BUFFER_WIDTH <= i < row * BUFFER_WIDTH + col ==> self.buffer@[i]
                        == blank(before.color),
                forall|i: int|
                    0 <= i < BUFFER_HEIGHT * BUFFER_WIDTH && !(row * BUFFER_WIDTH <= i < row
                        * BUFFER_WIDTH + col) ==> self.buffer@[i] == before.cells[i],
            decreases BUFFER_WIDTH - col,
        {
            self.buffer.write(row, col, blank_cell);
            col = col + 1;
        }
        assert(self@.cells =~= before.clear_row(row as int).cells);
    }

    /// Writes the bytes of a text one after the other. What is neither
    /// printable ASCII nor a line feed is shown as a placeholder.
    pub fn write_text(&mut self, bytes: &[u8])
        requires
            old(self).wf(),
        ensures
            final(self).wf(),
            final(self)@ == old(self)@.write_bytes(bytes@),
    {
        let ghost before = self@;
        let mut i: usize = 0;
        while i < bytes.len()
            invariant
                i <= bytes.len(),
                self.wf(),
                self@ == before.write_bytes(bytes@.take(i as int)),
            decreases bytes.len() - i,
        {
            let byte = bytes[i];
            proof {
                let next = bytes@.take(i + 1);
                assert(next.drop_last() =~= bytes@.take(i as int));
                assert(next.last() == byte);
            }
            if (0x20 <= byte && byte <= 0x7e) || byte == 0x0a {
                self.write_byte(byte);
            } else {
                self.write_byte(UNPRINTABLE);
            }
            i = i + 1;
        }
        assert(bytes@.take(i as int) =~= bytes@);
    }

    /// Writes one character as its UTF-8 bytes would be written: an ASCII
    /// character as the console shows its byte, any other as one placeholder
    /// for each byte of its encoding.
    pub fn write_char(&mut self, c: char)
        requires
            old(self).wf(),
        ensures
            final(self).wf(),
            final(self)@ == old(self)@.write_char(c),
    {
        let u = c as u32;
        if u < 0x80 {
            let byte = u as u8;
            if (0x20 <= byte && byte <= 0x7e) || byte == 0x0a {
                self.write_byte(byte);
            } else {
                self.write_byte(UNPRINTABLE);
            }
        } else {
            let count = crate::text::char_len(c);
            let mut i: usize = 0;
            while i < count
                invariant
                    i <= count,
                    self.wf(),
                    self@ == old(self)@.write_placeholders(i as nat),
                decreases count - i,
            {
                self.write_byte(UNPRINTABLE);
                i = i + 1;
            }
        }
    }

    /// Writes the characters of a text one after the other.
    pub fn write_chars(&mut self, text: &[char])
        requires
            old(self).wf(),
        ensures
            final(self).wf(),
            final(self)@ == old(self)@.write_chars(text@),
    {
        let ghost before = self@;
        let mut i: usize = 0;
        while i < text.len()
            invariant
                i <= text.len(),
                self.wf(),
                self@ == before.write_chars(text@.take(i as int)),
            decreases text.len() - i,
        {
            proof {
                let next = text@.take(i + 1);
                assert(next.drop_last() =~= text@.take(i as int));
                assert(next.last() == text@[i as int]);
            }
            self.write_char(text[i]);
            i = i + 1;
        }
        assert(text@.take(i as int) =~= text@);
    }

    /// Writes a string, byte by byte.
    pub fn write_string(&mut self, s: &str)
        requires
            old(self).wf(),
        ensures
            final(self).wf(),
            final(self)@ == old(self)@.write_bytes(s.spec_bytes()),
    {
        self.write_text(s.as_bytes());
    }

    /// Overwrites one cell, in the colours in use, and leaves the cursor
    /// where it is.
    pub fn write_byte_at(&mut self, col: usize, row: usize, byte: u8)
        requires
            old(self).wf(),
            col < BUFFER_WIDTH,
            row < BUFFER_HEIGHT,
        ensures
            final(self).wf(),
            final(self)@ == old(self)@.write_byte_at(col as int, row as int, byte),
    {
        let color_code = self.color_code;
        self.buffer.write(row, col, ScreenChar { ascii_character: byte, color_code });
    }

    /// Puts back colours that were in use before.
    fn restore_color(&mut self, color: ColorCode)
        requires
            old(self).wf(),
        ensures
            final(self).wf(),
            final(self)@ == (Screen { color, ..old(self)@ }),
    {
        self.color_code = color;
    }

    /// Chooses the colours of the cells written from now on.
    pub fn set_color(&mut self, foreground: Color, background: Color)
        requires
            old(self).wf(),
        ensures
            final(self).wf(),
            final(self)@ == old(self)@.set_color(foreground, background),
    {
        self.color_code = ColorCode::new(foreground, background);
    }
}

/// Empties the console.
pub fn clear_screen(writer: &mut Writer)
    requires
        old(writer).wf(),
    ensures
        final(writer).wf(),
        final(writer)@ == Screen::cleared(old(writer)@.color),
{
    writer.clear_screen();
}

/// Takes back the last cell of the bottom row.
pub fn backspace(writer: &mut Writer)
    requires
        old(writer).wf(),
    ensures
        final(writer).wf(),
        final(writer)@ == old(writer)@.backspace(),
{
    writer.backspace();
}

/// Chooses the colours of the cells written from now on.
pub fn set_color(writer: &mut Writer, foreground: Color, background: Color)
    requires
        old(writer).wf(),
    ensures
        final(writer).wf(),
        final(writer)@ == old(writer)@.set_color(foreground, background),
{
    writer.set_color(foreground, background);
}

/// The column of the top row at which the clock starts.
pub const TIMER_COLUMN: usize = 65;

/// The number of cells that the clock takes.
pub const TIMER_WIDTH: usize = 14;

/// The byte that stands for `n` in the clock: the ASCII digit for `n` below
/// ten. Beyond that it is the eight-bit sum of `n` and the digit zero, so a
/// field whose value has outgrown its two cells shows no digit.
pub open spec fn digit_byte(n: int) -> u8 {
    ((n % 256 + 0x30) % 256) as u8
}

/// The text of the clock for a number of seconds: `TIME: hh:mm:ss`.
pub open spec fn timer_text(seconds: u64) -> Seq<u8> {
    let hours = seconds as int / 3600;
    let mins = (seconds as int % 3600) / 60;
    let secs = seconds as int % 60;
    seq![
        0x54u8,
        0x49u8,
        0x4du8,
        0x45u8,
        0x3au8,
        0x20u8,
        digit_byte(hours / 10),
        digit_byte(hours % 10),
        0x3au8,
        digit_byte(mins / 10),
        digit_byte(mins % 10),
        0x3au8,
        digit_byte(secs / 10),
        digit_byte(secs % 10),
    ]
}

/// The console with the clock drawn into the top row, black on cyan. The
/// cursor and the colours in use stay as they are.
pub open spec fn with_timer(screen: Screen, seconds: u64) -> Screen {
    Screen {
        cells: Seq::new(
            screen.cells.len(),
            |i: int|
                if TIMER_COLUMN <= i < TIMER_COLUMN + TIMER_WIDTH {
                    ScreenChar {
                        ascii_character: timer_text(seconds)[i - TIMER_COLUMN],
                        color_code: ColorCode::of(Color::Black, Color::Cyan),
                    }
                } else {
                    screen.cells[i]
                },
        ),
        ..screen
    }
}

/// The eight-bit sum of `n` and the digit zero.
fn digit(n: u64) -> (byte: u8)
    ensures
        byte == digit_byte(n as int),
{
    let low: u16 = (n % 256) as u16;
    ((low + 0x30) % 256) as u8
}

/// Draws the clock `TIME: hh:mm:ss` for `seconds` into the top row, black on
/// cyan, and leaves the cursor and the colours in use untouched.
pub fn print_timer(writer: &mut Writer, seconds: u64)
    requires
        old(writer).wf(),
    ensures
        final(writer).wf(),
        final(writer)@ == with_timer(old(writer)@, seconds),
{
    let old_color = writer.color_code();
    writer.set_color(Color::Black, Color::Cyan);

    let hours = seconds / 3600;
    let mins = (seconds % 3600) / 60;
    let secs = seconds % 60;

    let col_start = TIMER_COLUMN;
    let row: usize = 0;

    let text: [u8; 14] = [
        0x54,
        0x49,
        0x4d,
        0x45,
        0x3a,
        0x20,
        digit(hours / 10),
        digit(hours % 10),
        0x3a,
        digit(mins / 10),
        digit(mins % 10),
        0x3a,
        digit(secs / 10),
        digit(secs % 10),
    ];
    assert(text@ =~= timer_text(seconds));
    let mut i: usize = 0;
    while i < TIMER_WIDTH
        invariant
            i <= TIMER_WIDTH,
            row == 0,
            col_start == TIMER_COLUMN,
            writer.wf(),
            old(writer).wf(),
            text@ == timer_text(seconds),
            writer@.column == old(writer)@.column,
            writer@.color == ColorCode::of(Color::Black, Color::Cyan),
            writer@.cells.len() == old(writer)@.cells.len(),
            forall|k: int|
                0 <= k < writer@.cells.len() ==> writer@.cells[k] == if TIMER_COLUMN <= k
                    < TIMER_COLUMN + i {
                    ScreenChar {
                        ascii_character: timer_text(seconds)[k - TIMER_COLUMN],
                        color_code: ColorCode::of(Color::Black, Color::Cyan),
                    }
                } else {
                    old(writer)@.cells[k]
                },
        decreases TIMER_WIDTH - i,
    {
        writer.write_byte_at(col_start + i, row, text[i]);
        i = i + 1;
    }
    writer.restore_color(old_color);
    assert(writer@.cells =~= with_timer(old(writer)@, seconds).cells);
}

/// Writing a text in two parts is writing the text.
pub proof fn lemma_write_bytes_concat(screen: Screen, first: Seq<u8>, second: Seq<u8>)
    ensures
        screen.write_bytes(first + second) == screen.write_bytes(first).write_bytes(second),
    decreases second.len(),
{
    if second.len() == 0 {
        assert(first + second =~= first);
    } else {
        lemma_write_bytes_concat(screen, first, second.drop_last());
        assert((first + second).drop_last() =~= first + second.drop_last());
    }
}

proof fn lemma_encoding_shown(u: u32)
    by (bit_vector)
    ensures
        u < 0x80 ==> (u & 0x7F) as u8 == u as u8,
        (0xC0u8 | ((u >> 6) & 0x1F) as u8) >= 0x80,
        (0xE0u8 | ((u >> 12) & 0x0F) as u8) >= 0x80,
        (0xF0u8 | ((u >> 18) & 0x7) as u8) >= 0x80,
        (0x80u8 | (u & 0x3F) as u8) >= 0x80,
        (0x80u8 | ((u >> 6) & 0x3F) as u8) >= 0x80,
        (0x80u8 | ((u >> 12) & 0x3F) as u8) >= 0x80,
{
}

/// A character is written as its UTF-8 bytes are.
pub proof fn lemma_write_char_is_utf8(screen: Screen, c: char)
    ensures
        screen.write_char(c) == screen.write_bytes(encode_scalar(c as u32)),
{
    let u = c as u32;
    char_is_scalar(c);
    lemma_encoding_shown(u);
    let bytes = encode_scalar(u);
    reveal_with_fuel(Screen::write_bytes, 5);
    reveal_with_fuel(Screen::write_placeholders, 5);
    if u < 0x80 {
        assert(bytes.drop_last() =~= Seq::<u8>::empty());
    } else if u < 0x800 {
        assert(bytes.drop_last() =~= seq![bytes[0]]);
        assert(bytes.drop_last().drop_last() =~= Seq::<u8>::empty());
    } else if u < 0x10000 {
        assert(bytes.drop_last() =~= seq![bytes[0], bytes[1]]);
        assert(bytes.drop_last().drop_last() =~= seq![bytes[0]]);
        assert(bytes.drop_last().drop_last().drop_last() =~= Seq::<u8>::empty());
    } else {
        assert(bytes.drop_last() =~= seq![bytes[0], bytes[1], bytes[2]]);
        assert(bytes.drop_last().drop_last() =~= seq![bytes[0], bytes[1]]);
        assert(bytes.drop_last().drop_last().drop_last() =~= seq![bytes[0]]);
        assert(bytes.drop_last().drop_last().drop_last().drop_last() =~= Seq::<u8>::empty());
    }
}

proof fn lemma_encode_push(text: Seq<char>, c: char)
    ensures
        encode_utf8(text.push(c)) == encode_utf8(text) + encode_scalar(c as u32),
    decreases text.len(),
{
    if text.len() == 0 {
        assert(text.push(c).drop_first() =~= Seq::<char>::empty());
        assert(encode_utf8(text.push(c)) =~= encode_scalar(c as u32) + encode_utf8(Seq::empty()));
        assert(encode_utf8(text) + encode_scalar(c as u32) =~= encode_scalar(c as u32));
    } else {
        assert(text.push(c).drop_first() =~= text.drop_first().push(c));
        lemma_encode_push(text.drop_first(), c);
        assert(encode_scalar(text[0] as u32) + (encode_utf8(text.drop_first()) + encode_scalar(
            c as u32,
        )) =~= (encode_scalar(text[0] as u32) + encode_utf8(text.drop_first())) + encode_scalar(
            c as u32,
        ));
    }
}

/// Writing the characters of a text is writing the bytes of its UTF-8
/// encoding. So a string's characters and the string itself give the same
/// console.
pub proof fn lemma_write_chars_is_utf8(screen: Screen, text: Seq<char>)
    ensures
        screen.write_chars(text) == screen.write_bytes(encode_utf8(text)),
    decreases text.len(),
{
    if text.len() > 0 {
        let front = text.drop_last();
        lemma_write_chars_is_utf8(screen, front);
        lemma_write_char_is_utf8(screen.write_chars(front), text.last());
        lemma_write_bytes_concat(screen, encode_utf8(front), encode_scalar(text.last() as u32));
        lemma_encode_push(front, text.last());
        assert(front.push(text.last()) =~= text);
    }
}

} // verus!
