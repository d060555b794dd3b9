use vstd::prelude::*;
use vstd::string::StringSliceAdditionalSpecFns;

use crate::buffer::{uniform_row, Buffer, BufferChar, BUFFER_HEIGHT, BUFFER_WIDTH};
use crate::color::{Color, ColorCode};

verus! {

/// The newline code.
pub const NEWLINE: u8 = 0x0a;

/// The glyph drawn in place of any byte outside the supported set.
pub const FALLBACK_GLYPH: u8 = 0xfe;

/// The space character, drawn in blank cells.
pub const SPACE: u8 = 0x20;

/// The row that the cursor returns to on construction and reset; row 0 is
/// kept out of ordinary output.
pub const HOME_ROW: usize = 1;

/// The blank cell: a space in the given style.
pub open spec fn blank(color: ColorCode) -> BufferChar {
    BufferChar { character: SPACE, color }
}

/// Bytes that are passed to the grid unchanged: printable ASCII from the
/// space up to, but not including, 0x7e.
pub open spec fn is_printable(b: u8) -> bool {
    0x20 <= b < 0x7e
}

/// The byte that `write_string` hands on for `b`.
pub open spec fn sanitize(b: u8) -> u8 {
    if b == NEWLINE || is_printable(b) {
        b
    } else {
        FALLBACK_GLYPH
    }
}

/// The grid after a scroll: rows 2 and below move up by one, the last row
/// becomes blank, and row 0 stays as it was.
pub open spec fn scrolled(grid: Seq<Seq<BufferChar>>, color: ColorCode) -> Seq<Seq<BufferChar>> {
    Seq::new(
        BUFFER_HEIGHT as nat,
        |i: int|
            if i == 0 {
                grid[0]
            } else if i < BUFFER_HEIGHT - 1 {
                grid[i + 1]
            } else {
                uniform_row(blank(color))
            },
    )
}

/// The abstract state of a writer: the grid, the cursor and the active style.
pub struct Screen {
    pub grid: Seq<Seq<BufferChar>>,
    pub column: int,
    pub row: int,
    pub color: ColorCode,
}

impl Screen {
    pub open spec fn wf(self) -> bool {
        &&& self.grid.len() == BUFFER_HEIGHT
        &&& forall|i: int| 0 <= i < BUFFER_HEIGHT ==> #[trigger] self.grid[i].len() == BUFFER_WIDTH
        &&& HOME_ROW <= self.row < BUFFER_HEIGHT
        &&& 0 <= self.column <= BUFFER_WIDTH
    }

    /// Move to column 0 of the next row, scrolling when on the last row.
    pub open spec fn newline(self) -> Screen {
        if self.row == BUFFER_HEIGHT - 1 {
            Screen { grid: scrolled(self.grid, self.color), column: 0, row: self.row, color: self.color }
        } else {
            Screen { grid: self.grid, column: 0, row: self.row + 1, color: self.color }
        }
    }

    /// Draw `b` at the cursor, which must lie inside the row, and advance.
    pub open spec fn put(self, b: u8) -> Screen {
        Screen {
            grid: self.grid.update(
                self.row,
                self.grid[self.row].update(self.column, BufferChar { character: b, color: self.color }),
            ),
            column: self.column + 1,
            row: self.row,
            color: self.color,
        }
    }

    pub open spec fn write_byte(self, b: u8) -> Screen {
        if b == NEWLINE {
            self.newline()
        } else if self.column >= BUFFER_WIDTH {
            self.newline().put(b)
        } else {
            self.put(b)
        }
    }

    /// Every byte of `bytes` in turn, each passed through `sanitize`.
    pub open spec fn write_bytes(self, bytes: Seq<u8>) -> Screen
        decreases bytes.len(),
    {
        if bytes.len() == 0 {
            self
        } else {
            self.write_bytes(bytes.drop_last()).write_byte(sanitize(bytes.last()))
        }
    }

    pub open spec fn reset(self) -> Screen {
        Screen {
            grid: Seq::new(BUFFER_HEIGHT as nat, |i: int| uniform_row(blank(self.color))),
            column: 0,
            row: HOME_ROW as int,
            color: self.color,
        }
    }
}

/// Newlines and writes keep the cursor inside the grid.
pub proof fn lemma_write_byte_wf(s: Screen, b: u8)
    requires
        s.wf(),
    ensures
        s.newline().wf(),
        s.write_byte(b).wf(),
{
}

/// A text console over a character grid: a cursor, a fixed style, and the
/// grid itself.
pub struct Writer {
    column: usize,
    row: usize,
    color: ColorCode,
    buffer: &'static mut Buffer,
}

impl View for Writer {
    type V = Screen;

    closed spec fn view(&self) -> Screen {
        Screen { grid: (*self.buffer)@, column: self.column as int, row: self.row as int, color: self.color }
    }
}

impl Writer {
    /// A writer over `buffer`, with the cursor at the start of the home row
    /// and the default style. The grid is left as it is.
    pub fn new(buffer: &'static mut Buffer) -> (w: Writer)
        ensures
            w@ == (Screen {
                grid: (*old(buffer))@,
                column: 0,
                row: HOME_ROW as int,
                color: ColorCode::spec_default(),
            }),
            w@.wf(),
    {
        proof {
            buffer.lemma_shape();
        }
        Writer { column: 0, row: HOME_ROW, color: ColorCode::new(Color::White, Color::Black), buffer }
    }

    pub fn column(&self) -> (r: usize)
        ensures
            r == self@.column,
    {
        self.column
    }

    pub fn row(&self) -> (r: usize)
        ensures
            r == self@.row,
    {
        self.row
    }

    pub fn color(&self) -> (r: ColorCode)
        ensures
            r == self@.color,
    {
        self.color
    }

    /// The cell at `row`, `col`, read from the grid.
    pub fn cell(&self, row: usize, col: usize) -> (r: BufferChar)
        requires
            row < BUFFER_HEIGHT,
            col < BUFFER_WIDTH,
        ensures
            r == self@.grid[row as int][col as int],
    {
        self.buffer.read(row, col)
    }

    fn newline(&mut self)
        requires
            old(self)@.wf(),
        ensures
            final(self)@ == old(self)@.newline(),
    {
        if self.row == BUFFER_HEIGHT - 1 {
            // Row 0 is not part of the scrolling region: the shift starts
            // by moving row 2 into row 1.
            let mut row: usize = 2;
            while row < BUFFER_HEIGHT
                invariant
                    2 <= row <= BUFFER_HEIGHT,
                    self.row == old(self).row,
                    self.column == old(self).column,
                    self.color == old(self).color,
                    self@.grid == Seq::new(
                        BUFFER_HEIGHT as nat,
                        |i: int|
                            if 1 <= i && i + 1 < row {
                                old(self)@.grid[i + 1]
                            } else {
                                old(self)@.grid[i]
                            },
                    ),
                decreases BUFFER_HEIGHT - row,
            {
                self.buffer.copy_row(row, row - 1);
                row = row + 1;
                assert(self@.grid =~= Seq::new(
                    BUFFER_HEIGHT as nat,
                    |i: int|
                        if 1 <= i && i + 1 < row {
                            old(self)@.grid[i + 1]
                        } else {
                            old(self)@.grid[i]
                        },
                ));
            }
            self.clear_row(BUFFER_HEIGHT - 1);
            assert(self@.grid =~= scrolled(old(self)@.grid, self.color));
        } else {
            self.row = self.row + 1;
        }
        self.column = 0;
    }

    fn clear_row(&mut self, row: usize)
        requires
            row < BUFFER_HEIGHT,
        ensures
            final(self)@ == (Screen { grid: old(self)@.grid.update(row as int, uniform_row(blank(old(self).color))), ..old(self)@ }),
    {
        let blank = BufferChar { character: SPACE, color: self.color };
        self.buffer.fill_row(row, blank);
    }

    /// Writes one byte as it is: a newline moves the cursor; any other byte is
    /// drawn at the cursor, after a wrap to the next row when the current one
    /// is full.
    pub fn write_byte(&mut self, byte: u8)
        requires
            old(self)@.wf(),
        ensures
            final(self)@ == old(self)@.write_byte(byte),
            final(self)@.wf(),
    {
        proof {
            lemma_write_byte_wf(self@, byte);
        }
        if byte == NEWLINE {
            self.newline();
        } else {
            if self.column >= BUFFER_WIDTH {
                self.newline();
            }
            let col = self.column;
            let row = self.row;
            self.buffer.write(row, col, BufferChar { character: byte, color: self.color });
            self.column = self.column + 1;
        }
    }

    /// Writes the bytes of `string` in turn, drawing the fallback glyph for
    /// any byte that is neither a newline nor printable ASCII.
    pub fn write_string(&mut self, string: &str)
        requires
            old(self)@.wf(),
        ensures
            final(self)@ == old(self)@.write_bytes(string.spec_bytes()),
            final(self)@.wf(),
    {
        let bytes = string.as_bytes();
        let mut i: usize = 0;
        while i < bytes.len()
            invariant
                i <= bytes@.len(),
                bytes@ == string.spec_bytes(),
                self@ == old(self)@.write_bytes(bytes@.subrange(0, i as int)),
                self@.wf(),
            decreases bytes@.len() - i,
        {
            let byte = bytes[i];
            let shown = if byte == NEWLINE || (0x20 <= byte && byte < 0x7e) {
                byte
            } else {
                FALLBACK_GLYPH
            };
            assert(bytes@.subrange(0, i + 1).drop_last() =~= bytes@.subrange(0, i as int));
            self.write_byte(shown);
            i = i + 1;
        }
        assert(bytes@.subrange(0, bytes@.len() as int) =~= bytes@);
    }

    /// Blanks every cell of every row in the current style and moves the
    /// cursor to the start of the home row.
    pub fn reset(&mut self)
        requires
            old(self)@.wf(),
        ensures
            final(self)@ == old(self)@.reset(),
            final(self)@.wf(),
            forall|i: int, j: int|
                0 <= i < BUFFER_HEIGHT && 0 <= j < BUFFER_WIDTH ==> #[trigger] final(self)@.grid[i][j] == blank(
                    old(self)@.color,
                ),
            final(self)@.column == 0,
            final(self)@.row == HOME_ROW,
    {
        self.column = 0;
        self.row = HOME_ROW;
        let mut row: usize = 0;
        while row < BUFFER_HEIGHT
            invariant
                row <= BUFFER_HEIGHT,
                self.column == 0,
                self.row == HOME_ROW,
                self.color == old(self).color,
                self@.grid == Seq::new(
                    BUFFER_HEIGHT as nat,
                    |i: int| if i < row { uniform_row(blank(self.color)) } else { old(self)@.grid[i] },
                ),
            decreases BUFFER_HEIGHT - row,
        {
            self.clear_row(row);
            row = row + 1;
            assert(self@.grid =~= Seq::new(
                BUFFER_HEIGHT as nat,
                |i: int| if i < row { uniform_row(blank(self.color)) } else { old(self)@.grid[i] },
            ));
        }
        assert(self@.grid =~= old(self)@.reset().grid);
    }
}

/// Appends already formatted text to the console.
pub fn _print(writer: &mut Writer, text: &str)
    requires
        old(writer)@.wf(),
    ensures
        final(writer)@ == old(writer)@.write_bytes(text.spec_bytes()),
        final(writer)@.wf(),
{
    writer.write_string(text);
}

} // verus!
