use vstd::prelude::*;
use vstd::string::StringSliceAdditionalSpecFns;

verus! {

/// The sixteen color indices the text-mode hardware understands. The palette
/// index of a variant is its position in this declaration, `Black` being 0 and
/// `White` being 15.
#[allow(dead_code)]
#[derive(Debug, Clone, Copy, PartialEq, Eq, Structural)]
pub enum Color {
    Black,
    Blue,
    Green,
    Cyan,
    Red,
    Magenta,
    Brown,
    LightGray,
    DarkGray,
    LightBlue,
    LightGreen,
    LightCyan,
    LightRed,
    Pink,
    Yellow,
    White,
}

impl Color {
    /// The 4-bit palette index of this color.
    pub open spec fn as_nibble(self) -> u8 {
        match self {
            Color::Black => 0,
            Color::Blue => 1,
            Color::Green => 2,
            Color::Cyan => 3,
            Color::Red => 4,
            Color::Magenta => 5,
            Color::Brown => 6,
            Color::LightGray => 7,
            Color::DarkGray => 8,
            Color::LightBlue => 9,
            Color::LightGreen => 10,
            Color::LightCyan => 11,
            Color::LightRed => 12,
            Color::Pink => 13,
            Color::Yellow => 14,
            Color::White => 15,
        }
    }

    pub fn nibble(self) -> (r: u8)
        ensures
            r == self.as_nibble(),
    {
        match self {
            Color::Black => 0,
            Color::Blue => 1,
            Color::Green => 2,
            Color::Cyan => 3,
            Color::Red => 4,
            Color::Magenta => 5,
            Color::Brown => 6,
            Color::LightGray => 7,
            Color::DarkGray => 8,
            Color::LightBlue => 9,
            Color::LightGreen => 10,
            Color::LightCyan => 11,
            Color::LightRed => 12,
            Color::Pink => 13,
            Color::Yellow => 14,
            Color::White => 15,
        }
    }

    pub proof fn nibble_bound(self)
        ensures
            self.as_nibble() < 16,
    {
    }
}

/// A packed color attribute byte: the low four bits are the foreground palette
/// index, the high four bits the background palette index. This layout is a
/// hardware contract; no other packing is valid.
#[derive(Debug, Clone, Copy, PartialEq, Eq, Structural)]
pub struct ColorCode(pub u8);

impl ColorCode {
    /// The attribute byte for a foreground/background pair:
    /// `(background << 4) | foreground`.
    pub open spec fn spec_new(foreground: Color, background: Color) -> ColorCode {
        ColorCode((background.as_nibble() * 16 + foreground.as_nibble()) as u8)
    }

    pub fn new(foreground: Color, background: Color) -> (r: ColorCode)
        ensures
            r == ColorCode::spec_new(foreground, background),
    {
        let f: u8 = foreground.nibble();
        let b: u8 = background.nibble();
        proof {
            foreground.nibble_bound();
            background.nibble_bound();
            assert(f < 16 && b < 16 ==> ((b << 4) | f) == b * 16 + f) by (bit_vector);
        }
        ColorCode((b << 4) | f)
    }

    /// The foreground palette index stored in the low nibble.
    pub open spec fn spec_foreground(self) -> u8 {
        self.0 & 0x0f
    }

    /// The background palette index stored in the high nibble.
    pub open spec fn spec_background(self) -> u8 {
        self.0 >> 4
    }

    pub fn foreground(self) -> (r: u8)
        ensures
            r == self.spec_foreground(),
    {
        self.0 & 0x0f
    }

    pub fn background(self) -> (r: u8)
        ensures
            r == self.spec_background(),
    {
        self.0 >> 4
    }
}

/// Packing a foreground/background pair and reading the two nibbles back
/// yields the original pair's palette indices, for every combination.
pub proof fn lemma_color_code_round_trip(foreground: Color, background: Color)
    ensures
        ColorCode::spec_new(foreground, background).spec_foreground() == foreground.as_nibble(),
        ColorCode::spec_new(foreground, background).spec_background() == background.as_nibble(),
{
    foreground.nibble_bound();
    background.nibble_bound();
    let f = foreground.as_nibble();
    let b = background.as_nibble();
    assert(f < 16 && b < 16 ==> (((b * 16 + f) as u8) & 0x0f) == f) by (bit_vector);
    assert(f < 16 && b < 16 ==> (((b * 16 + f) as u8) >> 4) == b) by (bit_vector);
}

/// One cell of the text buffer: a glyph byte and its color attribute, exactly
/// two bytes as the hardware lays them out.
#[derive(Debug, Clone, Copy, PartialEq, Eq, Structural)]
pub struct ScreenChar {
    pub ascii_character: u8,
    pub color_code: ColorCode,
}

/// Number of rows of the text buffer.
pub const BUFFER_HEIGHT: usize = 25;

/// Number of columns of the text buffer.
pub const BUFFER_WIDTH: usize = 80;

/// The cells a `Grid` holds, row-major: the cell at row `r`, column `c` is
/// element `r * BUFFER_WIDTH + c`.
pub uninterp spec fn grid_cells(g: Grid) -> Seq<ScreenChar>;

/// The character cells of the screen, held in volatile storage: the hardware
/// renders every cell written here, so each access must really happen, in
/// order, even when a write repeats the value already present.
#[verifier::external_body]
pub struct Grid {
    cells: Vec<volatile::Volatile<ScreenChar>>,
}

impl Grid {
    /// Builds the cell store with no cells; `push_cell` fills it.
    #[verifier::external_body]
    pub(crate) fn empty() -> (g: Grid)
        ensures
            grid_cells(g) == Seq::<ScreenChar>::empty(),
    {
        Grid { cells: Vec::new() }
    }

    /// Relies on volatile::Volatile::new: wraps the given value, which later
    /// volatile reads return; never panics.
    #[verifier::external_body]
    pub(crate) fn push_cell(&mut self, c: ScreenChar)
        ensures
            grid_cells(*final(self)) == grid_cells(*old(self)).push(c),
    {
        self.cells.push(volatile::Volatile::new(c));
    }

    /// Relies on volatile::Volatile::read: a volatile load of the stored
    /// value, never optimized away; never panics.
    #[verifier::external_body]
    pub(crate) fn read_cell(&self, i: usize) -> (r: ScreenChar)
        requires
            i < grid_cells(*self).len(),
        ensures
            r == grid_cells(*self)[i as int],
    {
        self.cells[i].read()
    }

    /// Relies on volatile::Volatile::write: a volatile store of the given
    /// value, never optimized away or reordered; never panics.
    #[verifier::external_body]
    pub(crate) fn write_cell(&mut self, i: usize, c: ScreenChar)
        requires
            i < grid_cells(*old(self)).len(),
        ensures
            grid_cells(*final(self)) == grid_cells(*old(self)).update(i as int, c),
    {
        self.cells[i].write(c);
    }
}

/// The observable state of the console: the grid contents and the cursor
/// column on the bottom row (the only row that ever receives new characters).
pub struct ScreenState {
    pub cells: Seq<ScreenChar>,
    pub col: nat,
}

/// The index of the cell at `(row, col)` in the row-major grid.
pub open spec fn cell_index(row: int, col: int) -> int {
    row * BUFFER_WIDTH + col
}

/// The index of the cell at column `col` of the bottom row.
pub open spec fn bottom_index(col: int) -> int {
    cell_index(BUFFER_HEIGHT - 1, col)
}

/// A blank cell: a space glyph under the given attribute.
pub open spec fn blank_cell(attr: ColorCode) -> ScreenChar {
    ScreenChar { ascii_character: 0x20, color_code: attr }
}

/// A whole screen of blank cells.
pub open spec fn blank_screen(attr: ColorCode) -> Seq<ScreenChar> {
    Seq::new((BUFFER_HEIGHT * BUFFER_WIDTH) as nat, |i: int| blank_cell(attr))
}

/// The grid after one scroll: every row above the bottom takes the contents
/// of the row below it, the bottom row becomes blank under the given
/// attribute, and the old top row is discarded.
pub open spec fn scrolled(cells: Seq<ScreenChar>, attr: ColorCode) -> Seq<ScreenChar> {
    Seq::new(
        cells.len(),
        |i: int| if i < cell_index(BUFFER_HEIGHT - 1, 0) { cells[i + BUFFER_WIDTH] } else {
            blank_cell(attr)
        },
    )
}

/// The byte that starts a new line.
pub const NEWLINE_BYTE: u8 = 0x0a;

/// Lowest byte the hardware glyph table renders as itself.
pub const PRINTABLE_MIN: u8 = 0x20;

/// Highest byte the hardware glyph table renders as itself.
pub const PRINTABLE_MAX: u8 = 0x7e;

/// The glyph stored in place of a byte the glyph table cannot render.
pub const REPLACEMENT_GLYPH: u8 = 0xfe;

/// What one byte handed to `write_byte` does to the screen: a newline
/// scrolls and rehomes the cursor; any other byte first scrolls if the bottom
/// row is full, then lands at the cursor column of the bottom row and
/// advances the cursor by one.
pub open spec fn write_byte_spec(s: ScreenState, attr: ColorCode, byte: u8) -> ScreenState {
    if byte == NEWLINE_BYTE {
        ScreenState { cells: scrolled(s.cells, attr), col: 0 }
    } else {
        let cells0 = if s.col >= BUFFER_WIDTH { scrolled(s.cells, attr) } else { s.cells };
        let col0: nat = if s.col >= BUFFER_WIDTH { 0 } else { s.col };
        ScreenState {
            cells: cells0.update(
                bottom_index(col0 as int),
                ScreenChar { ascii_character: byte, color_code: attr },
            ),
            col: col0 + 1,
        }
    }
}

/// What `write_string` forwards for one byte of input: printable bytes and
/// the newline pass through, anything else degrades to the replacement glyph
/// rather than corrupting the grid or faulting.
pub open spec fn sanitize_byte(b: u8) -> u8 {
    if (PRINTABLE_MIN <= b && b <= PRINTABLE_MAX) || b == NEWLINE_BYTE {
        b
    } else {
        REPLACEMENT_GLYPH
    }
}

/// The screen after emitting a whole byte sequence, each byte sanitized and
/// then written as `write_byte_spec` says.
pub open spec fn write_bytes_spec(s: ScreenState, attr: ColorCode, bs: Seq<u8>) -> ScreenState
    decreases bs.len(),
{
    if bs.len() == 0 {
        s
    } else {
        write_bytes_spec(write_byte_spec(s, attr, sanitize_byte(bs[0])), attr, bs.drop_first())
    }
}

/// Emitting `bs` and then one more byte is emitting `bs.push(b)`.
pub proof fn lemma_write_bytes_snoc(s: ScreenState, attr: ColorCode, bs: Seq<u8>, b: u8)
    ensures
        write_bytes_spec(s, attr, bs.push(b)) == write_byte_spec(
            write_bytes_spec(s, attr, bs),
            attr,
            sanitize_byte(b),
        ),
    decreases bs.len(),
{
    if bs.len() == 0 {
        let one = bs.push(b);
        let s1 = write_byte_spec(s, attr, sanitize_byte(b));
        assert(one[0] == b);
        assert(one.drop_first() =~= Seq::<u8>::empty());
        assert(write_bytes_spec(s, attr, one) == write_bytes_spec(s1, attr, one.drop_first()));
        assert(write_bytes_spec(s1, attr, Seq::<u8>::empty()) == s1);
        assert(write_bytes_spec(s, attr, bs) == s);
    } else {
        let s1 = write_byte_spec(s, attr, sanitize_byte(bs[0]));
        assert(bs.push(b)[0] == bs[0]);
        assert(bs.push(b).drop_first() =~= bs.drop_first().push(b));
        assert(write_bytes_spec(s, attr, bs.push(b)) == write_bytes_spec(
            s1,
            attr,
            bs.drop_first().push(b),
        ));
        lemma_write_bytes_snoc(s1, attr, bs.drop_first(), b);
        assert(write_bytes_spec(s, attr, bs) == write_bytes_spec(s1, attr, bs.drop_first()));
    }
}

/// Drives the text buffer: keeps the cursor column, the attribute new
/// characters get, and the volatile grid itself. All new content appears on
/// the bottom row; full or finished lines move up by scrolling.
pub struct Writer {
    column_position: usize,
    color_code: ColorCode,
    buffer: Grid,
}

impl Writer {
    /// The grid has exactly its hardware-defined extent and the cursor never
    /// sits past the right edge.
    pub closed spec fn wf(self) -> bool {
        &&& grid_cells(self.buffer).len() == BUFFER_HEIGHT * BUFFER_WIDTH
        &&& self.column_position <= BUFFER_WIDTH
    }

    /// The observable screen state this writer holds.
    pub closed spec fn screen(self) -> ScreenState {
        ScreenState { cells: grid_cells(self.buffer), col: self.column_position as nat }
    }

    /// The attribute byte new characters are written with.
    pub closed spec fn attr(self) -> ColorCode {
        self.color_code
    }

    /// A fresh writer: cursor at column 0 and every cell blank under the
    /// chosen colors.
    pub fn new(foreground: Color, background: Color) -> (w: Writer)
        ensures
            w.wf(),
            w.attr() == ColorCode::spec_new(foreground, background),
            w.screen().col == 0,
            w.screen().cells == blank_screen(w.attr()),
    {
        let color_code = ColorCode::new(foreground, background);
        let blank = ScreenChar { ascii_character: 0x20, color_code };
        let mut buffer = Grid::empty();
        let total: usize = BUFFER_HEIGHT * BUFFER_WIDTH;
        let mut i: usize = 0;
        while i < total
            invariant
                i <= total,
                total == BUFFER_HEIGHT * BUFFER_WIDTH,
                blank == blank_cell(color_code),
                grid_cells(buffer).len() == i,
                forall|j: int| 0 <= j < i ==> grid_cells(buffer)[j] == blank_cell(color_code),
            decreases total - i,
        {
            buffer.push_cell(blank);
            i = i + 1;
        }
        let w = Writer { column_position: 0, color_code, buffer };
        proof {
            assert(w.screen().cells =~= blank_screen(color_code));
        }
        w
    }

    /// Writes a blank cell under the current attribute into every column of
    /// row `row`; nothing else changes.
    fn clear_row(&mut self, row: usize)
        requires
            old(self).wf(),
            row < BUFFER_HEIGHT,
        ensures
            final(self).wf(),
            final(self).attr() == old(self).attr(),
            final(self).screen().col == old(self).screen().col,
            forall|i: int|
                cell_index(row as int, 0) <= i < cell_index(row as int, 0) + BUFFER_WIDTH
                    ==> grid_cells(final(self).buffer)[i] == blank_cell(old(self).attr()),
            forall|i: int|
                0 <= i < grid_cells(old(self).buffer).len() && !(cell_index(row as int, 0) <= i
                    < cell_index(row as int, 0) + BUFFER_WIDTH) ==> grid_cells(
                    final(self).buffer,
                )[i] == grid_cells(old(self).buffer)[i],
    {
        let blank = ScreenChar { ascii_character: 0x20, color_code: self.color_code };
        let base: usize = row * BUFFER_WIDTH;
        let mut col: usize = 0;
        while col < BUFFER_WIDTH
            invariant
                old(self).wf(),
                self.wf(),
                col <= BUFFER_WIDTH,
                row < BUFFER_HEIGHT,
                base == row * BUFFER_WIDTH,
                self.column_position == old(self).column_position,
                self.color_code == old(self).color_code,
                blank == blank_cell(old(self).attr()),
                forall|i: int|
                    base <= i < base + col ==> grid_cells(self.buffer)[i] == blank_cell(
                        old(self).attr(),
                    ),
                forall|i: int|
                    0 <= i < grid_cells(old(self).buffer).len() && !(base <= i < base + col)
                        ==> grid_cells(self.buffer)[i] == grid_cells(old(self).buffer)[i],
            decreases BUFFER_WIDTH - col,
        {
            self.buffer.write_cell(base + col, blank);
            col = col + 1;
        }
    }

    /// Scrolls the whole grid up one row, clears the bottom row to blanks
    /// under the current attribute and rehomes the cursor to column 0. The
    /// old top row is gone for good: there is no scrollback.
    fn new_line(&mut self)
        requires
            old(self).wf(),
        ensures
            final(self).wf(),
            final(self).attr() == old(self).attr(),
            final(self).screen().col == 0,
            final(self).screen().cells == scrolled(old(self).screen().cells, old(self).attr()),
    {
        let mut row: usize = 1;
        while row < BUFFER_HEIGHT
            invariant
                old(self).wf(),
                self.wf(),
                1 <= row <= BUFFER_HEIGHT,
                self.column_position == old(self).column_position,
                self.color_code == old(self).color_code,
                forall|i: int|
                    0 <= i < cell_index(row - 1, 0) ==> grid_cells(self.buffer)[i] == grid_cells(
                        old(self).buffer,
                    )[i + BUFFER_WIDTH],
                forall|i: int|
                    cell_index(row - 1, 0) <= i < grid_cells(old(self).buffer).len() ==> grid_cells(
                        self.buffer,
                    )[i] == grid_cells(old(self).buffer)[i],
            decreases BUFFER_HEIGHT - row,
        {
            let mut col: usize = 0;
            while col < BUFFER_WIDTH
                invariant
                    old(self).wf(),
                    self.wf(),
                    1 <= row < BUFFER_HEIGHT,
                    col <= BUFFER_WIDTH,
                    self.column_position == old(self).column_position,
                    self.color_code == old(self).color_code,
                    forall|i: int|
                        0 <= i < cell_index(row - 1, col as int) ==> grid_cells(self.buffer)[i]
                            == grid_cells(old(self).buffer)[i + BUFFER_WIDTH],
                    forall|i: int|
                        cell_index(row - 1, col as int) <= i < grid_cells(old(self).buffer).len()
                            ==> grid_cells(self.buffer)[i] == grid_cells(old(self).buffer)[i],
                decreases BUFFER_WIDTH - col,
            {
                let character = self.buffer.read_cell(row * BUFFER_WIDTH + col);
                self.buffer.write_cell((row - 1) * BUFFER_WIDTH + col, character);
                col = col + 1;
            }
            row = row + 1;
        }
        self.clear_row(BUFFER_HEIGHT - 1);
        self.column_position = 0;
        proof {
            let before = grid_cells(old(self).buffer);
            let after = grid_cells(self.buffer);
            let shifted = scrolled(before, old(self).attr());
            assert forall|i: int| 0 <= i < after.len() implies after[i] == shifted[i] by {
                assert(cell_index(BUFFER_HEIGHT - 1, 0) == 1920);
                if i < 1920 {
                    assert(after[i] == before[i + BUFFER_WIDTH]);
                } else {
                    assert(after[i] == blank_cell(old(self).attr()));
                }
            }
            assert(after =~= shifted);
        }
    }

    /// Emits one byte: a newline scrolls; any other byte is placed as a cell
    /// `(byte, current attribute)` at the cursor column of the bottom row —
    /// after a scroll if that row is already full, so a character is never
    /// dropped or placed past the right edge — and the cursor advances.
    pub fn write_byte(&mut self, byte: u8)
        requires
            old(self).wf(),
        ensures
            final(self).wf(),
            final(self).attr() == old(self).attr(),
            final(self).screen() == write_byte_spec(
                old(self).screen(),
                old(self).attr(),
                byte,
            ),
    {
        if byte == NEWLINE_BYTE {
            self.new_line();
            proof {
                assert(self.screen() =~= write_byte_spec(
                    old(self).screen(),
                    old(self).attr(),
                    byte,
                ));
            }
        } else {
            if self.column_position >= BUFFER_WIDTH {
                self.new_line();
            }
            let row = BUFFER_HEIGHT - 1;
            let col = self.column_position;
            let color_code = self.color_code;
            self.buffer.write_cell(
                row * BUFFER_WIDTH + col,
                ScreenChar { ascii_character: byte, color_code },
            );
            self.column_position = col + 1;
            proof {
                assert(self.screen() =~= write_byte_spec(
                    old(self).screen(),
                    old(self).attr(),
                    byte,
                ));
            }
        }
    }

    /// Emits a string as raw bytes, not code points: every printable byte and
    /// every newline goes to `write_byte` unchanged, every other byte as the
    /// replacement glyph.
    pub fn write_string(&mut self, s: &str)
        requires
            old(self).wf(),
        ensures
            final(self).wf(),
            final(self).attr() == old(self).attr(),
            final(self).screen() == write_bytes_spec(
                old(self).screen(),
                old(self).attr(),
                s.spec_bytes(),
            ),
    {
        let bytes = s.as_bytes();
        let n = bytes.len();
        let mut k: usize = 0;
        while k < n
            invariant
                self.wf(),
                self.attr() == old(self).attr(),
                k <= n,
                n == bytes@.len(),
                bytes@ == s.spec_bytes(),
                self.screen() == write_bytes_spec(
                    old(self).screen(),
                    old(self).attr(),
                    bytes@.take(k as int),
                ),
            decreases n - k,
        {
            let byte = bytes[k];
            proof {
                lemma_write_bytes_snoc(
                    old(self).screen(),
                    old(self).attr(),
                    bytes@.take(k as int),
                    byte,
                );
                assert(bytes@.take(k as int).push(byte) =~= bytes@.take(k as int + 1));
            }
            if (0x20 <= byte && byte <= 0x7e) || byte == NEWLINE_BYTE {
                self.write_byte(byte);
            } else {
                self.write_byte(REPLACEMENT_GLYPH);
            }
            k = k + 1;
        }
        proof {
            assert(bytes@.take(n as int) =~= bytes@);
        }
    }

    /// The cell currently shown at `(row, col)`.
    pub fn cell_at(&self, row: usize, col: usize) -> (r: ScreenChar)
        requires
            self.wf(),
            row < BUFFER_HEIGHT,
            col < BUFFER_WIDTH,
        ensures
            r == self.screen().cells[cell_index(row as int, col as int)],
    {
        self.buffer.read_cell(row * BUFFER_WIDTH + col)
    }

    /// The column the next character lands in (before any scroll).
    pub fn cursor_column(&self) -> (r: usize)
        ensures
            r == self.screen().col,
    {
        self.column_position
    }

    /// The attribute byte new characters are currently written with.
    pub fn current_color_code(&self) -> (r: ColorCode)
        ensures
            r == self.attr(),
    {
        self.color_code
    }
}

/// Forwards a string to the given writer; the console's formatted-print entry
/// points hand their formatted text here.
pub fn _print(writer: &mut Writer, s: &str)
    requires
        old(writer).wf(),
    ensures
        final(writer).wf(),
        final(writer).attr() == old(writer).attr(),
        final(writer).screen() == write_bytes_spec(
            old(writer).screen(),
            old(writer).attr(),
            s.spec_bytes(),
        ),
{
    writer.write_string(s);
}

/// With the cursor at column `n` of a bottom row that still has room, a
/// printable byte lands exactly at column `n`, the cursor advances to
/// `n + 1`, and no other cell of the grid changes.
pub proof fn lemma_printable_byte_appends(s: ScreenState, attr: ColorCode, b: u8, n: nat)
    requires
        s.cells.len() == BUFFER_HEIGHT * BUFFER_WIDTH,
        s.col == n,
        n < BUFFER_WIDTH,
        PRINTABLE_MIN <= b && b <= PRINTABLE_MAX,
    ensures
        write_byte_spec(s, attr, b).col == n + 1,
        write_byte_spec(s, attr, b).cells[bottom_index(n as int)] == (ScreenChar {
            ascii_character: b,
            color_code: attr,
        }),
        forall|i: int|
            0 <= i < s.cells.len() && i != bottom_index(n as int) ==> write_byte_spec(
                s,
                attr,
                b,
            ).cells[i] == s.cells[i],
{
}

/// A byte that is neither printable nor the newline is never stored as
/// itself: the replacement glyph stands in its place at the target cell.
pub proof fn lemma_unprintable_byte_replaced(s: ScreenState, attr: ColorCode, b: u8)
    requires
        s.cells.len() == BUFFER_HEIGHT * BUFFER_WIDTH,
        !(PRINTABLE_MIN <= b && b <= PRINTABLE_MAX),
        b != NEWLINE_BYTE,
    ensures
        sanitize_byte(b) == REPLACEMENT_GLYPH,
        write_byte_spec(s, attr, sanitize_byte(b)).cells[bottom_index(
            if s.col >= BUFFER_WIDTH {
                0int
            } else {
                s.col as int
            },
        )].ascii_character == REPLACEMENT_GLYPH,
{
}

/// A newline rehomes the cursor to column 0 and performs exactly one scroll,
/// whatever column the cursor was in.
pub proof fn lemma_newline_scrolls(s: ScreenState, attr: ColorCode)
    ensures
        write_byte_spec(s, attr, NEWLINE_BYTE).col == 0,
        write_byte_spec(s, attr, NEWLINE_BYTE).cells == scrolled(s.cells, attr),
{
}

/// Scrolling preserves content and order for every row below the top: row
/// `row` becomes row `row - 1`, column for column, and the new bottom row is
/// blank under the given attribute.
pub proof fn lemma_scroll_preserves_rows(cells: Seq<ScreenChar>, attr: ColorCode, row: int, col: int)
    requires
        cells.len() == BUFFER_HEIGHT * BUFFER_WIDTH,
        1 <= row < BUFFER_HEIGHT,
        0 <= col < BUFFER_WIDTH,
    ensures
        scrolled(cells, attr)[cell_index(row - 1, col)] == cells[cell_index(row, col)],
        scrolled(cells, attr)[bottom_index(col)] == blank_cell(attr),
{
    assert(cell_index(row - 1, col) + BUFFER_WIDTH == cell_index(row, col));
}

/// Writing a run of printable bytes that fits in the remaining room of the
/// bottom row fills consecutive cells from the cursor on, moves the cursor
/// past them, and touches nothing else — in particular, no scroll happens.
pub proof fn lemma_fill_row(s: ScreenState, attr: ColorCode, bs: Seq<u8>)
    requires
        s.cells.len() == BUFFER_HEIGHT * BUFFER_WIDTH,
        s.col + bs.len() <= BUFFER_WIDTH,
        forall|j: int| 0 <= j < bs.len() ==> PRINTABLE_MIN <= #[trigger] bs[j] <= PRINTABLE_MAX,
    ensures
        write_bytes_spec(s, attr, bs).col == s.col + bs.len(),
        write_bytes_spec(s, attr, bs).cells.len() == s.cells.len(),
        forall|i: int|
            0 <= i < s.cells.len() && !(bottom_index(s.col as int) <= i < bottom_index(
                s.col as int,
            ) + bs.len()) ==> write_bytes_spec(s, attr, bs).cells[i] == s.cells[i],
        forall|j: int|
            0 <= j < bs.len() ==> write_bytes_spec(s, attr, bs).cells[bottom_index(
                s.col + j,
            )] == (ScreenChar { ascii_character: bs[j], color_code: attr }),
    decreases bs.len(),
{
    if bs.len() > 0 {
        let b = bs[0];
        assert(sanitize_byte(b) == b);
        let s1 = write_byte_spec(s, attr, b);
        let rest = bs.drop_first();
        let b0 = bottom_index(s.col as int);
        assert(write_bytes_spec(s, attr, bs) == write_bytes_spec(s1, attr, rest));
        assert(s1.col == s.col + 1);
        assert(s1.cells == s.cells.update(
            b0,
            ScreenChar { ascii_character: b, color_code: attr },
        ));
        lemma_fill_row(s1, attr, rest);
        assert forall|i: int|
            0 <= i < s.cells.len() && !(b0 <= i < b0 + bs.len()) implies write_bytes_spec(
            s,
            attr,
            bs,
        ).cells[i] == s.cells[i] by {
            assert(write_bytes_spec(s1, attr, rest).cells[i] == s1.cells[i]);
            assert(s1.cells[i] == s.cells[i]);
        }
        assert forall|j: int| 0 <= j < bs.len() implies write_bytes_spec(s, attr, bs).cells[
            bottom_index(s.col + j)
        ] == (ScreenChar { ascii_character: bs[j], color_code: attr }) by {
            if j == 0 {
                assert(write_bytes_spec(s1, attr, rest).cells[b0] == s1.cells[b0]);
                assert(s1.cells[b0] == (ScreenChar { ascii_character: b, color_code: attr }));
            } else {
                assert(rest[j - 1] == bs[j]);
                assert(bottom_index(s1.col + (j - 1)) == bottom_index(s.col + j));
                assert(write_bytes_spec(s1, attr, rest).cells[bottom_index(s1.col + (j - 1))]
                    == (ScreenChar { ascii_character: rest[j - 1], color_code: attr }));
            }
        }
    }
}

/// Writing one more printable byte than a row holds, starting from column 0,
/// scrolls exactly once — when the right edge is crossed — and the extra
/// byte lands at column 0 of the freshly scrolled bottom row.
pub proof fn lemma_line_wrap(s: ScreenState, attr: ColorCode, bs: Seq<u8>)
    requires
        s.cells.len() == BUFFER_HEIGHT * BUFFER_WIDTH,
        s.col == 0,
        bs.len() == BUFFER_WIDTH + 1,
        forall|j: int| 0 <= j < bs.len() ==> PRINTABLE_MIN <= #[trigger] bs[j] <= PRINTABLE_MAX,
    ensures
        write_bytes_spec(s, attr, bs.take(BUFFER_WIDTH as int)).col == BUFFER_WIDTH,
        forall|i: int|
            0 <= i < bottom_index(0) ==> write_bytes_spec(
                s,
                attr,
                bs.take(BUFFER_WIDTH as int),
            ).cells[i] == s.cells[i],
        write_bytes_spec(s, attr, bs) == (ScreenState {
            cells: scrolled(
                write_bytes_spec(s, attr, bs.take(BUFFER_WIDTH as int)).cells,
                attr,
            ).update(
                bottom_index(0),
                ScreenChar { ascii_character: bs[BUFFER_WIDTH as int], color_code: attr },
            ),
            col: 1,
        }),
{
    let w = BUFFER_WIDTH as int;
    let head = bs.take(w);
    lemma_fill_row(s, attr, head);
    let full = write_bytes_spec(s, attr, head);
    lemma_write_bytes_snoc(s, attr, head, bs[w]);
    assert(head.push(bs[w]) =~= bs);
    assert(sanitize_byte(bs[w]) == bs[w]);
    assert(write_bytes_spec(s, attr, bs) == write_byte_spec(full, attr, bs[w]));
}

} // verus!
