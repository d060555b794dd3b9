use vstd::prelude::*;

use crate::color::ColorCode;

verus! {

/// Number of rows on the screen.
pub const BUFFER_HEIGHT: usize = 25;

/// Number of columns on the screen.
pub const BUFFER_WIDTH: usize = 80;

/// One cell of the display: a character code and the style it is drawn in.
#[derive(Debug, Clone, Copy, PartialEq, Eq, Structural)]
pub struct BufferChar {
    pub character: u8,
    pub color: ColorCode,
}

/// The volatile crate's single-value cell, whose loads and stores the
/// compiler may neither elide nor reorder.
#[verifier::external_type_specification]
#[verifier::external_body]
#[verifier::reject_recursive_types(T)]
pub struct ExVolatile<T: Copy>(volatile::Volatile<T>);

/// The cell value held by a volatile slot: what it was made with or what was
/// last stored in it.
pub uninterp spec fn slot_value(slot: volatile::Volatile<BufferChar>) -> BufferChar;

/// Relies on volatile::Volatile::new, applied to every cell through std's
/// array `map`: each slot holds the value it was made from.
#[verifier::external_body]
fn volatile_grid(cells: [[BufferChar; BUFFER_WIDTH]; BUFFER_HEIGHT]) -> (r: [[volatile::Volatile<BufferChar>; BUFFER_WIDTH]; BUFFER_HEIGHT])
    ensures
        forall|i: int, j: int|
            0 <= i < BUFFER_HEIGHT && 0 <= j < BUFFER_WIDTH ==> slot_value(#[trigger] r@[i]@[j]) == cells@[i]@[j],
{
    cells.map(|row| row.map(volatile::Volatile::new))
}

/// Relies on volatile::Volatile::read: a volatile load of the slot's value.
#[verifier::external_body]
fn slot_read(slot: &volatile::Volatile<BufferChar>) -> (r: BufferChar)
    ensures
        r == slot_value(*slot),
{
    slot.read()
}

/// Relies on volatile::Volatile::write: a volatile store of `value` into the slot.
#[verifier::external_body]
fn slot_write(slot: &mut volatile::Volatile<BufferChar>, value: BufferChar)
    ensures
        slot_value(*final(slot)) == value,
{
    slot.write(value)
}

/// The character grid, row by row; each cell is accessed only through
/// volatile loads and stores.
pub struct Buffer {
    chars: [[volatile::Volatile<BufferChar>; BUFFER_WIDTH]; BUFFER_HEIGHT],
}

impl View for Buffer {
    type V = Seq<Seq<BufferChar>>;

    closed spec fn view(&self) -> Seq<Seq<BufferChar>> {
        Seq::new(
            BUFFER_HEIGHT as nat,
            |i: int| Seq::new(BUFFER_WIDTH as nat, |j: int| slot_value(self.chars@[i]@[j])),
        )
    }
}

/// A row of `BUFFER_WIDTH` copies of `cell`.
pub open spec fn uniform_row(cell: BufferChar) -> Seq<BufferChar> {
    Seq::new(BUFFER_WIDTH as nat, |j: int| cell)
}

impl Buffer {
    pub proof fn lemma_shape(&self)
        ensures
            self@.len() == BUFFER_HEIGHT,
            forall|i: int| 0 <= i < BUFFER_HEIGHT ==> #[trigger] self@[i].len() == BUFFER_WIDTH,
    {
    }

    /// A grid in ordinary memory with every cell set to `fill`.
    pub fn new(fill: BufferChar) -> (b: Buffer)
        ensures
            b@ == Seq::new(BUFFER_HEIGHT as nat, |i: int| uniform_row(fill)),
    {
        let cells = [[fill; BUFFER_WIDTH]; BUFFER_HEIGHT];
        let b = Buffer { chars: volatile_grid(cells) };
        assert forall|i: int| 0 <= i < BUFFER_HEIGHT implies #[trigger] b@[i] =~= uniform_row(fill) by {
            assert forall|j: int| 0 <= j < BUFFER_WIDTH implies #[trigger] b@[i][j] == fill by {
                assert(slot_value(b.chars@[i]@[j]) == cells@[i]@[j]);
            }
        }
        assert(b@ =~= Seq::new(BUFFER_HEIGHT as nat, |i: int| uniform_row(fill)));
        b
    }

    pub fn read(&self, row: usize, col: usize) -> (r: BufferChar)
        requires
            row < BUFFER_HEIGHT,
            col < BUFFER_WIDTH,
        ensures
            r == self@[row as int][col as int],
    {
        slot_read(&self.chars[row][col])
    }

    pub fn write(&mut self, row: usize, col: usize, value: BufferChar)
        requires
            row < BUFFER_HEIGHT,
            col < BUFFER_WIDTH,
        ensures
            final(self)@ == old(self)@.update(row as int, old(self)@[row as int].update(col as int, value)),
    {
        slot_write(&mut self.chars[row][col], value);
        let ghost want = old(self)@.update(row as int, old(self)@[row as int].update(col as int, value));
        assert forall|i: int| 0 <= i < BUFFER_HEIGHT implies #[trigger] self@[i] =~= want[i] by {}
        assert(self@ =~= want);
    }

    /// Copies row `from` over row `to`, cell by cell.
    pub fn copy_row(&mut self, from: usize, to: usize)
        requires
            from < BUFFER_HEIGHT,
            to < BUFFER_HEIGHT,
            from != to,
        ensures
            final(self)@ == old(self)@.update(to as int, old(self)@[from as int]),
    {
        let mut col: usize = 0;
        assert(old(self)@[to as int] =~= Seq::new(
            BUFFER_WIDTH as nat,
            |j: int| if j < col { old(self)@[from as int][j] } else { old(self)@[to as int][j] },
        ));
        assert(self@ =~= old(self)@.update(to as int, old(self)@[to as int]));
        while col < BUFFER_WIDTH
            invariant
                from < BUFFER_HEIGHT,
                to < BUFFER_HEIGHT,
                from != to,
                col <= BUFFER_WIDTH,
                self@ == old(self)@.update(
                    to as int,
                    Seq::new(
                        BUFFER_WIDTH as nat,
                        |j: int| if j < col { old(self)@[from as int][j] } else { old(self)@[to as int][j] },
                    ),
                ),
            decreases BUFFER_WIDTH - col,
        {
            let cell = self.read(from, col);
            self.write(to, col, cell);
            col = col + 1;
            assert(self@[to as int] =~= Seq::new(
                BUFFER_WIDTH as nat,
                |j: int| if j < col { old(self)@[from as int][j] } else { old(self)@[to as int][j] },
            ));
        }
        assert(self@[to as int] =~= old(self)@[from as int]);
        assert(self@ =~= old(self)@.update(to as int, old(self)@[from as int]));
    }

    /// Sets every cell of `row` to `cell`.
    pub fn fill_row(&mut self, row: usize, cell: BufferChar)
        requires
            row < BUFFER_HEIGHT,
        ensures
            final(self)@ == old(self)@.update(row as int, uniform_row(cell)),
    {
        let mut col: usize = 0;
        assert(old(self)@[row as int] =~= Seq::new(
            BUFFER_WIDTH as nat,
            |j: int| if j < col { cell } else { old(self)@[row as int][j] },
        ));
        assert(self@ =~= old(self)@.update(row as int, old(self)@[row as int]));
        while col < BUFFER_WIDTH
            invariant
                row < BUFFER_HEIGHT,
                col <= BUFFER_WIDTH,
                self@ == old(self)@.update(
                    row as int,
                    Seq::new(BUFFER_WIDTH as nat, |j: int| if j < col { cell } else { old(self)@[row as int][j] }),
                ),
            decreases BUFFER_WIDTH - col,
        {
            self.write(row, col, cell);
            col = col + 1;
            assert(self@[row as int] =~= Seq::new(
                BUFFER_WIDTH as nat,
                |j: int| if j < col { cell } else { old(self)@[row as int][j] },
            ));
        }
        assert(self@[row as int] =~= uniform_row(cell));
        assert(self@ =~= old(self)@.update(row as int, uniform_row(cell)));
    }
}

} // verus!
