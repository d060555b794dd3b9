use vstd::prelude::*;

use crate::buffer::{uniform_row, BufferChar, BUFFER_HEIGHT, BUFFER_WIDTH};
use crate::writer::{
    blank, is_printable, sanitize, scrolled, Screen, FALLBACK_GLYPH, HOME_ROW, NEWLINE,
};

verus! {

/// `n` newline codes.
pub open spec fn newlines(n: nat) -> Seq<u8> {
    Seq::new(n, |i: int| NEWLINE)
}

/// `write_bytes` of a single byte is `write_byte` of that byte, sanitized.
proof fn lemma_write_one(s: Screen, b: u8)
    ensures
        s.write_bytes(seq![b]) == s.write_byte(sanitize(b)),
{
    assert(seq![b].drop_last() =~= Seq::<u8>::empty());
    assert(s.write_bytes(Seq::<u8>::empty()) == s);
}

/// A byte that is neither a newline nor printable is drawn as the fallback
/// glyph, in the cell just before the cursor; that cell never holds the byte
/// itself unless the byte is the fallback glyph.
pub proof fn unsupported_byte_is_drawn_as_fallback(s: Screen, b: u8)
    requires
        s.wf(),
        b != NEWLINE,
        !is_printable(b),
    ensures
        ({
            let t = s.write_bytes(seq![b]);
            &&& t.grid[t.row][t.column - 1].character == FALLBACK_GLYPH
            &&& b != FALLBACK_GLYPH ==> t.grid[t.row][t.column - 1].character != b
        }),
{
    lemma_write_one(s, b);
}

/// A newline or a byte from 0x20 to 0x7d is handed to `write_byte` as it is.
pub proof fn supported_byte_is_forwarded(s: Screen, b: u8)
    requires
        b == NEWLINE || (0x20 <= b <= 0x7d),
    ensures
        sanitize(b) == b,
        s.write_bytes(seq![b]) == s.write_byte(b),
{
    lemma_write_one(s, b);
}

/// The first `k` bytes of printable `text`, written from column 0, fill the
/// first `k` cells of the cursor's row and leave the cursor on that row.
proof fn lemma_fill_row(s: Screen, text: Seq<u8>, k: int)
    requires
        s.wf(),
        s.column == 0,
        0 <= k <= text.len(),
        k <= BUFFER_WIDTH,
        forall|i: int| 0 <= i < text.len() ==> is_printable(#[trigger] text[i]),
    ensures
        s.write_bytes(text.take(k)) == (Screen {
            grid: s.grid.update(
                s.row,
                Seq::new(
                    BUFFER_WIDTH as nat,
                    |j: int|
                        if j < k {
                            BufferChar { character: text[j], color: s.color }
                        } else {
                            s.grid[s.row][j]
                        },
                ),
            ),
            column: k,
            row: s.row,
            color: s.color,
        }),
    decreases k,
{
    let want_row = Seq::new(
        BUFFER_WIDTH as nat,
        |j: int|
            if j < k {
                BufferChar { character: text[j], color: s.color }
            } else {
                s.grid[s.row][j]
            },
    );
    if k == 0 {
        assert(text.take(0) =~= Seq::<u8>::empty());
        assert(want_row =~= s.grid[s.row]);
        assert(s.grid.update(s.row, want_row) =~= s.grid);
    } else {
        lemma_fill_row(s, text, k - 1);
        assert(text.take(k).drop_last() =~= text.take(k - 1));
        let prev = s.write_bytes(text.take(k - 1));
        let t = s.write_bytes(text.take(k));
        assert(t == prev.write_byte(text[k - 1]));
        assert(t.grid[s.row] =~= want_row);
        assert(t.grid =~= s.grid.update(s.row, want_row));
    }
}

/// Writing a full row of printable bytes from column 0 and then one more
/// wraps exactly once: the row is filled, and the extra byte lands at column 0
/// of the next row.
pub proof fn one_past_full_row_wraps_once(s: Screen, text: Seq<u8>)
    requires
        s.wf(),
        s.column == 0,
        s.row < BUFFER_HEIGHT - 1,
        text.len() == BUFFER_WIDTH + 1,
        forall|i: int| 0 <= i < text.len() ==> is_printable(#[trigger] text[i]),
    ensures
        ({
            let t = s.write_bytes(text);
            &&& t.row == s.row + 1
            &&& t.column == 1
            &&& t.grid[s.row + 1][0] == BufferChar { character: text[BUFFER_WIDTH as int], color: s.color }
            &&& forall|j: int|
                0 <= j < BUFFER_WIDTH ==> #[trigger] t.grid[s.row][j] == BufferChar {
                    character: text[j],
                    color: s.color,
                }
        }),
{
    let w = BUFFER_WIDTH as int;
    lemma_fill_row(s, text, w);
    assert(text.take(w + 1) =~= text);
    assert(text.drop_last() =~= text.take(w));
}

/// After `k` newlines from the start of the home row, with `k` short of the
/// last row, the cursor is `k` rows down and the grid is unchanged.
proof fn lemma_newlines_descend(s: Screen, k: int)
    requires
        s.wf(),
        s.row == HOME_ROW,
        s.column == 0,
        0 <= k < BUFFER_HEIGHT - HOME_ROW,
    ensures
        s.write_bytes(newlines(k as nat)) == (Screen {
            grid: s.grid,
            column: 0,
            row: HOME_ROW + k,
            color: s.color,
        }),
    decreases k,
{
    if k == 0 {
        assert(newlines(0) =~= Seq::<u8>::empty());
    } else {
        lemma_newlines_descend(s, k - 1);
        assert(newlines(k as nat).drop_last() =~= newlines((k - 1) as nat));
    }
}

/// From the start of the home row, the newlines that take the cursor past the
/// last row scroll exactly once: every newline before the last leaves the
/// grid unchanged, the last one scrolls it, and row 0 is never altered.
pub proof fn newlines_from_home_scroll_once(s: Screen)
    requires
        s.wf(),
        s.row == HOME_ROW,
        s.column == 0,
    ensures
        forall|k: int|
            0 <= k < BUFFER_HEIGHT - HOME_ROW ==> (#[trigger] s.write_bytes(newlines(k as nat))).grid
                == s.grid,
        ({
            let t = s.write_bytes(newlines((BUFFER_HEIGHT - HOME_ROW) as nat));
            &&& t.grid == scrolled(s.grid, s.color)
            &&& t.grid[0] == s.grid[0]
            &&& t.row == BUFFER_HEIGHT - 1
            &&& t.column == 0
        }),
{
    assert forall|k: int| 0 <= k < BUFFER_HEIGHT - HOME_ROW implies (#[trigger] s.write_bytes(
        newlines(k as nat),
    )).grid == s.grid by {
        lemma_newlines_descend(s, k);
    }
    let n = BUFFER_HEIGHT - HOME_ROW;
    lemma_newlines_descend(s, n - 1);
    assert(newlines(n as nat).drop_last() =~= newlines((n - 1) as nat));
}

/// A scroll moves every row from 2 down to the last up by one, blanks the
/// last row and keeps row 0.
pub proof fn scroll_keeps_row_order(s: Screen)
    requires
        s.wf(),
        s.row == BUFFER_HEIGHT - 1,
    ensures
        ({
            let t = s.write_byte(NEWLINE);
            &&& forall|r: int| 2 <= r < BUFFER_HEIGHT ==> #[trigger] t.grid[r - 1] == s.grid[r]
            &&& t.grid[BUFFER_HEIGHT - 1] == uniform_row(blank(s.color))
            &&& t.grid[0] == s.grid[0]
        }),
{
}

/// Resetting twice leaves the same state as resetting once.
pub proof fn reset_is_idempotent(s: Screen)
    ensures
        s.reset().reset() == s.reset(),
{
}

} // verus!
