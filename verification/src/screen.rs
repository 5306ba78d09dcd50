//! The mathematical model of the text screen.
//!
//! Every writer operation is described here as a function on an abstract
//! [`ScreenState`]: a cursor column, the active colour byte, and the grid of
//! cells as a sequence of rows. The executable driver promises, cell for
//! cell, to end in the state these functions compute, and the proof
//! functions at the bottom state the laws the operations obey.

use vstd::prelude::*;

verus! {

/// Number of visible rows in the text grid.
pub const BUFFER_HEIGHT: usize = 25;

/// Number of character cells in each row.
pub const BUFFER_WIDTH: usize = 80;

/// The newline byte, which advances to a fresh line instead of printing.
pub const NEWLINE: u8 = 0x0a;

/// The blank byte a cleared cell shows.
pub const BLANK: u8 = 0x20;

/// The glyph substituted for any byte the display cannot render.
pub const PLACEHOLDER: u8 = 0xfe;

/// One cell as the hardware lays it out: the character byte in the low
/// half and the colour byte in the high half of one 16-bit value.
pub open spec fn cell_val(character: u8, color: u8) -> u16 {
    (character + color * 0x100) as u16
}

/// A byte the display renders as itself.
pub open spec fn is_printable(b: u8) -> bool {
    0x20 <= b <= 0x7e
}

/// The byte actually handed to the cell writer: printable bytes and the
/// newline pass through, everything else becomes the placeholder glyph.
pub open spec fn sanitized(b: u8) -> u8 {
    if is_printable(b) || b == NEWLINE {
        b
    } else {
        PLACEHOLDER
    }
}

/// The abstract state of a writer: cursor column, active colour byte and
/// the grid contents, row 0 topmost.
#[verifier::ext_equal]
pub ghost struct ScreenState {
    pub col: int,
    pub color: u8,
    pub screen: Seq<Seq<u16>>,
}

/// A structurally sound state: the cursor sits at most one place past the
/// last column, and the grid is exactly `BUFFER_HEIGHT` rows of
/// `BUFFER_WIDTH` cells.
pub open spec fn state_wf(st: ScreenState) -> bool {
    &&& 0 <= st.col <= BUFFER_WIDTH
    &&& st.screen.len() == BUFFER_HEIGHT
    &&& forall|r: int| 0 <= r < BUFFER_HEIGHT ==> (#[trigger] st.screen[r]).len() == BUFFER_WIDTH
}

/// A row of blank cells in the given colour.
pub open spec fn blank_row(color: u8) -> Seq<u16> {
    Seq::new(BUFFER_WIDTH as nat, |i: int| cell_val(BLANK, color))
}

/// A whole grid of blank cells in the given colour.
pub open spec fn blank_screen(color: u8) -> Seq<Seq<u16>> {
    Seq::new(BUFFER_HEIGHT as nat, |r: int| blank_row(color))
}

/// The grid after one scroll: every row moves up one place, the old top
/// row is discarded, and the freed bottom row is blank in the given colour.
pub open spec fn scrolled(screen: Seq<Seq<u16>>, color: u8) -> Seq<Seq<u16>> {
    screen.subrange(1, BUFFER_HEIGHT as int).push(blank_row(color))
}

/// A line advance: scroll the grid in the writer's current colour and
/// return the cursor to column 0.
pub open spec fn advanced(st: ScreenState) -> ScreenState {
    ScreenState { col: 0, color: st.color, screen: scrolled(st.screen, st.color) }
}

/// One printable byte placed at the cursor on the bottom row, with the
/// cursor moving one place right.
pub open spec fn printed(st: ScreenState, b: u8) -> ScreenState {
    ScreenState {
        col: st.col + 1,
        color: st.color,
        screen: st.screen.update(
            BUFFER_HEIGHT - 1,
            st.screen[BUFFER_HEIGHT - 1].update(st.col, cell_val(b, st.color)),
        ),
    }
}

/// What writing one byte does: a newline advances the line; any other byte
/// is printed at the cursor, after a line advance if the row is already full.
pub open spec fn written_byte(st: ScreenState, b: u8) -> ScreenState {
    if b == NEWLINE {
        advanced(st)
    } else if st.col >= BUFFER_WIDTH {
        printed(advanced(st), b)
    } else {
        printed(st, b)
    }
}

/// Writing a sequence of bytes, first byte first.
pub open spec fn written_bytes(st: ScreenState, bs: Seq<u8>) -> ScreenState
    decreases bs.len(),
{
    if bs.len() == 0 {
        st
    } else {
        written_byte(written_bytes(st, bs.drop_last()), bs.last())
    }
}

/// Writing a string: every byte is sanitized, then written.
pub open spec fn written_string(st: ScreenState, bs: Seq<u8>) -> ScreenState {
    written_bytes(st, bs.map_values(|b: u8| sanitized(b)))
}

/// Writing one byte keeps the state structurally sound.
pub proof fn lemma_written_byte_wf(st: ScreenState, b: u8)
    requires
        state_wf(st),
    ensures
        state_wf(written_byte(st, b)),
{
}

/// Writing any sequence of bytes keeps the state structurally sound.
pub proof fn lemma_written_bytes_wf(st: ScreenState, bs: Seq<u8>)
    requires
        state_wf(st),
    ensures
        state_wf(written_bytes(st, bs)),
    decreases bs.len(),
{
    if bs.len() > 0 {
        lemma_written_bytes_wf(st, bs.drop_last());
        lemma_written_byte_wf(written_bytes(st, bs.drop_last()), bs.last());
    }
}

/// Writing a concatenation of two byte sequences is writing the first,
/// then the second: output composes the way calls compose.
pub proof fn lemma_written_bytes_concat(st: ScreenState, a: Seq<u8>, b: Seq<u8>)
    ensures
        written_bytes(st, a + b) == written_bytes(written_bytes(st, a), b),
    decreases b.len(),
{
    if b.len() == 0 {
        assert(a + b =~= a);
    } else {
        lemma_written_bytes_concat(st, a, b.drop_last());
        assert((a + b).drop_last() =~= a + b.drop_last());
    }
}

/// Writing a printable byte with room on the row stores exactly that byte
/// in the writer's colour at the old cursor cell, and moves the cursor one
/// place right.
pub proof fn lemma_printable_byte_stored(st: ScreenState, b: u8)
    requires
        state_wf(st),
        is_printable(b),
        st.col < BUFFER_WIDTH,
    ensures
        written_byte(st, b).screen[BUFFER_HEIGHT - 1][st.col] == cell_val(b, st.color),
        written_byte(st, b).col == st.col + 1,
        written_byte(st, b).color == st.color,
{
}

/// Writing a string made of one unrenderable byte stores the placeholder
/// glyph, never the byte itself.
pub proof fn lemma_unprintable_substituted(st: ScreenState, b: u8)
    requires
        state_wf(st),
        !is_printable(b),
        b != NEWLINE,
        st.col < BUFFER_WIDTH,
    ensures
        written_string(st, seq![b]).screen[BUFFER_HEIGHT - 1][st.col]
            == cell_val(PLACEHOLDER, st.color),
        b != PLACEHOLDER ==> written_string(st, seq![b]).screen[BUFFER_HEIGHT - 1][st.col]
            != cell_val(b, st.color),
{
    let bs = seq![b].map_values(|x: u8| sanitized(x));
    assert(bs =~= seq![PLACEHOLDER]);
    assert(bs.drop_last() =~= Seq::<u8>::empty());
    assert(written_bytes(st, bs.drop_last()) == st);
    assert(bs.last() == PLACEHOLDER);
    assert(written_bytes(st, bs) == written_byte(st, PLACEHOLDER));
}

/// Writing a run of printable bytes that fits on the row fills the cells
/// from the cursor rightward, in order, and touches nothing else.
pub proof fn lemma_fill_row(st: ScreenState, bs: Seq<u8>)
    requires
        state_wf(st),
        st.col + bs.len() <= BUFFER_WIDTH,
        forall|i: int| 0 <= i < bs.len() ==> is_printable(#[trigger] bs[i]),
    ensures
        ({
            let end = written_bytes(st, bs);
            &&& end.col == st.col + bs.len()
            &&& end.color == st.color
            &&& forall|r: int|
                0 <= r < BUFFER_HEIGHT - 1 ==> #[trigger] end.screen[r] == st.screen[r]
            &&& forall|c: int|
                0 <= c < st.col ==> #[trigger] end.screen[BUFFER_HEIGHT - 1][c]
                    == st.screen[BUFFER_HEIGHT - 1][c]
            &&& forall|c: int|
                st.col <= c < st.col + bs.len() ==> #[trigger] end.screen[BUFFER_HEIGHT - 1][c]
                    == cell_val(bs[c - st.col], st.color)
            &&& forall|c: int|
                st.col + bs.len() <= c < BUFFER_WIDTH ==> #[trigger] end.screen[BUFFER_HEIGHT
                    - 1][c] == st.screen[BUFFER_HEIGHT - 1][c]
        }),
    decreases bs.len(),
{
    if bs.len() > 0 {
        let first = bs.drop_last();
        assert(forall|i: int| 0 <= i < first.len() ==> #[trigger] first[i] == bs[i]);
        lemma_fill_row(st, first);
        lemma_written_bytes_wf(st, first);
        let prev = written_bytes(st, first);
        let b = bs.last();
        assert(written_bytes(st, bs) == written_byte(prev, b));
        assert(prev.col == st.col + bs.len() - 1);
        let end = printed(prev, b);
        assert(written_byte(prev, b) == end);
        assert(end.screen[BUFFER_HEIGHT - 1] == prev.screen[BUFFER_HEIGHT - 1].update(
            prev.col,
            cell_val(b, st.color),
        ));
        assert(forall|r: int|
            0 <= r < BUFFER_HEIGHT - 1 ==> #[trigger] end.screen[r] == prev.screen[r]);
    }
}

/// A line advance moves every row up by exactly one place: afterwards, row
/// `r - 1` holds what row `r` held before, for every row but the discarded top.
pub proof fn lemma_line_advance_shifts(st: ScreenState, r: int)
    requires
        state_wf(st),
        1 <= r < BUFFER_HEIGHT,
    ensures
        written_byte(st, NEWLINE).screen[r - 1] == st.screen[r],
{
}

/// After a line advance, every cell of the freed bottom row is a blank in
/// the colour the writer had at the time of clearing.
pub proof fn lemma_cleared_row_blank(st: ScreenState, c: int)
    requires
        state_wf(st),
        0 <= c < BUFFER_WIDTH,
    ensures
        written_byte(st, NEWLINE).screen[BUFFER_HEIGHT - 1].len() == BUFFER_WIDTH,
        written_byte(st, NEWLINE).screen[BUFFER_HEIGHT - 1][c] == cell_val(BLANK, st.color),
{
}

/// Writing one printable byte past a full row scrolls exactly once: the
/// cursor lands at column 1, the byte lands at column 0 of the bottom row,
/// and every other row is the row that was below it.
pub proof fn lemma_overflow_scrolls_once(st: ScreenState, bs: Seq<u8>)
    requires
        state_wf(st),
        st.col == 0,
        bs.len() == BUFFER_WIDTH + 1,
        forall|i: int| 0 <= i < bs.len() ==> is_printable(#[trigger] bs[i]),
    ensures
        ({
            let end = written_bytes(st, bs);
            &&& end.col == 1
            &&& end.screen[BUFFER_HEIGHT - 1][0] == cell_val(bs[BUFFER_WIDTH as int], st.color)
            &&& forall|c: int|
                1 <= c < BUFFER_WIDTH ==> #[trigger] end.screen[BUFFER_HEIGHT - 1][c]
                    == cell_val(BLANK, st.color)
            &&& forall|c: int|
                0 <= c < BUFFER_WIDTH ==> #[trigger] end.screen[BUFFER_HEIGHT - 2][c]
                    == cell_val(bs[c], st.color)
            &&& forall|r: int|
                0 <= r < BUFFER_HEIGHT - 2 ==> #[trigger] end.screen[r] == st.screen[r + 1]
        }),
{
    let first = bs.drop_last();
    lemma_fill_row(st, first);
    lemma_written_bytes_wf(st, first);
    let mid = written_bytes(st, first);
    let b = bs.last();
    assert(mid.col == BUFFER_WIDTH);
    assert(written_bytes(st, bs) == written_byte(mid, b));
    let adv = advanced(mid);
    let end = printed(adv, b);
    assert(written_byte(mid, b) == end);
    assert(adv.screen[BUFFER_HEIGHT - 1] == blank_row(st.color));
    assert(end.screen[BUFFER_HEIGHT - 1] == blank_row(st.color).update(0, cell_val(b, st.color)));
    assert(end.screen[BUFFER_HEIGHT - 1][0] == cell_val(b, st.color));
    assert(b == bs[BUFFER_WIDTH as int]);
    assert(forall|c: int|
        1 <= c < BUFFER_WIDTH ==> #[trigger] end.screen[BUFFER_HEIGHT - 1][c] == cell_val(
            BLANK,
            st.color,
        ));
    assert(end.screen[BUFFER_HEIGHT - 2] == mid.screen[BUFFER_HEIGHT - 1]);
    assert(forall|c: int|
        0 <= c < BUFFER_WIDTH ==> #[trigger] mid.screen[BUFFER_HEIGHT - 1][c] == cell_val(
            first[c],
            st.color,
        ));
    assert(forall|c: int| 0 <= c < BUFFER_WIDTH ==> first[c] == bs[c]);
    assert(forall|r: int|
        0 <= r < BUFFER_HEIGHT - 2 ==> #[trigger] end.screen[r] == mid.screen[r + 1]);
}

} // verus!
