//! A canvas drawn on a character terminal.
//!
//! Each character cell shows two vertically stacked pixels: the upper half
//! block glyph in the upper pixel's color over the lower pixel's color. The
//! canvas keeps the previous frame and emits only the runs of cells that
//! changed, as patches of terminal output.
use std::ops::Range;
use vstd::prelude::*;

use crate::canvas::{idx, Canvas};
use crate::color::Color;
use crossterm::QueueableCommand;

verus! {

/// The decimal digits of `n`, in ASCII, without leading zeros.
pub open spec fn decimal(n: nat) -> Seq<u8>
    decreases n,
{
    if n < 10 {
        seq![(48 + n) as u8]
    } else {
        decimal(n / 10).push((48 + n % 10) as u8)
    }
}

/// The bytes that crossterm's `SetColors` writes for an RGB foreground and
/// background, given as the channels fg.r, fg.g, fg.b, bg.r, bg.g, bg.b,
/// while ANSI colors are enabled: `ESC [ 38;2;r;g;b;48;2;r;g;b m`.
pub open spec fn set_colors_ansi(channels: Seq<u8>) -> Seq<u8> {
    let semi = seq![0x3Bu8];
    seq![0x1Bu8, 0x5Bu8, 0x33u8, 0x38u8, 0x3Bu8, 0x32u8, 0x3Bu8] + decimal(channels[0] as nat) + semi
        + decimal(channels[1] as nat) + semi + decimal(channels[2] as nat) + seq![
        0x3Bu8,
        0x34u8,
        0x38u8,
        0x3Bu8,
        0x32u8,
        0x3Bu8,
    ] + decimal(channels[3] as nat) + semi + decimal(channels[4] as nat) + semi + decimal(
        channels[5] as nat,
    ) + seq![0x6Du8]
}

/// What `SetColors` writes while ANSI colors are disabled (crossterm reads
/// the NO_COLOR environment variable): `ESC [ ; m`.
pub open spec fn colors_disabled_bytes() -> Seq<u8> {
    seq![0x1Bu8, 0x5Bu8, 0x3Bu8, 0x6Du8]
}

/// Whether `text` is what `SetColors` writes for the pair `upper` over `lower`.
pub open spec fn is_color_text(text: Seq<u8>, upper: Color, lower: Color) -> bool {
    text == set_colors_ansi(pair_channels(upper, lower)) || text == colors_disabled_bytes()
}

/// The bytes that crossterm's `cursor::MoveTo` writes to move the cursor to
/// column `x`, row `y`: `ESC [ {y + 1} ; {x + 1} H`.
pub open spec fn move_to_ansi(position: (u16, u16)) -> Seq<u8> {
    seq![0x1Bu8, 0x5Bu8] + decimal(position.1 as nat + 1) + seq![0x3Bu8] + decimal(
        position.0 as nat + 1,
    ) + seq![0x48u8]
}

/// The upper half block glyph, U+2580, in UTF-8.
pub open spec fn half_block_bytes() -> Seq<u8> {
    seq![0xE2u8, 0x96u8, 0x80u8]
}

/// The escape sequence that hides the cursor.
pub open spec fn hide_cursor_bytes() -> Seq<u8> {
    seq![0x1Bu8, 0x5Bu8, 0x3Fu8, 0x32u8, 0x35u8, 0x6Cu8]
}

/// The escape sequence that shows the cursor.
pub open spec fn show_cursor_bytes() -> Seq<u8> {
    seq![0x1Bu8, 0x5Bu8, 0x3Fu8, 0x32u8, 0x35u8, 0x68u8]
}

/// The color channels that a color pair escape sequence carries.
pub open spec fn pair_channels(upper: Color, lower: Color) -> Seq<u8> {
    seq![upper.r, upper.g, upper.b, lower.r, lower.g, lower.b]
}

/// Relies on crossterm's `SetColors` command (with `QueueableCommand::queue`):
/// appends `ESC [ 38;2;r;g;b;48;2;r;g;b m` for the foreground `upper` and
/// background `lower`, or `ESC [ ; m` while ANSI colors are disabled;
/// writing to a `Vec<u8>` cannot fail.
#[verifier::external_body]
fn queue_set_colors(data: &mut Vec<u8>, upper: &Color, lower: &Color)
    ensures
        final(data)@.len() >= old(data)@.len(),
        final(data)@.subrange(0, old(data)@.len() as int) == old(data)@,
        final(data)@.subrange(old(data)@.len() as int, final(data)@.len() as int)
            == set_colors_ansi(pair_channels(*upper, *lower)) || final(data)@.subrange(
            old(data)@.len() as int,
            final(data)@.len() as int,
        ) == colors_disabled_bytes(),
{
    let fg = crossterm::style::Color::Rgb { r: upper.r, g: upper.g, b: upper.b };
    let bg = crossterm::style::Color::Rgb { r: lower.r, g: lower.g, b: lower.b };
    let _ = data.queue(crossterm::style::SetColors(crossterm::style::Colors::new(fg, bg)));
}

/// Relies on crossterm's `Print` command: appends the UTF-8 bytes of the
/// upper half block glyph; writing to a `Vec<u8>` cannot fail.
#[verifier::external_body]
fn queue_half_block(data: &mut Vec<u8>)
    ensures
        final(data)@ == old(data)@ + half_block_bytes(),
{
    let _ = data.queue(crossterm::style::Print("\u{2580}"));
}

/// Relies on crossterm's `cursor::MoveTo` command: appends
/// `ESC [ {y + 1} ; {x + 1} H`; writing to a `Vec<u8>` cannot fail. It adds one to each coordinate, so
/// neither may be `u16::MAX`.
#[verifier::external_body]
fn queue_move_to(out: &mut Vec<u8>, x: u16, y: u16)
    requires
        x < u16::MAX,
        y < u16::MAX,
    ensures
        final(out)@ == old(out)@ + move_to_ansi((x, y)),
{
    let _ = out.queue(crossterm::cursor::MoveTo(x, y));
}

/// Relies on crossterm's `cursor::Hide` command, which writes `ESC [ ? 2 5 l`.
#[verifier::external_body]
fn queue_hide_cursor(out: &mut Vec<u8>)
    ensures
        final(out)@ == old(out)@ + hide_cursor_bytes(),
{
    let _ = out.queue(crossterm::cursor::Hide);
}

/// Relies on crossterm's `cursor::Show` command, which writes `ESC [ ? 2 5 h`.
#[verifier::external_body]
fn queue_show_cursor(out: &mut Vec<u8>)
    ensures
        final(out)@ == old(out)@ + show_cursor_bytes(),
{
    let _ = out.queue(crossterm::cursor::Show);
}

/// A patch as a value: its cell and the color pairs of its cells, left to right.
pub struct PatchView {
    pub x: int,
    pub y: int,
    pub cells: Seq<(Color, Color)>,
}

/// A fresh patch anchored at cell (x, y).
pub open spec fn empty_patch(x: int, y: int) -> PatchView {
    PatchView { x, y, cells: Seq::empty() }
}

/// `p` with one more cell, showing `upper` over `lower`.
pub open spec fn add_cell(p: PatchView, upper: Color, lower: Color) -> PatchView {
    PatchView { cells: p.cells.push((upper, lower)), ..p }
}

/// Whether `text` is the color text that cell `i` of `cells` is preceded
/// by: nothing if the cell before has the same pair, else the pair's text.
pub open spec fn cell_text_ok(text: Seq<u8>, cells: Seq<(Color, Color)>, i: int) -> bool {
    if i > 0 && cells[i - 1] == cells[i] {
        text.len() == 0
    } else {
        is_color_text(text, cells[i].0, cells[i].1)
    }
}

/// Each cell's color text followed by the glyph, in order.
pub open spec fn join_cells(texts: Seq<Seq<u8>>) -> Seq<u8>
    decreases texts.len(),
{
    if texts.len() == 0 {
        Seq::empty()
    } else {
        join_cells(texts.drop_last()) + texts.last() + half_block_bytes()
    }
}

/// Whether `data` is the output for `cells`: for each cell in turn, the
/// color pair's text when the pair differs from the cell before, then the
/// upper half block glyph.
pub open spec fn patch_data_ok(data: Seq<u8>, cells: Seq<(Color, Color)>) -> bool {
    exists|texts: Seq<Seq<u8>>|
        {
            &&& texts.len() == cells.len()
            &&& forall|i: int| 0 <= i < cells.len() ==> #[trigger] cell_text_ok(texts[i], cells, i)
            &&& data == #[trigger] join_cells(texts)
        }
}

/// The output of patches with cursor moves: each patch's anchor, then its data.
pub open spec fn patches_bytes(ps: Seq<PatchView>, ds: Seq<Seq<u8>>) -> Seq<u8>
    decreases ps.len(),
{
    if ps.len() == 0 || ds.len() == 0 {
        Seq::empty()
    } else {
        patches_bytes(ps.drop_last(), ds.drop_last()) + move_to_ansi(
            (ps.last().x as u16, ps.last().y as u16),
        ) + ds.last()
    }
}

/// The pixel pair that cell (x, row) shows: pixels (x, 2 row) and
/// (x, 2 row + 1), with black standing in below the last row of an odd height.
pub open spec fn cell_pair(buf: Seq<Color>, w: int, h: int, x: int, row: int) -> (Color, Color) {
    (
        buf[idx(w, x, 2 * row)],
        if 2 * row + 1 < h {
            buf[idx(w, x, 2 * row + 1)]
        } else {
            Color { r: 0, g: 0, b: 0, a: 255 }
        },
    )
}

/// The number of character rows for a height of `h` pixels.
pub open spec fn cell_rows(h: int) -> int {
    (h + 1) / 2
}

/// The patches found so far in a scan, and the one still open.
pub struct ScanState {
    pub closed: Seq<PatchView>,
    pub open: Option<PatchView>,
}

/// `st` with its open patch, if any, closed.
pub open spec fn close_patch(st: ScanState) -> ScanState {
    match st.open {
        Some(p) => ScanState { closed: st.closed.push(p), open: None },
        None => st,
    }
}

/// The scan of cell (x, row): a changed cell joins the open patch (opening
/// one anchored there if none is open); an unchanged cell closes it.
pub open spec fn scan_cell(
    st: ScanState,
    cur: Seq<Color>,
    prev: Seq<Color>,
    w: int,
    h: int,
    x: int,
    row: int,
) -> ScanState {
    let c = cell_pair(cur, w, h, x, row);
    if c != cell_pair(prev, w, h, x, row) {
        let p = match st.open {
            Some(p) => p,
            None => empty_patch(x, row),
        };
        ScanState { open: Some(add_cell(p, c.0, c.1)), ..st }
    } else {
        close_patch(st)
    }
}

/// The scan of the first `n` cells of character row `row`, from `start`.
pub open spec fn scan_row(
    start: ScanState,
    cur: Seq<Color>,
    prev: Seq<Color>,
    w: int,
    h: int,
    row: int,
    n: nat,
) -> ScanState
    decreases n,
{
    if n == 0 {
        start
    } else {
        scan_cell(scan_row(start, cur, prev, w, h, row, (n - 1) as nat), cur, prev, w, h, n - 1, row)
    }
}

/// The patches of the first `rows` character rows of a `w` by `h` canvas
/// showing `cur` over a terminal that shows `prev`: in each row, the maximal
/// runs of changed cells, left to right, rows top to bottom.
pub open spec fn scan_patches(cur: Seq<Color>, prev: Seq<Color>, w: int, h: int, rows: nat) -> Seq<
    PatchView,
>
    decreases rows,
{
    if rows == 0 {
        Seq::empty()
    } else {
        let before = ScanState {
            closed: scan_patches(cur, prev, w, h, (rows - 1) as nat),
            open: None,
        };
        close_patch(scan_row(before, cur, prev, w, h, rows - 1, w as nat)).closed
    }
}

proof fn lemma_scan_row_unchanged(
    start: ScanState,
    cur: Seq<Color>,
    w: int,
    h: int,
    row: int,
    n: nat,
)
    requires
        start.open is None,
    ensures
        scan_row(start, cur, cur, w, h, row, n) == start,
    decreases n,
{
    if n > 0 {
        lemma_scan_row_unchanged(start, cur, w, h, row, (n - 1) as nat);
    }
}

/// Whether cell (x, row) shows a different pair in `cur` than in `prev`.
pub open spec fn cell_changed(cur: Seq<Color>, prev: Seq<Color>, w: int, h: int, x: int, row: int) -> bool {
    cell_pair(cur, w, h, x, row) != cell_pair(prev, w, h, x, row)
}

/// Whether the first `len` cells of `p` are changed cells of its row, from
/// column `p.x` on, each holding the pair `cur` shows there, with no changed
/// cell just before them.
pub open spec fn run_prefix(p: PatchView, len: int, cur: Seq<Color>, prev: Seq<Color>, w: int, h: int) -> bool {
    &&& 0 <= p.x
    &&& p.cells.len() == len
    &&& forall|k: int|
        0 <= k < len ==> #[trigger] p.cells[k] == cell_pair(cur, w, h, p.x + k, p.y) && cell_changed(
            cur,
            prev,
            w,
            h,
            p.x + k,
            p.y,
        )
    &&& (p.x == 0 || !cell_changed(cur, prev, w, h, p.x - 1, p.y))
}

/// Whether `p` is a maximal run of changed cells in its row: a nonempty run
/// of changed cells within the row, with no changed cell just before or just
/// after it.
pub open spec fn is_maximal_run(p: PatchView, cur: Seq<Color>, prev: Seq<Color>, w: int, h: int) -> bool {
    &&& run_prefix(p, p.cells.len() as int, cur, prev, w, h)
    &&& p.cells.len() > 0
    &&& p.x + p.cells.len() <= w
    &&& (p.x + p.cells.len() == w || !cell_changed(cur, prev, w, h, p.x + p.cells.len(), p.y))
}

/// Whether `p` holds cell (x, row).
pub open spec fn covers(p: PatchView, x: int, row: int) -> bool {
    p.y == row && p.x <= x < p.x + p.cells.len()
}

proof fn lemma_scan_row_runs(
    start: ScanState,
    cur: Seq<Color>,
    prev: Seq<Color>,
    w: int,
    h: int,
    row: int,
    n: nat,
)
    requires
        start.open is None,
        n <= w,
    ensures
        ({
            let st = scan_row(start, cur, prev, w, h, row, n);
            &&& st.closed.len() >= start.closed.len()
            &&& forall|i: int| 0 <= i < start.closed.len() ==> #[trigger] st.closed[i] == start.closed[i]
            &&& forall|i: int|
                start.closed.len() <= i < st.closed.len() ==> is_maximal_run(
                    #[trigger] st.closed[i],
                    cur,
                    prev,
                    w,
                    h,
                ) && st.closed[i].y == row && st.closed[i].x + st.closed[i].cells.len() < n
            &&& if n > 0 && cell_changed(cur, prev, w, h, n - 1, row) {
                st.open matches Some(p) && p.y == row && p.x + p.cells.len() == n && p.cells.len() > 0
                    && run_prefix(p, p.cells.len() as int, cur, prev, w, h)
            } else {
                st.open is None
            }
            &&& forall|x: int|
                0 <= x < n && #[trigger] cell_changed(cur, prev, w, h, x, row) ==> (exists|i: int|
                    start.closed.len() <= i < st.closed.len() && #[trigger] covers(st.closed[i], x, row))
                    || (st.open matches Some(p) && covers(p, x, row))
        }),
    decreases n,
{
    if n > 0 {
        let m = (n - 1) as nat;
        lemma_scan_row_runs(start, cur, prev, w, h, row, m);
        let before = scan_row(start, cur, prev, w, h, row, m);
        let st = scan_row(start, cur, prev, w, h, row, n);
        let x = n - 1;
        if cell_changed(cur, prev, w, h, x, row) {
            let p = match before.open {
                Some(p) => p,
                None => empty_patch(x, row),
            };
            let c = cell_pair(cur, w, h, x, row);
            let q = add_cell(p, c.0, c.1);
            assert(st.open == Some(q));
            assert(st.closed == before.closed);
            assert forall|y: int|
                0 <= y < n && #[trigger] cell_changed(cur, prev, w, h, y, row) implies (exists|i: int|
                    start.closed.len() <= i < st.closed.len() && #[trigger] covers(st.closed[i], y, row))
                    || (st.open matches Some(o) && covers(o, y, row)) by {
                if y < x {
                    if !(exists|i: int|
                        start.closed.len() <= i < before.closed.len() && #[trigger] covers(
                            before.closed[i],
                            y,
                            row,
                        )) {
                        assert(before.open matches Some(o) && covers(o, y, row));
                        assert(covers(q, y, row));
                    }
                }
            }
            assert forall|k: int| 0 <= k < q.cells.len() implies #[trigger] q.cells[k] == cell_pair(
                cur,
                w,
                h,
                q.x + k,
                q.y,
            ) && cell_changed(cur, prev, w, h, q.x + k, q.y) by {
                if k < p.cells.len() {
                    assert(q.cells[k] == p.cells[k]);
                }
            }
        } else {
            match before.open {
                Some(p) => {
                    assert(st.closed == before.closed.push(p));
                    assert(st.closed[st.closed.len() - 1] == p);
                },
                None => {
                    assert(st == before);
                },
            }
            assert forall|y: int|
                0 <= y < n && #[trigger] cell_changed(cur, prev, w, h, y, row) implies (exists|i: int|
                    start.closed.len() <= i < st.closed.len() && #[trigger] covers(st.closed[i], y, row))
                    || (st.open matches Some(o) && covers(o, y, row)) by {
                if exists|i: int|
                    start.closed.len() <= i < before.closed.len() && #[trigger] covers(
                        before.closed[i],
                        y,
                        row,
                    ) {
                    let i = choose|i: int|
                        start.closed.len() <= i < before.closed.len() && #[trigger] covers(
                            before.closed[i],
                            y,
                            row,
                        );
                    assert(st.closed[i] == before.closed[i]);
                    assert(covers(st.closed[i], y, row));
                } else {
                    let j = st.closed.len() - 1;
                    assert(covers(st.closed[j], y, row));
                }
            }
        }
    }
}

proof fn lemma_scan_patches_runs(cur: Seq<Color>, prev: Seq<Color>, w: int, h: int, rows: nat)
    requires
        0 <= w,
    ensures
        forall|i: int|
            0 <= i < scan_patches(cur, prev, w, h, rows).len() ==> is_maximal_run(
                #[trigger] scan_patches(cur, prev, w, h, rows)[i],
                cur,
                prev,
                w,
                h,
            ) && 0 <= scan_patches(cur, prev, w, h, rows)[i].y < rows,
        forall|x: int, row: int|
            0 <= x < w && 0 <= row < rows && #[trigger] cell_changed(cur, prev, w, h, x, row)
                ==> exists|i: int|
                0 <= i < scan_patches(cur, prev, w, h, rows).len() && #[trigger] covers(
                    scan_patches(cur, prev, w, h, rows)[i],
                    x,
                    row,
                ),
    decreases rows,
{
    if rows > 0 {
        let r = (rows - 1) as nat;
        lemma_scan_patches_runs(cur, prev, w, h, r);
        let before = ScanState { closed: scan_patches(cur, prev, w, h, r), open: None };
        lemma_scan_row_runs(before, cur, prev, w, h, r as int, w as nat);
        let st = scan_row(before, cur, prev, w, h, r as int, w as nat);
        let ps = scan_patches(cur, prev, w, h, rows);
        assert(ps == close_patch(st).closed);
        assert forall|i: int| 0 <= i < ps.len() implies is_maximal_run(#[trigger] ps[i], cur, prev, w, h)
            && 0 <= ps[i].y < rows by {
            if i < before.closed.len() {
                assert(ps[i] == before.closed[i]);
            } else if i < st.closed.len() {
                assert(ps[i] == st.closed[i]);
            }
        }
        assert forall|x: int, row: int|
            0 <= x < w && 0 <= row < rows && #[trigger] cell_changed(cur, prev, w, h, x, row)
                implies exists|i: int| 0 <= i < ps.len() && #[trigger] covers(ps[i], x, row) by {
            if row < r {
                let i = choose|i: int|
                    0 <= i < before.closed.len() && #[trigger] covers(before.closed[i], x, row);
                assert(ps[i] == before.closed[i]);
                assert(covers(ps[i], x, row));
            } else {
                if exists|i: int|
                    before.closed.len() <= i < st.closed.len() && #[trigger] covers(st.closed[i], x, row) {
                    let i = choose|i: int|
                        before.closed.len() <= i < st.closed.len() && #[trigger] covers(
                            st.closed[i],
                            x,
                            row,
                        );
                    assert(ps[i] == st.closed[i]);
                    assert(covers(ps[i], x, row));
                } else {
                    let j = st.closed.len() as int;
                    assert(ps[j] == st.open->Some_0);
                    assert(covers(ps[j], x, row));
                }
            }
        }
    }
}

/// The patches of a frame are maximal runs of changed cells, each in one
/// character row of the canvas, holding the pairs the current frame shows;
/// and every changed cell lies in one of them.
pub proof fn lemma_patches_are_maximal_runs(cur: Seq<Color>, prev: Seq<Color>, w: int, h: int)
    requires
        0 <= w,
        0 <= h,
    ensures
        forall|i: int|
            0 <= i < scan_patches(cur, prev, w, h, cell_rows(h) as nat).len() ==> is_maximal_run(
                #[trigger] scan_patches(cur, prev, w, h, cell_rows(h) as nat)[i],
                cur,
                prev,
                w,
                h,
            ) && 0 <= scan_patches(cur, prev, w, h, cell_rows(h) as nat)[i].y < cell_rows(h),
        forall|x: int, row: int|
            0 <= x < w && 0 <= row < cell_rows(h) && #[trigger] cell_changed(cur, prev, w, h, x, row)
                ==> exists|i: int|
                0 <= i < scan_patches(cur, prev, w, h, cell_rows(h) as nat).len() && #[trigger] covers(
                    scan_patches(cur, prev, w, h, cell_rows(h) as nat)[i],
                    x,
                    row,
                ),
{
    lemma_scan_patches_runs(cur, prev, w, h, cell_rows(h) as nat);
}

/// Rendering a frame identical to the one on screen emits no patch.
pub proof fn lemma_no_change_no_patches(cur: Seq<Color>, w: int, h: int, rows: nat)
    ensures
        scan_patches(cur, cur, w, h, rows) == Seq::<PatchView>::empty(),
    decreases rows,
{
    if rows > 0 {
        lemma_no_change_no_patches(cur, w, h, (rows - 1) as nat);
        let before = ScanState { closed: Seq::empty(), open: None };
        lemma_scan_row_unchanged(before, cur, w, h, rows - 1, w as nat);
    }
}

/// A run of changed cells on one character row, with the terminal output
/// that draws it.
pub struct Patch {
    position: (u16, u16),
    data: Vec<u8>,
    previous_colors: Option<(Color, Color)>,
    cells: Ghost<Seq<(Color, Color)>>,
    texts: Ghost<Seq<Seq<u8>>>,
}

impl View for Patch {
    type V = PatchView;

    closed spec fn view(&self) -> PatchView {
        PatchView { x: self.position.0 as int, y: self.position.1 as int, cells: self.cells@ }
    }
}

impl Patch {
    /// The output of the patch's cells.
    pub closed spec fn bytes(&self) -> Seq<u8> {
        self.data@
    }

    /// The output matches the cells, and the last pair written is remembered.
    pub closed spec fn wf(&self) -> bool {
        &&& self.texts@.len() == self.cells@.len()
        &&& forall|i: int|
            0 <= i < self.cells@.len() ==> #[trigger] cell_text_ok(self.texts@[i], self.cells@, i)
        &&& self.data@ == join_cells(self.texts@)
        &&& self.previous_colors == if self.cells@.len() == 0 {
            None
        } else {
            Some(self.cells@.last())
        }
    }

    /// An empty patch anchored at cell (x, y).
    pub fn new(x: u16, y: u16) -> (r: Self)
        ensures
            r.wf(),
            r@ == empty_patch(x as int, y as int),
            r.bytes() == Seq::<u8>::empty(),
    {
        Patch {
            position: (x, y),
            data: Vec::new(),
            previous_colors: None,
            cells: Ghost(Seq::empty()),
            texts: Ghost(Seq::empty()),
        }
    }

    /// Appends to `writer` the output of this patch: a cursor move to its
    /// cell, then its data.
    pub fn apply(&self, writer: &mut Vec<u8>)
        requires
            self@.x < u16::MAX,
            self@.y < u16::MAX,
        ensures
            final(writer)@ == old(writer)@ + move_to_ansi(
                (self@.x as u16, self@.y as u16),
            ) + self.bytes(),
    {
        queue_move_to(writer, self.position.0, self.position.1);
        let ghost mid = writer@;
        let mut i: usize = 0;
        while i < self.data.len()
            invariant
                i <= self.data@.len(),
                writer@ == mid + self.data@.subrange(0, i as int),
            decreases self.data@.len() - i,
        {
            writer.push(self.data[i]);
            i = i + 1;
            assert(writer@ =~= mid + self.data@.subrange(0, i as int));
        }
        assert(self.data@.subrange(0, i as int) =~= self.data@);
    }

    /// Adds a cell showing `upper` over `lower`; the color pair is written
    /// only if it differs from the last one written into this patch.
    pub fn add_two_row_pixel(&mut self, upper: &Color, lower: &Color)
        requires
            old(self).wf(),
        ensures
            final(self).wf(),
            final(self)@ == add_cell(old(self)@, *upper, *lower),
            ({
                let t = final(self).bytes().subrange(
                    old(self).bytes().len() as int,
                    final(self).bytes().len() - 3,
                );
                &&& final(self).bytes().len() >= old(self).bytes().len() + 3
                &&& final(self).bytes() == old(self).bytes() + t + half_block_bytes()
                &&& if old(self)@.cells.len() > 0 && old(self)@.cells.last() == (*upper, *lower) {
                    t.len() == 0
                } else {
                    is_color_text(t, *upper, *lower)
                }
            }),
    {
        let ghost old_data = self.data@;
        let ghost old_cells = self.cells@;
        let ghost old_texts = self.texts@;
        let same = match self.previous_colors {
            Some((u, l)) => u == *upper && l == *lower,
            None => false,
        };
        if !same {
            queue_set_colors(&mut self.data, upper, lower);
            self.previous_colors = Some((*upper, *lower));
        }
        let ghost text = self.data@.subrange(old_data.len() as int, self.data@.len() as int);
        proof {
            assert(self.data@ =~= old_data + text);
        }
        queue_half_block(&mut self.data);
        self.cells = Ghost(old_cells.push((*upper, *lower)));
        self.texts = Ghost(old_texts.push(text));
        proof {
            let cells = self.cells@;
            let texts = self.texts@;
            assert(texts.drop_last() =~= old_texts);
            assert(self.data@ =~= join_cells(texts));
            let t = self.data@.subrange(old_data.len() as int, self.data@.len() - 3);
            assert(t =~= text);
            assert(self.data@ =~= old_data + t + half_block_bytes());
            assert(cell_text_ok(texts[cells.len() - 1], cells, cells.len() - 1));
            assert forall|i: int| 0 <= i < cells.len() implies #[trigger] cell_text_ok(texts[i], cells, i) by {
                if i < cells.len() - 1 {
                    assert(cells[i] == old_cells[i]);
                    assert(texts[i] == old_texts[i]);
                    if i > 0 {
                        assert(cells[i - 1] == old_cells[i - 1]);
                    }
                    assert(cell_text_ok(old_texts[i], old_cells, i));
                }
            }
        }
    }

    /// The output matches the patch's cells.
    pub proof fn lemma_data_ok(&self)
        requires
            self.wf(),
        ensures
            patch_data_ok(self.bytes(), self@.cells),
    {
        let texts = self.texts@;
        assert(forall|i: int| 0 <= i < self.cells@.len() ==> #[trigger] cell_text_ok(texts[i], self.cells@, i));
        assert(self.data@ == join_cells(texts));
    }
}

/// The default frame rate limit, in frames per second.
pub const DEFAULT_REFRESH_LIMIT: u64 = 60;

/// Sleeping for less than this (4 ms) is too imprecise to be worth it.
pub const MINIMUM_THREAD_SLEEP_NANOS: u64 = 4_000_000;

/// A canvas shown on a character terminal, two pixels per character cell.
pub struct CrosstermCanvas {
    width: u32,
    height: u32,
    resizable: bool,
    buffer: Vec<Color>,
    previous_buffer: Vec<Color>,
    frame_limit_nanos: u64,
    last_frame_time: u64,
    last_loop_width: u32,
    last_loop_height: u32,
}

/// `n` pixels of the color `c`.
pub open spec fn filled(n: int, c: Color) -> Seq<Color> {
    Seq::new(n as nat, |i: int| c)
}

fn filled_vec(n: usize, c: Color) -> (r: Vec<Color>)
    ensures
        r@ == filled(n as int, c),
{
    let mut v: Vec<Color> = Vec::new();
    let mut i: usize = 0;
    while i < n
        invariant
            i <= n,
            v@ == filled(i as int, c),
        decreases n - i,
    {
        v.push(c);
        i = i + 1;
        assert(v@ =~= filled(i as int, c));
    }
    v
}

impl CrosstermCanvas {
    /// What the terminal shows, as of the last rendered frame.
    pub closed spec fn previous(&self) -> Seq<Color> {
        self.previous_buffer@
    }

    /// Whether the canvas follows the terminal's size.
    pub closed spec fn spec_resizable(&self) -> bool {
        self.resizable
    }

    /// The shortest time between two frames, in nanoseconds.
    pub closed spec fn frame_limit(&self) -> u64 {
        self.frame_limit_nanos
    }

    /// When the last frame was started, in nanoseconds on the caller's clock.
    pub closed spec fn last_frame(&self) -> u64 {
        self.last_frame_time
    }

    /// The size recorded at the end of the last loop iteration.
    pub closed spec fn last_loop_size(&self) -> (u32, u32) {
        (self.last_loop_width, self.last_loop_height)
    }

    /// A canvas filling a terminal of `columns` by `rows` characters; it
    /// follows the terminal's size.
    pub fn new(columns: u16, rows: u16) -> (r: Self)
        requires
            columns as int * (rows as int * 2) <= usize::MAX,
        ensures
            r.wf(),
            r.spec_width() == columns,
            r.spec_height() == rows * 2,
            r.spec_resizable(),
            r.frame_limit() == 1_000_000_000u64 / DEFAULT_REFRESH_LIMIT,
            r.pixels() == filled(columns as int * (rows as int * 2), Color { r: 0, g: 0, b: 0, a: 255 }),
            r.previous() == filled(columns as int * (rows as int * 2), Color { r: 0, g: 0, b: 0, a: 0 }),
            r.last_loop_size() == (0u32, 0u32),
    {
        Self::new_with_size(columns as u32, rows as u32 * 2).with_resizable(true)
    }

    /// A canvas of `width` by `height` pixels (characters by half
    /// characters); it does not follow the terminal's size. Every pixel is
    /// opaque black, and the previous frame is transparent black, so that
    /// the first render draws every cell.
    pub fn new_with_size(width: u32, height: u32) -> (r: Self)
        requires
            width as int * height as int <= usize::MAX,
        ensures
            r.wf(),
            r.spec_width() == width,
            r.spec_height() == height,
            !r.spec_resizable(),
            r.frame_limit() == 1_000_000_000u64 / DEFAULT_REFRESH_LIMIT,
            r.last_frame() == 0,
            r.pixels() == filled(width as int * height as int, Color { r: 0, g: 0, b: 0, a: 255 }),
            r.previous() == filled(width as int * height as int, Color { r: 0, g: 0, b: 0, a: 0 }),
            r.last_loop_size() == (0u32, 0u32),
    {
        let mut canvas = CrosstermCanvas {
            width,
            height,
            resizable: false,
            buffer: Vec::new(),
            previous_buffer: Vec::new(),
            frame_limit_nanos: 1_000_000_000 / DEFAULT_REFRESH_LIMIT,
            last_frame_time: 0,
            last_loop_width: 0,
            last_loop_height: 0,
        };
        canvas.resize_surface(width, height);
        canvas
    }

    /// Sets whether the canvas follows the terminal's size.
    pub fn with_resizable(self, resizable: bool) -> (r: Self)
        ensures
            r.wf() == self.wf(),
            r.spec_width() == self.spec_width(),
            r.spec_height() == self.spec_height(),
            r.pixels() == self.pixels(),
            r.previous() == self.previous(),
            r.spec_resizable() == resizable,
            r.frame_limit() == self.frame_limit(),
            r.last_frame() == self.last_frame(),
            r.last_loop_size() == self.last_loop_size(),
    {
        CrosstermCanvas { resizable, ..self }
    }

    /// Limits the frame rate to `limit` frames per second.
    pub fn with_refresh_limit(self, limit: usize) -> (r: Self)
        requires
            limit > 0,
        ensures
            r.wf() == self.wf(),
            r.spec_width() == self.spec_width(),
            r.spec_height() == self.spec_height(),
            r.pixels() == self.pixels(),
            r.previous() == self.previous(),
            r.spec_resizable() == self.spec_resizable(),
            r.frame_limit() == 1_000_000_000int / (limit as int),
            r.last_frame() == self.last_frame(),
            r.last_loop_size() == self.last_loop_size(),
    {
        CrosstermCanvas { frame_limit_nanos: 1_000_000_000u64 / limit as u64, ..self }
    }

    /// Whether the canvas follows the terminal's size.
    pub fn resizable(&self) -> (r: bool)
        ensures
            r == self.spec_resizable(),
    {
        self.resizable
    }

    /// Reallocates both frames for a size of `width` by `height` pixels:
    /// the current one opaque black, the previous one transparent black.
    pub fn resize_surface(&mut self, width: u32, height: u32)
        requires
            width as int * height as int <= usize::MAX,
        ensures
            final(self).wf(),
            final(self).spec_width() == width,
            final(self).spec_height() == height,
            final(self).pixels() == filled(width as int * height as int, Color { r: 0, g: 0, b: 0, a: 255 }),
            final(self).previous() == filled(width as int * height as int, Color { r: 0, g: 0, b: 0, a: 0 }),
            final(self).spec_resizable() == old(self).spec_resizable(),
            final(self).frame_limit() == old(self).frame_limit(),
            final(self).last_frame() == old(self).last_frame(),
            final(self).last_loop_size() == old(self).last_loop_size(),
    {
        let n: usize = width as usize * height as usize;
        self.width = width;
        self.height = height;
        self.buffer = filled_vec(n, Color::from_rgb(0, 0, 0));
        self.previous_buffer = filled_vec(n, Color::from_rgba(0, 0, 0, 0));
    }

    /// The new size, if it changed since the last loop iteration.
    pub fn did_resize(&self) -> (r: Option<(u32, u32)>)
        ensures
            r == if self.last_loop_size() != (self.spec_width(), self.spec_height()) {
                Some((self.spec_width(), self.spec_height()))
            } else {
                None
            },
    {
        if self.last_loop_width != self.width || self.last_loop_height != self.height {
            Some((self.width, self.height))
        } else {
            None
        }
    }

    /// Records the current size as the one seen at the end of a loop iteration.
    pub fn end_loop(&mut self)
        ensures
            final(self).last_loop_size() == (old(self).spec_width(), old(self).spec_height()),
            final(self).wf() == old(self).wf(),
            final(self).spec_width() == old(self).spec_width(),
            final(self).spec_height() == old(self).spec_height(),
            final(self).pixels() == old(self).pixels(),
            final(self).previous() == old(self).previous(),
            final(self).spec_resizable() == old(self).spec_resizable(),
            final(self).frame_limit() == old(self).frame_limit(),
            final(self).last_frame() == old(self).last_frame(),
    {
        self.last_loop_width = self.width;
        self.last_loop_height = self.height;
    }

    /// The patches that bring the terminal from the previous frame to the
    /// current one.
    pub fn calculate_patches(&self) -> (r: Vec<Patch>)
        requires
            self.wf(),
            self.spec_width() < u16::MAX,
            self.spec_height() / 2 < u16::MAX,
        ensures
            forall|i: int| 0 <= i < r@.len() ==> #[trigger] r@[i].wf(),
            forall|i: int|
                0 <= i < r@.len() ==> #[trigger] r@[i]@.x < self.spec_width() && r@[i]@.y < cell_rows(
                    self.spec_height() as int,
                ),
            r@.map_values(|p: Patch| p@) == scan_patches(
                self.pixels(),
                self.previous(),
                self.spec_width() as int,
                self.spec_height() as int,
                cell_rows(self.spec_height() as int) as nat,
            ),
    {
        let ghost cur = self.buffer@;
        let ghost prev = self.previous_buffer@;
        let ghost w = self.width as int;
        let ghost h = self.height as int;
        let width = self.width;
        let height = self.height;
        let rows: u32 = height / 2 + height % 2;
        let mut patches: Vec<Patch> = Vec::new();
        let mut active_patch: Option<Patch> = None;
        let mut row: u32 = 0;
        while row < rows
            invariant
                self.wf(),
                cur == self.buffer@,
                prev == self.previous_buffer@,
                w == width,
                h == height,
                width == self.width,
                height == self.height,
                width < u16::MAX,
                height / 2 < u16::MAX,
                rows == cell_rows(h),
                row <= rows,
                active_patch is None,
                forall|i: int| 0 <= i < patches@.len() ==> #[trigger] patches@[i].wf(),
                forall|i: int|
                    0 <= i < patches@.len() ==> #[trigger] patches@[i]@.x < width && patches@[i]@.y < rows,
                patches@.map_values(|p: Patch| p@) == scan_patches(cur, prev, w, h, row as nat),
            decreases rows - row,
        {
            let ghost before = ScanState { closed: patches@.map_values(|p: Patch| p@), open: None };
            let mut x: u32 = 0;
            while x < width
                invariant
                    self.wf(),
                    cur == self.buffer@,
                    prev == self.previous_buffer@,
                    w == width,
                    h == height,
                    width == self.width,
                    height == self.height,
                    width < u16::MAX,
                    height / 2 < u16::MAX,
                    rows == cell_rows(h),
                    row < rows,
                    x <= width,
                    before.open is None,
                    before.closed == scan_patches(cur, prev, w, h, row as nat),
                    forall|i: int| 0 <= i < patches@.len() ==> #[trigger] patches@[i].wf(),
                    active_patch matches Some(p) ==> p.wf(),
                    forall|i: int|
                        0 <= i < patches@.len() ==> #[trigger] patches@[i]@.x < width && patches@[i]@.y
                            < rows,
                    active_patch matches Some(p) ==> p@.x < width && p@.y == row,
                    ({
                        let st = scan_row(before, cur, prev, w, h, row as int, x as nat);
                        &&& st.closed == patches@.map_values(|p: Patch| p@)
                        &&& st.open == match active_patch {
                            Some(p) => Some(p@),
                            None => None,
                        }
                    }),
                decreases width - x,
            {
                assert(2 * row < h);
                proof {
                    crate::canvas::lemma_idx_bounds(w, h, x as int, 2 * row as int);
                    self.lemma_wf();
                    assert((2 * row) as int * w <= idx(w, x as int, 2 * row as int));
                    if 2 * row + 1 < h {
                        crate::canvas::lemma_idx_bounds(w, h, x as int, 2 * row + 1);
                    }
                }
                let upper_i: usize = (2 * row) as usize * width as usize + x as usize;
                let upper = self.buffer[upper_i];
                let prev_upper = self.previous_buffer[upper_i];
                let (lower, prev_lower) = if 2 * row + 1 < height {
                    let lower_i: usize = (2 * row + 1) as usize * width as usize + x as usize;
                    (self.buffer[lower_i], self.previous_buffer[lower_i])
                } else {
                    (Color::from_rgb(0, 0, 0), Color::from_rgb(0, 0, 0))
                };
                if !(upper == prev_upper && lower == prev_lower) {
                    let mut p = match active_patch {
                        Some(p) => p,
                        None => Patch::new(x as u16, row as u16),
                    };
                    p.add_two_row_pixel(&upper, &lower);
                    active_patch = Some(p);
                } else {
                    match active_patch {
                        Some(p) => {
                            patches.push(p);
                            proof {
                                assert(patches@.map_values(|q: Patch| q@) =~= scan_row(
                                    before,
                                    cur,
                                    prev,
                                    w,
                                    h,
                                    row as int,
                                    x as nat,
                                ).closed.push(p@));
                            }
                        },
                        None => {},
                    }
                    active_patch = None;
                }
                x = x + 1;
            }
            match active_patch {
                Some(p) => {
                    patches.push(p);
                    proof {
                        assert(patches@.map_values(|q: Patch| q@) =~= scan_row(
                            before,
                            cur,
                            prev,
                            w,
                            h,
                            row as int,
                            w as nat,
                        ).closed.push(p@));
                    }
                },
                None => {},
            }
            active_patch = None;
            row = row + 1;
        }
        patches
    }

    /// Renders the current frame: returns the terminal output that brings
    /// the screen from the previous frame to this one (cursor hidden, each
    /// patch applied, cursor parked below the canvas and shown again), and
    /// makes this frame the previous one. Returns `None`, changing nothing,
    /// when the canvas is too large for terminal coordinates.
    pub fn render_frame(&mut self) -> (r: Option<Vec<u8>>)
        requires
            old(self).wf(),
        ensures
            final(self).wf(),
            final(self).spec_width() == old(self).spec_width(),
            final(self).spec_height() == old(self).spec_height(),
            final(self).pixels() == old(self).pixels(),
            final(self).spec_resizable() == old(self).spec_resizable(),
            final(self).frame_limit() == old(self).frame_limit(),
            final(self).last_frame() == old(self).last_frame(),
            final(self).last_loop_size() == old(self).last_loop_size(),
            (old(self).spec_width() >= u16::MAX || old(self).spec_height() / 2 >= u16::MAX) <==> r is None,
            r is None ==> final(self).previous() == old(self).previous(),
            r matches Some(out) ==> {
                let ps = scan_patches(
                    old(self).pixels(),
                    old(self).previous(),
                    old(self).spec_width() as int,
                    old(self).spec_height() as int,
                    cell_rows(old(self).spec_height() as int) as nat,
                );
                &&& exists|ds: Seq<Seq<u8>>|
                    {
                        &&& ds.len() == ps.len()
                        &&& forall|i: int|
                            0 <= i < ps.len() ==> #[trigger] patch_data_ok(ds[i], ps[i].cells)
                        &&& out@ == hide_cursor_bytes() + patches_bytes(ps, ds) + move_to_ansi(
                            (old(self).spec_width() as u16, (old(self).spec_height() / 2) as u16),
                        ) + show_cursor_bytes()
                    }
                &&& final(self).previous() == old(self).pixels()
            },
    {
        if self.width >= u16::MAX as u32 || self.height / 2 >= u16::MAX as u32 {
            return None;
        }
        let mut out: Vec<u8> = Vec::new();
        queue_hide_cursor(&mut out);
        let patches = self.calculate_patches();
        let ghost views = patches@.map_values(|p: Patch| p@);
        let ghost ds = patches@.map_values(|p: Patch| p.bytes());
        let mut i: usize = 0;
        while i < patches.len()
            invariant
                i <= patches@.len(),
                self.spec_width() < u16::MAX,
                self.spec_height() / 2 < u16::MAX,
                forall|j: int|
                    0 <= j < patches@.len() ==> #[trigger] patches@[j]@.x < self.spec_width()
                        && patches@[j]@.y < cell_rows(self.spec_height() as int),
                views == patches@.map_values(|p: Patch| p@),
                ds == patches@.map_values(|p: Patch| p.bytes()),
                out@ == hide_cursor_bytes() + patches_bytes(
                    views.subrange(0, i as int),
                    ds.subrange(0, i as int),
                ),
            decreases patches@.len() - i,
        {
            patches[i].apply(&mut out);
            proof {
                assert(views.subrange(0, i + 1).drop_last() =~= views.subrange(0, i as int));
                assert(ds.subrange(0, i + 1).drop_last() =~= ds.subrange(0, i as int));
            }
            i = i + 1;
        }
        assert(views.subrange(0, i as int) =~= views);
        assert(ds.subrange(0, i as int) =~= ds);
        assert forall|j: int| 0 <= j < views.len() implies #[trigger] patch_data_ok(ds[j], views[j].cells) by {
            patches@[j].lemma_data_ok();
        }
        queue_move_to(&mut out, self.width as u16, (self.height / 2) as u16);
        queue_show_cursor(&mut out);
        let mut k: usize = 0;
        while k < self.buffer.len()
            invariant
                self.wf(),
                self.buffer@ == old(self).buffer@,
                self.width == old(self).width,
                self.height == old(self).height,
                self.resizable == old(self).resizable,
                self.frame_limit_nanos == old(self).frame_limit_nanos,
                self.last_frame_time == old(self).last_frame_time,
                self.last_loop_width == old(self).last_loop_width,
                self.last_loop_height == old(self).last_loop_height,
                k <= self.buffer@.len(),
                forall|j: int| 0 <= j < k ==> #[trigger] self.previous_buffer@[j] == self.buffer@[j],
            decreases self.buffer@.len() - k,
        {
            let c = self.buffer[k];
            self.previous_buffer.set(k, c);
            k = k + 1;
        }
        assert(self.previous_buffer@ =~= self.buffer@);
        Some(out)
    }

    /// The time since the last frame was started, given the time `now` on
    /// the same clock (none if the clock went back).
    pub fn elapsed_since_last_frame(&self, now: u64) -> (r: u64)
        ensures
            r == if now >= self.last_frame() {
                now - self.last_frame()
            } else {
                0
            },
    {
        if now >= self.last_frame_time {
            now - self.last_frame_time
        } else {
            0
        }
    }

    /// How long to sleep before the next frame, `elapsed_nanos` into the
    /// current one: half of what is left of the frame time, if that half is
    /// longer than `MINIMUM_THREAD_SLEEP_NANOS`; otherwise no sleep.
    pub fn frame_sleep_nanos(&self, elapsed_nanos: u64) -> (r: u64)
        ensures
            r == if elapsed_nanos < self.frame_limit() && (self.frame_limit() - elapsed_nanos) / 2
                > MINIMUM_THREAD_SLEEP_NANOS {
                ((self.frame_limit() - elapsed_nanos) / 2) as u64
            } else {
                0
            },
    {
        if elapsed_nanos < self.frame_limit_nanos && (self.frame_limit_nanos - elapsed_nanos) / 2
            > MINIMUM_THREAD_SLEEP_NANOS {
            (self.frame_limit_nanos - elapsed_nanos) / 2
        } else {
            0
        }
    }

    /// How long to busy-wait before the next frame, `elapsed_nanos` into the
    /// current one: whatever is left of the frame time.
    pub fn frame_spin_nanos(&self, elapsed_nanos: u64) -> (r: u64)
        ensures
            r == if elapsed_nanos < self.frame_limit() {
                (self.frame_limit() - elapsed_nanos) as u64
            } else {
                0
            },
    {
        if elapsed_nanos < self.frame_limit_nanos {
            self.frame_limit_nanos - elapsed_nanos
        } else {
            0
        }
    }

    /// Records `now` as the start of a frame.
    pub fn start_frame(&mut self, now: u64)
        ensures
            final(self).last_frame() == now,
            final(self).wf() == old(self).wf(),
            final(self).spec_width() == old(self).spec_width(),
            final(self).spec_height() == old(self).spec_height(),
            final(self).pixels() == old(self).pixels(),
            final(self).previous() == old(self).previous(),
            final(self).spec_resizable() == old(self).spec_resizable(),
            final(self).frame_limit() == old(self).frame_limit(),
            final(self).last_loop_size() == old(self).last_loop_size(),
    {
        self.last_frame_time = now;
    }
}

impl Canvas for CrosstermCanvas {
    closed spec fn pixels(&self) -> Seq<Color> {
        self.buffer@
    }

    closed spec fn spec_width(&self) -> u32 {
        self.width
    }

    closed spec fn spec_height(&self) -> u32 {
        self.height
    }

    closed spec fn wf(&self) -> bool {
        &&& self.buffer@.len() == self.width as int * self.height as int
        &&& self.previous_buffer@.len() == self.buffer@.len()
        &&& self.buffer@.len() <= usize::MAX
    }

    proof fn lemma_wf(&self) {
    }

    fn width(&self) -> (r: u32) {
        self.width
    }

    fn height(&self) -> (r: u32) {
        self.height
    }

    fn set_range(&mut self, range: Range<usize>, color: &[Color]) {
        let mut k: usize = 0;
        let n: usize = range.end - range.start;
        while k < n
            invariant
                k <= n,
                n == range.end - range.start,
                range.end <= self.buffer@.len(),
                color@.len() == n,
                self.width == old(self).width,
                self.height == old(self).height,
                self.previous_buffer == old(self).previous_buffer,
                self.buffer@.len() == old(self).buffer@.len(),
                forall|i: int|
                    0 <= i < old(self).buffer@.len() ==> #[trigger] self.buffer@[i] == if range.start
                        <= i < range.start + k {
                        color@[i - range.start]
                    } else {
                        old(self).buffer@[i]
                    },
            decreases n - k,
        {
            self.buffer.set(range.start + k, color[k]);
            k = k + 1;
        }
    }

    fn get_range(&self, range: Range<usize>) -> (r: &[Color]) {
        &self.buffer.as_slice()[range]
    }
}

} // verus!
