use vstd::prelude::*;

use crate::size::Size;
use crate::text::push_char;

verus! {

/// The colours the board is drawn with.
#[derive(Debug, Clone, Copy, PartialEq, Eq, Structural)]
pub enum Color {
    Reset,
    Black,
    White,
    Grey,
    Red,
    Yellow,
    Green,
}

/// The shapes the terminal cursor can take.
#[derive(Debug, Clone, Copy, PartialEq, Eq, Structural)]
pub enum CursorStyle {
    DefaultUserShape,
    BlinkingBlock,
    SteadyBlock,
    BlinkingUnderScore,
    SteadyUnderScore,
    BlinkingBar,
    SteadyBar,
}

/// One drawing primitive, as handed to the terminal.
#[derive(Debug, PartialEq, Eq)]
pub enum DrawOp {
    SetTitle(String),
    ClearScreen,
    ClearCurrentLine,
    CursorHide,
    CursorShow,
    SetCursorStyle(CursorStyle),
    MoveCursor { x: u16, y: u16 },
    Glyph { chr: char, x: u16, y: u16, fg: Color, bg: Color },
    Text { text: String, x: u16, y: u16, fg: Color, bg: Color },
    SetSize { cols: u16, rows: u16 },
}

/// `op` writes `text` at (`x`, `y`) in `fg` on `bg`.
pub open spec fn writes_text(op: DrawOp, text: Seq<char>, x: int, y: int, fg: Color, bg: Color) -> bool {
    match op {
        DrawOp::Text { text: t, x: a, y: b, fg: f, bg: g } => t@ == text && a == x && b == y && f
            == fg && g == bg,
        _ => false,
    }
}

/// `ops` holds, from index `k`, a cursor move to (`x`, `y`) and `text`
/// written there.
pub open spec fn text_pair(ops: Seq<DrawOp>, k: int, text: Seq<char>, x: int, y: int, fg: Color, bg: Color) -> bool {
    &&& 0 <= k && k + 1 < ops.len()
    &&& ops[k] matches DrawOp::MoveCursor { x: a, y: b } && a == x && b == y
    &&& writes_text(ops[k + 1], text, x, y, fg, bg)
}

/// `ops` holds, from index `k`, one cell of a fill: a cursor move to
/// (`px`, `py`) and a blank painted there in `c`.
pub open spec fn fill_pair(ops: Seq<DrawOp>, k: int, px: int, py: int, c: Color) -> bool {
    &&& 0 <= k && k + 1 < ops.len()
    &&& ops[k] matches DrawOp::MoveCursor { x: a, y: b } && a == px && b == py
    &&& ops[k + 1] matches DrawOp::Glyph { chr: ' ', x: a, y: b, fg: f, bg: g } && a == px && b
        == py && f == c && g == c
}

/// `ops`, from index `k`, paint the interior of the rectangle at (`x`, `y`)
/// of `w` by `h` in `c`, column by column: the cell `b` rows down in
/// interior column `a` comes at pair `a * fill_span(h) + b`.
pub open spec fn fill_at(ops: Seq<DrawOp>, k: int, x: int, y: int, w: int, h: int, c: Color) -> bool {
    forall|a: int, b: int|
        0 <= a < fill_span(w) && 0 <= b < fill_span(h) ==> #[trigger] fill_pair(
            ops,
            k + 2 * (a * fill_span(h) + b),
            x + 2 + a,
            y + 2 + b,
            c,
        )
}

/// The horizontal edge of a rectangle `w` cells wide.
pub open spec fn edge_line(w: nat) -> Seq<char> {
    Seq::new(w, |_i: int| '\u{2501}')
}

/// The number of rows between the top and bottom edges of a rectangle.
pub open spec fn inner_rows(h: int) -> int {
    if h >= 1 {
        h - 1
    } else {
        0
    }
}

/// The number of interior cells a fill covers along a side of length `n`.
pub open spec fn fill_span(n: int) -> int {
    if n >= 3 {
        n - 3
    } else {
        0
    }
}

/// `ops`, from index `k`, outline the rectangle at (`x`, `y`) of `w` by `h`
/// in `border`: the top and bottom edges, the two sides row by row, then the
/// four corners.
pub open spec fn outline_at(ops: Seq<DrawOp>, k: int, x: int, y: int, w: int, h: int, border: Color) -> bool {
    let corners = k + 4 + 4 * inner_rows(h);
    &&& text_pair(ops, k, edge_line(w as nat), x + 1, y, border, Color::Reset)
    &&& text_pair(ops, k + 2, edge_line(w as nat), x + 1, y + h, border, Color::Reset)
    &&& forall|r: int|
        0 <= r < inner_rows(h) ==> #[trigger] text_pair(ops, k + 4 + 4 * r, seq!['\u{2503}'], x, y + 1 + r, border, Color::Reset)
            && text_pair(ops, k + 6 + 4 * r, seq!['\u{2503}'], x + w, y + 1 + r, border, Color::Reset)
    &&& text_pair(ops, corners, seq!['\u{250F}'], x, y, border, Color::Reset)
    &&& text_pair(ops, corners + 2, seq!['\u{2513}'], x + w, y, border, Color::Reset)
    &&& text_pair(ops, corners + 4, seq!['\u{2517}'], x, y + h, border, Color::Reset)
    &&& text_pair(ops, corners + 6, seq!['\u{251B}'], x + w, y + h, border, Color::Reset)
}

/// What a prefix of the primitives holds stays true once more are recorded.
pub(crate) proof fn lemma_prefix_kept(a: Seq<DrawOp>, b: Seq<DrawOp>)
    requires
        a.len() <= b.len(),
        b.subrange(0, a.len() as int) == a,
    ensures
        forall|k: int, text: Seq<char>, x: int, y: int, fg: Color, bg: Color|
            #[trigger] text_pair(a, k, text, x, y, fg, bg) ==> text_pair(b, k, text, x, y, fg, bg),
        forall|k: int, px: int, py: int, c: Color|
            #[trigger] fill_pair(a, k, px, py, c) ==> fill_pair(b, k, px, py, c),
        forall|k: int, x: int, y: int, w: int, h: int, c: Color|
            #[trigger] outline_at(a, k, x, y, w, h, c) ==> outline_at(b, k, x, y, w, h, c),
{
    assert forall|k: int, text: Seq<char>, x: int, y: int, fg: Color, bg: Color|
        #[trigger] text_pair(a, k, text, x, y, fg, bg) implies text_pair(b, k, text, x, y, fg, bg) by {
        assert(b[k] == b.subrange(0, a.len() as int)[k]);
        assert(b[k + 1] == b.subrange(0, a.len() as int)[k + 1]);
    }
    assert forall|k: int, px: int, py: int, c: Color|
        #[trigger] fill_pair(a, k, px, py, c) implies fill_pair(b, k, px, py, c) by {
        assert(b[k] == b.subrange(0, a.len() as int)[k]);
        assert(b[k + 1] == b.subrange(0, a.len() as int)[k + 1]);
    }
    assert forall|k: int, x: int, y: int, w: int, h: int, c: Color|
        #[trigger] outline_at(a, k, x, y, w, h, c) implies outline_at(b, k, x, y, w, h, c) by {
        assert forall|r: int| 0 <= r < inner_rows(h) implies #[trigger] text_pair(b, k + 4 + 4 * r, seq!['\u{2503}'], x, y + 1 + r, c, Color::Reset)
            && text_pair(b, k + 6 + 4 * r, seq!['\u{2503}'], x + w, y + 1 + r, c, Color::Reset) by {
            assert(text_pair(a, k + 4 + 4 * r, seq!['\u{2503}'], x, y + 1 + r, c, Color::Reset));
            assert(text_pair(a, k + 6 + 4 * r, seq!['\u{2503}'], x + w, y + 1 + r, c, Color::Reset));
        }
    }
}

/// A fill recorded in a prefix of the primitives stays there once more are
/// recorded.
pub(crate) proof fn lemma_fill_kept(p: Seq<DrawOp>, q: Seq<DrawOp>, k: int, x: int, y: int, w: int, h: int, c: Color)
    requires
        p.len() <= q.len(),
        q.subrange(0, p.len() as int) == p,
        fill_at(p, k, x, y, w, h, c),
    ensures
        fill_at(q, k, x, y, w, h, c),
{
    lemma_prefix_kept(p, q);
    assert forall|a: int, b: int| 0 <= a < fill_span(w) && 0 <= b < fill_span(h) implies #[trigger] fill_pair(
        q,
        k + 2 * (a * fill_span(h) + b),
        x + 2 + a,
        y + 2 + b,
        c,
    ) by {
        assert(fill_pair(p, k + 2 * (a * fill_span(h) + b), x + 2 + a, y + 2 + b, c));
    }
}

/// A string of `n` copies of `c`.
fn repeated(c: char, n: u16) -> (r: String)
    ensures
        r@ == Seq::new(n as nat, |_i: int| c),
{
    let mut s = String::new();
    let mut i: u16 = 0;
    while i < n
        invariant
            i <= n,
            s@ == Seq::new(i as nat, |_i: int| c),
        decreases n - i,
    {
        push_char(&mut s, c);
        i = i + 1;
        assert(s@ =~= Seq::new(i as nat, |_i: int| c));
    }
    s
}

/// The display: it records the primitives of a frame in order, and hands
/// them out on `flush` to whatever paints the real terminal.
pub struct TerminalW {
    pub size: Size,
    pub ops: Vec<DrawOp>,
}

impl TerminalW {
    /// A display for a terminal of `cols` by `rows` cells; the last two rows
    /// are kept free.
    pub fn default(cols: u16, rows: u16) -> (r: TerminalW)
        ensures
            r.size.width == cols,
            r.size.height == if rows >= 2 { rows - 2 } else { 0 },
            r.ops@.len() == 0,
    {
        TerminalW {
            size: Size { width: cols, height: rows.saturating_sub(2) },
            ops: Vec::new(),
        }
    }

    fn record(&mut self, op: DrawOp)
        ensures
            final(self).ops@ == old(self).ops@.push(op),
            final(self).size == old(self).size,
    {
        self.ops.push(op);
    }

    pub fn set_title(&mut self, title: &str)
        ensures
            final(self).ops@.len() == old(self).ops@.len() + 1,
            final(self).ops@.drop_last() == old(self).ops@,
            final(self).ops@.last() matches DrawOp::SetTitle(t) && t@ == title@,
            final(self).size == old(self).size,
    {
        let t = title.to_string();
        self.record(DrawOp::SetTitle(t));
    }

    pub fn clear_screen(&mut self)
        ensures
            final(self).ops@ == old(self).ops@.push(DrawOp::ClearScreen),
            final(self).size == old(self).size,
    {
        self.record(DrawOp::ClearScreen);
    }

    pub fn clear_current_line(&mut self)
        ensures
            final(self).ops@ == old(self).ops@.push(DrawOp::ClearCurrentLine),
            final(self).size == old(self).size,
    {
        self.record(DrawOp::ClearCurrentLine);
    }

    pub fn cursor_hide(&mut self)
        ensures
            final(self).ops@ == old(self).ops@.push(DrawOp::CursorHide),
            final(self).size == old(self).size,
    {
        self.record(DrawOp::CursorHide);
    }

    pub fn cursor_show(&mut self)
        ensures
            final(self).ops@ == old(self).ops@.push(DrawOp::CursorShow),
            final(self).size == old(self).size,
    {
        self.record(DrawOp::CursorShow);
    }

    pub fn set_cursor_shape(&mut self, cursor_shape: CursorStyle)
        ensures
            final(self).ops@ == old(self).ops@.push(DrawOp::SetCursorStyle(cursor_shape)),
            final(self).size == old(self).size,
    {
        self.record(DrawOp::SetCursorStyle(cursor_shape));
    }

    pub fn move_cursor(&mut self, x: u16, y: u16)
        ensures
            final(self).ops@ == old(self).ops@.push(DrawOp::MoveCursor { x, y }),
            final(self).size == old(self).size,
    {
        self.record(DrawOp::MoveCursor { x, y });
    }

    pub fn put_glyph(&mut self, chr: char, x: u16, y: u16, fg: Color, bg: Color)
        ensures
            final(self).ops@ == old(self).ops@.push(DrawOp::MoveCursor { x, y }).push(
                DrawOp::Glyph { chr, x, y, fg, bg },
            ),
            final(self).size == old(self).size,
    {
        self.move_cursor(x, y);
        self.record(DrawOp::Glyph { chr, x, y, fg, bg });
    }

    pub fn put_str(&mut self, line_str: String, x: u16, y: u16, fg: Color, bg: Color)
        ensures
            final(self).ops@ == old(self).ops@.push(DrawOp::MoveCursor { x, y }).push(
                DrawOp::Text { text: line_str, x, y, fg, bg },
            ),
            final(self).size == old(self).size,
    {
        self.move_cursor(x, y);
        self.record(DrawOp::Text { text: line_str, x, y, fg, bg });
    }

    pub fn set_size(&mut self, cols: u16, rows: u16)
        ensures
            final(self).ops@ == old(self).ops@.push(DrawOp::SetSize { cols, rows }),
            final(self).size == (Size { width: cols, height: rows }),
    {
        self.record(DrawOp::SetSize { cols, rows });
        self.size = Size { width: cols, height: rows };
    }

    /// Outlines the rectangle at (`x`, `y`) of `w` by `h` in `border_color`
    /// and, where a fill colour is given, paints its interior with it.
    pub fn draw_rect(
        &mut self,
        x: u16,
        y: u16,
        w: u16,
        h: u16,
        border_color: Color,
        fill_color: Option<Color>,
    )
        requires
            x + w <= u16::MAX,
            y + h <= u16::MAX,
            w == 0 ==> x < u16::MAX,
        ensures
            final(self).size == old(self).size,
            final(self).ops@.subrange(0, old(self).ops@.len() as int) == old(self).ops@,
            outline_at(final(self).ops@, old(self).ops@.len() as int, x as int, y as int, w as int, h as int, border_color),
            fill_color is None ==> final(self).ops@.len() == old(self).ops@.len() + 12 + 4 * inner_rows(h as int),
            fill_color matches Some(c) ==> {
                let fill = old(self).ops@.len() + 12 + 4 * inner_rows(h as int);
                &&& final(self).ops@.len() == fill + 2 * (fill_span(w as int) * fill_span(h as int))
                &&& fill_at(final(self).ops@, fill, x as int, y as int, w as int, h as int, c)
            },
    {
        let ghost base = self.ops@.len() as int;
        let h_line = repeated('\u{2501}', w);
        let top = h_line.clone();
        self.put_str(top, x + 1, y, border_color, Color::Reset);
        self.put_str(h_line, x + 1, y + h, border_color, Color::Reset);
        assert(self.ops@.subrange(0, base) =~= old(self).ops@);
        let mut r: u16 = 1;
        while r < h
            invariant
                1 <= r,
                r <= h || h == 0,
                h == 0 ==> r == 1,
                y + h <= u16::MAX,
                x + w <= u16::MAX,
                self.size == old(self).size,
                self.ops@.len() == base + 4 + 4 * (r - 1),
                self.ops@.subrange(0, base) == old(self).ops@,
                text_pair(self.ops@, base, edge_line(w as nat), x + 1, y as int, border_color, Color::Reset),
                text_pair(self.ops@, base + 2, edge_line(w as nat), x + 1, y + h, border_color, Color::Reset),
                forall|q: int|
                    0 <= q < r - 1 ==> #[trigger] text_pair(self.ops@, base + 4 + 4 * q, seq!['\u{2503}'], x as int, y + 1 + q, border_color, Color::Reset)
                        && text_pair(self.ops@, base + 6 + 4 * q, seq!['\u{2503}'], x + w, y + 1 + q, border_color, Color::Reset),
            decreases h - r,
        {
            let ghost before = self.ops@;
            let i = y + r;
            let mut left = String::new();
            push_char(&mut left, '\u{2503}');
            let mut right = String::new();
            push_char(&mut right, '\u{2503}');
            self.put_str(left, x, i, border_color, Color::Reset);
            self.put_str(right, x + w, i, border_color, Color::Reset);
            proof {
                assert(self.ops@.subrange(0, before.len() as int) =~= before);
                lemma_prefix_kept(before, self.ops@);
                assert(self.ops@.subrange(0, base) =~= before.subrange(0, base));
                let n = r - 1;
                assert forall|q: int| 0 <= q < n + 1 implies #[trigger] text_pair(self.ops@, base + 4 + 4 * q, seq!['\u{2503}'], x as int, y + 1 + q, border_color, Color::Reset)
                    && text_pair(self.ops@, base + 6 + 4 * q, seq!['\u{2503}'], x + w, y + 1 + q, border_color, Color::Reset) by {
                    if q < n {
                        assert(text_pair(before, base + 4 + 4 * q, seq!['\u{2503}'], x as int, y + 1 + q, border_color, Color::Reset));
                        assert(text_pair(before, base + 6 + 4 * q, seq!['\u{2503}'], x + w, y + 1 + q, border_color, Color::Reset));
                    }
                }
            }
            r = r + 1;
        }
        let ghost sides = self.ops@;
        let mut c1 = String::new();
        push_char(&mut c1, '\u{250F}');
        self.put_str(c1, x, y, border_color, Color::Reset);
        let mut c2 = String::new();
        push_char(&mut c2, '\u{2513}');
        self.put_str(c2, x + w, y, border_color, Color::Reset);
        let mut c3 = String::new();
        push_char(&mut c3, '\u{2517}');
        self.put_str(c3, x, y + h, border_color, Color::Reset);
        let mut c4 = String::new();
        push_char(&mut c4, '\u{251B}');
        self.put_str(c4, x + w, y + h, border_color, Color::Reset);
        proof {
            assert(self.ops@.subrange(0, sides.len() as int) =~= sides);
            lemma_prefix_kept(sides, self.ops@);
            assert(self.ops@.subrange(0, base) =~= sides.subrange(0, base));
            assert forall|q: int| 0 <= q < inner_rows(h as int) implies #[trigger] text_pair(self.ops@, base + 4 + 4 * q, seq!['\u{2503}'], x as int, y + 1 + q, border_color, Color::Reset)
                && text_pair(self.ops@, base + 6 + 4 * q, seq!['\u{2503}'], x + w, y + 1 + q, border_color, Color::Reset) by {
                assert(text_pair(sides, base + 4 + 4 * q, seq!['\u{2503}'], x as int, y + 1 + q, border_color, Color::Reset));
                assert(text_pair(sides, base + 6 + 4 * q, seq!['\u{2503}'], x + w, y + 1 + q, border_color, Color::Reset));
            }
            assert(outline_at(self.ops@, base, x as int, y as int, w as int, h as int, border_color));
        }
        let ghost fill = self.ops@.len() as int;
        match fill_color {
            Some(c) => {
                let ghost rows = fill_span(h as int);
                let ghost cols = fill_span(w as int);
                let mut a: u16 = 2;
                assert((a - 2) * rows == 0) by (nonlinear_arith)
                    requires
                        a - 2 == 0,
                ;
                while a + 1 < w
                    invariant
                        2 <= a,
                        a + 1 <= w || a == 2,
                        x + w <= u16::MAX,
                        y + h <= u16::MAX,
                        self.size == old(self).size,
                        rows == fill_span(h as int),
                        cols == fill_span(w as int),
                        fill == base + 12 + 4 * inner_rows(h as int),
                        self.ops@.len() == fill + 2 * ((a - 2) * rows),
                        outline_at(self.ops@, base, x as int, y as int, w as int, h as int, border_color),
                        self.ops@.subrange(0, base) == old(self).ops@,
                        forall|i: int, j: int|
                            0 <= i < a - 2 && 0 <= j < rows ==> #[trigger] fill_pair(
                                self.ops@,
                                fill + 2 * (i * rows + j),
                                x + 2 + i,
                                y + 2 + j,
                                c,
                            ),
                    decreases w - a,
                {
                    let px = x + a;
                    let mut b: u16 = 2;
                    let ghost done = (a - 2) * rows;
                    while b + 1 < h
                        invariant
                            2 <= a,
                            a + 1 < w,
                            px == x + a,
                            2 <= b,
                            b + 1 <= h || b == 2,
                            x + w <= u16::MAX,
                            y + h <= u16::MAX,
                            self.size == old(self).size,
                            rows == fill_span(h as int),
                            done == (a - 2) * rows,
                            self.ops@.len() == fill + 2 * (done + (b - 2)),
                            outline_at(self.ops@, base, x as int, y as int, w as int, h as int, border_color),
                            self.ops@.subrange(0, base) == old(self).ops@,
                            forall|i: int, j: int|
                                0 <= i < a - 2 && 0 <= j < rows ==> #[trigger] fill_pair(
                                    self.ops@,
                                    fill + 2 * (i * rows + j),
                                    x + 2 + i,
                                    y + 2 + j,
                                    c,
                                ),
                            forall|j: int|
                                0 <= j < b - 2 ==> #[trigger] fill_pair(
                                    self.ops@,
                                    fill + 2 * (done + j),
                                    x + a,
                                    y + 2 + j,
                                    c,
                                ),
                        decreases h - b,
                    {
                        let ghost before = self.ops@;
                        let py = y + b;
                        self.put_glyph(' ', px, py, c, c);
                        proof {
                            assert(self.ops@.subrange(0, before.len() as int) =~= before);
                            lemma_prefix_kept(before, self.ops@);
                            assert(self.ops@.subrange(0, base) =~= before.subrange(0, base));
                            assert forall|i: int, j: int|
                                0 <= i < a - 2 && 0 <= j < rows implies #[trigger] fill_pair(
                                    self.ops@,
                                    fill + 2 * (i * rows + j),
                                    x + 2 + i,
                                    y + 2 + j,
                                    c,
                                ) by {
                                assert(fill_pair(before, fill + 2 * (i * rows + j), x + 2 + i, y + 2 + j, c));
                            }
                            let n = b - 2;
                            assert forall|j: int| 0 <= j < n + 1 implies #[trigger] fill_pair(
                                self.ops@,
                                fill + 2 * (done + j),
                                x + a,
                                y + 2 + j,
                                c,
                            ) by {
                                if j < n {
                                    assert(fill_pair(before, fill + 2 * (done + j), x + a, y + 2 + j, c));
                                }
                            }
                        }
                        b = b + 1;
                    }
                    proof {
                        assert(b - 2 == rows);
                        assert(done + rows == (a + 1 - 2) * rows) by (nonlinear_arith)
                            requires
                                done == (a - 2) * rows,
                        ;
                        assert forall|i: int, j: int|
                            0 <= i < a + 1 - 2 && 0 <= j < rows implies #[trigger] fill_pair(
                                self.ops@,
                                fill + 2 * (i * rows + j),
                                x + 2 + i,
                                y + 2 + j,
                                c,
                            ) by {
                            if i == a - 2 {
                                assert(i * rows == done);
                                assert(fill_pair(self.ops@, fill + 2 * (done + j), x + a, y + 2 + j, c));
                            }
                        }
                    }
                    a = a + 1;
                }
                assert(a - 2 == cols);
            },
            None => {},
        }
    }

    pub fn get_size(&self) -> (r: &Size)
        ensures
            *r == self.size,
    {
        &self.size
    }

    /// Hands out the primitives recorded since the last flush, in order.
    pub fn flush(&mut self) -> (r: Vec<DrawOp>)
        ensures
            r@ == old(self).ops@,
            final(self).ops@.len() == 0,
            final(self).size == old(self).size,
    {
        let mut out: Vec<DrawOp> = Vec::new();
        std::mem::swap(&mut out, &mut self.ops);
        out
    }
}

} // verus!
