use vstd::prelude::*;
use vstd::string::*;

use crate::board::{column_position, column_size, column_title, Board, InputMode, WritingTaskType};
use crate::size::Size;
use crate::task::Task;
use crate::terminalw::{fill_at, fill_pair, fill_span, inner_rows, outline_at, text_pair, Color, DrawOp};
use crate::text::push_char;

verus! {

/// `s` cut to its first `n` characters and marked with a dash when it is
/// longer than that.
pub open spec fn trimmed(s: Seq<char>, n: nat) -> Seq<char> {
    if s.len() > n {
        s.subrange(0, n as int).push('-')
    } else {
        s
    }
}

/// The character of the decimal digit `d`.
pub open spec fn digit_char(d: nat) -> char {
    if d == 0 {
        '0'
    } else if d == 1 {
        '1'
    } else if d == 2 {
        '2'
    } else if d == 3 {
        '3'
    } else if d == 4 {
        '4'
    } else if d == 5 {
        '5'
    } else if d == 6 {
        '6'
    } else if d == 7 {
        '7'
    } else if d == 8 {
        '8'
    } else {
        '9'
    }
}

/// `n` written in decimal, without leading zeros.
pub open spec fn decimal(n: nat) -> Seq<char>
    decreases n,
{
    if n < 10 {
        seq![digit_char(n)]
    } else {
        decimal(n / 10).push(digit_char(n % 10))
    }
}

/// `n` spaces.
pub open spec fn blanks(n: nat) -> Seq<char> {
    Seq::new(n, |_i: int| ' ')
}

/// The digit character for `d` (below ten).
fn digit(d: usize) -> (c: char)
    requires
        d < 10,
    ensures
        c == digit_char(d as nat),
{
    if d == 0 {
        '0'
    } else if d == 1 {
        '1'
    } else if d == 2 {
        '2'
    } else if d == 3 {
        '3'
    } else if d == 4 {
        '4'
    } else if d == 5 {
        '5'
    } else if d == 6 {
        '6'
    } else if d == 7 {
        '7'
    } else if d == 8 {
        '8'
    } else {
        '9'
    }
}

/// `n` in decimal.
pub fn decimal_text(n: usize) -> (r: String)
    ensures
        r@ == decimal(n as nat),
    decreases n,
{
    if n < 10 {
        let mut s = String::new();
        push_char(&mut s, digit(n));
        assert(s@ =~= seq![digit_char(n as nat)]);
        s
    } else {
        let mut s = decimal_text(n / 10);
        push_char(&mut s, digit(n % 10));
        s
    }
}

/// The task counter of a column: `current/total`.
pub fn counter_text(current: usize, total: usize) -> (r: String)
    ensures
        r@ == decimal(current as nat) + seq!['/'] + decimal(total as nat),
{
    let mut s = decimal_text(current);
    push_char(&mut s, '/');
    let t = decimal_text(total);
    let r = s.concat(t.as_str());
    r
}

/// A line of `n` spaces.
pub fn blank_line(n: usize) -> (r: String)
    ensures
        r@ == blanks(n as nat),
{
    let mut s = String::new();
    let mut i: usize = 0;
    while i < n
        invariant
            i <= n,
            s@ == blanks(i as nat),
        decreases n - i,
    {
        push_char(&mut s, ' ');
        i = i + 1;
        assert(s@ =~= blanks(i as nat));
    }
    s
}

/// `s` cut into lines of `width` characters; the last may be shorter. An
/// empty text gives no line.
pub fn wrap_text(s: &String, width: usize) -> (r: Vec<String>)
    requires
        width > 0,
    ensures
        r@.len() == (s@.len() + width - 1) / width as int,
        forall|k: int|
            0 <= k < r@.len() ==> #[trigger] r@[k]@ == s@.subrange(
                k * width,
                if (k + 1) * width <= s@.len() {
                    (k + 1) * width
                } else {
                    s@.len() as int
                },
            ),
{
    let len = s.as_str().unicode_len();
    let mut out: Vec<String> = Vec::new();
    let mut start: usize = 0;
    assert(out@.len() * width == 0) by (nonlinear_arith)
        requires
            out@.len() == 0,
    ;
    while start < len
        invariant
            len == s@.len(),
            width > 0,
            start <= len,
            start < len ==> start == out@.len() * width,
            start == len ==> out@.len() * width >= len && (out@.len() == 0 || (out@.len() - 1)
                * width < len),
            forall|k: int|
                0 <= k < out@.len() ==> #[trigger] out@[k]@ == s@.subrange(
                    k * width,
                    if (k + 1) * width <= s@.len() {
                        (k + 1) * width
                    } else {
                        s@.len() as int
                    },
                ),
        decreases len - start,
    {
        let end = if len - start >= width {
            start + width
        } else {
            len
        };
        let piece = s.as_str().substring_char(start, end).to_string();
        let ghost k = out@.len() as int;
        proof {
            assert((k + 1) * width == k * width + width) by (nonlinear_arith);
        }
        out.push(piece);
        start = end;
    }
    proof {
        let n = out@.len() as int;
        let w = width as int;
        let l = len as int;
        assert((l + w - 1) / w == n) by (nonlinear_arith)
            requires
                n * w >= l,
                n == 0 ==> l == 0,
                n > 0 ==> (n - 1) * w < l,
                w > 0,
                l >= 0,
        ;
    }
    out
}

/// The row where text is typed: two above the bottom of the drawing area.
pub open spec fn writing_row(height: u16) -> int {
    if height >= 2 {
        height - 2
    } else {
        0
    }
}

/// The row of the help and status bar: three above the bottom.
pub open spec fn bar_row(height: u16) -> int {
    if height >= 3 {
        height - 3
    } else {
        0
    }
}

/// Where the board name is written: centred, moved right by half its length.
pub open spec fn name_column(width: u16, name_len: nat) -> int {
    if width / 2 + name_len / 2 <= u16::MAX {
        width / 2 + name_len / 2
    } else {
        u16::MAX as int
    }
}

/// The board name as shown: with a star while there are unsaved changes.
pub open spec fn shown_name(name: Seq<char>, modified: bool) -> Seq<char> {
    if modified {
        name.push('*')
    } else {
        name
    }
}

/// `ops`, from index `k`, draw the bar with `text` on a display of `size`:
/// the cursor moved to the bar row, the row cleared, a full-width white bar,
/// and the text on it.
pub open spec fn bar_at(ops: Seq<DrawOp>, k: int, text: Seq<char>, size: Size) -> bool {
    &&& 0 <= k && k + 5 < ops.len()
    &&& ops[k] == (DrawOp::MoveCursor { x: 0, y: bar_row(size.height) as u16 })
    &&& ops[k + 1] == DrawOp::ClearCurrentLine
    &&& text_pair(ops, k + 2, blanks(size.width as nat), 0, bar_row(size.height), Color::Black, Color::White)
    &&& text_pair(ops, k + 4, text, 0, bar_row(size.height), Color::Black, Color::White)
}

/// `ops`, from index `k`, clear the row where text is typed on a display of
/// height `height`, leaving the cursor at its start.
pub open spec fn row_cleared_at(ops: Seq<DrawOp>, k: int, height: u16) -> bool {
    &&& 0 <= k && k + 1 < ops.len()
    &&& ops[k] == (DrawOp::MoveCursor { x: 0, y: writing_row(height) as u16 })
    &&& ops[k + 1] == DrawOp::ClearCurrentLine
}

/// The bar and a cleared row stay where they are once more primitives are
/// recorded.
proof fn lemma_bar_kept(p: Seq<DrawOp>, q: Seq<DrawOp>)
    requires
        p.len() <= q.len(),
        q.subrange(0, p.len() as int) == p,
    ensures
        forall|k: int, text: Seq<char>, size: Size| #[trigger] bar_at(p, k, text, size) ==> bar_at(q, k, text, size),
        forall|k: int, height: u16| #[trigger] row_cleared_at(p, k, height) ==> row_cleared_at(q, k, height),
{
    crate::terminalw::lemma_prefix_kept(p, q);
    assert forall|k: int, text: Seq<char>, size: Size| #[trigger] bar_at(p, k, text, size) implies bar_at(q, k, text, size) by {
        assert(q[k] == q.subrange(0, p.len() as int)[k]);
        assert(q[k + 1] == q.subrange(0, p.len() as int)[k + 1]);
        assert(text_pair(p, k + 2, blanks(size.width as nat), 0, bar_row(size.height), Color::Black, Color::White));
        assert(text_pair(p, k + 4, text, 0, bar_row(size.height), Color::Black, Color::White));
    }
    assert forall|k: int, height: u16| #[trigger] row_cleared_at(p, k, height) implies row_cleared_at(q, k, height) by {
        assert(q[k] == q.subrange(0, p.len() as int)[k]);
        assert(q[k + 1] == q.subrange(0, p.len() as int)[k + 1]);
    }
}

impl Board {
    /// `trim_str` cut to `trim_index` characters, with a dash, when longer.
    pub fn trim_str(&self, trim_str: String, trim_index: usize) -> (r: String)
        ensures
            r@ == trimmed(trim_str@, trim_index as nat),
    {
        let len = trim_str.as_str().unicode_len();
        if len > trim_index {
            let mut s = trim_str.as_str().substring_char(0, trim_index).to_string();
            push_char(&mut s, '-');
            s
        } else {
            trim_str
        }
    }

    /// Whether the task row `line` lies below the last row a column shows.
    pub fn hit_block_bottom(&self, line: usize) -> (r: bool)
        ensures
            r == (line >= 7),
    {
        line >= 7
    }

    /// Puts the terminal cursor inside the selected column.
    pub fn calc_selector_pos(&mut self)
        requires
            old(self).wf(),
        ensures
            final(self).term.ops@ == old(self).term.ops@.push(
                DrawOp::MoveCursor {
                    x: (column_position(old(self).col()).x + 4) as u16,
                    y: (column_position(old(self).col()).y + 2) as u16,
                },
            ),
            final(self).term.size == old(self).term.size,
            Board::unchanged(old(self), final(self)),
            final(self).wf(),
    {
        let c = self.selector.block_ptr as usize;
        let x = self.block_list[c].position.x + 4;
        let y = self.block_list[c].position.y + 2;
        self.term.move_cursor(x, y);
    }

    /// Clears the row where text is typed, leaving the cursor at its start.
    pub fn clear_writing_line(&mut self)
        requires
            old(self).wf(),
        ensures
            final(self).term.ops@ == old(self).term.ops@.push(
                DrawOp::MoveCursor { x: 0, y: writing_row(old(self).term.size.height) as u16 },
            ).push(DrawOp::ClearCurrentLine),
            final(self).term.size == old(self).term.size,
            Board::unchanged(old(self), final(self)),
            final(self).wf(),
    {
        let y = self.term.get_size().height.saturating_sub(2);
        self.term.move_cursor(0, y);
        self.term.clear_current_line();
    }

    /// Writes the board name at the top, with a star while modified.
    pub fn put_board_name(&mut self)
        requires
            old(self).wf(),
        ensures
            final(self).term.ops@.len() == old(self).term.ops@.len() + 2,
            final(self).term.ops@.subrange(0, old(self).term.ops@.len() as int)
                == old(self).term.ops@,
            text_pair(
                final(self).term.ops@,
                old(self).term.ops@.len() as int,
                shown_name(old(self).board_name@, old(self).is_modified),
                name_column(old(self).term.size.width, old(self).board_name@.len()),
                0,
                Color::Black,
                Color::White,
            ),
            final(self).term.size == old(self).term.size,
            Board::unchanged(old(self), final(self)),
            final(self).wf(),
    {
        let mut board_str = self.board_name.clone();
        if self.is_modified {
            push_char(&mut board_str, '*');
        }
        let half_width = self.term.get_size().width / 2;
        let half_len = self.board_name.as_str().unicode_len() / 2;
        let x: u16 = if half_len <= (u16::MAX - half_width) as usize {
            half_width + half_len as u16
        } else {
            u16::MAX
        };
        self.term.put_str(board_str, x, 0, Color::Black, Color::White);
    }

    /// Writes `bar_str` on the bar row, over a full-width white bar.
    pub fn put_bottom_bar(&mut self, bar_str: String)
        requires
            old(self).wf(),
        ensures
            final(self).term.ops@.len() == old(self).term.ops@.len() + 6,
            final(self).term.ops@.subrange(0, old(self).term.ops@.len() as int)
                == old(self).term.ops@,
            bar_at(final(self).term.ops@, old(self).term.ops@.len() as int, bar_str@, old(self).term.size),
            final(self).notice == old(self).notice,
            final(self).term.size == old(self).term.size,
            Board::unchanged(old(self), final(self)),
            final(self).wf(),
    {
        let ghost pre = *self;
        let spaces = blank_line(self.term.get_size().width as usize);
        let y = self.term.get_size().height.saturating_sub(3);
        self.term.move_cursor(0, y);
        self.term.clear_current_line();
        self.term.put_str(spaces, 0, y, Color::Black, Color::White);
        self.term.put_str(bar_str, 0, y, Color::Black, Color::White);
        proof {
            Board::lemma_wf_kept(&pre, self);
        }
    }
}


/// Most tasks a column shows at once.
pub const VISIBLE_TASKS: usize = 6;

/// Width of a task line: the column's width less its margins.
pub const TASK_LINE_WIDTH: usize = 24;

/// How many of `len` tasks are shown when the first shown is `first`.
pub open spec fn shown(len: int, first: int) -> int {
    let rest = len - first;
    if rest <= 0 {
        0
    } else if rest < VISIBLE_TASKS {
        rest
    } else {
        VISIBLE_TASKS as int
    }
}

/// `ops`, from index `k`, hold the lines of the `m`-th task shown of column
/// `i`: its trimmed title and, below it, its trimmed description.
pub open spec fn task_lines_at(ops: Seq<DrawOp>, k: int, i: int, t: Task, m: int) -> bool {
    let p = column_position(i);
    &&& text_pair(
        ops,
        k + 4 * m,
        trimmed(t.title@, TASK_LINE_WIDTH as nat),
        p.x + 5,
        p.y + 2 + 4 * m,
        Color::White,
        Color::Reset,
    )
    &&& text_pair(
        ops,
        k + 4 * m + 2,
        trimmed(t.description@, TASK_LINE_WIDTH as nat),
        p.x + 5,
        p.y + 3 + 4 * m,
        Color::Grey,
        Color::Reset,
    )
}

/// `ops`, from index `k`, draw the tasks of column `i` from `first` on, as
/// many as it shows.
pub open spec fn shows_tasks(ops: Seq<DrawOp>, k: int, i: int, tasks: Seq<Task>, first: int) -> bool {
    forall|m: int|
        0 <= m < shown(tasks.len() as int, first) ==> #[trigger] task_lines_at(
            ops,
            k,
            i,
            tasks[first + m],
            m,
        )
}

/// The lines of a task stay where they are once more primitives are
/// recorded.
proof fn lemma_task_lines_kept(a: Seq<DrawOp>, c: Seq<DrawOp>)
    requires
        a.len() <= c.len(),
        c.subrange(0, a.len() as int) == a,
    ensures
        forall|k: int, i: int, t: Task, m: int|
            #[trigger] task_lines_at(a, k, i, t, m) ==> task_lines_at(c, k, i, t, m),
{
    crate::terminalw::lemma_prefix_kept(a, c);
    assert forall|k: int, i: int, t: Task, m: int|
        #[trigger] task_lines_at(a, k, i, t, m) implies task_lines_at(c, k, i, t, m) by {
        let p = column_position(i);
        assert(text_pair(
            a,
            k + 4 * m,
            trimmed(t.title@, TASK_LINE_WIDTH as nat),
            p.x + 5,
            p.y + 2 + 4 * m,
            Color::White,
            Color::Reset,
        ));
        assert(text_pair(
            a,
            k + 4 * m + 2,
            trimmed(t.description@, TASK_LINE_WIDTH as nat),
            p.x + 5,
            p.y + 3 + 4 * m,
            Color::Grey,
            Color::Reset,
        ));
    }
}

/// What a prefix of the primitives shows of a column stays shown once more
/// are recorded.
proof fn lemma_shows_kept(a: Seq<DrawOp>, c: Seq<DrawOp>, k: int, i: int, tasks: Seq<Task>, first: int)
    requires
        a.len() <= c.len(),
        c.subrange(0, a.len() as int) == a,
        shows_tasks(a, k, i, tasks, first),
    ensures
        shows_tasks(c, k, i, tasks, first),
{
    lemma_task_lines_kept(a, c);
    assert forall|m: int| 0 <= m < shown(tasks.len() as int, first) implies #[trigger] task_lines_at(
        c,
        k,
        i,
        tasks[first + m],
        m,
    ) by {
        assert(task_lines_at(a, k, i, tasks[first + m], m));
    }
}

impl Board {
    /// The first task column `i` shows: the one under the cursor in the
    /// selected column, the first elsewhere.
    pub open spec fn first_shown(&self, i: int) -> int {
        if i == self.col() {
            self.selector.task_ptr as int
        } else {
            0
        }
    }

    /// How many tasks column `i` shows.
    pub open spec fn shown_count(&self, i: int) -> int {
        shown(self.tasks(i).len() as int, self.first_shown(i))
    }

    /// `ops`, from index `k`, draw the tasks that column `i` shows.
    pub open spec fn shows_column(&self, ops: Seq<DrawOp>, k: int, i: int) -> bool {
        shows_tasks(ops, k, i, self.tasks(i), self.first_shown(i))
    }

    /// Draws the tasks that column `i` shows.
    fn put_column_tasks(&mut self, i: usize)
        requires
            old(self).wf(),
            i < 3,
        ensures
            final(self).wf(),
            Board::unchanged(old(self), final(self)),
            final(self).term.size == old(self).term.size,
            final(self).term.ops@.len() == old(self).term.ops@.len() + 4 * old(self).shown_count(
                i as int,
            ),
            final(self).term.ops@.subrange(0, old(self).term.ops@.len() as int)
                == old(self).term.ops@,
            old(self).shows_column(final(self).term.ops@, old(self).term.ops@.len() as int, i as int),
    {
        let ghost base = self.term.ops@.len() as int;
        let ghost b = *self;
        let len = self.block_list[i].task_list.len();
        let first: usize = if i == self.selector.block_ptr as usize {
            self.selector.task_ptr
        } else {
            0
        };
        let px = self.block_list[i].position.x + 5;
        let py = self.block_list[i].position.y;
        let mut it: usize = 0;
        while it < VISIBLE_TASKS && first + it < len
            invariant
                b.wf(),
                Board::unchanged(&b, self),
                self.wf(),
                i < 3,
                len == b.tasks(i as int).len(),
                first == b.first_shown(i as int),
                first <= len,
                it <= VISIBLE_TASKS,
                it <= b.shown_count(i as int),
                px == column_position(i as int).x + 5,
                py == column_position(i as int).y,
                self.term.size == b.term.size,
                base == b.term.ops@.len(),
                self.term.ops@.len() == base + 4 * it,
                self.term.ops@.subrange(0, base) == b.term.ops@,
                forall|m: int|
                    0 <= m < it ==> #[trigger] task_lines_at(
                        self.term.ops@,
                        base,
                        i as int,
                        b.tasks(i as int)[first + m],
                        m,
                    ),
            decreases VISIBLE_TASKS - it,
        {
            let ghost before = self.term.ops@;
            let title = self.block_list[i].task_list[first + it].title.clone();
            let description = self.block_list[i].task_list[first + it].description.clone();
            let title_line = self.trim_str(title, TASK_LINE_WIDTH);
            let description_line = self.trim_str(description, TASK_LINE_WIDTH);
            let row = (it as u16) * 4;
            self.term.put_str(title_line, px, py + 2 + row, Color::White, Color::Reset);
            self.term.put_str(description_line, px, py + 3 + row, Color::Grey, Color::Reset);
            proof {
                assert(self.term.ops@.subrange(0, before.len() as int) =~= before);
                lemma_task_lines_kept(before, self.term.ops@);
                assert(self.term.ops@.subrange(0, base) =~= before.subrange(0, base));
                assert forall|m: int| 0 <= m < it + 1 implies #[trigger] task_lines_at(
                    self.term.ops@,
                    base,
                    i as int,
                    b.tasks(i as int)[first + m],
                    m,
                ) by {
                    if m < it {
                        assert(task_lines_at(before, base, i as int, b.tasks(i as int)[first + m], m));
                    }
                }
            }
            it = it + 1;
        }
    }

    /// Draws the tasks that each column shows, column by column.
    pub fn put_tasks(&mut self)
        requires
            old(self).wf(),
        ensures
            final(self).wf(),
            Board::unchanged(old(self), final(self)),
            final(self).term.size == old(self).term.size,
            final(self).term.ops@.len() == old(self).term.ops@.len() + 4 * (old(self).shown_count(0)
                + old(self).shown_count(1) + old(self).shown_count(2)),
            final(self).term.ops@.subrange(0, old(self).term.ops@.len() as int)
                == old(self).term.ops@,
            old(self).shows_column(final(self).term.ops@, old(self).term.ops@.len() as int, 0),
            old(self).shows_column(
                final(self).term.ops@,
                old(self).term.ops@.len() + 4 * old(self).shown_count(0),
                1,
            ),
            old(self).shows_column(
                final(self).term.ops@,
                old(self).term.ops@.len() + 4 * (old(self).shown_count(0) + old(self).shown_count(1)),
                2,
            ),
    {
        let ghost b = *self;
        let ghost s0 = self.term.ops@;
        self.put_column_tasks(0);
        let ghost s1 = self.term.ops@;
        self.put_column_tasks(1);
        let ghost s2 = self.term.ops@;
        self.put_column_tasks(2);
        proof {
            let s3 = self.term.ops@;
            assert(s3.subrange(0, s2.len() as int) =~= s2);
            assert(s2.subrange(0, s1.len() as int) =~= s1);
            assert(s3.subrange(0, s1.len() as int) =~= s1);
            assert(s3.subrange(0, s0.len() as int) =~= s0);
            assert(s2.subrange(0, s0.len() as int) =~= s0);
            lemma_shows_kept(s2, s3, s1.len() as int, 1, b.tasks(1), b.first_shown(1));
            lemma_shows_kept(s1, s2, s0.len() as int, 0, b.tasks(0), b.first_shown(0));
            lemma_shows_kept(s2, s3, s0.len() as int, 0, b.tasks(0), b.first_shown(0));
        }
    }
}

/// The border colour of column `i`.
pub open spec fn column_color(i: int) -> Color {
    if i == 0 {
        Color::Red
    } else if i == 1 {
        Color::Yellow
    } else {
        Color::Green
    }
}

/// The counter's text colour: white on the selected column, red elsewhere.
pub open spec fn counter_fg(selected: bool) -> Color {
    if selected {
        Color::White
    } else {
        Color::Red
    }
}

/// The counter's background: red on the selected column, which highlights
/// it, and white elsewhere.
pub open spec fn counter_bg(selected: bool) -> Color {
    if selected {
        Color::Red
    } else {
        Color::White
    }
}

/// Primitives that drawing one column's frame records: its title, its
/// outline and its counter.
pub const FRAME_OPS: usize = 112;

impl Board {
    /// The counter of column `i`: the cursor's place and the number of tasks
    /// in the selected column; `1/n` elsewhere, or `0/0` when empty.
    pub open spec fn counter_of(&self, i: int) -> Seq<char> {
        let n = self.tasks(i).len();
        if i == self.col() {
            decimal((self.selector.task_ptr + 1) as nat) + seq!['/'] + decimal(n)
        } else if n > 0 {
            decimal(1) + seq!['/'] + decimal(n)
        } else {
            decimal(0) + seq!['/'] + decimal(0)
        }
    }

    /// `ops`, from index `k`, draw the frame of column `i`: its title above
    /// it, its outline in its colour, and its counter on the top edge.
    pub open spec fn frame_at(&self, ops: Seq<DrawOp>, k: int, i: int) -> bool {
        let p = column_position(i);
        let z = column_size();
        &&& text_pair(ops, k, column_title(i), p.x - 1 + z.width / 2, p.y - 2, Color::Black, Color::White)
        &&& outline_at(ops, k + 2, p.x as int, p.y as int, z.width as int, z.height as int, column_color(i))
        &&& text_pair(
            ops,
            k + 110,
            self.counter_of(i),
            p.x + z.width - 4,
            p.y as int,
            counter_fg(i == self.col()),
            counter_bg(i == self.col()),
        )
    }

    /// `ops`, from index `k`, draw the three columns: their frames in order,
    /// then the tasks each shows.
    pub open spec fn columns_drawn(&self, ops: Seq<DrawOp>, k: int) -> bool {
        let t = k + 3 * (FRAME_OPS as int);
        &&& ops.len() == t + 4 * (self.shown_count(0) + self.shown_count(1) + self.shown_count(2))
        &&& self.frame_at(ops, k, 0)
        &&& self.frame_at(ops, k + (FRAME_OPS as int), 1)
        &&& self.frame_at(ops, k + 2 * (FRAME_OPS as int), 2)
        &&& self.shows_column(ops, t, 0)
        &&& self.shows_column(ops, t + 4 * self.shown_count(0), 1)
        &&& self.shows_column(ops, t + 4 * (self.shown_count(0) + self.shown_count(1)), 2)
    }

    /// Draws the frame of column `i`.
    fn put_frame(&mut self, i: usize)
        requires
            old(self).wf(),
            i < 3,
        ensures
            final(self).wf(),
            Board::unchanged(old(self), final(self)),
            final(self).term.size == old(self).term.size,
            final(self).term.ops@.len() == old(self).term.ops@.len() + (FRAME_OPS as int),
            final(self).term.ops@.subrange(0, old(self).term.ops@.len() as int)
                == old(self).term.ops@,
            old(self).frame_at(final(self).term.ops@, old(self).term.ops@.len() as int, i as int),
    {
        let ghost base = self.term.ops@.len() as int;
        let ghost s0 = self.term.ops@;
        let x = self.block_list[i].position.x;
        let y = self.block_list[i].position.y;
        let w = self.block_list[i].size.width;
        let h = self.block_list[i].size.height;
        let title = self.block_list[i].title.clone();
        self.term.put_str(title, x - 1 + w / 2, y - 2, Color::Black, Color::White);
        let ghost s1 = self.term.ops@;
        let color = if i == 0 {
            Color::Red
        } else if i == 1 {
            Color::Yellow
        } else {
            Color::Green
        };
        self.term.draw_rect(x, y, w, h, color, None);
        let ghost s2 = self.term.ops@;
        let len = self.block_list[i].task_list.len();
        let counter = if i == self.selector.block_ptr as usize {
            counter_text(self.selector.task_ptr + 1, len)
        } else if len > 0 {
            counter_text(1, len)
        } else {
            counter_text(0, 0)
        };
        let selected = i == self.selector.block_ptr as usize;
        let (fg, bg) = if selected {
            (Color::White, Color::Red)
        } else {
            (Color::Red, Color::White)
        };
        self.term.put_str(counter, x + w - 4, y, fg, bg);
        proof {
            let s3 = self.term.ops@;
            assert(s3.subrange(0, s2.len() as int) =~= s2);
            assert(s2.subrange(0, s1.len() as int) =~= s1);
            assert(s3.subrange(0, s1.len() as int) =~= s1);
            assert(s3.subrange(0, base) =~= s0);
            crate::terminalw::lemma_prefix_kept(s1, s3);
            crate::terminalw::lemma_prefix_kept(s2, s3);
        }
    }

    /// Draws the three columns: frames, then tasks.
    pub fn put_block(&mut self)
        requires
            old(self).wf(),
        ensures
            final(self).wf(),
            Board::unchanged(old(self), final(self)),
            final(self).term.size == old(self).term.size,
            final(self).term.ops@.subrange(0, old(self).term.ops@.len() as int)
                == old(self).term.ops@,
            old(self).columns_drawn(final(self).term.ops@, old(self).term.ops@.len() as int),
    {
        let ghost b = *self;
        let ghost s0 = self.term.ops@;
        self.put_frame(0);
        let ghost s1 = self.term.ops@;
        self.put_frame(1);
        let ghost s2 = self.term.ops@;
        self.put_frame(2);
        let ghost s3 = self.term.ops@;
        self.put_tasks();
        proof {
            let s4 = self.term.ops@;
            assert(s4.subrange(0, s3.len() as int) =~= s3);
            assert(s4.subrange(0, s2.len() as int) =~= s2);
            assert(s4.subrange(0, s1.len() as int) =~= s1);
            assert(s4.subrange(0, s0.len() as int) =~= s0);
            crate::terminalw::lemma_prefix_kept(s1, s4);
            crate::terminalw::lemma_prefix_kept(s2, s4);
            crate::terminalw::lemma_prefix_kept(s3, s4);
            assert(b.frame_at(s1, s0.len() as int, 0));
            assert(b.frame_at(s2, s1.len() as int, 1));
            assert(b.frame_at(s3, s2.len() as int, 2));
            assert(b.frame_at(s4, s0.len() as int, 0));
            assert(b.frame_at(s4, s1.len() as int, 1));
            assert(b.frame_at(s4, s2.len() as int, 2));
        }
    }

    /// Draws the board: its name, then its columns.
    pub fn draw_board(&mut self)
        requires
            old(self).wf(),
        ensures
            final(self).wf(),
            Board::unchanged(old(self), final(self)),
            final(self).term.size == old(self).term.size,
            final(self).term.ops@.subrange(0, old(self).term.ops@.len() as int)
                == old(self).term.ops@,
            text_pair(
                final(self).term.ops@,
                old(self).term.ops@.len() as int,
                shown_name(old(self).board_name@, old(self).is_modified),
                name_column(old(self).term.size.width, old(self).board_name@.len()),
                0,
                Color::Black,
                Color::White,
            ),
            old(self).columns_drawn(final(self).term.ops@, old(self).term.ops@.len() + 2 as int),
    {
        let ghost s0 = self.term.ops@;
        self.put_board_name();
        let ghost s1 = self.term.ops@;
        self.put_block();
        proof {
            let s2 = self.term.ops@;
            assert(s2.subrange(0, s1.len() as int) =~= s1);
            assert(s2.subrange(0, s0.len() as int) =~= s0);
            crate::terminalw::lemma_prefix_kept(s1, s2);
        }
    }
}

/// Width of a line of the detail overlay: its interior less a margin.
pub const DETAIL_LINE_WIDTH: usize = 47;

/// Most description lines the detail overlay holds.
pub const DETAIL_LINES: usize = 18;

/// Primitives that the outline and fill of the detail overlay take.
pub const DETAIL_BOX_OPS: usize = 1686;

/// Line `m` of a description wrapped to the detail overlay.
pub open spec fn detail_line(d: Seq<char>, m: int) -> Seq<char> {
    let w = DETAIL_LINE_WIDTH as int;
    d.subrange(
        m * w,
        if (m + 1) * w <= d.len() {
            (m + 1) * w
        } else {
            d.len() as int
        },
    )
}

/// How many lines of the description `d` the detail overlay shows.
pub open spec fn detail_count(d: Seq<char>) -> int {
    let n = (d.len() + DETAIL_LINE_WIDTH - 1) / DETAIL_LINE_WIDTH as int;
    if n < DETAIL_LINES {
        n
    } else {
        DETAIL_LINES as int
    }
}

impl Board {
    /// The task under the cursor.
    pub open spec fn current_task(&self) -> Task {
        self.tasks(self.col())[self.selector.task_ptr as int]
    }

    /// `ops`, from index `k`, draw the detail overlay of the task under the
    /// cursor: the box outlined and filled in white, the title on its top
    /// edge, and the description wrapped inside, one line per row; nothing
    /// follows.
    pub open spec fn overlay_at(&self, ops: Seq<DrawOp>, k: int) -> bool {
        let t = self.current_task();
        let lines = k + DETAIL_BOX_OPS + 2;
        &&& outline_at(ops, k, 30, 6, 50, 20, Color::White)
        &&& fill_at(ops, k + 88, 30, 6, 50, 20, Color::White)
        &&& text_pair(ops, k + DETAIL_BOX_OPS, t.title@, 31, 6, Color::Black, Color::White)
        &&& ops.len() == lines + 2 * detail_count(t.description@)
        &&& forall|m: int|
            0 <= m < detail_count(t.description@) ==> #[trigger] text_pair(
                ops,
                lines + 2 * m,
                detail_line(t.description@, m),
                32,
                8 + m,
                Color::Black,
                Color::White,
            )
    }

    /// Draws the detail overlay of the task under the cursor, if the
    /// selected column has any: a box filled in white, the title on its top
    /// edge, and the description wrapped inside.
    pub fn show_task(&mut self)
        requires
            old(self).wf(),
        ensures
            final(self).wf(),
            Board::unchanged(old(self), final(self)),
            final(self).term.size == old(self).term.size,
            final(self).term.ops@.subrange(0, old(self).term.ops@.len() as int)
                == old(self).term.ops@,
            old(self).tasks(old(self).col()).len() == 0 ==> final(self).term.ops@
                == old(self).term.ops@,
            old(self).tasks(old(self).col()).len() > 0 ==> old(self).overlay_at(
                final(self).term.ops@,
                old(self).term.ops@.len() as int,
            ),
    {
        let c = self.selector.block_ptr as usize;
        if self.block_list[c].task_list.len() > 0 {
            let ghost b = *self;
            let ghost base = self.term.ops@.len() as int;
            let p = self.selector.task_ptr;
            self.term.draw_rect(30, 6, 50, 20, Color::White, Some(Color::White));
            let ghost s1 = self.term.ops@;
            let title = self.block_list[c].task_list[p].title.clone();
            self.term.put_str(title, 31, 6, Color::Black, Color::White);
            let ghost s2 = self.term.ops@;
            proof {
                assert(fill_span(50) * fill_span(20) == 799);
                assert(s1.len() == base + DETAIL_BOX_OPS);
                assert(text_pair(s2, base + DETAIL_BOX_OPS, b.current_task().title@, 31, 6, Color::Black, Color::White));
                assert(s2.subrange(0, s1.len() as int) =~= s1);
                crate::terminalw::lemma_prefix_kept(s1, s2);
                assert(s2.subrange(0, base) =~= b.term.ops@);
                Board::lemma_wf_kept(&b, self);
            }
            let description = self.block_list[c].task_list[p].description.clone();
            let lines = wrap_text(&description, DETAIL_LINE_WIDTH);
            let ghost d = description@;
            let mut m: usize = 0;
            while m < lines.len() && m < DETAIL_LINES
                invariant
                    b.wf(),
                    self.wf(),
                    Board::unchanged(&b, self),
                    self.block_list@ == b.block_list@,
                    self.term.size == b.term.size,
                    d == b.current_task().description@,
                    lines@.len() == (d.len() + DETAIL_LINE_WIDTH - 1) / DETAIL_LINE_WIDTH as int,
                    forall|k: int| 0 <= k < lines@.len() ==> #[trigger] lines@[k]@ == detail_line(d, k),
                    m <= DETAIL_LINES,
                    m <= lines@.len(),
                    base == b.term.ops@.len(),
                    self.term.ops@.len() == base + DETAIL_BOX_OPS + 2 + 2 * m,
                    self.term.ops@.subrange(0, s2.len() as int) == s2,
                    s2.len() == base + DETAIL_BOX_OPS + 2,
                    forall|k: int|
                        0 <= k < m ==> #[trigger] text_pair(
                            self.term.ops@,
                            base + DETAIL_BOX_OPS + 2 + 2 * k,
                            detail_line(d, k),
                            32,
                            8 + k,
                            Color::Black,
                            Color::White,
                        ),
                decreases DETAIL_LINES - m,
            {
                let ghost before = self.term.ops@;
                let ghost pre = *self;
                let line = lines[m].clone();
                self.term.put_str(line, 32, 8 + m as u16, Color::Black, Color::White);
                proof {
                    Board::lemma_wf_kept(&pre, self);
                    assert(self.term.ops@.subrange(0, before.len() as int) =~= before);
                    crate::terminalw::lemma_prefix_kept(before, self.term.ops@);
                    assert(self.term.ops@.subrange(0, s2.len() as int) =~= before.subrange(0, s2.len() as int));
                    assert forall|k: int| 0 <= k < m + 1 implies #[trigger] text_pair(
                        self.term.ops@,
                        base + DETAIL_BOX_OPS + 2 + 2 * k,
                        detail_line(d, k),
                        32,
                        8 + k,
                        Color::Black,
                        Color::White,
                    ) by {
                        if k < m {
                            assert(text_pair(before, base + DETAIL_BOX_OPS + 2 + 2 * k, detail_line(d, k), 32, 8 + k, Color::Black, Color::White));
                        }
                    }
                }
                m = m + 1;
            }
            proof {
                let s3 = self.term.ops@;
                assert(s3.subrange(0, s1.len() as int) =~= s1);
                crate::terminalw::lemma_prefix_kept(s1, s3);
                crate::terminalw::lemma_prefix_kept(s2, s3);
                assert(s3.subrange(0, base) =~= s2.subrange(0, base));
                assert(outline_at(s3, base, 30, 6, 50, 20, Color::White));
                let f = base + 12 + 4 * inner_rows(20);
                crate::terminalw::lemma_fill_kept(s1, s3, f, 30, 6, 50, 20, Color::White);
                assert(f == base + 88);
                assert(fill_at(s3, base + 88, 30, 6, 50, 20, Color::White));
                assert(text_pair(s3, base + DETAIL_BOX_OPS, b.current_task().title@, 31, 6, Color::Black, Color::White));
                assert(m == detail_count(d));
            }
        }
    }
}

/// The help line shown in command mode.
pub open spec fn help_text() -> Seq<char> {
    "q - quit | s - save | c - create task | d - delete task | < or > - quick task block shift | Enter - Show Task/Hide Task"@
}

/// The label of the field being typed.
pub open spec fn field_label(field: WritingTaskType) -> Seq<char> {
    match field {
        WritingTaskType::WritingTitle => "Title:"@,
        WritingTaskType::WritingDescription => "Description:"@,
    }
}

impl Board {
    /// Writes the text being typed on its row.
    fn put_writing_line(&mut self)
        requires
            old(self).wf(),
        ensures
            final(self).wf(),
            Board::unchanged(old(self), final(self)),
            final(self).term.size == old(self).term.size,
            final(self).term.ops@.len() == old(self).term.ops@.len() + 4,
            final(self).term.ops@.subrange(0, old(self).term.ops@.len() as int)
                == old(self).term.ops@,
            row_cleared_at(final(self).term.ops@, old(self).term.ops@.len() as int, old(self).term.size.height),
            text_pair(
                final(self).term.ops@,
                old(self).term.ops@.len() + 2 as int,
                old(self).writing_string@,
                0,
                writing_row(old(self).term.size.height),
                Color::Black,
                Color::White,
            ),
    {
        let ghost s0 = self.term.ops@;
        self.clear_writing_line();
        let y = self.term.get_size().height.saturating_sub(2);
        let text = self.writing_string.clone();
        self.term.put_str(text, 0, y, Color::Black, Color::White);
        assert(self.term.ops@.subrange(0, s0.len() as int) =~= s0);
    }

    /// Where the cursor move of command mode comes in a frame drawn by
    /// `update` from `k`: after the title, the bar and any message.
    pub open spec fn cursor_index(&self, k: int) -> int {
        if self.notice@.len() > 0 {
            k + 9
        } else {
            k + 7
        }
    }

    /// Draws what belongs to the input mode: in command mode the help bar,
    /// any message, the cursor in the selected column and, when asked for,
    /// the detail overlay last; while writing, the field's label and the text
    /// typed so far on its cleared row. The terminal title is the board name.
    pub fn update(&mut self)
        requires
            old(self).wf(),
        ensures
            final(self).wf(),
            Board::unchanged(old(self), final(self)),
            final(self).term.size == old(self).term.size,
            final(self).term.ops@.subrange(0, old(self).term.ops@.len() as int)
                == old(self).term.ops@,
            final(self).term.ops@.len() > old(self).term.ops@.len(),
            final(self).term.ops@[old(self).term.ops@.len() as int] matches DrawOp::SetTitle(t)
                && t@ == old(self).board_name@,
            old(self).input_state == InputMode::Command ==> {
                let base = old(self).term.ops@.len() as int;
                let h = old(self).term.size.height;
                let cur = old(self).cursor_index(base);
                let p = column_position(old(self).col());
                &&& bar_at(final(self).term.ops@, base + 1, help_text(), old(self).term.size)
                &&& old(self).notice@.len() > 0 ==> text_pair(
                    final(self).term.ops@,
                    base + 7,
                    old(self).notice@,
                    0,
                    writing_row(h),
                    Color::Black,
                    Color::White,
                )
                &&& final(self).term.ops@[cur] == (DrawOp::MoveCursor {
                    x: (p.x + 4) as u16,
                    y: (p.y + 2) as u16,
                })
                &&& (!old(self).showing_task || old(self).tasks(old(self).col()).len() == 0)
                    ==> final(self).term.ops@.len() == cur + 1
                &&& (old(self).showing_task && old(self).tasks(old(self).col()).len() > 0)
                    ==> old(self).overlay_at(final(self).term.ops@, cur + 1)
            },
            old(self).input_state == InputMode::WritingTask ==> {
                let base = old(self).term.ops@.len() as int;
                let h = old(self).term.size.height;
                &&& bar_at(final(self).term.ops@, base + 1, field_label(old(self).writing_count), old(self).term.size)
                &&& row_cleared_at(final(self).term.ops@, base + 7, h)
                &&& text_pair(
                    final(self).term.ops@,
                    base + 9,
                    old(self).writing_string@,
                    0,
                    writing_row(h),
                    Color::Black,
                    Color::White,
                )
                &&& final(self).term.ops@.len() == base + 11
            },
            old(self).input_state == InputMode::WritingBoard ==> {
                let base = old(self).term.ops@.len() as int;
                let h = old(self).term.size.height;
                &&& row_cleared_at(final(self).term.ops@, base + 1, h)
                &&& text_pair(
                    final(self).term.ops@,
                    base + 3,
                    old(self).writing_string@,
                    0,
                    writing_row(h),
                    Color::Black,
                    Color::White,
                )
                &&& bar_at(final(self).term.ops@, base + 5, "Board Name:"@, old(self).term.size)
                &&& final(self).term.ops@.len() == base + 11
            },
    {
        let ghost b = *self;
        let ghost s0 = self.term.ops@;
        self.term.set_title(self.board_name.as_str());
        let ghost s1 = self.term.ops@;
        proof {
            Board::lemma_wf_kept(&b, self);
        }
        match self.input_state {
            InputMode::Command => {
                self.put_bottom_bar(
                    "q - quit | s - save | c - create task | d - delete task | < or > - quick task block shift | Enter - Show Task/Hide Task".to_string(),
                );
                let ghost s2 = self.term.ops@;
                if self.notice.as_str().unicode_len() > 0 {
                    let ghost pre = *self;
                    let y = self.term.get_size().height.saturating_sub(2);
                    let notice = self.notice.clone();
                    self.term.put_str(notice, 0, y, Color::Black, Color::White);
                    proof {
                        Board::lemma_wf_kept(&pre, self);
                    }
                }
                let ghost s3 = self.term.ops@;
                self.calc_selector_pos();
                let ghost s4 = self.term.ops@;
                if self.showing_task {
                    self.show_task();
                }
                proof {
                    let s5 = self.term.ops@;
                    assert(s5.subrange(0, s4.len() as int) =~= s4);
                    assert(s5.subrange(0, s3.len() as int) =~= s3);
                    assert(s5.subrange(0, s2.len() as int) =~= s2);
                    assert(s4.subrange(0, s3.len() as int) =~= s3);
                    assert(s3.subrange(0, s2.len() as int) =~= s2);
                    lemma_bar_kept(s2, s5);
                    crate::terminalw::lemma_prefix_kept(s3, s5);
                    assert(s5[s3.len() as int] == s4[s3.len() as int]);
                    assert(s3.len() == b.cursor_index(s0.len() as int));
                }
            },
            InputMode::WritingTask => {
                let label = match self.writing_count {
                    WritingTaskType::WritingTitle => "Title:".to_string(),
                    WritingTaskType::WritingDescription => "Description:".to_string(),
                };
                self.put_bottom_bar(label);
                let ghost s2 = self.term.ops@;
                self.put_writing_line();
                proof {
                    let s3 = self.term.ops@;
                    assert(s3.subrange(0, s2.len() as int) =~= s2);
                    lemma_bar_kept(s2, s3);
                }
            },
            InputMode::WritingBoard => {
                self.put_writing_line();
                let ghost s2 = self.term.ops@;
                self.put_bottom_bar("Board Name:".to_string());
                proof {
                    let s3 = self.term.ops@;
                    assert(s3.subrange(0, s2.len() as int) =~= s2);
                    lemma_bar_kept(s2, s3);
                }
            },
        }
        proof {
            let s6 = self.term.ops@;
            assert(s6.subrange(0, s1.len() as int) =~= s1);
            assert(s6.subrange(0, s0.len() as int) =~= s0);
            assert(s6[s0.len() as int] == s1[s0.len() as int]);
        }
    }
}

} // verus!
