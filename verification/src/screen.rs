//! Rendering of backend screens for browsers with smaller viewports.

use bytes::Bytes;
use vstd::prelude::*;

use crate::backend::{BackendScreenSnapshot, SnapshotView};
use crate::protocol::TerminalSize;

verus! {

/// The part of a backend screen that a browser shows.
#[derive(Debug, Clone, Copy, PartialEq, Eq, Structural)]
pub struct GatewayViewport {
    size: TerminalSize,
    origin_col: Option<u16>,
    origin_row: Option<u16>,
}

/// The contents of a [`GatewayViewport`].
pub struct ViewportView {
    /// Size of the viewport.
    pub size: TerminalSize,
    /// First column, where the browser asked for one.
    pub origin_col: Option<u16>,
    /// First row, where the browser asked for one.
    pub origin_row: Option<u16>,
}

impl View for GatewayViewport {
    type V = ViewportView;

    closed spec fn view(&self) -> ViewportView {
        ViewportView {
            size: self.size,
            origin_col: self.origin_col,
            origin_row: self.origin_row,
        }
    }
}

impl GatewayViewport {
    /// Creates a viewport that follows the cursor.
    #[must_use]
    pub fn new(size: TerminalSize) -> (r: Self)
        ensures
            r@ == (ViewportView { size, origin_col: None, origin_row: None }),
    {
        GatewayViewport { size, origin_col: None, origin_row: None }
    }

    /// The viewport that a browser asks for on connection, where it gives a valid
    /// size.
    #[must_use]
    pub fn requested(cols: Option<u16>, rows: Option<u16>) -> (r: Option<Self>)
        ensures
            match (cols, rows) {
                (Some(cols), Some(rows)) => if crate::protocol::valid_terminal_size(cols, rows) {
                    r matches Some(viewport) && viewport@.size@ == (cols, rows)
                        && viewport@.origin_col is None && viewport@.origin_row is None
                } else {
                    r is None
                },
                _ => r is None,
            },
    {
        match (cols, rows) {
            (Some(cols), Some(rows)) => match TerminalSize::new(cols, rows) {
                Ok(size) => Some(GatewayViewport::new(size)),
                Err(_) => None,
            },
            _ => None,
        }
    }

    /// Returns the size.
    #[must_use]
    pub fn size(self) -> (r: TerminalSize)
        ensures
            r == self@.size,
    {
        self.size
    }

    /// Changes the size and keeps the origin.
    pub fn update_size(&mut self, size: TerminalSize)
        ensures
            final(self)@ == (ViewportView { size, ..old(self)@ }),
    {
        self.size = size;
    }

    /// Changes the origin along each axis that is given.
    pub fn update_origin(&mut self, col: Option<u16>, row: Option<u16>)
        ensures
            final(self)@ == (ViewportView {
                size: old(self)@.size,
                origin_col: if col is Some {
                    col
                } else {
                    old(self)@.origin_col
                },
                origin_row: if row is Some {
                    row
                } else {
                    old(self)@.origin_row
                },
            }),
    {
        if let Some(col) = col {
            self.origin_col = Some(col);
        }
        if let Some(row) = row {
            self.origin_row = Some(row);
        }
    }

    /// Returns the first column, where the browser asked for one.
    #[must_use]
    pub fn origin_col(self) -> (r: Option<u16>)
        ensures
            r == self@.origin_col,
    {
        self.origin_col
    }

    /// Returns the first row, where the browser asked for one.
    #[must_use]
    pub fn origin_row(self) -> (r: Option<u16>)
        ensures
            r == self@.origin_row,
    {
        self.origin_row
    }
}

/// The lesser of two numbers.
pub open spec fn lesser(a: int, b: int) -> int {
    if a <= b {
        a
    } else {
        b
    }
}

/// First visible cell along an axis of `total` cells of which `visible` are
/// shown: the requested one as far as it goes, else one that shows the cursor.
pub open spec fn start_cell(total: int, cursor: int, visible: int, requested: Option<u16>) -> int {
    let last_start = total - visible;
    if last_start <= 0 {
        0
    } else {
        match requested {
            Some(origin) => lesser(origin as int, last_start),
            None => if cursor >= last_start {
                last_start
            } else if cursor < visible {
                0
            } else {
                cursor + 1 - visible
            },
        }
    }
}

/// First visible cell along an axis.
pub fn snapshot_start_axis(
    total_cells: u16,
    cursor_cell: u16,
    visible_cells: u16,
    requested_origin: Option<u16>,
) -> (r: u16)
    ensures
        r == start_cell(
            total_cells as int,
            cursor_cell as int,
            visible_cells as int,
            requested_origin,
        ),
{
    if total_cells <= visible_cells {
        return 0;
    }
    let max_start: u16 = total_cells - visible_cells;
    if let Some(requested_origin) = requested_origin {
        return if requested_origin > max_start {
            max_start
        } else {
            requested_origin
        };
    }
    if cursor_cell >= max_start {
        return max_start;
    }
    if cursor_cell < visible_cells {
        return 0;
    }
    cursor_cell + 1 - visible_cells
}

/// The viewport lies on the screen as far as it can, and where the browser asks
/// for no origin it shows the cursor.
pub proof fn law_viewport_shows_cursor(
    total: int,
    cursor: int,
    visible: int,
    requested: Option<u16>,
)
    requires
        0 <= cursor < total,
        0 < visible,
    ensures
        ({
            let start = start_cell(total, cursor, visible, requested);
            &&& 0 <= start
            &&& start + lesser(visible, total) <= total
            &&& requested is None ==> start <= cursor < start + visible
        }),
{
}

/// A run of characters on a line: an escape sequence, which takes no cell, or
/// one character with the cells that it covers.
pub struct Run {
    /// Characters of the run.
    pub text: Seq<char>,
    /// Whether the run is an escape sequence.
    pub escape: bool,
    /// First cell.
    pub from: int,
    /// Cell after the last.
    pub to: int,
}

/// Tells whether `c` ends a control sequence.
pub open spec fn ends_control(c: char) -> bool {
    '@' <= c <= '~'
}

/// Length of the control sequence body that starts `s`, its end included.
pub open spec fn control_len(s: Seq<char>) -> int
    decreases s.len(),
{
    if s.len() == 0 {
        0
    } else if ends_control(s[0]) {
        1
    } else {
        1 + control_len(s.drop_first())
    }
}

/// Length of the operating system command body that starts `s`, its end
/// included: a bell, or an escape and a backslash.
pub open spec fn command_len(s: Seq<char>) -> int
    decreases s.len(),
{
    if s.len() == 0 {
        0
    } else if s[0] == '\u{7}' {
        1
    } else if s[0] == '\u{1b}' && s.len() > 1 && s[1] == '\\' {
        2
    } else {
        1 + command_len(s.drop_first())
    }
}

/// Length of the escape sequence that starts `s`. There is none where the
/// sequence would end inside the encoding of a character.
pub open spec fn sequence_len(s: Seq<char>) -> Option<int> {
    if s.len() < 2 {
        Some(s.len() as int)
    } else if s[1] == '[' {
        Some(2 + control_len(s.skip(2)))
    } else if s[1] == ']' {
        Some(2 + command_len(s.skip(2)))
    } else if s[1] == '(' || s[1] == ')' || s[1] == '*' || s[1] == '+' {
        if s.len() == 2 {
            Some(2)
        } else if s[2] <= '\u{7f}' {
            Some(3)
        } else {
            None
        }
    } else if s[1] <= '\u{7f}' {
        Some(2)
    } else {
        None
    }
}

/// Characters that combine with the one before them.
pub open spec fn is_combining(c: char) -> bool {
    ||| '\u{300}' <= c <= '\u{36f}'
    ||| '\u{1ab0}' <= c <= '\u{1aff}'
    ||| '\u{1dc0}' <= c <= '\u{1dff}'
    ||| '\u{20d0}' <= c <= '\u{20ff}'
    ||| '\u{fe20}' <= c <= '\u{fe2f}'
}

/// Characters that take two cells.
pub open spec fn is_wide(c: char) -> bool {
    ||| '\u{1100}' <= c <= '\u{115f}'
    ||| '\u{2329}' <= c <= '\u{232a}'
    ||| '\u{2e80}' <= c <= '\u{a4cf}'
    ||| '\u{ac00}' <= c <= '\u{d7a3}'
    ||| '\u{f900}' <= c <= '\u{faff}'
    ||| '\u{fe10}' <= c <= '\u{fe19}'
    ||| '\u{fe30}' <= c <= '\u{fe6f}'
    ||| '\u{ff00}' <= c <= '\u{ff60}'
    ||| '\u{ffe0}' <= c <= '\u{ffe6}'
    ||| '\u{1f300}' <= c <= '\u{1f64f}'
    ||| '\u{1f900}' <= c <= '\u{1f9ff}'
}

/// Number of cells that `c` takes in column `col`. A tab goes to the next
/// multiple of eight.
pub open spec fn cell_width(c: char, col: int) -> int {
    if c == '\t' {
        8 - col % 8
    } else if crate::text::is_control_char(c) || is_combining(c) {
        0
    } else if is_wide(c) {
        2
    } else {
        1
    }
}

/// The runs of the line `s` from column `col` on. Columns stop at the largest
/// number.
pub open spec fn runs(s: Seq<char>, col: int) -> Seq<Run>
    decreases s.len(),
{
    if s.len() == 0 {
        seq![]
    } else if s[0] == '\u{1b}' {
        match sequence_len(s) {
            Some(n) => if 0 < n <= s.len() {
                seq![Run { text: s.take(n), escape: true, from: col, to: col }] + runs(
                    s.skip(n),
                    col,
                )
            } else {
                seq![]
            },
            None => seq![],
        }
    } else {
        let to = lesser(col + cell_width(s[0], col), u16::MAX as int);
        seq![Run { text: seq![s[0]], escape: false, from: col, to }] + runs(s.drop_first(), to)
    }
}

/// Tells whether a run is shown in the cells `start..end`. Escape sequences
/// before those cells are kept, as they set how the cells look.
pub open spec fn shown(run: Run, start: int, end: int) -> bool {
    if run.escape {
        run.from <= end
    } else if run.from == run.to {
        start <= run.from < end
    } else {
        run.to > start && run.from < end
    }
}

/// The characters of the runs that are shown in the cells `start..end`.
pub open spec fn shown_text(list: Seq<Run>, start: int, end: int) -> Seq<char>
    decreases list.len(),
{
    if list.len() == 0 {
        seq![]
    } else {
        (if shown(list[0], start, end) {
            list[0].text
        } else {
            seq![]
        }) + shown_text(list.drop_first(), start, end)
    }
}

/// The part of the line `s` that shows in `visible` cells from `start` on.
pub open spec fn projected_line(s: Seq<char>, start: int, visible: int) -> Seq<char> {
    shown_text(runs(s, 0), start, lesser(start + visible, u16::MAX as int))
}

proof fn lemma_control_len(s: Seq<char>)
    ensures
        0 <= control_len(s) <= s.len(),
    decreases s.len(),
{
    if s.len() > 0 && !ends_control(s[0]) {
        lemma_control_len(s.drop_first());
    }
}

proof fn lemma_command_len(s: Seq<char>)
    ensures
        0 <= command_len(s) <= s.len(),
    decreases s.len(),
{
    if s.len() > 0 {
        lemma_command_len(s.drop_first());
    }
}

fn csi_sequence_end(chars: &Vec<char>, start: usize) -> (r: usize)
    requires
        start <= chars@.len(),
    ensures
        r == start + control_len(chars@.skip(start as int)),
        r <= chars@.len(),
{
    let mut index: usize = start;
    proof {
        lemma_control_len(chars@.skip(start as int));
    }
    while index < chars.len()
        invariant
            start <= index <= chars@.len(),
            start + control_len(chars@.skip(start as int)) == index + control_len(
                chars@.skip(index as int),
            ),
            start + control_len(chars@.skip(start as int)) <= chars@.len(),
        decreases chars@.len() - index,
    {
        let c = chars[index];
        proof {
            assert(chars@.skip(index as int).drop_first() =~= chars@.skip(index + 1));
        }
        if '@' <= c && c <= '~' {
            return index + 1;
        }
        index += 1;
    }
    index
}

fn osc_sequence_end(chars: &Vec<char>, start: usize) -> (r: usize)
    requires
        start <= chars@.len(),
    ensures
        r == start + command_len(chars@.skip(start as int)),
        r <= chars@.len(),
{
    let mut index: usize = start;
    proof {
        lemma_command_len(chars@.skip(start as int));
    }
    while index < chars.len()
        invariant
            start <= index <= chars@.len(),
            start + command_len(chars@.skip(start as int)) == index + command_len(
                chars@.skip(index as int),
            ),
            start + command_len(chars@.skip(start as int)) <= chars@.len(),
        decreases chars@.len() - index,
    {
        let c = chars[index];
        proof {
            assert(chars@.skip(index as int).drop_first() =~= chars@.skip(index + 1));
        }
        if c == '\u{7}' {
            return index + 1;
        }
        if c == '\u{1b}' && chars.len() - index > 1 && chars[index + 1] == '\\' {
            return index + 2;
        }
        index += 1;
    }
    index
}

/// End of the escape sequence that starts at `start`, where it does not cut a
/// character in two.
fn ansi_sequence_end(chars: &Vec<char>, start: usize) -> (r: Option<usize>)
    requires
        start < chars@.len(),
    ensures
        match r {
            Some(end) => sequence_len(chars@.skip(start as int)) == Some(end - start) && start < end
                <= chars@.len(),
            None => sequence_len(chars@.skip(start as int)) is None,
        },
{
    let ghost s = chars@.skip(start as int);
    let left: usize = chars.len() - start;
    if left < 2 {
        return Some(chars.len());
    }
    let kind = chars[start + 1];
    if kind == '[' {
        proof {
            lemma_control_len(s.skip(2));
            assert(s.skip(2) =~= chars@.skip(start + 2));
        }
        return Some(csi_sequence_end(chars, start + 2));
    }
    if kind == ']' {
        proof {
            lemma_command_len(s.skip(2));
            assert(s.skip(2) =~= chars@.skip(start + 2));
        }
        return Some(osc_sequence_end(chars, start + 2));
    }
    if kind == '(' || kind == ')' || kind == '*' || kind == '+' {
        if left == 2 {
            return Some(start + 2);
        }
        if chars[start + 2] <= '\u{7f}' {
            return Some(start + 3);
        }
        return None;
    }
    if kind <= '\u{7f}' {
        Some(start + 2)
    } else {
        None
    }
}

fn is_combining_mark(c: char) -> (r: bool)
    ensures
        r == is_combining(c),
{
    ('\u{300}' <= c && c <= '\u{36f}') || ('\u{1ab0}' <= c && c <= '\u{1aff}') || ('\u{1dc0}' <= c
        && c <= '\u{1dff}') || ('\u{20d0}' <= c && c <= '\u{20ff}') || ('\u{fe20}' <= c && c
        <= '\u{fe2f}')
}

fn is_wide_character(c: char) -> (r: bool)
    ensures
        r == is_wide(c),
{
    ('\u{1100}' <= c && c <= '\u{115f}') || ('\u{2329}' <= c && c <= '\u{232a}') || ('\u{2e80}' <= c
        && c <= '\u{a4cf}') || ('\u{ac00}' <= c && c <= '\u{d7a3}') || ('\u{f900}' <= c && c
        <= '\u{faff}') || ('\u{fe10}' <= c && c <= '\u{fe19}') || ('\u{fe30}' <= c && c
        <= '\u{fe6f}') || ('\u{ff00}' <= c && c <= '\u{ff60}') || ('\u{ffe0}' <= c && c
        <= '\u{ffe6}') || ('\u{1f300}' <= c && c <= '\u{1f64f}') || ('\u{1f900}' <= c && c
        <= '\u{1f9ff}')
}

fn character_cell_width(c: char, col: u16) -> (r: u16)
    ensures
        r == cell_width(c, col as int),
{
    if c == '\t' {
        return 8 - col % 8;
    }
    if crate::text::is_control(c) || is_combining_mark(c) {
        return 0;
    }
    if is_wide_character(c) {
        return 2;
    }
    1
}

fn character_overlaps_viewport(start: u16, end: u16, viewport_start: u16, viewport_end: u16) -> (r:
    bool)
    ensures
        r == (if start == end {
            viewport_start <= start < viewport_end
        } else {
            end > viewport_start && start < viewport_end
        }),
{
    if start == end {
        return start >= viewport_start && start < viewport_end;
    }
    end > viewport_start && start < viewport_end
}

/// The part of a line that shows in `visible_cols` cells from `start_col` on.
pub fn project_snapshot_line(line: &str, start_col: u16, visible_cols: u16) -> (r: String)
    ensures
        r@ == projected_line(line@, start_col as int, visible_cols as int),
{
    let end_col = start_col.saturating_add(visible_cols);
    let chars = crate::text::chars_of(line);
    let ghost start = start_col as int;
    let ghost end = end_col as int;
    let mut output = String::new();
    let mut index: usize = 0;
    let mut cell_col: u16 = 0;
    proof {
        assert(chars@.skip(0) =~= line@);
        assert(output@ + shown_text(runs(chars@.skip(0), 0), start, end) =~= shown_text(
            runs(line@, 0),
            start,
            end,
        ));
    }
    while index < chars.len()
        invariant
            index <= chars@.len(),
            chars@ == line@,
            start == start_col,
            end == end_col,
            end == lesser(start_col + visible_cols, u16::MAX as int),
            output@ + shown_text(runs(chars@.skip(index as int), cell_col as int), start, end)
                == shown_text(runs(line@, 0), start, end),
        decreases chars@.len() - index,
    {
        let ghost s = chars@.skip(index as int);
        let ghost rest = runs(s, cell_col as int);
        let ghost before = output@;
        let c = chars[index];
        if c == '\u{1b}' {
            match ansi_sequence_end(&chars, index) {
                Some(sequence_end) => {
                    let sequence = crate::text::string_of(&chars, index, sequence_end);
                    proof {
                        assert(s.take(sequence_end - index) =~= sequence@);
                        assert(s.skip(sequence_end - index) =~= chars@.skip(sequence_end as int));
                        assert(rest.drop_first() =~= runs(
                            chars@.skip(sequence_end as int),
                            cell_col as int,
                        ));
                    }
                    if cell_col <= end_col {
                        output.append(sequence.as_str());
                        proof {
                            assert(output@ =~= before + sequence@);
                        }
                    }
                    proof {
                        let left = shown_text(rest.drop_first(), start, end);
                        assert(before + shown_text(rest, start, end) =~= output@ + left);
                    }
                    index = sequence_end;
                },
                None => {
                    proof {
                        assert(rest.len() == 0);
                        assert(output@ + shown_text(rest, start, end) =~= output@);
                    }
                    return output;
                },
            }
        } else {
            let width = character_cell_width(c, cell_col);
            let next_cell_col = cell_col.saturating_add(width);
            if character_overlaps_viewport(cell_col, next_cell_col, start_col, end_col) {
                output.push(c);
            }
            proof {
                assert(s.drop_first() =~= chars@.skip(index + 1));
                assert(rest.drop_first() =~= runs(chars@.skip(index + 1), next_cell_col as int));
                let left = shown_text(rest.drop_first(), start, end);
                assert(before + shown_text(rest, start, end) =~= output@ + left);
            }
            cell_col = next_cell_col;
            index += 1;
        }
    }
    proof {
        assert(chars@.skip(index as int).len() == 0);
        assert(output@ + shown_text(
            runs(chars@.skip(index as int), cell_col as int),
            start,
            end,
        ) =~= output@);
    }
    output
}

/// Where a screen is shown.
pub struct Placement {
    /// First visible row.
    pub start_row: int,
    /// First visible column.
    pub start_col: int,
    /// Number of visible rows.
    pub rows: int,
    /// Number of visible columns.
    pub cols: int,
    /// Row of the cursor in the viewport, from one.
    pub cursor_row: int,
    /// Column of the cursor in the viewport, from one.
    pub cursor_col: int,
}

/// Where `cursor` shows among `visible` cells from `start` on, from one.
pub open spec fn cursor_cell(cursor: int, start: int, visible: int) -> int {
    1 + lesser(
        if cursor < start {
            0
        } else {
            cursor - start
        },
        visible - 1,
    )
}

/// Where `snapshot` is shown in `viewport`. A cursor outside the screen counts
/// as on its last cell.
pub open spec fn placement(snapshot: SnapshotView, viewport: ViewportView) -> Placement {
    let rows = viewport.size@.1 as int;
    let cols = viewport.size@.0 as int;
    let all_rows = snapshot.size@.1 as int;
    let all_cols = snapshot.size@.0 as int;
    let row = lesser(snapshot.cursor_row as int, all_rows - 1);
    let col = lesser(snapshot.cursor_col as int, all_cols - 1);
    let start_row = start_cell(all_rows, row, rows, viewport.origin_row);
    let start_col = start_cell(all_cols, col, cols, viewport.origin_col);
    Placement {
        start_row,
        start_col,
        rows,
        cols,
        cursor_row: cursor_cell(row, start_row, rows),
        cursor_col: cursor_cell(col, start_col, cols),
    }
}

/// The visible part of row `row` of the screen.
pub open spec fn row_text(lines: Seq<Seq<char>>, at: Placement, row: int) -> Seq<char> {
    if at.start_row + row < lines.len() {
        projected_line(lines[at.start_row + row], at.start_col, at.cols)
    } else {
        seq![]
    }
}

/// The first `n` visible rows, each on a line of its own.
pub open spec fn rows_text(lines: Seq<Seq<char>>, at: Placement, n: int) -> Seq<char>
    decreases n,
{
    if n <= 0 {
        seq![]
    } else if n == 1 {
        row_text(lines, at, 0)
    } else {
        rows_text(lines, at, n - 1) + "\r\n"@ + row_text(lines, at, n - 1)
    }
}

/// What a browser terminal is sent to show `snapshot` in `viewport`: the screen
/// is cleared, the visible rows are written without wrapping, and the cursor is
/// put in its place.
pub open spec fn screen_text(snapshot: SnapshotView, viewport: ViewportView) -> Seq<char> {
    let at = placement(snapshot, viewport);
    "\x1b[0m\x1b[?7l\x1b[H\x1b[2J"@ + rows_text(snapshot.lines, at, at.rows)
        + "\x1b[0m\x1b[?7h\x1b["@ + crate::text::decimal_text(at.cursor_row as nat) + ";"@
        + crate::text::decimal_text(at.cursor_col as nat) + "H"@
}

/// The viewport that shows the whole of `snapshot`.
pub open spec fn whole(snapshot: SnapshotView) -> ViewportView {
    ViewportView { size: snapshot.size, origin_col: None, origin_row: None }
}

/// Where no viewport is asked for, every row of the screen is shown from its
/// first cell on.
pub proof fn law_whole_screen_starts_at_origin(snapshot: SnapshotView)
    ensures
        placement(snapshot, whole(snapshot)).start_row == 0,
        placement(snapshot, whole(snapshot)).start_col == 0,
{
}

/// The cursor is shown inside the viewport.
pub proof fn law_cursor_inside_viewport(snapshot: SnapshotView, viewport: ViewportView)
    requires
        snapshot.size.cols.valid(),
        snapshot.size.rows.valid(),
        viewport.size.cols.valid(),
        viewport.size.rows.valid(),
    ensures
        ({
            let at = placement(snapshot, viewport);
            &&& 1 <= at.cursor_row <= at.rows
            &&& 1 <= at.cursor_col <= at.cols
        }),
{
}

/// A pan moves the view: along each axis the first visible cell is the one that the browser
/// asked for, as far as the screen goes, rows by rows and columns by columns. A screen that
/// fits is shown from its first cell on.
pub proof fn law_view_follows_a_pan(snapshot: SnapshotView, viewport: ViewportView)
    ensures
        ({
            let at = placement(snapshot, viewport);
            let more_rows = snapshot.size.rows@ - viewport.size.rows@;
            let more_cols = snapshot.size.cols@ - viewport.size.cols@;
            &&& at.rows == viewport.size.rows@
            &&& at.cols == viewport.size.cols@
            &&& more_rows <= 0 ==> at.start_row == 0
            &&& more_cols <= 0 ==> at.start_col == 0
            &&& more_rows > 0 ==> (viewport.origin_row matches Some(origin) ==> {
                &&& origin <= more_rows ==> at.start_row == origin
                &&& origin > more_rows ==> at.start_row == more_rows
            })
            &&& more_cols > 0 ==> (viewport.origin_col matches Some(origin) ==> {
                &&& origin <= more_cols ==> at.start_col == origin
                &&& origin > more_cols ==> at.start_col == more_cols
            })
        }),
{
}

/// Without a pan the view follows the cursor, and no further than it must: it starts at the
/// first cell while the cursor shows there, ends at the last cell once the cursor is that
/// far, and in between shows the cursor on its last cell.
pub proof fn law_view_follows_the_cursor(snapshot: SnapshotView, viewport: ViewportView)
    requires
        snapshot.cursor_row < snapshot.size.rows@,
        snapshot.cursor_col < snapshot.size.cols@,
    ensures
        ({
            let at = placement(snapshot, viewport);
            let more_rows = snapshot.size.rows@ - viewport.size.rows@;
            let more_cols = snapshot.size.cols@ - viewport.size.cols@;
            let row = snapshot.cursor_row as int;
            let col = snapshot.cursor_col as int;
            &&& more_rows > 0 && viewport.origin_row is None ==> {
                &&& row >= more_rows ==> at.start_row == more_rows
                &&& row < more_rows && row < viewport.size.rows@ ==> at.start_row == 0
                &&& viewport.size.rows@ <= row < more_rows ==> at.start_row + viewport.size.rows@
                    == row + 1
            }
            &&& more_cols > 0 && viewport.origin_col is None ==> {
                &&& col >= more_cols ==> at.start_col == more_cols
                &&& col < more_cols && col < viewport.size.cols@ ==> at.start_col == 0
                &&& viewport.size.cols@ <= col < more_cols ==> at.start_col + viewport.size.cols@
                    == col + 1
            }
        }),
{
}

/// The cursor is put on the cell of the view that shows the cell it is on, counted from one;
/// outside of the view it is put on the nearest edge.
pub proof fn law_cursor_is_put_in_its_place(snapshot: SnapshotView, viewport: ViewportView)
    requires
        snapshot.size.cols.valid(),
        snapshot.size.rows.valid(),
        viewport.size.cols.valid(),
        viewport.size.rows.valid(),
        snapshot.cursor_row < snapshot.size.rows@,
        snapshot.cursor_col < snapshot.size.cols@,
    ensures
        ({
            let at = placement(snapshot, viewport);
            let row = snapshot.cursor_row as int;
            let col = snapshot.cursor_col as int;
            &&& at.start_row <= row < at.start_row + at.rows ==> at.start_row + at.cursor_row
                == row + 1
            &&& row < at.start_row ==> at.cursor_row == 1
            &&& row >= at.start_row + at.rows ==> at.cursor_row == at.rows
            &&& at.start_col <= col < at.start_col + at.cols ==> at.start_col + at.cursor_col
                == col + 1
            &&& col < at.start_col ==> at.cursor_col == 1
            &&& col >= at.start_col + at.cols ==> at.cursor_col == at.cols
        }),
{
}

/// What a browser is sent clears its screen, shows the rows from the first visible one on,
/// each cut to the visible columns and on a line of its own, and puts the cursor in its
/// place. Rows below the screen are empty.
pub proof fn law_rows_are_shown_in_order(
    snapshot: SnapshotView,
    viewport: ViewportView,
    rows: Seq<Seq<char>>,
)
    requires
        rows.len() == viewport.size@.1,
        viewport.size.rows.valid(),
        forall|i: int|
            0 <= i < rows.len() ==> #[trigger] rows[i] == ({
                let at = placement(snapshot, viewport);
                if at.start_row + i < snapshot.lines.len() {
                    projected_line(snapshot.lines[at.start_row + i], at.start_col, at.cols)
                } else {
                    seq![]
                }
            }),
    ensures
        ({
            let at = placement(snapshot, viewport);
            screen_text(snapshot, viewport) == "\x1b[0m\x1b[?7l\x1b[H\x1b[2J"@ + crate::text::joined(
                rows,
                "\r\n"@,
            ) + "\x1b[0m\x1b[?7h\x1b["@ + crate::text::decimal_text(at.cursor_row as nat) + ";"@
                + crate::text::decimal_text(at.cursor_col as nat) + "H"@
        }),
{
    let at = placement(snapshot, viewport);
    lemma_rows_joined(snapshot.lines, at, rows, rows.len() as int);
    assert(rows.take(rows.len() as int) =~= rows);
}

proof fn lemma_rows_joined(lines: Seq<Seq<char>>, at: Placement, rows: Seq<Seq<char>>, n: int)
    requires
        0 <= n <= rows.len(),
        forall|i: int| 0 <= i < rows.len() ==> #[trigger] rows[i] == row_text(lines, at, i),
    ensures
        rows_text(lines, at, n) == crate::text::joined(rows.take(n), "\r\n"@),
    decreases n,
{
    if n > 0 {
        lemma_rows_joined(lines, at, rows, n - 1);
        assert(rows.take(n).drop_last() =~= rows.take(n - 1));
        assert(rows.take(n).last() == rows[n - 1]);
    }
}

/// Characters that take one cell on every terminal.
pub open spec fn is_plain(c: char) -> bool {
    ' ' <= c <= '~'
}

/// A line of plain characters is cut like a text: the view shows the characters from its
/// first cell on, as many as it has cells.
pub proof fn law_plain_lines_are_cut_by_cells(s: Seq<char>, start: int, visible: int)
    requires
        forall|i: int| 0 <= i < s.len() ==> is_plain(#[trigger] s[i]),
        s.len() <= u16::MAX,
        0 <= start,
        0 <= visible,
        start + visible <= u16::MAX,
    ensures
        projected_line(s, start, visible) == s.subrange(
            lesser(start, s.len() as int),
            lesser(start + visible, s.len() as int),
        ),
{
    lemma_plain_cells(s, 0, start, start + visible);
}

proof fn lemma_plain_cells(s: Seq<char>, col: int, start: int, end: int)
    requires
        forall|i: int| 0 <= i < s.len() ==> is_plain(#[trigger] s[i]),
        0 <= col,
        col + s.len() <= u16::MAX,
        0 <= start <= end,
    ensures
        ({
            let from = lesser(
                if start < col {
                    0
                } else {
                    start - col
                },
                s.len() as int,
            );
            let to = lesser(
                if end < col {
                    0
                } else {
                    end - col
                },
                s.len() as int,
            );
            shown_text(runs(s, col), start, end) == s.subrange(from, to)
        }),
    decreases s.len(),
{
    if s.len() > 0 {
        let rest = s.drop_first();
        assert forall|i: int| 0 <= i < rest.len() implies is_plain(#[trigger] rest[i]) by {
            assert(rest[i] == s[i + 1]);
        }
        assert(is_plain(s[0]));
        assert(cell_width(s[0], col) == 1);
        lemma_plain_cells(rest, col + 1, start, end);
        let list = runs(s, col);
        assert(list.drop_first() =~= runs(rest, col + 1));
        let from = lesser(
            if start < col {
                0
            } else {
                start - col
            },
            s.len() as int,
        );
        let to = lesser(
            if end < col {
                0
            } else {
                end - col
            },
            s.len() as int,
        );
        assert(shown_text(list, start, end) =~= s.subrange(from, to));
    } else {
        assert(shown_text(runs(s, col), start, end) =~= s.subrange(0, 0));
    }
}

/// A style that is set before a part of a line is in force in every view of that part: the
/// control sequence stays in front of it, whichever cells are shown.
pub proof fn law_styles_stay_in_force(
    parameters: Seq<char>,
    end: char,
    s: Seq<char>,
    start: int,
    visible: int,
)
    requires
        forall|i: int| 0 <= i < parameters.len() ==> !('@' <= #[trigger] parameters[i] <= '~'),
        '@' <= end <= '~',
        0 <= start,
        0 <= visible,
    ensures
        ({
            let style = seq!['\u{1b}', '['] + parameters.push(end);
            projected_line(style + s, start, visible) == style + projected_line(s, start, visible)
        }),
{
    let style = seq!['\u{1b}', '['] + parameters.push(end);
    let line = style + s;
    let body = parameters.push(end) + s;
    assert(line.skip(2) =~= body);
    lemma_control_ends(parameters, end, s);
    let n = style.len() as int;
    assert(sequence_len(line) == Some(n));
    assert(line.take(n) =~= style);
    assert(line.skip(n) =~= s);
    let list = runs(line, 0);
    assert(list[0].text == style);
    assert(list.drop_first() =~= runs(s, 0));
}

proof fn lemma_control_ends(parameters: Seq<char>, end: char, s: Seq<char>)
    requires
        forall|i: int| 0 <= i < parameters.len() ==> !('@' <= #[trigger] parameters[i] <= '~'),
        '@' <= end <= '~',
    ensures
        control_len(parameters.push(end) + s) == parameters.len() + 1,
    decreases parameters.len(),
{
    let body = parameters.push(end) + s;
    if parameters.len() > 0 {
        let rest = parameters.drop_first();
        assert forall|i: int| 0 <= i < rest.len() implies !('@' <= #[trigger] rest[i] <= '~') by {
            assert(rest[i] == parameters[i + 1]);
        }
        assert(body[0] == parameters[0]);
        lemma_control_ends(rest, end, s);
        assert(body.drop_first() =~= rest.push(end) + s);
    } else {
        assert(body[0] == end);
    }
}

/// How many cells a character takes: one for plain characters, two for those of the wide
/// scripts, none for those that combine with the one before or control the terminal. A tab
/// goes to the next multiple of eight.
pub proof fn law_characters_take_their_cells(c: char, col: int)
    requires
        0 <= col,
    ensures
        is_plain(c) ==> cell_width(c, col) == 1,
        '\u{a0}' <= c <= '\u{2ff}' ==> cell_width(c, col) == 1,
        '\u{4e00}' <= c <= '\u{9fff}' ==> cell_width(c, col) == 2,
        '\u{3041}' <= c <= '\u{30ff}' ==> cell_width(c, col) == 2,
        '\u{ac00}' <= c <= '\u{d7a3}' ==> cell_width(c, col) == 2,
        '\u{1100}' <= c <= '\u{115f}' ==> cell_width(c, col) == 2,
        '\u{2329}' <= c <= '\u{232a}' ==> cell_width(c, col) == 2,
        '\u{f900}' <= c <= '\u{faff}' ==> cell_width(c, col) == 2,
        '\u{fe10}' <= c <= '\u{fe19}' ==> cell_width(c, col) == 2,
        '\u{fe30}' <= c <= '\u{fe6f}' ==> cell_width(c, col) == 2,
        '\u{ff01}' <= c <= '\u{ff60}' ==> cell_width(c, col) == 2,
        '\u{ffe0}' <= c <= '\u{ffe6}' ==> cell_width(c, col) == 2,
        '\u{1f300}' <= c <= '\u{1f64f}' ==> cell_width(c, col) == 2,
        '\u{1f900}' <= c <= '\u{1f9ff}' ==> cell_width(c, col) == 2,
        '\u{300}' <= c <= '\u{36f}' ==> cell_width(c, col) == 0,
        '\u{1ab0}' <= c <= '\u{1aff}' ==> cell_width(c, col) == 0,
        '\u{1dc0}' <= c <= '\u{1dff}' ==> cell_width(c, col) == 0,
        '\u{20d0}' <= c <= '\u{20ff}' ==> cell_width(c, col) == 0,
        '\u{fe20}' <= c <= '\u{fe2f}' ==> cell_width(c, col) == 0,
        c < ' ' && c != '\t' ==> cell_width(c, col) == 0,
        '\u{7f}' <= c <= '\u{9f}' ==> cell_width(c, col) == 0,
        c == '\t' ==> {
            &&& (col + cell_width(c, col)) % 8 == 0
            &&& 1 <= cell_width(c, col) <= 8
        },
        0 <= cell_width(c, col) <= 8,
{
}

/// The runs of a line lie side by side: each starts on the cell on which the one before it
/// ended, an escape sequence takes no cell, and a character takes as many as it needs.
pub proof fn law_runs_lie_side_by_side(s: Seq<char>, col: int, i: int)
    requires
        0 <= col <= u16::MAX,
        0 <= i < runs(s, col).len(),
    ensures
        ({
            let list = runs(s, col);
            &&& list[0].from == col
            &&& i + 1 < list.len() ==> list[i].to == list[i + 1].from
            &&& list[i].escape ==> list[i].from == list[i].to && list[i].text[0] == '\u{1b}'
            &&& !list[i].escape ==> {
                &&& list[i].text.len() == 1
                &&& list[i].text[0] != '\u{1b}'
                &&& list[i].from + cell_width(list[i].text[0], list[i].from) <= u16::MAX
                    ==> list[i].to == list[i].from + cell_width(list[i].text[0], list[i].from)
            }
        }),
    decreases s.len(),
{
    let list = runs(s, col);
    if s.len() > 0 {
        let (rest, next) = if s[0] == '\u{1b}' {
            (s.skip(sequence_len(s)->0), col)
        } else {
            (
                s.drop_first(),
                lesser(col + cell_width(s[0], col), u16::MAX as int),
            )
        };
        let tail = runs(rest, next);
        assert(list.drop_first() =~= tail);
        if tail.len() > 0 {
            law_runs_lie_side_by_side(
                rest,
                next,
                if i > 0 {
                    i - 1
                } else {
                    0
                },
            );
            assert(list[1] == tail[0]);
            if i > 0 {
                assert(list[i] == tail[i - 1]);
                if i + 1 < list.len() {
                    assert(list[i + 1] == tail[i]);
                }
            }
        }
    }
}

/// An escape sequence before the end of the visible cells is kept, whichever
/// cells are visible, and a character is shown exactly where it covers a visible
/// cell.
pub proof fn law_projection_keeps_styles_and_visible_cells(list: Seq<Run>, start: int, end: int)
    requires
        0 <= start < end,
    ensures
        forall|i: int|
            0 <= i < list.len() && (#[trigger] list[i]).escape && list[i].from <= end ==> shown(
                list[i],
                start,
                end,
            ),
        forall|i: int|
            0 <= i < list.len() && !(#[trigger] list[i]).escape && list[i].from < list[i].to ==> (
            shown(list[i], start, end) <==> exists|cell: int|
                list[i].from <= cell < list[i].to && #[trigger] visible_cell(cell, start, end)),
{
    assert forall|i: int|
        0 <= i < list.len() && !(#[trigger] list[i]).escape && list[i].from
            < list[i].to implies (shown(list[i], start, end) <==> exists|cell: int|
        list[i].from <= cell < list[i].to && #[trigger] visible_cell(cell, start, end)) by {
        if shown(list[i], start, end) {
            let cell = if list[i].from >= start {
                list[i].from
            } else {
                start
            };
            assert(visible_cell(cell, start, end));
        }
    }
}

/// Tells whether `cell` is one of the cells `start..end`.
pub open spec fn visible_cell(cell: int, start: int, end: int) -> bool {
    start <= cell < end
}

proof fn lemma_escape_first(sequence: Seq<char>, s: Seq<char>, start: int, visible: int)
    requires
        sequence.len() > 0,
        sequence[0] == '\u{1b}',
        sequence_len(sequence + s) == Some(sequence.len() as int),
        0 <= start,
        0 <= visible,
    ensures
        projected_line(sequence + s, start, visible) == sequence + projected_line(
            s,
            start,
            visible,
        ),
{
    let line = sequence + s;
    let n = sequence.len() as int;
    assert(line.take(n) =~= sequence);
    assert(line.skip(n) =~= s);
    let list = runs(line, 0);
    assert(list[0].text == sequence);
    assert(list.drop_first() =~= runs(s, 0));
}

proof fn lemma_command_ends(body: Seq<char>, end: Seq<char>, s: Seq<char>)
    requires
        !body.contains('\u{7}'),
        !body.contains('\u{1b}'),
        end == seq!['\u{7}'] || end == seq!['\u{1b}', '\\'],
    ensures
        command_len(body + end + s) == body.len() + end.len(),
    decreases body.len(),
{
    let all = body + end + s;
    if body.len() > 0 {
        let rest = body.drop_first();
        assert(all[0] == body[0]);
        assert(body.contains(body[0]));
        assert forall|c: char| rest.contains(c) implies body.contains(c) by {
            let i = rest.index_of(c);
            assert(body[i + 1] == c);
        }
        lemma_command_ends(rest, end, s);
        assert(all.drop_first() =~= rest + end + s);
    } else {
        assert(all[0] == end[0]);
        if end.len() == 2 {
            assert(all[1] == end[1]);
        }
    }
}

/// A command of the operating system, which a bell or an escape and a backslash ends, the
/// choice of a character set, and any other escape of one character, stay in front of what
/// follows them in every view, as a style does.
pub proof fn law_escapes_take_no_cells(
    body: Seq<char>,
    c: char,
    s: Seq<char>,
    start: int,
    visible: int,
)
    requires
        !body.contains('\u{7}'),
        !body.contains('\u{1b}'),
        c <= '\u{7f}',
        0 <= start,
        0 <= visible,
    ensures
        ({
            let rung = seq!['\u{1b}', ']'] + body + seq!['\u{7}'];
            let closed = seq!['\u{1b}', ']'] + body + seq!['\u{1b}', '\\'];
            let set = seq!['\u{1b}', '(', c];
            let other = seq!['\u{1b}', ')', c];
            let short = seq!['\u{1b}', c];
            let view = projected_line(s, start, visible);
            &&& projected_line(rung + s, start, visible) == rung + view
            &&& projected_line(closed + s, start, visible) == closed + view
            &&& projected_line(set + s, start, visible) == set + view
            &&& projected_line(other + s, start, visible) == other + view
            &&& c != '[' && c != ']' && c != '(' && c != ')' && c != '*' && c != '+'
                ==> projected_line(short + s, start, visible) == short + view
        }),
{
    let rung = seq!['\u{1b}', ']'] + body + seq!['\u{7}'];
    let closed = seq!['\u{1b}', ']'] + body + seq!['\u{1b}', '\\'];
    lemma_command_ends(body, seq!['\u{7}'], s);
    lemma_command_ends(body, seq!['\u{1b}', '\\'], s);
    assert((rung + s).skip(2) =~= body + seq!['\u{7}'] + s);
    assert((closed + s).skip(2) =~= body + seq!['\u{1b}', '\\'] + s);
    lemma_escape_first(rung, s, start, visible);
    lemma_escape_first(closed, s, start, visible);
    lemma_escape_first(seq!['\u{1b}', '(', c], s, start, visible);
    lemma_escape_first(seq!['\u{1b}', ')', c], s, start, visible);
    if c != '[' && c != ']' && c != '(' && c != ')' && c != '*' && c != '+' {
        lemma_escape_first(seq!['\u{1b}', c], s, start, visible);
    }
}

/// A cursor outside of the screen counts as on its last cell.
pub proof fn law_stray_cursor_counts_as_on_the_edge(
    snapshot: SnapshotView,
    viewport: ViewportView,
    row: u16,
    col: u16,
)
    requires
        snapshot.cursor_row >= snapshot.size.rows@,
        snapshot.cursor_col >= snapshot.size.cols@,
        row + 1 == snapshot.size.rows@,
        col + 1 == snapshot.size.cols@,
    ensures
        placement(snapshot, viewport) == placement(
            (SnapshotView { cursor_row: row, cursor_col: col, ..snapshot }),
            viewport,
        ),
{
}

/// What takes no cell is shown where it stands on a visible one, and escape sequences behind
/// the visible cells are left out.
pub proof fn law_nothing_behind_the_view_is_shown(run: Run, start: int, end: int)
    requires
        0 <= start < end,
    ensures
        run.escape && run.from > end ==> !shown(run, start, end),
        !run.escape && run.from == run.to ==> (shown(run, start, end) <==> start <= run.from
            && run.from < end),
        !run.escape && (run.from >= end || run.to < start) ==> !shown(run, start, end),
{
}

/// Renders a backend screen for a browser terminal.
pub fn screen_snapshot_bytes(
    snapshot: &BackendScreenSnapshot,
    viewport: Option<GatewayViewport>,
) -> (r: Bytes)
    ensures
        crate::octets::octets(r) == vstd::utf8::encode_utf8(
            screen_text(
                snapshot@,
                match viewport {
                    Some(viewport) => viewport@,
                    None => whole(snapshot@),
                },
            ),
        ),
{
    let viewport = match viewport {
        Some(viewport) => viewport,
        None => GatewayViewport::new(snapshot.size()),
    };
    let ghost at = placement(snapshot@, viewport@);
    let visible_rows = viewport.size().rows.get();
    let visible_cols = viewport.size().cols.get();
    let snapshot_rows = snapshot.size().rows.get();
    let snapshot_cols = snapshot.size().cols.get();
    let backend_cursor_row = least(snapshot.cursor_row(), snapshot_rows - 1);
    let backend_cursor_col = least(snapshot.cursor_col(), snapshot_cols - 1);
    let start_row = snapshot_start_axis(
        snapshot_rows,
        backend_cursor_row,
        visible_rows,
        viewport.origin_row(),
    );
    let start_col = snapshot_start_axis(
        snapshot_cols,
        backend_cursor_col,
        visible_cols,
        viewport.origin_col(),
    );
    let cursor_row: u16 = least(
        backend_cursor_row.saturating_sub(start_row),
        visible_rows - 1,
    ) + 1;
    let cursor_col: u16 = least(
        backend_cursor_col.saturating_sub(start_col),
        visible_cols - 1,
    ) + 1;
    let lines = snapshot.lines();
    let ghost views = snapshot@.lines;
    let mut text = String::from_str("\x1b[0m\x1b[?7l\x1b[H\x1b[2J");
    let ghost head = text@;
    let mut index: u16 = 0;
    proof {
        assert(head + rows_text(views, at, 0) =~= head);
    }
    while index < visible_rows
        invariant
            index <= visible_rows <= 120,
            start_row <= 120,
            at.start_row == start_row,
            at.start_col == start_col,
            at.cols == visible_cols,
            crate::text::texts(lines@) == views,
            text@ == head + rows_text(views, at, index as int),
        decreases visible_rows - index,
    {
        let ghost before = text@;
        if index > 0 {
            text.append("\r\n");
        }
        let row = (start_row + index) as usize;
        if row < lines.len() {
            proof {
                assert(views[row as int] == lines@[row as int]@);
            }
            let visible = project_snapshot_line(lines[row].as_str(), start_col, visible_cols);
            text.append(visible.as_str());
        }
        proof {
            let row_part = row_text(views, at, index as int);
            if index > 0 {
                assert(text@ =~= before + "\r\n"@ + row_part);
                assert(text@ =~= head + (rows_text(views, at, index as int) + "\r\n"@ + row_part));
            } else {
                assert(text@ =~= head + row_part);
            }
        }
        index += 1;
    }
    text.append("\x1b[0m\x1b[?7h\x1b[");
    text.append(crate::text::decimal(cursor_row as u64).as_str());
    text.append(";");
    text.append(crate::text::decimal(cursor_col as u64).as_str());
    text.append("H");
    proof {
        assert(text@ =~= screen_text(snapshot@, viewport@));
    }
    crate::octets::bytes_from_vec(vstd::slice::slice_to_vec(text.as_str().as_bytes()))
}

fn least(a: u16, b: u16) -> (r: u16)
    ensures
        r == lesser(a as int, b as int),
{
    if a <= b {
        a
    } else {
        b
    }
}

} // verus!
