//! Navigation in the table viewer: which row is selected, which rows and
//! columns are on screen. Drawing the table is left to the caller.

use vstd::prelude::*;

verus! {

/// The width of a column on screen, in characters.
pub const COLUMN_WIDTH: u16 = 20;

/// The state of the table viewer over a table of `rows` rows and `cols`
/// columns.
#[derive(Debug, Clone, Copy, PartialEq, Eq, Structural)]
pub struct App {
    selected: Option<usize>,
    offset: usize,
    scroll_x: usize,
    viewport_height: usize,
    rows: usize,
    cols: usize,
}

/// `a - b`, or 0 when `b > a`.
pub open spec fn sat_sub(a: int, b: int) -> int {
    if a >= b {
        a - b
    } else {
        0
    }
}

/// The smaller of `a` and `b`.
pub open spec fn min_int(a: int, b: int) -> int {
    if a <= b {
        a
    } else {
        b
    }
}

/// The part of the table on screen.
#[derive(Debug, Clone, Copy, PartialEq, Eq, Structural)]
pub struct TableWindow {
    /// The first row shown.
    pub start_row: usize,
    /// The row after the last row shown.
    pub end_row: usize,
    /// The first column shown.
    pub first_col: usize,
    /// How many columns fit on screen (at least one).
    pub max_cols: usize,
    /// The selected row, counted from `start_row`, when it is on screen.
    pub selected_in_window: Option<usize>,
}

impl App {
    /// The selected row.
    pub closed spec fn spec_selected(self) -> Option<usize> {
        self.selected
    }

    /// The first row on screen.
    pub closed spec fn spec_offset(self) -> usize {
        self.offset
    }

    /// The first column on screen.
    pub closed spec fn spec_scroll_x(self) -> usize {
        self.scroll_x
    }

    /// The height of the table's area at the last drawing.
    pub closed spec fn spec_viewport_height(self) -> usize {
        self.viewport_height
    }

    /// The number of rows of the table.
    pub closed spec fn spec_rows(self) -> usize {
        self.rows
    }

    /// The number of columns of the table.
    pub closed spec fn spec_cols(self) -> usize {
        self.cols
    }

    /// A table with no row or no column.
    pub open spec fn spec_is_empty(self) -> bool {
        self.spec_rows() == 0 || self.spec_cols() == 0
    }

    /// A row is selected exactly when the table is not empty; the selected
    /// row is a row of the table at or below the first row on screen; the
    /// first column on screen is a column of the table (or 0).
    pub closed spec fn wf(self) -> bool {
        &&& self.rows < usize::MAX - 0x10000
        &&& self.viewport_height <= 0xffff
        &&& (self.rows == 0 || self.cols == 0) ==> self.selected is None && self.offset == 0
        &&& !(self.rows == 0 || self.cols == 0) ==> (self.selected matches Some(i) && i < self.rows
            && self.offset <= i)
        &&& self.scroll_x <= sat_sub(self.cols as int, 1)
    }

    /// The state after moving the selection down one row: it stops at the
    /// last row, and the rows on screen move down by one when the selection
    /// passes below them.
    pub closed spec fn after_next(self) -> App {
        if self.rows == 0 || self.cols == 0 {
            self
        } else {
            let i = match self.selected {
                Some(s) => min_int(s + 1, sat_sub(self.rows as int, 1)) as usize,
                None => 0usize,
            };
            let row_count = sat_sub(self.viewport_height as int, 3);
            App {
                selected: Some(i),
                offset: if row_count > 0 && i >= self.offset + row_count {
                    (self.offset + 1) as usize
                } else {
                    self.offset
                },
                ..self
            }
        }
    }

    /// The state after moving the selection up one row: it stops at the
    /// first row, and the rows on screen move up by one when the selection
    /// passes above them.
    pub closed spec fn after_previous(self) -> App {
        if self.rows == 0 || self.cols == 0 {
            self
        } else {
            let i = match self.selected {
                Some(s) => sat_sub(s as int, 1) as usize,
                None => 0usize,
            };
            App {
                selected: Some(i),
                offset: if i < self.offset {
                    (self.offset - 1) as usize
                } else {
                    self.offset
                },
                ..self
            }
        }
    }

    /// The state after moving one column right, stopping at the last
    /// column.
    pub closed spec fn after_next_col(self) -> App {
        App {
            scroll_x: min_int(self.scroll_x + 1, sat_sub(self.cols as int, 1)) as usize,
            ..self
        }
    }

    /// The state after moving one column left, stopping at the first.
    pub closed spec fn after_previous_col(self) -> App {
        App { scroll_x: sat_sub(self.scroll_x as int, 1) as usize, ..self }
    }

    /// The state with the area's height set to `h`.
    pub closed spec fn with_viewport_height(self, h: usize) -> App {
        App { viewport_height: h, ..self }
    }

    /// The viewer of a table of `rows` rows and `cols` columns: the first
    /// row selected when the table is not empty, the top-left corner on
    /// screen.
    pub fn new(rows: usize, cols: usize) -> (r: Self)
        requires
            rows < usize::MAX - 0x10000,
        ensures
            r.wf(),
            r.spec_rows() == rows,
            r.spec_cols() == cols,
            r.spec_selected() == if rows == 0 || cols == 0 {
                None
            } else {
                Some(0usize)
            },
            r.spec_offset() == 0,
            r.spec_scroll_x() == 0,
            r.spec_viewport_height() == 0,
    {
        let selected = if rows == 0 || cols == 0 {
            None
        } else {
            Some(0)
        };
        App { selected, offset: 0, scroll_x: 0, viewport_height: 0, rows, cols }
    }

    /// Moves the selection down one row.
    pub fn next(&mut self)
        requires
            old(self).wf(),
        ensures
            *final(self) == old(self).after_next(),
            final(self).wf(),
    {
        if self.rows == 0 || self.cols == 0 {
            return;
        }
        let i = match self.selected {
            Some(s) => {
                let last = self.rows - 1;
                if s + 1 < last {
                    s + 1
                } else {
                    last
                }
            },
            None => 0,
        };
        self.selected = Some(i);
        let row_count = if self.viewport_height >= 3 {
            self.viewport_height - 3
        } else {
            0
        };
        if row_count > 0 {
            let offset = self.offset;
            if i >= offset + row_count {
                self.offset = offset + 1;
            }
        }
    }

    /// Moves the selection up one row.
    pub fn previous(&mut self)
        requires
            old(self).wf(),
        ensures
            *final(self) == old(self).after_previous(),
            final(self).wf(),
    {
        if self.rows == 0 || self.cols == 0 {
            return;
        }
        let i = match self.selected {
            Some(s) => if s >= 1 {
                s - 1
            } else {
                0
            },
            None => 0,
        };
        self.selected = Some(i);
        let offset = self.offset;
        if i < offset {
            self.offset = offset - 1;
        }
    }

    /// Moves one column right.
    pub fn next_col(&mut self)
        requires
            old(self).wf(),
        ensures
            *final(self) == old(self).after_next_col(),
            final(self).wf(),
    {
        let last = if self.cols >= 1 {
            self.cols - 1
        } else {
            0
        };
        let step = if self.scroll_x < usize::MAX {
            self.scroll_x + 1
        } else {
            usize::MAX
        };
        self.scroll_x = if step < last {
            step
        } else {
            last
        };
    }

    /// Moves one column left.
    pub fn previous_col(&mut self)
        requires
            old(self).wf(),
        ensures
            *final(self) == old(self).after_previous_col(),
            final(self).wf(),
    {
        self.scroll_x = if self.scroll_x >= 1 {
            self.scroll_x - 1
        } else {
            0
        };
    }

    /// Records the height of the table's area and says what part of the
    /// table is on screen: from the first row on screen, as many rows as
    /// fit below the header and borders (the area's height less 3), the
    /// columns from the first one on screen, as many as fit at 20
    /// characters each (at least one), and where the selected row is among
    /// the rows shown.
    pub fn table_window(&mut self, area_height: u16, area_width: u16) -> (r: TableWindow)
        requires
            old(self).wf(),
        ensures
            *final(self) == old(self).with_viewport_height(area_height as usize),
            final(self).wf(),
            r.start_row == old(self).spec_offset(),
            r.end_row == min_int(
                old(self).spec_offset() + sat_sub(area_height as int, 3),
                old(self).spec_rows() as int,
            ),
            r.first_col == old(self).spec_scroll_x(),
            r.max_cols == if area_width / COLUMN_WIDTH >= 1 {
                (area_width / COLUMN_WIDTH) as usize
            } else {
                1usize
            },
            r.selected_in_window == match old(self).spec_selected() {
                Some(s) => if r.start_row <= s < r.end_row {
                    Some((s - r.start_row) as usize)
                } else {
                    None
                },
                None => None::<usize>,
            },
    {
        self.viewport_height = area_height as usize;
        let start_row = self.offset;
        let row_count: usize = if area_height >= 3 {
            (area_height - 3) as usize
        } else {
            0
        };
        let reach = start_row + row_count;
        let end_row = if reach < self.rows {
            reach
        } else {
            self.rows
        };
        let cols_fit = area_width / COLUMN_WIDTH;
        let max_cols: usize = if cols_fit >= 1 {
            cols_fit as usize
        } else {
            1
        };
        let selected_in_window = match self.selected {
            Some(s) => if start_row <= s && s < end_row {
                Some(s - start_row)
            } else {
                None
            },
            None => None,
        };
        TableWindow { start_row, end_row, first_col: self.scroll_x, max_cols, selected_in_window }
    }
}

/// A key pressed in the viewer.
#[derive(Debug, Clone, Copy, PartialEq, Eq, Structural)]
pub enum Key {
    Char(char),
    Left,
    Right,
    Up,
    Down,
    Other,
}

impl App {
    /// Acts on a key: `q` quits (the result is `true`), the arrows move the
    /// selection or the columns, any other key does nothing.
    pub fn handle_key(&mut self, key: Key) -> (quit: bool)
        requires
            old(self).wf(),
        ensures
            final(self).wf(),
            quit == (key == Key::Char('q')),
            *final(self) == match key {
                Key::Left => old(self).after_previous_col(),
                Key::Right => old(self).after_next_col(),
                Key::Down => old(self).after_next(),
                Key::Up => old(self).after_previous(),
                _ => *old(self),
            },
    {
        match key {
            Key::Char(c) => c == 'q',
            Key::Left => {
                self.previous_col();
                false
            },
            Key::Right => {
                self.next_col();
                false
            },
            Key::Down => {
                self.next();
                false
            },
            Key::Up => {
                self.previous();
                false
            },
            Key::Other => false,
        }
    }
}

/// Moving down and then up gives back the selected row, unless the
/// selection was on the last row.
pub proof fn lemma_previous_undoes_next(a: App)
    requires
        a.wf(),
        !a.spec_is_empty(),
        a.spec_selected() matches Some(s) && s + 1 < a.spec_rows(),
    ensures
        a.after_next().after_previous().spec_selected() == a.spec_selected(),
{
}

/// Moving up and then down gives back the selected row, unless the
/// selection was on the first row.
pub proof fn lemma_next_undoes_previous(a: App)
    requires
        a.wf(),
        !a.spec_is_empty(),
        a.spec_selected() matches Some(s) && s >= 1,
    ensures
        a.after_previous().after_next().spec_selected() == a.spec_selected(),
{
}

/// Moving right and then left gives back the first column on screen,
/// unless it was the last column.
pub proof fn lemma_previous_col_undoes_next_col(a: App)
    requires
        a.wf(),
        a.spec_scroll_x() + 1 < a.spec_cols(),
    ensures
        a.after_next_col().after_previous_col().spec_scroll_x() == a.spec_scroll_x(),
{
}

/// The selected row stays a row of the table and at or below the first
/// row on screen, whatever the moves.
pub proof fn lemma_moves_keep_selection_valid(a: App)
    requires
        a.wf(),
    ensures
        a.after_next().wf(),
        a.after_previous().wf(),
        a.after_next_col().wf(),
        a.after_previous_col().wf(),
        !a.spec_is_empty() ==> (a.after_next().spec_selected() matches Some(i) && i < a.spec_rows()),
        !a.spec_is_empty() ==> (a.after_previous().spec_selected() matches Some(i) && i < a.spec_rows()),
{
}

/// Down moves the selection one row down, and on the last row leaves it
/// there; the rows on screen never move up and move down by at most one;
/// the table, the columns on screen and the area's height stay as they
/// are.
pub proof fn lemma_next_moves_down(a: App)
    requires
        a.wf(),
        !a.spec_is_empty(),
    ensures
        a.after_next().spec_selected() == Some(min_int(a.spec_selected()->0 + 1, a.spec_rows() - 1) as usize),
        a.spec_selected() == Some((a.spec_rows() - 1) as usize) ==> a.after_next().spec_selected()
            == a.spec_selected(),
        a.spec_offset() <= a.after_next().spec_offset() <= a.spec_offset() + 1,
        a.after_next().spec_rows() == a.spec_rows(),
        a.after_next().spec_cols() == a.spec_cols(),
        a.after_next().spec_scroll_x() == a.spec_scroll_x(),
        a.after_next().spec_viewport_height() == a.spec_viewport_height(),
{
}

/// Up moves the selection one row up, and on the first row leaves it
/// there; the rows on screen never move down and move up by at most one;
/// the table, the columns on screen and the area's height stay as they
/// are.
pub proof fn lemma_previous_moves_up(a: App)
    requires
        a.wf(),
        !a.spec_is_empty(),
    ensures
        a.after_previous().spec_selected() == Some(sat_sub(a.spec_selected()->0 as int, 1) as usize),
        a.spec_selected() == Some(0usize) ==> a.after_previous().spec_selected() == a.spec_selected(),
        a.spec_offset() - 1 <= a.after_previous().spec_offset() <= a.spec_offset(),
        a.after_previous().spec_rows() == a.spec_rows(),
        a.after_previous().spec_cols() == a.spec_cols(),
        a.after_previous().spec_scroll_x() == a.spec_scroll_x(),
        a.after_previous().spec_viewport_height() == a.spec_viewport_height(),
{
}

/// On an empty table no move changes anything.
pub proof fn lemma_moves_on_empty_table(a: App)
    requires
        a.wf(),
        a.spec_is_empty(),
    ensures
        a.after_next() == a,
        a.after_previous() == a,
{
}

} // verus!
