//! The navigation model: a selection index and a scroll offset over a
//! byte buffer laid out in rows, and how each key press moves them.
use vstd::prelude::*;
use vstd::arithmetic::div_mod::{lemma_fundamental_div_mod, lemma_fundamental_div_mod_converse};

verus! {

/// Index of the row that holds byte `index`, for rows of `width` bytes.
pub open spec fn row_of(index: int, width: int) -> int {
    index / width
}

/// Column of byte `index` within its row.
pub open spec fn col_of(index: int, width: int) -> int {
    index % width
}

/// Number of bytes spanned by `n` full rows.
pub open spec fn rows_to_bytes(n: int, width: int) -> int {
    n * width
}

/// The scroll offset that keeps row `r` inside a window of `page` rows
/// that started at `scroll`: unchanged when `r` is already visible, else
/// moved in one step so that `r` sits on the nearest edge of the window.
pub open spec fn reconciled(r: int, scroll: int, page: int) -> int {
    if r < scroll {
        r
    } else if r >= scroll + page {
        r - page + 1
    } else {
        scroll
    }
}

/// A navigation command, as delivered by one key press.
#[derive(Clone, Copy, Debug, PartialEq, Eq, Structural)]
pub enum Key {
    Up,
    Down,
    Left,
    Right,
    /// Start of the current row.
    Home,
    /// End of the current row.
    End,
    /// First byte of the document.
    DocumentHome,
    /// One past the last byte of the document.
    DocumentEnd,
    PageUp,
    PageDown,
    Quit,
}

/// The navigation state together with the parameters it is computed over.
pub struct Nav {
    pub selected: int,
    pub scroll_offset: int,
    pub total_bytes: int,
    pub row_width: int,
    pub rows_per_page: int,
}

impl Nav {
    pub open spec fn row(self, index: int) -> int {
        row_of(index, self.row_width)
    }

    pub open spec fn col(self, index: int) -> int {
        col_of(index, self.row_width)
    }

    pub open spec fn rows(self, n: int) -> int {
        rows_to_bytes(n, self.row_width)
    }

    /// Index of the last row; the one-past-the-end position belongs to it.
    pub open spec fn last_row(self) -> int {
        self.row(self.total_bytes)
    }

    /// Whether row `r` lies inside the visible window.
    pub open spec fn visible(self, r: int) -> bool {
        self.scroll_offset <= r < self.scroll_offset + self.rows_per_page
    }

    /// The selection is within `[0, total_bytes]` and its row is visible.
    pub open spec fn inv(self) -> bool {
        &&& self.row_width >= 1
        &&& self.rows_per_page >= 1
        &&& 0 <= self.selected <= self.total_bytes
        &&& 0 <= self.scroll_offset
        &&& self.visible(self.row(self.selected))
    }

    /// Select `s` and reconcile the scroll offset with it.
    pub open spec fn select(self, s: int) -> Nav {
        Nav {
            selected: s,
            scroll_offset: reconciled(self.row(s), self.scroll_offset, self.rows_per_page),
            ..self
        }
    }

    pub open spec fn move_up(self) -> Nav {
        if self.row(self.selected) >= 1 {
            self.select(self.selected - self.row_width)
        } else {
            self
        }
    }

    pub open spec fn move_down(self) -> Nav {
        if self.row(self.selected) < self.last_row() {
            self.select(
                if self.selected + self.row_width <= self.total_bytes {
                    self.selected + self.row_width
                } else {
                    self.total_bytes
                },
            )
        } else {
            self
        }
    }

    pub open spec fn move_left(self) -> Nav {
        if self.selected > 0 {
            self.select(self.selected - 1)
        } else {
            self
        }
    }

    pub open spec fn move_right(self) -> Nav {
        if self.selected < self.total_bytes {
            self.select(self.selected + 1)
        } else {
            self
        }
    }

    pub open spec fn row_home(self) -> Nav {
        Nav { selected: self.selected - self.col(self.selected), ..self }
    }

    pub open spec fn row_end(self) -> Nav {
        let e = self.selected - self.col(self.selected) + self.row_width - 1;
        Nav { selected: if e <= self.total_bytes { e } else { self.total_bytes }, ..self }
    }

    pub open spec fn document_home(self) -> Nav {
        Nav { selected: 0, scroll_offset: 0, ..self }
    }

    pub open spec fn document_end(self) -> Nav {
        let s = self.last_row() - self.rows_per_page + 1;
        Nav {
            selected: self.total_bytes,
            scroll_offset: if s >= 0 { s } else { 0 },
            ..self
        }
    }

    pub open spec fn page_up(self) -> Nav {
        let page = self.rows(self.rows_per_page);
        Nav {
            selected: if self.selected >= page { self.selected - page } else { 0 },
            scroll_offset: if self.scroll_offset >= self.rows_per_page {
                self.scroll_offset - self.rows_per_page
            } else {
                0
            },
            ..self
        }
    }

    pub open spec fn page_down(self) -> Nav {
        let page = self.rows(self.rows_per_page);
        let s = if self.selected + page <= self.total_bytes {
            self.selected + page
        } else {
            self.total_bytes
        };
        Nav {
            selected: s,
            scroll_offset: reconciled(
                self.row(s),
                self.scroll_offset + self.rows_per_page,
                self.rows_per_page,
            ),
            ..self
        }
    }

    /// The state after one key press.
    pub open spec fn step(self, key: Key) -> Nav {
        match key {
            Key::Up => self.move_up(),
            Key::Down => self.move_down(),
            Key::Left => self.move_left(),
            Key::Right => self.move_right(),
            Key::Home => self.row_home(),
            Key::End => self.row_end(),
            Key::DocumentHome => self.document_home(),
            Key::DocumentEnd => self.document_end(),
            Key::PageUp => self.page_up(),
            Key::PageDown => self.page_down(),
            Key::Quit => self,
        }
    }

    /// The state after a sequence of key presses, applied in order.
    pub open spec fn run(self, keys: Seq<Key>) -> Nav
        decreases keys.len(),
    {
        if keys.len() == 0 {
            self
        } else {
            self.run(keys.drop_last()).step(keys.last())
        }
    }
}

/// Splits an index into its row and column.
pub proof fn lemma_row_col(index: int, width: int)
    requires
        index >= 0,
        width >= 1,
    ensures
        index == rows_to_bytes(row_of(index, width), width) + col_of(index, width),
        0 <= col_of(index, width) < width,
        0 <= row_of(index, width) <= index,
{
    lemma_fundamental_div_mod(index, width);
    assert(row_of(index, width) * width == width * row_of(index, width)) by (nonlinear_arith);
    assert(0 <= row_of(index, width) <= index) by (nonlinear_arith)
        requires
            index >= 0,
            width >= 1,
            index == width * row_of(index, width) + col_of(index, width),
            0 <= col_of(index, width) < width,
    ;
}

/// Round trip between row space and byte space: column `c` of row `n`
/// has row `n` and column `c`.
pub proof fn lemma_row_col_of(n: int, c: int, width: int)
    requires
        width >= 1,
        0 <= c < width,
    ensures
        row_of(rows_to_bytes(n, width) + c, width) == n,
        col_of(rows_to_bytes(n, width) + c, width) == c,
{
    lemma_fundamental_div_mod_converse(rows_to_bytes(n, width) + c, width, n, c);
}

/// Moving `k` rows back from `index` lands `k` rows earlier, in the same column.
pub proof fn lemma_rows_back(index: int, k: int, width: int)
    requires
        width >= 1,
        k >= 0,
        index >= rows_to_bytes(k, width),
    ensures
        row_of(index - rows_to_bytes(k, width), width) == row_of(index, width) - k,
        col_of(index - rows_to_bytes(k, width), width) == col_of(index, width),
{
    lemma_row_col(index, width);
    let r = row_of(index, width);
    let c = col_of(index, width);
    assert(index - rows_to_bytes(k, width) == rows_to_bytes(r - k, width) + c) by (nonlinear_arith)
        requires
            index == r * width + c,
    ;
    lemma_row_col_of(r - k, c, width);
}

/// Row numbers do not decrease as the index grows.
pub proof fn lemma_row_monotonic(a: int, b: int, width: int)
    requires
        width >= 1,
        0 <= a <= b,
    ensures
        row_of(a, width) <= row_of(b, width),
{
    vstd::arithmetic::div_mod::lemma_div_is_ordered(a, b, width);
}

/// Selecting any index in range, with reconciliation, keeps the invariant.
pub proof fn lemma_select_inv(n: Nav, s: int)
    requires
        n.inv(),
        0 <= s <= n.total_bytes,
    ensures
        n.select(s).inv(),
{
    lemma_row_col(s, n.row_width);
}

/// Every command keeps the selection in range and its row visible.
pub proof fn lemma_step_inv(n: Nav, key: Key)
    requires
        n.inv(),
    ensures
        n.step(key).inv(),
{
    let w = n.row_width;
    let sel = n.selected;
    lemma_row_col(sel, w);
    lemma_row_col(n.total_bytes, w);
    match key {
        Key::Up => {
            if n.row(sel) >= 1 {
                assert(sel >= w) by (nonlinear_arith)
                    requires
                        sel == n.row(sel) * w + n.col(sel),
                        n.row(sel) >= 1,
                        n.col(sel) >= 0,
                        w >= 1,
                ;
                lemma_select_inv(n, sel - w);
            }
        },
        Key::Down => {
            if n.row(sel) < n.last_row() {
                if sel + w <= n.total_bytes {
                    lemma_select_inv(n, sel + w);
                } else {
                    lemma_select_inv(n, n.total_bytes);
                }
            }
        },
        Key::Left => {
            if sel > 0 {
                lemma_select_inv(n, sel - 1);
            }
        },
        Key::Right => {
            if sel < n.total_bytes {
                lemma_select_inv(n, sel + 1);
            }
        },
        Key::Home => {
            lemma_row_col_of(n.row(sel), 0, w);
        },
        Key::End => {
            let e = sel - n.col(sel) + w - 1;
            lemma_row_col_of(n.row(sel), w - 1, w);
            if e > n.total_bytes {
                lemma_row_monotonic(sel, n.total_bytes, w);
                lemma_row_monotonic(n.total_bytes, e, w);
            }
        },
        Key::DocumentHome => {
            lemma_row_col_of(0, 0, w);
        },
        Key::DocumentEnd => {},
        Key::PageUp => {
            let k = n.rows_per_page;
            let page = n.rows(k);
            if sel >= page {
                lemma_rows_back(sel, k, w);
                lemma_row_col(sel - page, w);
            } else {
                assert(n.row(sel) < k) by (nonlinear_arith)
                    requires
                        sel == n.row(sel) * w + n.col(sel),
                        n.col(sel) >= 0,
                        sel < k * w,
                        w >= 1,
                ;
                lemma_row_col_of(0, 0, w);
            }
        },
        Key::PageDown => {
            let k = n.rows_per_page;
            let page = n.rows(k);
            assert(page >= 0) by (nonlinear_arith)
                requires
                    k >= 1,
                    w >= 1,
                    page == k * w,
            ;
            let s = if sel + page <= n.total_bytes {
                sel + page
            } else {
                n.total_bytes
            };
            lemma_row_col(s, w);
        },
        Key::Quit => {},
    }
}

/// After every key press of any sequence, the selection lies in
/// `[0, total_bytes]` and the row that holds it is visible.
pub proof fn lemma_run_inv(n: Nav, keys: Seq<Key>)
    requires
        n.inv(),
    ensures
        forall|i: int| 0 <= i <= keys.len() ==> #[trigger] n.run(keys.take(i)).inv(),
    decreases keys.len(),
{
    if keys.len() > 0 {
        let prefix = keys.drop_last();
        lemma_run_inv(n, prefix);
        assert forall|i: int| 0 <= i <= keys.len() implies #[trigger] n.run(keys.take(i)).inv() by {
            if i < keys.len() {
                assert(keys.take(i) =~= prefix.take(i));
            } else {
                assert(keys.take(i) =~= keys);
                assert(prefix.take(prefix.len() as int) =~= prefix);
                lemma_step_inv(n.run(prefix), keys.last());
            }
        }
    }
}

/// Jumping to the start of the document twice gives the same state as
/// jumping once: selection 0, scroll offset 0.
pub proof fn lemma_document_home_idempotent(n: Nav)
    ensures
        n.step(Key::DocumentHome).step(Key::DocumentHome) == n.step(Key::DocumentHome),
        n.step(Key::DocumentHome).selected == 0,
        n.step(Key::DocumentHome).scroll_offset == 0,
{
}

/// Over an empty buffer every command leaves the state as it was, with the
/// selection at 0.
pub proof fn lemma_empty_no_op(n: Nav, key: Key)
    requires
        n.inv(),
        n.total_bytes == 0,
    ensures
        n.step(key) == n,
        n.step(key).selected == 0,
{
    let w = n.row_width;
    lemma_row_col_of(0, 0, w);
    assert(n.rows(n.rows_per_page) >= 1) by (nonlinear_arith)
        requires
            n.rows_per_page >= 1,
            w >= 1,
            n.rows(n.rows_per_page) == n.rows_per_page * w,
    ;
}

/// Jumping to the start of the row lands on column 0 of the same row;
/// jumping to its end lands on the last column of the same row, or on
/// `total_bytes` when that row ends earlier.
pub proof fn lemma_row_home_end(n: Nav)
    requires
        n.inv(),
    ensures
        n.step(Key::Home).row(n.step(Key::Home).selected) == n.row(n.selected),
        n.step(Key::Home).col(n.step(Key::Home).selected) == 0,
        n.step(Key::End).selected == n.total_bytes || (n.step(Key::End).row(
            n.step(Key::End).selected,
        ) == n.row(n.selected) && n.step(Key::End).col(n.step(Key::End).selected) == n.row_width
            - 1),
        n.step(Key::End).selected <= n.total_bytes,
{
    let w = n.row_width;
    lemma_row_col(n.selected, w);
    lemma_row_col_of(n.row(n.selected), 0, w);
    lemma_row_col_of(n.row(n.selected), w - 1, w);
}

/// Moving left from the first position, or right from one past the last
/// byte, changes nothing.
pub proof fn lemma_edges_no_op(n: Nav)
    requires
        n.inv(),
    ensures
        n.selected == 0 ==> n.step(Key::Left) == n,
        n.selected == n.total_bytes ==> n.step(Key::Right) == n,
{
}

} // verus!
