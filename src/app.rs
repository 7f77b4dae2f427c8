//! The browsing session: the byte store, built once from the input, and the
//! selection and scroll offset that the key presses move over it.
use vstd::prelude::*;
use vstd::slice::slice_subrange;
use crate::nav::{
    Key, Nav, reconciled, row_of, col_of, rows_to_bytes, lemma_row_col, lemma_row_col_of,
    lemma_rows_back, lemma_step_inv,
};
use crate::row::Row;
use vstd::arithmetic::div_mod::lemma_fundamental_div_mod_converse;

verus! {

/// The fewest rows a page shows.
pub const MIN_ROWS_PER_PAGE: u16 = 10;

/// Terminal lines taken by the header, the borders and the help line.
pub const RESERVED_LINES: u16 = 6;

/// The rows per page for a terminal `height` lines tall.
pub open spec fn rows_per_page_for(height: int) -> int {
    if height - RESERVED_LINES > MIN_ROWS_PER_PAGE {
        height - RESERVED_LINES
    } else {
        MIN_ROWS_PER_PAGE as int
    }
}

/// The number of rows of `width` bytes that `n` bytes fill.
pub open spec fn row_count(n: int, width: int) -> int {
    (n + width - 1) / width
}

/// The bytes of row `i` when `bytes` is cut into rows of `width`.
pub open spec fn chunk(bytes: Seq<u8>, i: int, width: int) -> Seq<u8> {
    let end = if (i + 1) * width <= bytes.len() { (i + 1) * width } else { bytes.len() as int };
    bytes.subrange(i * width, end)
}

/// The main application state
pub struct App {
    /// Configuration parameters.
    pub cfg: crate::config::View,
    /// The rows of the byte store.
    pub data: Vec<Row>,
    /// The total count of bytes.
    pub total_bytes: usize,
    /// The index of the selected byte.
    pub selected: usize,
    /// The first row shown.
    pub scroll_offset: usize,
    /// Number of rows shown per page.
    pub rows_per_page: usize,
    /// Whether the session has ended.
    pub exit: bool,
}

impl App {
    /// The navigation state of this session.
    pub open spec fn nav(&self) -> Nav {
        Nav {
            selected: self.selected as int,
            scroll_offset: self.scroll_offset as int,
            total_bytes: self.total_bytes as int,
            row_width: self.cfg.size as int,
            rows_per_page: self.rows_per_page as int,
        }
    }

    /// Row width and page are positive, the selection lies in
    /// `[0, total_bytes]`, and its row is visible.
    pub open spec fn wf(&self) -> bool {
        self.nav().inv()
    }

    /// The store holds `bytes`, read from offset `start`, cut into rows of
    /// the configured width; every row but the last is full.
    pub open spec fn holds(&self, bytes: Seq<u8>, start: int) -> bool {
        let w = self.cfg.size as int;
        &&& self.total_bytes == bytes.len()
        &&& self.data@.len() == row_count(bytes.len() as int, w)
        &&& forall|i: int|
            0 <= i < self.data@.len() ==> {
                &&& (#[trigger] self.data@[i]).wf()
                &&& self.data@[i].offset == start + i * w
                &&& self.data@[i].data@ == chunk(bytes, i, w)
            }
    }

    /// Everything but the selection and scroll offset is as in `other`.
    pub open spec fn same_store(&self, other: &App) -> bool {
        &&& self.cfg == other.cfg
        &&& self.data@ == other.data@
        &&& self.total_bytes == other.total_bytes
        &&& self.rows_per_page == other.rows_per_page
        &&& self.exit == other.exit
    }

    /// Instantiate a new instance of the application from the configuration
    /// parameters and the height of the terminal.
    pub fn new(cfg: crate::config::View, terminal_height: u16) -> (r: App)
        requires
            cfg.size >= 1,
        ensures
            r.wf(),
            r.cfg == cfg,
            r.data@.len() == 0,
            r.total_bytes == 0,
            r.selected == 0,
            r.scroll_offset == 0,
            r.rows_per_page == rows_per_page_for(terminal_height as int),
            !r.exit,
    {
        let rows_per_page = rows_for_height(terminal_height);
        let r = App {
            cfg,
            data: Vec::new(),
            total_bytes: 0,
            selected: 0,
            scroll_offset: 0,
            rows_per_page,
            exit: false,
        };
        proof {
            lemma_row_col_of(0, 0, r.cfg.size as int);
        }
        r
    }

    /// Fills the store from `data`, the bytes read from offset `offset`:
    /// all of them, or the first `limit` of them when the configuration
    /// sets a smaller limit.
    pub fn parse(&mut self, data: &[u8], offset: usize)
        requires
            old(self).wf(),
            old(self).data@.len() == 0,
            old(self).total_bytes == 0,
            offset + old(self).cfg.bytes_to_take(data@.len() as int) <= usize::MAX,
        ensures
            final(self).wf(),
            final(self).holds(data@.take(old(self).cfg.bytes_to_take(data@.len() as int)), offset as int),
            final(self).cfg == old(self).cfg,
            final(self).selected == 0,
            final(self).scroll_offset == 0,
            final(self).rows_per_page == old(self).rows_per_page,
            final(self).exit == old(self).exit,
    {
        let w = self.cfg.size;
        let n: usize = match self.cfg.limit {
            Some(l) => if l < data.len() { l } else { data.len() },
            None => data.len(),
        };
        let ghost bytes = data@.take(n as int);
        proof {
            lemma_row_col(0, w as int);
        }
        while self.total_bytes < n
            invariant
                w == self.cfg.size,
                w >= 1,
                n <= data@.len(),
                n == old(self).cfg.bytes_to_take(data@.len() as int),
                bytes == data@.take(n as int),
                offset + n <= usize::MAX,
                self.total_bytes <= n,
                self.total_bytes == n || self.total_bytes == self.data@.len() * w,
                self.data@.len() == 0 || (self.data@.len() - 1) * w < self.total_bytes,
                self.total_bytes <= self.data@.len() * w,
                forall|i: int|
                    0 <= i < self.data@.len() ==> {
                        &&& (#[trigger] self.data@[i]).wf()
                        &&& self.data@[i].offset == offset + i * w
                        &&& self.data@[i].data@ == chunk(bytes, i, w as int)
                    },
                self.cfg == old(self).cfg,
                self.selected == 0,
                self.scroll_offset == 0,
                self.rows_per_page == old(self).rows_per_page,
                self.exit == old(self).exit,
            decreases n - self.total_bytes,
        {
            let pos = self.total_bytes;
            let take = if n - pos < w { n - pos } else { w };
            let row = Row::parse(slice_subrange(data, pos, pos + take), offset + pos);
            let ghost i = self.data@.len() as int;
            proof {
                assert(pos == i * w);
                assert((i + 1) * w == i * w + w) by (nonlinear_arith);
                assert(chunk(bytes, i, w as int) =~= data@.subrange(pos as int, pos + take));
            }
            self.data.push(row);
            self.total_bytes = pos + take;
            proof {
                assert((i + 1) * w == i * w + w) by (nonlinear_arith);
            }
        }
        proof {
            let rows = self.data@.len() as int;
            let total = n as int;
            let wi = w as int;
            if rows == 0 {
                lemma_fundamental_div_mod_converse(total + wi - 1, wi, 0, wi - 1);
            } else {
                assert(rows * wi == (rows - 1) * wi + wi) by (nonlinear_arith);
                lemma_fundamental_div_mod_converse(
                    total + wi - 1,
                    wi,
                    rows,
                    total + wi - 1 - rows * wi,
                );
            }
            lemma_row_col(total, wi);
            lemma_row_col_of(0, 0, wi);
        }
    }

    /// Get the row number for the given index position
    pub fn row(&self, index: usize) -> (r: usize)
        requires
            self.cfg.size >= 1,
        ensures
            r == row_of(index as int, self.cfg.size as int),
    {
        index / self.cfg.size
    }

    /// Get the column number for the given index position
    pub fn col(&self, index: usize) -> (r: usize)
        requires
            self.cfg.size >= 1,
        ensures
            r == col_of(index as int, self.cfg.size as int),
    {
        index % self.cfg.size
    }

    /// Calculate the index offset for the given number of rows
    pub fn rows(&self, n: usize) -> (r: usize)
        requires
            n * self.cfg.size <= usize::MAX,
        ensures
            r == rows_to_bytes(n as int, self.cfg.size as int),
    {
        n * self.cfg.size
    }

    /// Scroll by exactly enough rows to bring the selected row into view.
    pub fn adjust_scroll_view(&mut self)
        requires
            old(self).cfg.size >= 1,
            old(self).rows_per_page >= 1,
        ensures
            final(self).scroll_offset == reconciled(
                old(self).nav().row(old(self).selected as int),
                old(self).scroll_offset as int,
                old(self).rows_per_page as int,
            ),
            final(self).selected == old(self).selected,
            final(self).same_store(old(self)),
    {
        let r = self.selected / self.cfg.size;
        if r < self.scroll_offset {
            self.scroll_offset = r;
        } else if r - self.scroll_offset >= self.rows_per_page {
            self.scroll_offset = r - self.rows_per_page + 1;
        }
    }

    /// Select the element in the row above
    pub fn move_selection_up(&mut self)
        requires
            old(self).wf(),
        ensures
            final(self).wf(),
            final(self).nav() == old(self).nav().step(Key::Up),
            final(self).same_store(old(self)),
    {
        proof {
            lemma_row_col(self.selected as int, self.cfg.size as int);
            lemma_step_inv(self.nav(), Key::Up);
        }
        if self.selected / self.cfg.size >= 1 {
            proof {
                lemma_rows_back(self.selected as int, 1, self.cfg.size as int);
                assert(self.selected >= self.cfg.size) by (nonlinear_arith)
                    requires
                        self.selected == (self.selected / self.cfg.size) * self.cfg.size
                            + self.selected % self.cfg.size,
                        self.selected / self.cfg.size >= 1,
                        self.selected % self.cfg.size >= 0,
                        self.cfg.size >= 1,
                ;
            }
            self.selected = self.selected - self.cfg.size;
            self.adjust_scroll_view();
        }
    }

    /// Select the element in the row below
    pub fn move_selection_down(&mut self)
        requires
            old(self).wf(),
        ensures
            final(self).wf(),
            final(self).nav() == old(self).nav().step(Key::Down),
            final(self).same_store(old(self)),
    {
        proof {
            lemma_step_inv(self.nav(), Key::Down);
        }
        if self.selected / self.cfg.size < self.total_bytes / self.cfg.size {
            if self.total_bytes - self.selected >= self.cfg.size {
                self.selected = self.selected + self.cfg.size;
            } else {
                self.selected = self.total_bytes;
            }
            self.adjust_scroll_view();
        }
    }

    /// Select the previous element
    pub fn move_selection_left(&mut self)
        requires
            old(self).wf(),
        ensures
            final(self).wf(),
            final(self).nav() == old(self).nav().step(Key::Left),
            final(self).same_store(old(self)),
    {
        proof {
            lemma_step_inv(self.nav(), Key::Left);
        }
        if self.selected > 0 {
            self.selected = self.selected - 1;
            self.adjust_scroll_view();
        }
    }

    /// Select the next element
    pub fn move_selection_right(&mut self)
        requires
            old(self).wf(),
        ensures
            final(self).wf(),
            final(self).nav() == old(self).nav().step(Key::Right),
            final(self).same_store(old(self)),
    {
        proof {
            lemma_step_inv(self.nav(), Key::Right);
        }
        if self.selected < self.total_bytes {
            self.selected = self.selected + 1;
            self.adjust_scroll_view();
        }
    }

    /// Select the first element of the row, or of the whole document.
    pub fn move_selection_to_home(&mut self, document: bool)
        requires
            old(self).wf(),
        ensures
            final(self).wf(),
            final(self).nav() == old(self).nav().step(
                if document { Key::DocumentHome } else { Key::Home },
            ),
            final(self).same_store(old(self)),
    {
        proof {
            lemma_step_inv(self.nav(), if document { Key::DocumentHome } else { Key::Home });
            lemma_row_col(self.selected as int, self.cfg.size as int);
        }
        if document {
            self.selected = 0;
            self.scroll_offset = 0;
        } else {
            self.selected = self.selected - self.selected % self.cfg.size;
        }
    }

    /// Select the last element of the row, or one past the last byte of
    /// the document.
    pub fn move_selection_to_end(&mut self, document: bool)
        requires
            old(self).wf(),
        ensures
            final(self).wf(),
            final(self).nav() == old(self).nav().step(
                if document { Key::DocumentEnd } else { Key::End },
            ),
            final(self).same_store(old(self)),
    {
        proof {
            lemma_step_inv(self.nav(), if document { Key::DocumentEnd } else { Key::End });
            lemma_row_col(self.selected as int, self.cfg.size as int);
        }
        if document {
            self.selected = self.total_bytes;
            let last = self.total_bytes / self.cfg.size;
            if last >= self.rows_per_page - 1 {
                self.scroll_offset = last - (self.rows_per_page - 1);
            } else {
                self.scroll_offset = 0;
            }
        } else {
            let start = self.selected - self.selected % self.cfg.size;
            if self.total_bytes - start >= self.cfg.size - 1 {
                self.selected = start + (self.cfg.size - 1);
            } else {
                self.selected = self.total_bytes;
            }
        }
    }

    /// Move the selection and the view up by one page.
    pub fn scroll_up(&mut self)
        requires
            old(self).wf(),
        ensures
            final(self).wf(),
            final(self).nav() == old(self).nav().step(Key::PageUp),
            final(self).same_store(old(self)),
    {
        proof {
            lemma_step_inv(self.nav(), Key::PageUp);
        }
        let w = self.cfg.size;
        let k = self.rows_per_page;
        proof {
            lemma_page_fits(self.selected as int, k as int, w as int);
        }
        if self.selected / w >= k {
            self.selected = self.selected - k * w;
        } else {
            self.selected = 0;
        }
        if self.scroll_offset >= k {
            self.scroll_offset = self.scroll_offset - k;
        } else {
            self.scroll_offset = 0;
        }
    }

    /// Move the selection and the view down by one page.
    pub fn scroll_down(&mut self)
        requires
            old(self).wf(),
        ensures
            final(self).wf(),
            final(self).nav() == old(self).nav().step(Key::PageDown),
            final(self).same_store(old(self)),
    {
        proof {
            lemma_step_inv(self.nav(), Key::PageDown);
        }
        let w = self.cfg.size;
        let k = self.rows_per_page;
        proof {
            lemma_page_fits((self.total_bytes - self.selected) as int, k as int, w as int);
        }
        if (self.total_bytes - self.selected) / w >= k {
            self.selected = self.selected + k * w;
        } else {
            self.selected = self.total_bytes;
        }
        if usize::MAX - self.scroll_offset >= k {
            self.scroll_offset = self.scroll_offset + k;
        } else {
            self.scroll_offset = usize::MAX;
        }
        proof {
            lemma_row_col(self.selected as int, w as int);
        }
        self.adjust_scroll_view();
    }

    /// Re-derive the rows per page for a terminal that is now
    /// `terminal_height` lines tall, and bring the selection back into view.
    pub fn resize(&mut self, terminal_height: u16)
        requires
            old(self).wf(),
        ensures
            final(self).wf(),
            final(self).rows_per_page == rows_per_page_for(terminal_height as int),
            final(self).selected == old(self).selected,
            final(self).scroll_offset == reconciled(
                old(self).nav().row(old(self).selected as int),
                old(self).scroll_offset as int,
                final(self).rows_per_page as int,
            ),
            final(self).cfg == old(self).cfg,
            final(self).data@ == old(self).data@,
            final(self).total_bytes == old(self).total_bytes,
            final(self).exit == old(self).exit,
    {
        self.rows_per_page = rows_for_height(terminal_height);
        proof {
            lemma_row_col(self.selected as int, self.cfg.size as int);
        }
        self.adjust_scroll_view();
    }

    /// Carries out the command of one key press.
    pub fn handle_key_event(&mut self, key: Key)
        requires
            old(self).wf(),
        ensures
            final(self).wf(),
            final(self).nav() == old(self).nav().step(key),
            final(self).exit == (old(self).exit || key == Key::Quit),
            final(self).cfg == old(self).cfg,
            final(self).data@ == old(self).data@,
    {
        match key {
            Key::Up => self.move_selection_up(),
            Key::Down => self.move_selection_down(),
            Key::Left => self.move_selection_left(),
            Key::Right => self.move_selection_right(),
            Key::Home => self.move_selection_to_home(false),
            Key::End => self.move_selection_to_end(false),
            Key::DocumentHome => self.move_selection_to_home(true),
            Key::DocumentEnd => self.move_selection_to_end(true),
            Key::PageUp => self.scroll_up(),
            Key::PageDown => self.scroll_down(),
            Key::Quit => self.exit(),
        }
    }

    /// The rows to show, as the range `[start, end)` of row indices: the
    /// page that starts at the scroll offset, cut to the rows that exist.
    pub fn visible_rows(&self) -> (r: (usize, usize))
        ensures
            r.0 == (if self.scroll_offset <= self.data@.len() {
                self.scroll_offset as int
            } else {
                self.data@.len() as int
            }),
            r.1 == (if r.0 + self.rows_per_page <= self.data@.len() {
                r.0 + self.rows_per_page
            } else {
                self.data@.len() as int
            }),
    {
        let len = self.data.len();
        let start = if self.scroll_offset <= len { self.scroll_offset } else { len };
        let end = if len - start >= self.rows_per_page { start + self.rows_per_page } else { len };
        (start, end)
    }

    /// Exits the application
    pub fn exit(&mut self)
        ensures
            final(self).exit,
            final(self).selected == old(self).selected,
            final(self).scroll_offset == old(self).scroll_offset,
            final(self).cfg == old(self).cfg,
            final(self).data@ == old(self).data@,
            final(self).total_bytes == old(self).total_bytes,
            final(self).rows_per_page == old(self).rows_per_page,
    {
        self.exit = true;
    }
}

/// The rows per page for a terminal `height` lines tall.
fn rows_for_height(height: u16) -> (r: usize)
    ensures
        r == rows_per_page_for(height as int),
        r >= 1,
{
    if height > MIN_ROWS_PER_PAGE + RESERVED_LINES {
        (height - RESERVED_LINES) as usize
    } else {
        MIN_ROWS_PER_PAGE as usize
    }
}

/// `k` whole rows fit below `x` exactly when `x` spans at least `k` rows,
/// and then their bytes fit in a machine word.
proof fn lemma_page_fits(x: int, k: int, w: int)
    requires
        0 <= x <= usize::MAX,
        k >= 1,
        w >= 1,
    ensures
        (x / w >= k) == (x >= k * w),
        x / w >= k ==> k * w <= x,
{
    lemma_row_col(x, w);
    let q = x / w;
    let c = x % w;
    if q >= k {
        assert(k * w <= q * w) by (nonlinear_arith)
            requires
                q >= k,
                w >= 1,
        ;
    } else {
        assert(x < k * w) by (nonlinear_arith)
            requires
                x == q * w + c,
                c < w,
                q + 1 <= k,
                w >= 1,
        ;
    }
}

/// The sum of `bytes_read` over `rows`.
pub open spec fn sum_read(rows: Seq<Row>) -> int
    decreases rows.len(),
{
    if rows.len() == 0 {
        0
    } else {
        sum_read(rows.drop_last()) + rows.last().bytes_read
    }
}

/// A store that holds `bytes` has contiguous rows, each one row width after
/// the previous; every row but the last is full, the last holds between 1
/// and a row width of bytes, and `total_bytes` is the sum of `bytes_read`.
pub proof fn lemma_store_layout(app: &App, bytes: Seq<u8>, start: int)
    requires
        app.cfg.size >= 1,
        app.holds(bytes, start),
    ensures
        forall|i: int|
            0 <= i < app.data@.len() - 1 ==> {
                &&& (#[trigger] app.data@[i]).bytes_read == app.cfg.size
                &&& app.data@[i].offset + app.cfg.size == app.data@[i + 1].offset
            },
        app.data@.len() > 0 ==> 1 <= app.data@.last().bytes_read <= app.cfg.size,
        sum_read(app.data@) == app.total_bytes,
{
    let w = app.cfg.size as int;
    let n = bytes.len() as int;
    let q = app.data@.len() as int;
    let rows = app.data@;
    vstd::arithmetic::div_mod::lemma_fundamental_div_mod(n + w - 1, w);
    assert(q * w <= n + w - 1 && n + w - 1 < q * w + w) by (nonlinear_arith)
        requires
            n + w - 1 == w * q + (n + w - 1) % w,
            0 <= (n + w - 1) % w < w,
    ;
    assert((q - 1) * w == q * w - w) by (nonlinear_arith);
    assert forall|i: int| 0 <= i < q - 1 implies {
        &&& (#[trigger] rows[i]).bytes_read == w
        &&& rows[i].offset + w == rows[i + 1].offset
    } by {
        assert(0 <= i * w && (i + 1) * w <= (q - 1) * w && (i + 1) * w == i * w + w)
            by (nonlinear_arith)
            requires
                0 <= i,
                i + 1 <= q - 1,
                w >= 1,
        ;
        assert(rows[i + 1].offset == start + (i + 1) * w);
    }
    assert forall|k: int| 0 <= k <= q - 1 implies #[trigger] sum_read(rows.take(k)) == k * w by {
        lemma_sum_full_rows(rows, k, w);
    }
    if q > 0 {
        let i = q - 1;
        assert(0 <= i * w && i * w == q * w - w) by (nonlinear_arith)
            requires
                i == q - 1,
                q >= 1,
                w >= 1,
        ;
        assert(rows.take(q) =~= rows);
        assert(rows.take(q).drop_last() =~= rows.take(q - 1));
        assert(sum_read(rows.take(q - 1)) == (q - 1) * w);
        assert(rows[i].wf());
        assert(rows.last().bytes_read == n - i * w);
    } else {
        assert(q * w == 0) by (nonlinear_arith)
            requires
                q == 0,
        ;
    }
}

/// The first `k` rows, all full, hold `k` row widths of bytes.
proof fn lemma_sum_full_rows(rows: Seq<Row>, k: int, w: int)
    requires
        0 <= k <= rows.len(),
        forall|i: int| 0 <= i < k ==> (#[trigger] rows[i]).bytes_read == w,
    ensures
        sum_read(rows.take(k)) == k * w,
    decreases k,
{
    if k > 0 {
        lemma_sum_full_rows(rows, k - 1, w);
        assert(rows.take(k).drop_last() =~= rows.take(k - 1));
        assert(rows.take(k).last() == rows[k - 1]);
        assert(k * w == (k - 1) * w + w) by (nonlinear_arith);
    } else {
        assert(rows.take(k).len() == 0);
        assert(k * w == 0) by (nonlinear_arith)
            requires
                k == 0,
        ;
    }
}

} // verus!
