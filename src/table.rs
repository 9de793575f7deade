use vstd::prelude::*;
use vstd::string::*;

verus! {

pub const RED: &'static str = "\u{1b}[1;31m";

pub const GREEN: &'static str = "\u{1b}[1;32m";

pub const YELLOW: &'static str = "\u{1b}[1;33m";

pub const BOLD: &'static str = "\u{1b}[1;37m";

pub const MUTED: &'static str = "\u{1b}[2;37m";

pub const RESET: &'static str = "\u{1b}[0m";

/// The room that a cell's colour codes take beyond its text.
pub const CODES: usize = 11;

/// A table of coloured cells, rendered with aligned columns.
pub struct Table {
    i: usize,
    j: usize,
    tab: Vec<Vec<String>>,
    col: Vec<usize>,
    mult: usize,
}

/// A coloured cell: the colour, the text, the reset code.
pub open spec fn cell(txt: Seq<char>, color: Seq<char>) -> Seq<char> {
    color + txt + RESET@
}

/// Column `j`'s width after a cell of `len` characters is put there.
pub open spec fn widen(col: Seq<usize>, j: int, len: usize) -> Seq<usize> {
    if j < col.len() {
        if col[j] < len {
            col.update(j, len)
        } else {
            col
        }
    } else {
        col.push(len)
    }
}

/// `n` spaces.
pub open spec fn spaces(n: nat) -> Seq<char>
    decreases n,
{
    if n == 0 {
        Seq::empty()
    } else {
        spaces((n - 1) as nat).push(' ')
    }
}

/// `s`, padded with spaces on the right to `w` characters.
pub open spec fn pad(s: Seq<char>, w: int) -> Seq<char> {
    if s.len() < w {
        s + spaces((w - s.len()) as nat)
    } else {
        s
    }
}

/// The padded width of a column of text width `c` whose cells carry
/// `mult` pairs of colour codes.
pub open spec fn width(c: usize, mult: usize) -> int {
    if c + CODES * mult <= usize::MAX {
        c + CODES * mult
    } else {
        usize::MAX as int
    }
}

/// The cells of one rendered line from column `j` on.
pub open spec fn render_cells(row: Seq<Seq<char>>, col: Seq<usize>, j: int) -> Seq<char>
    decreases row.len() - j,
{
    if j >= row.len() || j < 1 {
        Seq::empty()
    } else {
        " "@ + MUTED@ + "|"@ + RESET@ + " "@ + pad(row[j], width(col[j], 1)) + render_cells(row, col, j + 1)
    }
}

/// One rendered line.
pub open spec fn render_row(row: Seq<Seq<char>>, col: Seq<usize>, mult: usize) -> Seq<char> {
    "  "@ + pad(row[0], width(col[0], mult)) + render_cells(row, col, 1) + "\n"@
}

/// The rendered rows from `n` on.
pub open spec fn render_rows(tab: Seq<Seq<Seq<char>>>, col: Seq<usize>, mult: usize, n: int) -> Seq<char>
    decreases tab.len() - n,
{
    if n >= tab.len() || n < 0 {
        Seq::empty()
    } else {
        render_row(tab[n], col, mult) + render_rows(tab, col, mult, n + 1)
    }
}

impl Table {
    /// The cells, row by row.
    pub closed spec fn rows(&self) -> Seq<Seq<Seq<char>>> {
        self.tab@.map_values(|r: Vec<String>| r@.map_values(|c: String| c@))
    }

    /// The width of each column: the longest text put there.
    pub closed spec fn widths(&self) -> Seq<usize> {
        self.col@
    }

    /// How many pairs of colour codes the first column's cells carry.
    pub closed spec fn multiplier(&self) -> usize {
        self.mult
    }

    /// The rendered text.
    pub closed spec fn text(&self) -> Seq<char> {
        "\n"@ + render_rows(self.rows(), self.col@, self.mult, 0)
    }

    pub closed spec fn wf(&self) -> bool {
        &&& self.i == self.tab.len()
        &&& self.mult == 1 || self.mult == 3
        &&& self.i > 0 ==> self.j == self.tab@[self.i - 1].len()
        &&& self.j <= self.col.len()
        &&& forall|r: int| 0 <= r < self.tab.len() ==> 1 <= #[trigger] self.tab@[r].len() <= self.col.len()
    }

    /// An empty table.
    pub fn new() -> (r: Table)
        ensures
            r.wf(),
            r.rows().len() == 0,
            r.widths().len() == 0,
            r.multiplier() == 1,
    {
        Table { i: 0, j: 0, tab: Vec::new(), col: Vec::new(), mult: 1 }
    }

    fn col(&mut self, len: usize)
        requires
            old(self).j <= old(self).col.len(),
        ensures
            final(self).col@ == widen(old(self).col@, old(self).j as int, len),
            final(self).j == old(self).j + 1,
            final(self).j <= final(self).col.len(),
            final(self).i == old(self).i,
            final(self).tab == old(self).tab,
            final(self).mult == old(self).mult,
    {
        if self.col.len() <= self.j {
            self.col.push(0);
        }
        if self.col[self.j] < len {
            self.col.set(self.j, len);
        }
        assert(self.j < self.col.len());
        self.j = self.j + 1;
        assert(self.col@ =~= widen(old(self).col@, old(self).j as int, len));
    }

    fn txt(&mut self, txt: String)
        requires
            old(self).i > 0,
            old(self).i == old(self).tab.len(),
        ensures
            final(self).tab@.len() == old(self).tab@.len(),
            final(self).tab@[old(self).i - 1]@ == old(self).tab@[old(self).i - 1]@.push(txt),
            forall|r: int|
                0 <= r < old(self).tab@.len() && r != old(self).i - 1 ==> final(self).tab@[r]
                    == old(self).tab@[r],
            final(self).i == old(self).i,
            final(self).j == old(self).j,
            final(self).col == old(self).col,
            final(self).mult == old(self).mult,
    {
        let mut row = self.tab.pop().unwrap();
        row.push(txt);
        self.tab.push(row);
    }

    /// Puts a cell with `txt` in `color` at the end of the last row.
    pub fn field(&mut self, txt: &str, color: &str)
        requires
            old(self).wf(),
            old(self).rows().len() > 0,
        ensures
            final(self).wf(),
            final(self).rows() == old(self).rows().update(
                old(self).rows().len() - 1,
                old(self).rows().last().push(cell(txt@, color@)),
            ),
            final(self).widths() == widen(old(self).widths(), old(self).rows().last().len() as int, txt@.len() as usize),
            final(self).multiplier() == old(self).multiplier(),
    {
        let mut c = String::from_str(color);
        c.append(txt);
        c.append(RESET);
        self.txt(c);
        let ghost k = self.i - 1;
        self.col(txt.unicode_len());
        assert(self.rows()[k] =~= old(self).rows()[k].push(cell(txt@, color@)));
        assert(self.rows() =~= old(self).rows().update(
            old(self).rows().len() - 1,
            old(self).rows().last().push(cell(txt@, color@)),
        ));
    }

    fn row(&mut self)
        requires
            old(self).wf(),
        ensures
            final(self).tab@.len() == old(self).tab@.len() + 1,
            final(self).tab@.last()@.len() == 0,
            forall|r: int| 0 <= r < old(self).tab@.len() ==> final(self).tab@[r] == old(self).tab@[r],
            final(self).i == final(self).tab.len(),
            final(self).j == 0,
            final(self).col == old(self).col,
            final(self).mult == old(self).mult,
    {
        self.tab.push(Vec::new());
        self.i = self.tab.len();
        self.j = 0;
    }

    /// Starts a row with `txt` in bold.
    pub fn first(&mut self, txt: &str)
        requires
            old(self).wf(),
        ensures
            final(self).wf(),
            final(self).rows() == old(self).rows().push(seq![cell(txt@, BOLD@)]),
            final(self).widths() == widen(old(self).widths(), 0, txt@.len() as usize),
            final(self).multiplier() == old(self).multiplier(),
    {
        self.row();
        let mut c = String::from_str(BOLD);
        c.append(txt);
        c.append(RESET);
        let ghost k = self.i - 1;
        self.txt(c);
        self.col(txt.unicode_len());
        assert(self.rows()[k] =~= seq![cell(txt@, BOLD@)]);
        assert(self.rows() =~= old(self).rows().push(seq![cell(txt@, BOLD@)]));
    }

    /// Starts a row with a path: `pre` and `post` muted around `txt` in
    /// bold. The first column's cells then carry three pairs of codes.
    pub fn ppfirst(&mut self, pre: &str, txt: &str, post: &str)
        requires
            old(self).wf(),
            pre@.len() + txt@.len() + post@.len() <= usize::MAX,
        ensures
            final(self).wf(),
            final(self).rows() == old(self).rows().push(
                seq![cell(pre@, MUTED@) + cell(txt@, BOLD@) + cell(post@, MUTED@)],
            ),
            final(self).widths() == widen(
                old(self).widths(),
                0,
                (pre@.len() + txt@.len() + post@.len()) as usize,
            ),
            final(self).multiplier() == 3,
    {
        self.mult = 3;
        self.row();
        let mut c = String::from_str(MUTED);
        c.append(pre);
        c.append(RESET);
        c.append(BOLD);
        c.append(txt);
        c.append(RESET);
        c.append(MUTED);
        c.append(post);
        c.append(RESET);
        let ghost k = self.i - 1;
        self.txt(c);
        self.col(pre.unicode_len() + txt.unicode_len() + post.unicode_len());
        assert(c@ =~= cell(pre@, MUTED@) + cell(txt@, BOLD@) + cell(post@, MUTED@));
        assert(self.rows()[k] =~= seq![c@]);
        assert(self.rows() =~= old(self).rows().push(
            seq![cell(pre@, MUTED@) + cell(txt@, BOLD@) + cell(post@, MUTED@)],
        ));
    }

    /// Puts `num` empty bold cells at the end of the last row.
    pub fn empty(&mut self, num: u8)
        requires
            old(self).wf(),
            old(self).rows().len() > 0,
        ensures
            final(self).wf(),
            final(self).rows().len() == old(self).rows().len(),
            final(self).rows().last().len() == old(self).rows().last().len() + num,
            forall|k: int|
                old(self).rows().last().len() <= k < final(self).rows().last().len()
                    ==> #[trigger] final(self).rows().last()[k] == cell(""@, BOLD@),
            forall|k: int|
                0 <= k < old(self).rows().last().len() ==> #[trigger] final(self).rows().last()[k]
                    == old(self).rows().last()[k],
            forall|r: int| 0 <= r < old(self).rows().len() - 1 ==> #[trigger] final(self).rows()[r] == old(self).rows()[r],
            final(self).multiplier() == old(self).multiplier(),
    {
        let mut n: u8 = 0;
        while n < num
            invariant
                self.wf(),
                n <= num,
                old(self).rows().len() > 0,
                self.rows().len() == old(self).rows().len(),
                self.rows().last().len() == old(self).rows().last().len() + n,
                forall|k: int|
                    old(self).rows().last().len() <= k < self.rows().last().len()
                        ==> #[trigger] self.rows().last()[k] == cell(""@, BOLD@),
                forall|k: int|
                    0 <= k < old(self).rows().last().len() ==> #[trigger] self.rows().last()[k]
                        == old(self).rows().last()[k],
                forall|r: int| 0 <= r < old(self).rows().len() - 1 ==> #[trigger] self.rows()[r] == old(self).rows()[r],
                self.multiplier() == old(self).multiplier(),
            decreases num - n,
        {
            self.field("", BOLD);
            n = n + 1;
        }
    }
}

/// The padded width of a column of text width `c` whose cells carry
/// `mult` pairs of colour codes.
fn width_of(c: usize, mult: usize) -> (r: usize)
    requires
        mult <= 3,
    ensures
        r == width(c, mult),
{
    if c <= usize::MAX - CODES * mult {
        c + CODES * mult
    } else {
        usize::MAX
    }
}

proof fn lemma_spaces_push(n: nat)
    ensures
        spaces(n).push(' ') == spaces(n + 1),
{
}

/// Appends `s`, padded with spaces on the right to `w` characters.
fn push_padded(out: &mut String, s: &String, w: usize)
    ensures
        final(out)@ == old(out)@ + pad(s@, w as int),
{
    out.append(s.as_str());
    let n = s.as_str().unicode_len();
    if n < w {
        let mut k: usize = n;
        while k < w
            invariant
                n <= k <= w,
                out@ == old(out)@ + s@ + spaces((k - n) as nat),
            decreases w - k,
        {
            proof {
                lemma_spaces_push((k - n) as nat);
                reveal_strlit(" ");
                assert(" "@ =~= seq![' ']);
            }
            out.append(" ");
            k = k + 1;
            assert(out@ =~= old(out)@ + s@ + spaces((k - n) as nat));
        }
        assert(out@ =~= old(out)@ + pad(s@, w as int));
    } else {
        assert(out@ =~= old(out)@ + pad(s@, w as int));
    }
}

impl Table {
    /// The table as text: a blank line, then each row indented by two
    /// spaces, its cells padded to their column's width and parted by a
    /// muted bar.
    pub fn render(&self) -> (r: String)
        requires
            self.wf(),
        ensures
            r@ == self.text(),
    {
        let ghost rows = self.rows();
        let ghost col = self.col@;
        let mut out = String::from_str("\n");
        let mut r: usize = 0;
        while r < self.tab.len()
            invariant
                self.wf(),
                rows == self.rows(),
                col == self.col@,
                r <= self.tab.len(),
                out@ + render_rows(rows, col, self.mult, r as int) == "\n"@ + render_rows(rows, col, self.mult, 0),
            decreases self.tab.len() - r,
        {
            let row = &self.tab[r];
            assert(1 <= self.tab@[r as int].len() <= self.col.len());
            let ghost line_start = out@;
            out.append("  ");
            push_padded(&mut out, &row[0], width_of(self.col[0], self.mult));
            let mut j: usize = 1;
            while j < row.len()
                invariant
                    self.wf(),
                    rows == self.rows(),
                    col == self.col@,
                    r < self.tab.len(),
                    *row == self.tab@[r as int],
                    1 <= j <= row.len(),
                    row.len() <= col.len(),
                    out@ + render_cells(rows[r as int], col, j as int) == line_start + "  "@ + pad(rows[r as int][0], width(col[0], self.mult)) + render_cells(rows[r as int], col, 1),
                decreases row.len() - j,
            {
                let ghost before = out@;
                out.append(" ");
                out.append(MUTED);
                out.append("|");
                out.append(RESET);
                out.append(" ");
                push_padded(&mut out, &row[j], width_of(self.col[j], 1));
                assert(rows[r as int][j as int] == row@[j as int]@);
                assert(out@ =~= before + (" "@ + MUTED@ + "|"@ + RESET@ + " "@ + pad(rows[r as int][j as int], width(col[j as int], 1))));
                j = j + 1;
                assert(out@ + render_cells(rows[r as int], col, j as int) =~= before + render_cells(rows[r as int], col, (j - 1) as int));
            }
            out.append("\n");
            assert(out@ =~= line_start + render_row(rows[r as int], col, self.mult));
            r = r + 1;
            assert(out@ + render_rows(rows, col, self.mult, r as int) =~= line_start + render_rows(rows, col, self.mult, (r - 1) as int));
        }
        assert(out@ =~= self.text());
        out
    }
}

/// A one-row table that reports an error about `first`.
pub fn table_err(first: &str, txt: &str) -> (r: Table)
    ensures
        r.wf(),
        r.rows() == seq![seq![cell(first@, BOLD@), cell(txt@, RED@)]],
        r.multiplier() == 1,
{
    let mut table = Table::new();
    table.first(first);
    let ghost t1 = table.rows();
    assert(t1 =~= seq![seq![cell(first@, BOLD@)]]);
    table.field(txt, RED);
    assert(table.rows()[0] =~= seq![cell(first@, BOLD@), cell(txt@, RED@)]);
    assert(table.rows() =~= seq![seq![cell(first@, BOLD@), cell(txt@, RED@)]]);
    table
}

} // verus!
