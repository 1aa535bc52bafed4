//! Grids of samples: a number of rows, each with the same number of columns,
//! and the sample that stands for missing data.

use vstd::prelude::*;

verus! {

/// What a grid is, as mathematics: its shape, its missing-data sample and its
/// rows, top to bottom, each a sequence of samples, left to right.
pub struct GridView {
    pub rows: nat,
    pub columns: nat,
    pub nodata: u64,
    pub cells: Seq<Seq<u64>>,
}

impl GridView {
    /// There are `rows` rows and each of them has `columns` samples.
    pub open spec fn wf(self) -> bool {
        &&& self.cells.len() == self.rows
        &&& forall|r: int| 0 <= r < self.rows ==> (#[trigger] self.cells[r]).len() == self.columns
    }

    /// Both grids have the same number of rows and of columns.
    pub open spec fn same_shape(self, other: GridView) -> bool {
        self.rows == other.rows && self.columns == other.columns
    }

    /// The sample at the given place.
    pub open spec fn cell(self, row: int, column: int) -> u64 {
        self.cells[row][column]
    }

    /// The grid of the given shape in which every sample is missing.
    pub open spec fn blank(rows: nat, columns: nat, nodata: u64) -> GridView {
        GridView {
            rows,
            columns,
            nodata,
            cells: Seq::new(rows, |r: int| Seq::new(columns, |c: int| nodata)),
        }
    }

    /// This grid with one row replaced.
    pub open spec fn with_row(self, row: int, values: Seq<u64>) -> GridView {
        GridView { cells: self.cells.update(row, values), ..self }
    }
}

/// A grid held in memory, row by row.
#[derive(Debug, PartialEq, Eq)]
pub struct Grid {
    rows: usize,
    columns: usize,
    nodata: u64,
    cells: Vec<Vec<u64>>,
}

impl View for Grid {
    type V = GridView;

    closed spec fn view(&self) -> GridView {
        GridView {
            rows: self.rows as nat,
            columns: self.columns as nat,
            nodata: self.nodata,
            cells: Seq::new(self.cells@.len(), |r: int| self.cells@[r]@),
        }
    }
}

impl Clone for Grid {
    /// A second grid with the same shape, missing-data sample and samples.
    fn clone(&self) -> (copy: Grid)
        ensures
            copy@ == self@,
    {
        let mut cells: Vec<Vec<u64>> = Vec::new();
        let mut r: usize = 0;
        while r < self.cells.len()
            invariant
                r <= self.cells@.len(),
                cells@.len() == r,
                forall|k: int| 0 <= k < r ==> (#[trigger] cells@[k])@ == self.cells@[k]@,
            decreases self.cells@.len() - r,
        {
            let row = self.cells[r].clone();
            assert(row@ =~= self.cells@[r as int]@);
            cells.push(row);
            r = r + 1;
        }
        let copy = Grid { rows: self.rows, columns: self.columns, nodata: self.nodata, cells };
        assert(copy@.cells =~= self@.cells);
        copy
    }
}

/// A row of `columns` samples, each of them `fill`.
pub fn filled_row(columns: usize, fill: u64) -> (row: Vec<u64>)
    ensures
        row@ == Seq::new(columns as nat, |c: int| fill),
{
    let mut row: Vec<u64> = Vec::new();
    let mut c: usize = 0;
    while c < columns
        invariant
            c <= columns,
            row@ == Seq::new(c as nat, |k: int| fill),
        decreases columns - c,
    {
        row.push(fill);
        c = c + 1;
        assert(row@ =~= Seq::new(c as nat, |k: int| fill));
    }
    row
}

impl Grid {
    /// The stored shape agrees with the stored rows. Every grid that this
    /// module hands out is well formed.
    pub open spec fn wf(&self) -> bool {
        self@.wf()
    }

    /// A grid of the given shape in which every sample is `nodata`.
    pub fn new(rows: usize, columns: usize, nodata: u64) -> (grid: Grid)
        ensures
            grid.wf(),
            grid@ == GridView::blank(rows as nat, columns as nat, nodata),
    {
        let mut cells: Vec<Vec<u64>> = Vec::new();
        let mut r: usize = 0;
        while r < rows
            invariant
                r <= rows,
                cells@.len() == r,
                forall|k: int| 0 <= k < r ==> (#[trigger] cells@[k])@ == Seq::new(
                    columns as nat,
                    |c: int| nodata,
                ),
            decreases rows - r,
        {
            cells.push(filled_row(columns, nodata));
            r = r + 1;
        }
        let grid = Grid { rows, columns, nodata, cells };
        assert(grid@.cells =~= GridView::blank(rows as nat, columns as nat, nodata).cells);
        grid
    }

    /// A blank grid with the shape and the missing-data sample of `template`.
    pub fn like(template: &Grid) -> (grid: Grid)
        ensures
            grid.wf(),
            grid@ == GridView::blank(template@.rows, template@.columns, template@.nodata),
    {
        Grid::new(template.rows, template.columns, template.nodata)
    }

    /// Takes the rows as they are, provided each of them has `columns`
    /// samples.
    pub fn from_rows(cells: Vec<Vec<u64>>, columns: usize, nodata: u64) -> (grid: Option<Grid>)
        ensures
            grid is Some <==> forall|r: int|
                0 <= r < cells@.len() ==> (#[trigger] cells@[r])@.len() == columns,
            grid matches Some(g) ==> g.wf() && g@ == (GridView {
                rows: cells@.len(),
                columns: columns as nat,
                nodata,
                cells: Seq::new(cells@.len(), |r: int| cells@[r]@),
            }),
    {
        let rows = cells.len();
        let mut r: usize = 0;
        while r < rows
            invariant
                rows == cells@.len(),
                r <= rows,
                forall|k: int| 0 <= k < r ==> (#[trigger] cells@[k])@.len() == columns,
            decreases rows - r,
        {
            if cells[r].len() != columns {
                return None;
            }
            r = r + 1;
        }
        Some(Grid { rows, columns, nodata, cells })
    }

    /// The number of rows.
    pub fn rows(&self) -> (n: usize)
        ensures
            n == self@.rows,
    {
        self.rows
    }

    /// The number of columns.
    pub fn columns(&self) -> (n: usize)
        ensures
            n == self@.columns,
    {
        self.columns
    }

    /// The sample that stands for missing data.
    pub fn nodata(&self) -> (bits: u64)
        ensures
            bits == self@.nodata,
    {
        self.nodata
    }

    /// The sample at the given place, if the grid has that place.
    pub fn get(&self, row: usize, column: usize) -> (sample: Option<u64>)
        requires
            self.wf(),
        ensures
            sample == if row < self@.rows && column < self@.columns {
                Some(self@.cell(row as int, column as int))
            } else {
                None
            },
    {
        if row < self.rows && column < self.columns {
            assert(self@.cells[row as int].len() == self@.columns);
            Some(self.cells[row][column])
        } else {
            None
        }
    }

    /// The given row, if the grid has it.
    pub fn row(&self, row: usize) -> (values: Option<&Vec<u64>>)
        requires
            self.wf(),
        ensures
            values is Some <==> row < self@.rows,
            values matches Some(v) ==> v@ == self@.cells[row as int],
    {
        if row < self.rows {
            Some(&self.cells[row])
        } else {
            None
        }
    }

    /// Tells whether the two grids have the same number of rows and of
    /// columns.
    pub fn same_shape(&self, other: &Grid) -> (same: bool)
        ensures
            same == self@.same_shape(other@),
    {
        self.rows == other.rows && self.columns == other.columns
    }

    /// Replaces one row. Nothing is written, and `false` comes back, unless
    /// the grid has that row and `values` has one sample for each column.
    pub fn set_row(&mut self, row: usize, values: Vec<u64>) -> (written: bool)
        requires
            old(self).wf(),
        ensures
            final(self).wf(),
            written == (row < old(self)@.rows && values@.len() == old(self)@.columns),
            written ==> final(self)@ == old(self)@.with_row(row as int, values@),
            !written ==> final(self)@ == old(self)@,
    {
        if row < self.rows && values.len() == self.columns {
            let ghost before = self@;
            self.cells.set(row, values);
            assert(self@.cells =~= before.cells.update(row as int, values@));
            true
        } else {
            false
        }
    }
}

} // verus!
