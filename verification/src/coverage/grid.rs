//! The search area as a grid of tiles: which tiles have been visited, with
//! what confidence, and how much of the area that makes.

use vstd::prelude::*;

verus! {

/// Full confidence: confidence is held in parts per million.
pub const CONFIDENCE_FULL: u32 = 1_000_000;

/// What a cell is.
pub struct CellModel {
    pub row: int,
    pub col: int,
    pub visited: bool,
    /// In parts per million.
    pub confidence: int,
}

impl CellModel {
    /// A cell that nobody has visited.
    pub open spec fn fresh(row: int, col: int) -> CellModel {
        CellModel { row, col, visited: false, confidence: 0 }
    }

    /// The invariant of a cell: confidence lies between nothing and full,
    /// and a cell with full confidence is visited.
    pub open spec fn wf(self) -> bool {
        &&& 0 <= self.confidence <= CONFIDENCE_FULL
        &&& (self.confidence == CONFIDENCE_FULL ==> self.visited)
    }

    /// The cell after a visit.
    pub open spec fn marked(self) -> CellModel {
        CellModel { visited: true, confidence: CONFIDENCE_FULL as int, ..self }
    }

    /// The cell after its confidence was set to `value`: the value is
    /// clamped, full confidence marks the cell visited, and a visited cell
    /// stays visited.
    pub open spec fn with_confidence(self, value: int) -> CellModel {
        CellModel {
            confidence: clamp_confidence(value),
            visited: self.visited || clamp_confidence(value) == CONFIDENCE_FULL,
            ..self
        }
    }
}

/// `value` brought into the range of a confidence.
pub open spec fn clamp_confidence(value: int) -> int {
    if value < 0 {
        0
    } else if value > CONFIDENCE_FULL {
        CONFIDENCE_FULL as int
    } else {
        value
    }
}

/// One tile of the grid.
#[derive(Debug, Clone, Copy)]
pub struct Cell {
    row: u32,
    col: u32,
    visited: bool,
    confidence: u32,
}

impl View for Cell {
    type V = CellModel;

    closed spec fn view(&self) -> CellModel {
        CellModel {
            row: self.row as int,
            col: self.col as int,
            visited: self.visited,
            confidence: self.confidence as int,
        }
    }
}

impl Cell {
    #[verifier::type_invariant]
    spec fn inv(self) -> bool {
        self@.wf()
    }

    pub fn new_cell(row: u32, col: u32) -> (cell: Self)
        ensures
            cell@ == CellModel::fresh(row as int, col as int),
    {
        Self { row, col, visited: false, confidence: 0 }
    }

    pub fn row(&self) -> (r: u32)
        ensures
            r == self@.row,
    {
        self.row
    }

    pub fn col(&self) -> (r: u32)
        ensures
            r == self@.col,
    {
        self.col
    }

    pub fn visited(&self) -> (r: bool)
        ensures
            r == self@.visited,
    {
        self.visited
    }

    /// The confidence, in parts per million.
    pub fn confidence(&self) -> (r: u32)
        ensures
            r == self@.confidence,
            self@.wf(),
    {
        proof {
            use_type_invariant(self);
        }
        self.confidence
    }

    /// Marks the cell visited, with full confidence.
    pub fn mark_visited(&mut self)
        ensures
            final(self)@ == old(self)@.marked(),
    {
        *self = Self { row: self.row, col: self.col, visited: true, confidence: CONFIDENCE_FULL };
    }

    /// Sets the confidence to `value`, in parts per million, clamped to the
    /// range from nothing to full. Full confidence marks the cell visited;
    /// nothing here makes a visited cell unvisited.
    pub fn update_confidence(&mut self, value: i64)
        ensures
            final(self)@ == old(self)@.with_confidence(value as int),
            final(self)@.wf(),
            old(self)@.visited ==> final(self)@.visited,
    {
        let confidence: u32 = if value < 0 {
            0
        } else if value > CONFIDENCE_FULL as i64 {
            CONFIDENCE_FULL
        } else {
            value as u32
        };
        let visited: bool = self.visited || confidence == CONFIDENCE_FULL;
        *self = Self { row: self.row, col: self.col, visited, confidence };
    }
}

/// `cells` with the cell at (`row`, `col`) replaced; unchanged where the
/// grid has no such cell.
pub open spec fn with_cell(cells: Seq<Seq<CellModel>>, row: int, col: int, cell: CellModel) -> Seq<
    Seq<CellModel>,
> {
    if 0 <= row < cells.len() && 0 <= col < cells[row].len() {
        cells.update(row, cells[row].update(col, cell))
    } else {
        cells
    }
}

/// The grid after a visit to (`row`, `col`).
pub open spec fn visit_model(cells: Seq<Seq<CellModel>>, row: int, col: int) -> Seq<
    Seq<CellModel>,
> {
    if 0 <= row < cells.len() && 0 <= col < cells[row].len() {
        with_cell(cells, row, col, cells[row][col].marked())
    } else {
        cells
    }
}

/// The grid after the confidence of (`row`, `col`) was set to `value`.
pub open spec fn confidence_model(
    cells: Seq<Seq<CellModel>>,
    row: int,
    col: int,
    value: int,
) -> Seq<Seq<CellModel>> {
    if 0 <= row < cells.len() && 0 <= col < cells[row].len() {
        with_cell(cells, row, col, cells[row][col].with_confidence(value))
    } else {
        cells
    }
}

/// One if the cell is visited, else nothing.
pub open spec fn visited_one(cell: CellModel) -> nat {
    if cell.visited {
        1
    } else {
        0
    }
}

/// The number of visited cells in a row.
pub open spec fn visited_in_row(row: Seq<CellModel>) -> nat
    decreases row.len(),
{
    if row.len() == 0 {
        0
    } else {
        visited_in_row(row.drop_last()) + visited_one(row.last())
    }
}

/// The number of visited cells in a grid.
pub open spec fn visited_cells(cells: Seq<Seq<CellModel>>) -> nat
    decreases cells.len(),
{
    if cells.len() == 0 {
        0
    } else {
        visited_cells(cells.drop_last()) + visited_in_row(cells.last())
    }
}

/// `visited` of `total` in parts per million, rounded down; nothing of
/// nothing.
pub open spec fn portion_ppm(visited: int, total: int) -> int {
    if total <= 0 {
        0
    } else {
        (visited * 1_000_000) / total
    }
}

/// A row holds no more visited cells than cells.
pub proof fn lemma_row_count_bound(row: Seq<CellModel>)
    ensures
        visited_in_row(row) <= row.len(),
    decreases row.len(),
{
    if row.len() > 0 {
        lemma_row_count_bound(row.drop_last());
    }
}

/// The covered portion is never more than the whole: a grid of `cols`
/// columns holds no more visited cells than cells.
pub proof fn lemma_grid_count_bound(cells: Seq<Seq<CellModel>>, cols: int)
    requires
        forall|r: int| 0 <= r < cells.len() ==> (#[trigger] cells[r]).len() == cols,
    ensures
        visited_cells(cells) <= cells.len() * cols,
        0 <= portion_ppm(visited_cells(cells) as int, cells.len() * cols) <= 1_000_000,
    decreases cells.len(),
{
    if cells.len() > 0 {
        lemma_grid_count_bound(cells.drop_last(), cols);
        lemma_row_count_bound(cells.last());
        assert((cells.len() - 1) * cols + cols == cells.len() * cols) by (nonlinear_arith);
    }
    let visited = visited_cells(cells) as int;
    let total = cells.len() * cols;
    if total > 0 {
        assert(0 <= (visited * 1_000_000) / total <= 1_000_000) by (nonlinear_arith)
            requires
                0 <= visited <= total,
                total > 0,
        ;
    }
}

/// Replacing one cell of a row changes the count by what the cell changes.
pub proof fn lemma_row_update(row: Seq<CellModel>, col: int, cell: CellModel)
    requires
        0 <= col < row.len(),
    ensures
        visited_in_row(row.update(col, cell)) + visited_one(row[col]) == visited_in_row(row)
            + visited_one(cell),
    decreases row.len(),
{
    let after = row.update(col, cell);
    if col == row.len() - 1 {
        assert(after.drop_last() =~= row.drop_last());
    } else {
        assert(after.drop_last() =~= row.drop_last().update(col, cell));
        lemma_row_update(row.drop_last(), col, cell);
    }
}

/// Replacing one row of a grid changes the count by what the row changes.
pub proof fn lemma_grid_update(cells: Seq<Seq<CellModel>>, row: int, with: Seq<CellModel>)
    requires
        0 <= row < cells.len(),
    ensures
        visited_cells(cells.update(row, with)) + visited_in_row(cells[row]) == visited_cells(cells)
            + visited_in_row(with),
    decreases cells.len(),
{
    let after = cells.update(row, with);
    if row == cells.len() - 1 {
        assert(after.drop_last() =~= cells.drop_last());
    } else {
        assert(after.drop_last() =~= cells.drop_last().update(row, with));
        lemma_grid_update(cells.drop_last(), row, with);
    }
}

/// Replacing a cell by one that is visited if the old one was never lowers
/// the count of visited cells.
pub proof fn lemma_with_cell_count(cells: Seq<Seq<CellModel>>, row: int, col: int, cell: CellModel)
    requires
        0 <= row < cells.len(),
        0 <= col < cells[row].len(),
        cells[row][col].visited ==> cell.visited,
    ensures
        visited_cells(cells) <= visited_cells(with_cell(cells, row, col, cell)),
{
    lemma_row_update(cells[row], col, cell);
    lemma_grid_update(cells, row, cells[row].update(col, cell));
}

/// The whole rectangular search area. Its size is fixed at creation.
pub struct Grid {
    rows: u32,
    cols: u32,
    cells: Vec<Vec<Cell>>,
}

impl View for Grid {
    type V = Seq<Seq<CellModel>>;

    closed spec fn view(&self) -> Seq<Seq<CellModel>> {
        Seq::new(
            self.cells@.len(),
            |r: int| Seq::new(self.cells@[r]@.len(), |c: int| self.cells@[r]@[c]@),
        )
    }
}

impl Grid {
    /// The number of rows that the grid was made with.
    pub closed spec fn spec_rows(&self) -> int {
        self.rows as int
    }

    /// The number of columns that the grid was made with.
    pub closed spec fn spec_cols(&self) -> int {
        self.cols as int
    }

    /// The invariant of a grid: the cells form a rectangle of `spec_rows()`
    /// by `spec_cols()`.
    pub open spec fn wf(&self) -> bool {
        &&& self@.len() == self.spec_rows()
        &&& forall|r: int| 0 <= r < self@.len() ==> (#[trigger] self@[r]).len() == self.spec_cols()
    }

    /// Whether the grid has a cell at (`row`, `col`).
    pub open spec fn in_range(&self, row: int, col: int) -> bool {
        0 <= row < self.spec_rows() && 0 <= col < self.spec_cols()
    }

    /// The view has the shape of the cells.
    proof fn lemma_shape(&self)
        ensures
            self@.len() == self.cells@.len(),
            forall|r: int|
                0 <= r < self.cells@.len() ==> (#[trigger] self@[r]).len() == self.cells@[r]@.len(),
            forall|r: int, c: int|
                0 <= r < self.cells@.len() && 0 <= c < self.cells@[r]@.len() ==> (
                #[trigger] self@[r][c]) == self.cells@[r]@[c]@,
    {
    }

    /// The grid `after` is this grid but for the cell at (`row`, `col`),
    /// which is `cell`.
    spec fn differs_at(&self, after: Grid, row: int, col: int, cell: Cell) -> bool {
        &&& after.rows == self.rows
        &&& after.cols == self.cols
        &&& after.cells@.len() == self.cells@.len()
        &&& forall|r: int|
            0 <= r < self.cells@.len() && r != row ==> (#[trigger] after.cells@[r])
                == self.cells@[r]
        &&& after.cells@[row]@ == self.cells@[row]@.update(col, cell)
    }

    proof fn lemma_differs_at(&self, after: Grid, row: int, col: int, cell: Cell)
        requires
            self.wf(),
            0 <= row < self.cells@.len(),
            0 <= col < self.cells@[row]@.len(),
            self.differs_at(after, row, col, cell),
        ensures
            after.wf(),
            after@ == with_cell(self@, row, col, cell@),
    {
        self.lemma_shape();
        after.lemma_shape();
        let expected = with_cell(self@, row, col, cell@);
        assert forall|r: int| 0 <= r < expected.len() implies #[trigger] after@[r]
            =~= expected[r] by {
            if r != row {
                assert(after.cells@[r] == self.cells@[r]);
            }
        }
        assert(after@ =~= expected);
    }

    /// A grid of `rows` by `cols` cells, none of them visited.
    pub fn new_grid(rows: u32, cols: u32) -> (grid: Self)
        ensures
            grid.wf(),
            grid.spec_rows() == rows,
            grid.spec_cols() == cols,
            forall|r: int, c: int|
                0 <= r < rows && 0 <= c < cols ==> (#[trigger] grid@[r][c]) == CellModel::fresh(
                    r,
                    c,
                ),
    {
        let mut cells: Vec<Vec<Cell>> = Vec::new();
        let mut r: u32 = 0;
        while r < rows
            invariant
                r <= rows,
                cells@.len() == r,
                forall|i: int| 0 <= i < r ==> (#[trigger] cells@[i])@.len() == cols,
                forall|i: int, j: int|
                    0 <= i < r && 0 <= j < cols ==> (#[trigger] cells@[i]@[j])@
                        == CellModel::fresh(i, j),
            decreases rows - r,
        {
            let mut row: Vec<Cell> = Vec::new();
            let mut c: u32 = 0;
            while c < cols
                invariant
                    c <= cols,
                    row@.len() == c,
                    forall|j: int|
                        0 <= j < c ==> (#[trigger] row@[j])@ == CellModel::fresh(r as int, j),
                decreases cols - c,
            {
                row.push(Cell::new_cell(r, c));
                c = c + 1;
            }
            cells.push(row);
            r = r + 1;
        }
        Self { rows, cols, cells }
    }

    pub fn rows(&self) -> (r: u32)
        ensures
            r == self.spec_rows(),
    {
        self.rows
    }

    pub fn cols(&self) -> (r: u32)
        ensures
            r == self.spec_cols(),
    {
        self.cols
    }

    /// The cell at (`row`, `col`), if the grid has one.
    pub fn get_cell(&self, row: u32, col: u32) -> (r: Option<&Cell>)
        requires
            self.wf(),
        ensures
            match r {
                Some(cell) => self.in_range(row as int, col as int) && cell@
                    == self@[row as int][col as int],
                None => !self.in_range(row as int, col as int),
            },
    {
        proof {
            self.lemma_shape();
        }
        if (row as usize) < self.cells.len() {
            assert(self@[row as int].len() == self.cells@[row as int]@.len());
            if (col as usize) < self.cells[row as usize].len() {
                assert(self@[row as int][col as int] == self.cells@[row as int]@[col as int]@);
                return Some(&self.cells[row as usize][col as usize]);
            }
        }
        None
    }

    /// The cell at (`row`, `col`), if the grid has one, to be changed in
    /// place: the grid afterwards is the grid before with that one cell as
    /// the caller leaves it.
    pub fn get_cell_mut(&mut self, row: u32, col: u32) -> (r: Option<&mut Cell>)
        requires
            old(self).wf(),
        ensures
            final(self).spec_rows() == old(self).spec_rows(),
            final(self).spec_cols() == old(self).spec_cols(),
            match r {
                Some(cell) => {
                    &&& old(self).in_range(row as int, col as int)
                    &&& cell@ == old(self)@[row as int][col as int]
                    &&& final(self)@ == with_cell(old(self)@, row as int, col as int, final(cell)@)
                    &&& final(self).wf()
                },
                None => {
                    &&& !old(self).in_range(row as int, col as int)
                    &&& final(self)@ == old(self)@
                    &&& final(self).wf()
                },
            },
    {
        proof {
            self.lemma_shape();
        }
        if (row as usize) < self.cells.len() {
            assert(self@[row as int].len() == self.cells@[row as int]@.len());
            if (col as usize) < self.cells[row as usize].len() {
                assert(self@[row as int][col as int] == self.cells@[row as int]@[col as int]@);
                let ghost before = *self;
                assert forall|after: Grid, cell: Cell|
                    before.differs_at(after, row as int, col as int, cell) implies after.wf()
                    && #[trigger] after@ == with_cell(
                    before@,
                    row as int,
                    col as int,
                    #[trigger] cell@,
                ) by {
                    before.lemma_differs_at(after, row as int, col as int, cell);
                }
                return Some(&mut self.cells[row as usize][col as usize]);
            }
        }
        None
    }

    /// Marks the cell at (`row`, `col`) visited, with full confidence. Where
    /// the grid has no such cell, nothing happens.
    pub fn visit_gridcell(&mut self, row: u32, col: u32)
        requires
            old(self).wf(),
        ensures
            final(self).wf(),
            final(self).spec_rows() == old(self).spec_rows(),
            final(self).spec_cols() == old(self).spec_cols(),
            final(self)@ == visit_model(old(self)@, row as int, col as int),
            visited_cells(old(self)@) <= visited_cells(final(self)@),
    {
        match self.get_cell_mut(row, col) {
            Some(cell) => {
                cell.mark_visited();
            },
            None => {},
        }
        proof {
            lemma_visit_count(old(self)@, row as int, col as int);
        }
    }

    /// Sets the confidence of the cell at (`row`, `col`) to `confidence`, in
    /// parts per million, clamped to the range from nothing to full. Full
    /// confidence marks the cell visited, and a visited cell stays visited.
    /// Where the grid has no such cell, nothing happens.
    pub fn update_gridcell_confidence(&mut self, row: u32, col: u32, confidence: i64)
        requires
            old(self).wf(),
        ensures
            final(self).wf(),
            final(self).spec_rows() == old(self).spec_rows(),
            final(self).spec_cols() == old(self).spec_cols(),
            final(self)@ == confidence_model(
                old(self)@,
                row as int,
                col as int,
                confidence as int,
            ),
            visited_cells(old(self)@) <= visited_cells(final(self)@),
            old(self).in_range(row as int, col as int) ==> final(self)@[row as int][col as int].wf(),
    {
        match self.get_cell_mut(row, col) {
            Some(cell) => {
                cell.update_confidence(confidence);
            },
            None => {},
        }
        proof {
            lemma_confidence_count(old(self)@, row as int, col as int, confidence as int);
        }
    }

    /// The number of cells.
    pub fn cell_count(&self) -> (total: u64)
        ensures
            total == self.spec_rows() * self.spec_cols(),
    {
        proof {
            assert(0 <= self.rows * self.cols <= 0xffff_ffff * 0xffff_ffff) by (nonlinear_arith)
                requires
                    0 <= self.rows <= 0xffff_ffff,
                    0 <= self.cols <= 0xffff_ffff,
            ;
        }
        self.rows as u64 * self.cols as u64
    }

    /// The number of visited cells.
    pub fn visited_count(&self) -> (count: u64)
        requires
            self.wf(),
        ensures
            count == visited_cells(self@),
            count <= self.spec_rows() * self.spec_cols(),
    {
        proof {
            self.lemma_shape();
        }
        let mut count: u64 = 0;
        let mut r: usize = 0;
        while r < self.cells.len()
            invariant
                self.wf(),
                r <= self.cells@.len(),
                self@.len() == self.cells@.len(),
                count == visited_cells(self@.take(r as int)),
                count <= r * self.cols,
            decreases self.cells@.len() - r,
        {
            let row = &self.cells[r];
            let mut in_row: u64 = 0;
            let mut c: usize = 0;
            proof {
                self.lemma_shape();
            }
            while c < row.len()
                invariant
                    c <= row@.len(),
                    row@.len() == self@[r as int].len(),
                    forall|j: int| 0 <= j < row@.len() ==> (#[trigger] row@[j])@ == self@[r as int][j],
                    in_row == visited_in_row(self@[r as int].take(c as int)),
                    in_row <= c,
                decreases row@.len() - c,
            {
                proof {
                    assert(self@[r as int].take(c + 1).drop_last() =~= self@[r as int].take(
                        c as int,
                    ));
                }
                if row[c].visited() {
                    in_row = in_row + 1;
                }
                c = c + 1;
            }
            proof {
                assert(self@[r as int].take(c as int) =~= self@[r as int]);
                assert(self@.take(r + 1).drop_last() =~= self@.take(r as int));
                assert(r * self.cols + self.cols == (r + 1) * self.cols) by (nonlinear_arith);
                assert((r + 1) * self.cols <= 0xffff_ffff * 0xffff_ffff) by (nonlinear_arith)
                    requires
                        r + 1 <= 0xffff_ffff,
                        self.cols <= 0xffff_ffff,
                ;
            }
            count = count + in_row;
            r = r + 1;
        }
        proof {
            assert(self@.take(r as int) =~= self@);
        }
        count
    }

    /// The visited part of the grid, in parts per million, rounded down;
    /// nothing for a grid without cells.
    pub fn grid_portion_covered(&self) -> (portion: u32)
        requires
            self.wf(),
        ensures
            portion == portion_ppm(
                visited_cells(self@) as int,
                self.spec_rows() * self.spec_cols(),
            ),
            portion <= 1_000_000,
    {
        let total: u64 = self.cell_count();
        let visited: u64 = self.visited_count();
        if total == 0 {
            return 0;
        }
        proof {
            assert(0 <= (visited * 1_000_000) / (total as int) <= 1_000_000) by (nonlinear_arith)
                requires
                    0 <= visited <= total,
                    total > 0,
            ;
        }
        ((visited as u128 * 1_000_000) / (total as u128)) as u32
    }
}

/// A visit never lowers the count of visited cells.
pub proof fn lemma_visit_count(cells: Seq<Seq<CellModel>>, row: int, col: int)
    ensures
        visited_cells(cells) <= visited_cells(visit_model(cells, row, col)),
{
    if 0 <= row < cells.len() && 0 <= col < cells[row].len() {
        lemma_with_cell_count(cells, row, col, cells[row][col].marked());
    }
}

/// An update of confidence never lowers the count of visited cells.
pub proof fn lemma_confidence_count(cells: Seq<Seq<CellModel>>, row: int, col: int, value: int)
    ensures
        visited_cells(cells) <= visited_cells(confidence_model(cells, row, col, value)),
{
    if 0 <= row < cells.len() && 0 <= col < cells[row].len() {
        lemma_with_cell_count(cells, row, col, cells[row][col].with_confidence(value));
    }
}

/// One change to a grid.
pub enum GridOp {
    /// A visit to the cell at (`row`, `col`).
    Visit { row: int, col: int },
    /// An update of the confidence of the cell at (`row`, `col`).
    Confidence { row: int, col: int, value: int },
}

/// The grid after one change.
pub open spec fn apply_op(cells: Seq<Seq<CellModel>>, op: GridOp) -> Seq<Seq<CellModel>> {
    match op {
        GridOp::Visit { row, col } => visit_model(cells, row, col),
        GridOp::Confidence { row, col, value } => confidence_model(cells, row, col, value),
    }
}

/// The grid after a sequence of changes, made in order.
pub open spec fn apply_ops(cells: Seq<Seq<CellModel>>, ops: Seq<GridOp>) -> Seq<Seq<CellModel>>
    decreases ops.len(),
{
    if ops.len() == 0 {
        cells
    } else {
        apply_op(apply_ops(cells, ops.drop_last()), ops.last())
    }
}

/// Every cell of the grid meets the invariant of a cell.
pub open spec fn cells_wf(cells: Seq<Seq<CellModel>>) -> bool {
    forall|r: int, c: int|
        0 <= r < cells.len() && 0 <= c < cells[r].len() ==> (#[trigger] cells[r][c]).wf()
}

/// With the same number of cells, more visited cells are no smaller a
/// portion.
pub proof fn lemma_portion_monotone(fewer: int, more: int, total: int)
    requires
        0 <= fewer <= more,
    ensures
        portion_ppm(fewer, total) <= portion_ppm(more, total),
{
    if total > 0 {
        assert((fewer * 1_000_000) / total <= (more * 1_000_000) / total) by (nonlinear_arith)
            requires
                0 <= fewer <= more,
                total > 0,
        ;
    }
}

/// No change alters the shape of the grid, and none makes a visited cell
/// unvisited.
pub proof fn lemma_op_keeps(cells: Seq<Seq<CellModel>>, op: GridOp)
    ensures
        apply_op(cells, op).len() == cells.len(),
        forall|r: int|
            0 <= r < cells.len() ==> (#[trigger] apply_op(cells, op)[r]).len() == cells[r].len(),
        forall|r: int, c: int|
            0 <= r < cells.len() && 0 <= c < cells[r].len() && cells[r][c].visited ==> (
            #[trigger] apply_op(cells, op)[r][c]).visited,
        cells_wf(cells) ==> cells_wf(apply_op(cells, op)),
        visited_cells(cells) <= visited_cells(apply_op(cells, op)),
{
    match op {
        GridOp::Visit { row, col } => {
            lemma_visit_count(cells, row, col);
        },
        GridOp::Confidence { row, col, value } => {
            lemma_confidence_count(cells, row, col, value);
        },
    }
}

/// Coverage never falls: over any sequence of visits and updates of
/// confidence, the count of visited cells, and with it the covered portion,
/// is at least what it was.
pub proof fn lemma_coverage_monotone(cells: Seq<Seq<CellModel>>, ops: Seq<GridOp>, total: int)
    ensures
        visited_cells(cells) <= visited_cells(apply_ops(cells, ops)),
        portion_ppm(visited_cells(cells) as int, total) <= portion_ppm(
            visited_cells(apply_ops(cells, ops)) as int,
            total,
        ),
    decreases ops.len(),
{
    if ops.len() > 0 {
        lemma_coverage_monotone(cells, ops.drop_last(), total);
        lemma_op_keeps(apply_ops(cells, ops.drop_last()), ops.last());
    }
    lemma_portion_monotone(
        visited_cells(cells) as int,
        visited_cells(apply_ops(cells, ops)) as int,
        total,
    );
}

/// Visited is for good: a cell that is visited stays visited over any
/// sequence of visits and updates of confidence, whatever their values.
pub proof fn lemma_visited_is_kept(
    cells: Seq<Seq<CellModel>>,
    ops: Seq<GridOp>,
    row: int,
    col: int,
)
    requires
        0 <= row < cells.len(),
        0 <= col < cells[row].len(),
        cells[row][col].visited,
    ensures
        apply_ops(cells, ops).len() == cells.len(),
        apply_ops(cells, ops)[row].len() == cells[row].len(),
        apply_ops(cells, ops)[row][col].visited,
    decreases ops.len(),
{
    if ops.len() > 0 {
        lemma_visited_is_kept(cells, ops.drop_last(), row, col);
        lemma_op_keeps(apply_ops(cells, ops.drop_last()), ops.last());
    }
}

/// Whatever value is given, the confidence that an update stores lies
/// between nothing and full.
pub proof fn lemma_confidence_clamped(cells: Seq<Seq<CellModel>>, row: int, col: int, value: int)
    requires
        0 <= row < cells.len(),
        0 <= col < cells[row].len(),
    ensures
        0 <= confidence_model(cells, row, col, value)[row][col].confidence <= CONFIDENCE_FULL,
        confidence_model(cells, row, col, value)[row][col].confidence == clamp_confidence(value),
        confidence_model(cells, row, col, value)[row][col].wf(),
{
}

/// The invariant of the cells holds over any sequence of visits and updates
/// of confidence.
pub proof fn lemma_cells_stay_wf(cells: Seq<Seq<CellModel>>, ops: Seq<GridOp>)
    requires
        cells_wf(cells),
    ensures
        cells_wf(apply_ops(cells, ops)),
    decreases ops.len(),
{
    if ops.len() > 0 {
        lemma_cells_stay_wf(cells, ops.drop_last());
        lemma_op_keeps(apply_ops(cells, ops.drop_last()), ops.last());
    }
}

} // verus!
