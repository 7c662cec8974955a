//! Grid template areas: the merger that joins the cells of successive row
//! strings into rectangular named areas, and the values that it gives.

use crate::cursor::{ident_at, try_ident, Cursor};
use crate::error::ParseFailure;
use crate::grid_cells::{cell_of, cells_of, cells_view, tokenize, Cell};
use crate::token::Token;
use servo_arc::Arc;
use vstd::prelude::*;

verus! {

/// A half-open range `[start, end)` of grid lines, counted from 1.
#[derive(Clone, Copy, Debug, PartialEq, Eq, Structural, Hash)]
pub struct UnsignedRange {
    /// The first line of the range.
    pub start: u32,
    /// The line after the last one.
    pub end: u32,
}

/// A rectangular region of the grid that a name addresses.
#[derive(Debug, PartialEq, Eq, Hash)]
pub struct NamedArea {
    /// The name of the area.
    pub name: String,
    /// The rows that the area spans.
    pub rows: UnsignedRange,
    /// The columns that the area spans.
    pub columns: UnsignedRange,
}

/// A named area with its name as a sequence of characters.
pub struct NamedAreaView {
    /// The name of the area.
    pub name: Seq<char>,
    /// The rows that the area spans.
    pub rows: UnsignedRange,
    /// The columns that the area spans.
    pub columns: UnsignedRange,
}

impl View for NamedArea {
    type V = NamedAreaView;

    open spec fn view(&self) -> NamedAreaView {
        NamedAreaView { name: self.name@, rows: self.rows, columns: self.columns }
    }
}

impl Clone for NamedArea {
    fn clone(&self) -> (r: Self)
        ensures
            r == *self,
    {
        NamedArea { name: self.name.clone(), rows: self.rows, columns: self.columns }
    }
}

/// The areas that a vector of named areas stands for.
pub open spec fn areas_view(areas: Seq<NamedArea>) -> Seq<NamedAreaView> {
    areas.map_values(|a: NamedArea| a@)
}

/// The texts that a vector of strings stands for.
pub open spec fn strings_view(strings: Seq<String>) -> Seq<Seq<char>> {
    strings.map_values(|s: String| s@)
}

/// The index of the first area of that name, if there is one.
pub open spec fn position_of(areas: Seq<NamedAreaView>, name: Seq<char>) -> Option<int>
    decreases areas.len(),
{
    if areas.len() == 0 {
        None
    } else {
        match position_of(areas.drop_last(), name) {
            Some(i) => Some(i),
            None => if areas.last().name == name {
                Some(areas.len() - 1)
            } else {
                None
            },
        }
    }
}

/// What `position_of` finds: the least index of an area of that name, or
/// nothing where no area has it.
pub proof fn lemma_position_of(areas: Seq<NamedAreaView>, name: Seq<char>)
    ensures
        match position_of(areas, name) {
            Some(i) => 0 <= i < areas.len() && areas[i].name == name && forall|j: int|
                0 <= j < i ==> (#[trigger] areas[j]).name != name,
            None => forall|j: int| 0 <= j < areas.len() ==> (#[trigger] areas[j]).name != name,
        },
    decreases areas.len(),
{
    if areas.len() > 0 {
        lemma_position_of(areas.drop_last(), name);
        assert(forall|j: int|
            0 <= j < areas.len() - 1 ==> areas.drop_last()[j] == #[trigger] areas[j]);
    }
}

/// The state of the merger inside one row.
pub struct RowScan {
    /// The areas found so far.
    pub areas: Seq<NamedAreaView>,
    /// The index of the area that the previous column belongs to, if any.
    pub open: Option<int>,
    /// The number of cells read in this row.
    pub column: u32,
}

/// The most cells that a row, and the most rows that a grid, may have: line
/// numbers start at 1 and the line after the last cell has a number too.
pub const MAX_CELLS: u32 = 0xFFFF_FFFE;

/// An area with the line after its last column moved one to the right.
pub open spec fn widened(area: NamedAreaView) -> NamedAreaView {
    NamedAreaView {
        columns: UnsignedRange { start: area.columns.start, end: (area.columns.end + 1) as u32 },
        ..area
    }
}

/// An area with the line after its last row moved one down.
pub open spec fn heightened(area: NamedAreaView) -> NamedAreaView {
    NamedAreaView {
        rows: UnsignedRange { start: area.rows.start, end: (area.rows.end + 1) as u32 },
        ..area
    }
}

/// The area of one cell at the given row and column.
pub open spec fn single_cell(name: Seq<char>, row: u32, column: u32) -> NamedAreaView {
    NamedAreaView {
        name,
        rows: UnsignedRange { start: row, end: (row + 1) as u32 },
        columns: UnsignedRange { start: column, end: (column + 1) as u32 },
    }
}

/// Whether the area that the previous column belongs to, if any, ends right
/// before the given column.
pub open spec fn open_area_ends_at(st: RowScan, column: u32) -> bool {
    match st.open {
        Some(i) => st.areas[i].columns.end == column,
        None => true,
    }
}

/// Takes one more cell of row `row` into the state, or fails where the cell
/// would give an area another shape than a rectangle.
///
/// A null cell ends the open area. A name equal to the open area's name
/// continues it, and widens it on the row where it began. Any other name ends
/// the open area and either begins a new area of one cell or, where an area of
/// that name exists, must stand right below that area's last row, at its first
/// column, and makes it one row higher.
pub open spec fn scan_cell(st: RowScan, row: u32, cell: Cell) -> Option<RowScan> {
    if st.column >= MAX_CELLS {
        None
    } else {
        let column = (st.column + 1) as u32;
        match cell {
            Cell::Null => if open_area_ends_at(st, column) {
                Some(RowScan { areas: st.areas, open: None, column })
            } else {
                None
            },
            Cell::Name(name) => if st.open is Some && st.areas[st.open->0].name == name {
                let i = st.open->0;
                if st.areas[i].rows.start == row {
                    Some(RowScan { areas: st.areas.update(i, widened(st.areas[i])), column, ..st })
                } else {
                    Some(RowScan { column, ..st })
                }
            } else if !open_area_ends_at(st, column) {
                None
            } else {
                match position_of(st.areas, name) {
                    Some(j) => if st.areas[j].columns.start != column || st.areas[j].rows.end
                        != row {
                        None
                    } else {
                        Some(
                            RowScan {
                                areas: st.areas.update(j, heightened(st.areas[j])),
                                open: Some(j),
                                column,
                            },
                        )
                    },
                    None => Some(
                        RowScan {
                            areas: st.areas.push(single_cell(name, row, column)),
                            open: Some(st.areas.len() as int),
                            column,
                        },
                    ),
                }
            },
        }
    }
}

/// Takes the cells of row `row` into the state from left to right, or fails
/// at the first cell that `scan_cell` refuses.
pub open spec fn scan_cells(st: RowScan, row: u32, cells: Seq<Cell>) -> Option<RowScan>
    decreases cells.len(),
{
    if cells.len() == 0 {
        Some(st)
    } else {
        match scan_cells(st, row, cells.drop_last()) {
            Some(mid) => scan_cell(mid, row, cells.last()),
            None => None,
        }
    }
}

/// The text of one cell in a normalized row string.
pub open spec fn cell_text(cell: Cell) -> Seq<char> {
    match cell {
        Cell::Null => seq!['.'],
        Cell::Name(name) => name,
    }
}

/// The normalized row string: the cells' texts with one space between them.
pub open spec fn normalized(cells: Seq<Cell>) -> Seq<char>
    decreases cells.len(),
{
    if cells.len() == 0 {
        Seq::empty()
    } else if cells.len() == 1 {
        cell_text(cells[0])
    } else {
        normalized(cells.drop_last()) + seq![' '] + cell_text(cells.last())
    }
}

/// What the merger holds between two rows.
pub struct MergerView {
    /// The areas found so far, in the order in which their names first came.
    pub areas: Seq<NamedAreaView>,
    /// The normalized string of each row taken.
    pub strings: Seq<Seq<char>>,
    /// The number of columns, set by the first row.
    pub width: u32,
    /// The number of rows taken.
    pub row: u32,
}

/// Takes one more row into the grid.
///
/// The row fails with `Tokenization` where a character starts no cell, and
/// with `Unspecified` where it has no cell, more cells than a line number can
/// count, another number of cells than the first row, or a cell that would
/// give an area another shape than a rectangle; the same holds of a row past
/// the greatest row number.
pub open spec fn merge_row(m: MergerView, text: Seq<char>) -> Result<MergerView, ParseFailure> {
    match cells_of(text) {
        None => Err(ParseFailure::Tokenization),
        Some(cells) => if m.row >= MAX_CELLS {
            Err(ParseFailure::Unspecified)
        } else {
            let row = (m.row + 1) as u32;
            match scan_cells(RowScan { areas: m.areas, open: None, column: 0 }, row, cells) {
                None => Err(ParseFailure::Unspecified),
                Some(end) => if end.column == 0 || !open_area_ends_at(
                    end,
                    (end.column + 1) as u32,
                ) || (row != 1 && m.width != end.column) {
                    Err(ParseFailure::Unspecified)
                } else {
                    Ok(
                        MergerView {
                            areas: end.areas,
                            strings: m.strings.push(normalized(cells)),
                            width: end.column,
                            row,
                        },
                    )
                },
            }
        },
    }
}


impl MergerView {
    /// What holds of the merger between two rows: one string for each row;
    /// every area is a rectangle inside the grid, at least one cell wide and
    /// one cell high; no two areas have the same name.
    pub open spec fn wf(self) -> bool {
        &&& self.strings.len() == self.row
        &&& self.row <= MAX_CELLS
        &&& self.width <= MAX_CELLS
        &&& self.row > 0 ==> self.width > 0
        &&& self.row == 0 ==> self.areas.len() == 0
        &&& forall|i: int|
            0 <= i < self.areas.len() ==> {
                let a = #[trigger] self.areas[i];
                &&& 1 <= a.rows.start < a.rows.end <= self.row + 1
                &&& 1 <= a.columns.start < a.columns.end <= self.width + 1
            }
        &&& forall|i: int, j: int|
            0 <= i < j < self.areas.len() ==> (#[trigger] self.areas[i]).name != (
            #[trigger] self.areas[j]).name
    }
}

impl RowScan {
    /// What holds of the merger inside row `row` of a grid whose earlier rows
    /// are `width` cells wide: the areas begun in this row lie in the columns
    /// read so far, the others inside the grid's width; the open area reaches
    /// into this row.
    pub open spec fn wf(self, width: u32, row: u32) -> bool {
        &&& self.column <= MAX_CELLS
        &&& forall|i: int|
            0 <= i < self.areas.len() ==> {
                let a = #[trigger] self.areas[i];
                &&& 1 <= a.rows.start < a.rows.end <= row + 1
                &&& 1 <= a.columns.start < a.columns.end
                &&& a.rows.start == row ==> a.columns.end <= self.column + 1
                &&& a.rows.start < row ==> a.columns.end <= width + 1
            }
        &&& forall|i: int, j: int|
            0 <= i < j < self.areas.len() ==> (#[trigger] self.areas[i]).name != (
            #[trigger] self.areas[j]).name
        &&& match self.open {
            Some(i) => {
                &&& 0 <= i < self.areas.len()
                &&& self.areas[i].rows.end == row + 1
                &&& self.areas[i].rows.start == row ==> self.areas[i].columns.end == self.column
                    + 1
            },
            None => true,
        }
    }
}

/// The state in which the scan of a row begins.
pub open spec fn row_start(m: MergerView) -> RowScan {
    RowScan { areas: m.areas, open: None, column: 0 }
}

/// A well-formed merger gives a well-formed state at the start of its next
/// row.
pub proof fn lemma_row_start_wf(m: MergerView)
    requires
        m.wf(),
        m.row < MAX_CELLS,
    ensures
        row_start(m).wf(m.width, (m.row + 1) as u32),
{
}

/// `scan_cell` keeps the state well-formed.
pub proof fn lemma_scan_cell_wf(st: RowScan, width: u32, row: u32, cell: Cell)
    requires
        st.wf(width, row),
        1 <= row <= MAX_CELLS,
        scan_cell(st, row, cell) is Some,
    ensures
        scan_cell(st, row, cell)->0.wf(width, row),
        scan_cell(st, row, cell)->0.areas.len() >= st.areas.len(),
{
    let next = scan_cell(st, row, cell)->0;
    match cell {
        Cell::Null => {},
        Cell::Name(name) => {
            lemma_position_of(st.areas, name);
        },
    }
}

/// `scan_cells` keeps the state well-formed.
pub proof fn lemma_scan_cells_wf(st: RowScan, width: u32, row: u32, cells: Seq<Cell>)
    requires
        st.wf(width, row),
        1 <= row <= MAX_CELLS,
        scan_cells(st, row, cells) is Some,
    ensures
        scan_cells(st, row, cells)->0.wf(width, row),
    decreases cells.len(),
{
    if cells.len() > 0 {
        lemma_scan_cells_wf(st, width, row, cells.drop_last());
        lemma_scan_cell_wf(scan_cells(st, row, cells.drop_last())->0, width, row, cells.last());
    }
}

/// A row that the merger takes leaves it well-formed.
pub proof fn lemma_merge_row_wf(m: MergerView, text: Seq<char>)
    requires
        m.wf(),
        merge_row(m, text) is Ok,
    ensures
        merge_row(m, text)->Ok_0.wf(),
{
    let cells = cells_of(text)->0;
    let row = (m.row + 1) as u32;
    lemma_row_start_wf(m);
    lemma_scan_cells_wf(row_start(m), m.width, row, cells);
}

/// Once a cell is refused, the row is refused, whatever follows.
pub proof fn lemma_scan_cells_prefix(st: RowScan, row: u32, cells: Seq<Cell>, k: int)
    requires
        0 <= k <= cells.len(),
        scan_cells(st, row, cells.take(k)) is None,
    ensures
        scan_cells(st, row, cells) is None,
    decreases cells.len(),
{
    if k == cells.len() {
        assert(cells.take(k) =~= cells);
    } else {
        assert(cells.drop_last().take(k) =~= cells.take(k));
        lemma_scan_cells_prefix(st, row, cells.drop_last(), k);
    }
}

/// The scan of the first `k + 1` cells is the scan of the first `k` and one
/// step.
pub proof fn lemma_scan_cells_step(st: RowScan, row: u32, cells: Seq<Cell>, k: int)
    requires
        0 <= k < cells.len(),
    ensures
        scan_cells(st, row, cells.take(k + 1)) == match scan_cells(st, row, cells.take(k)) {
            Some(mid) => scan_cell(mid, row, cells[k]),
            None => None,
        },
{
    assert(cells.take(k + 1).drop_last() =~= cells.take(k));
}


/// The normalized string of the first `k + 1` cells is that of the first `k`
/// with the next cell's text after it, and a space between the two where
/// `k` is not 0.
pub proof fn lemma_normalized_step(cells: Seq<Cell>, k: int)
    requires
        0 <= k < cells.len(),
    ensures
        normalized(cells.take(k + 1)) == if k == 0 {
            cell_text(cells[k])
        } else {
            normalized(cells.take(k)) + seq![' '] + cell_text(cells[k])
        },
{
    assert(cells.take(k + 1).drop_last() =~= cells.take(k));
}

/// Finds the first area of the given name.
pub fn find_area(areas: &Vec<NamedArea>, name: &String) -> (r: Option<usize>)
    ensures
        match position_of(areas_view(areas@), name@) {
            Some(i) => r is Some && r->0 == i,
            None => r is None,
        },
{
    let mut i: usize = 0;
    while i < areas.len()
        invariant
            i <= areas.len(),
            position_of(areas_view(areas@).take(i as int), name@) is None,
        decreases areas.len() - i,
    {
        proof {
            let all = areas_view(areas@);
            assert(all.take(i + 1).drop_last() =~= all.take(i as int));
            assert(all.take(i + 1).last() == all[i as int]);
        }
        if areas[i].name == *name {
            proof {
                let all = areas_view(areas@);
                lemma_position_of(all.take(i as int), name@);
                lemma_position_of(all, name@);
                assert(all[i as int].name == name@);
                assert(forall|j: int| 0 <= j < i ==> all.take(i as int)[j] == all[j]);
            }
            return Some(i);
        }
        i = i + 1;
    }
    proof {
        assert(areas_view(areas@).take(i as int) =~= areas_view(areas@));
    }
    None
}

/// Where the merger stands inside a row: the area that the previous column
/// belongs to, by its index, and the number of cells read.
#[derive(Clone, Copy, Debug, PartialEq, Eq, Structural)]
pub struct ScanState {
    /// The index of the open area, if any.
    pub open: Option<usize>,
    /// The number of cells read in this row.
    pub column: u32,
}

/// The scan state that the merger's variables stand for.
pub open spec fn scan_view(areas: Seq<NamedArea>, state: ScanState) -> RowScan {
    RowScan {
        areas: areas_view(areas),
        open: match state.open {
            Some(i) => Some(i as int),
            None => None,
        },
        column: state.column,
    }
}

/// Takes one more cell of row `row` into the merger's state: one transition
/// of the automaton. `width` is the width of the rows before this one. A
/// cell that is refused leaves the areas as they were.
pub fn scan_step(
    areas: &mut Vec<NamedArea>,
    state: ScanState,
    width: u32,
    row: u32,
    cell: &Option<String>,
) -> (r: Option<ScanState>)
    requires
        scan_view(old(areas)@, state).wf(width, row),
        1 <= row <= MAX_CELLS,
    ensures
        match scan_cell(scan_view(old(areas)@, state), row, cell_of(*cell)) {
            Some(next) => r is Some && scan_view(final(areas)@, r->0) == next,
            None => r is None && final(areas)@ == old(areas)@,
        },
{
    let ghost st = scan_view(areas@, state);
    let open = state.open;
    if state.column >= MAX_CELLS {
        return None;
    }
    let column = state.column + 1;
    let name = match cell {
        None => {
            if let Some(index) = open {
                if areas[index].columns.end != column {
                    return None;
                }
            }
            proof {
                assert(areas_view(areas@) =~= st.areas);
            }
            return Some(ScanState { open: None, column });
        },
        Some(name) => name,
    };
    if let Some(index) = open {
        if areas[index].name == *name {
            if areas[index].rows.start == row {
                let end = areas[index].columns.end;
                areas[index].columns.end = end + 1;
                proof {
                    assert(areas_view(areas@) =~= st.areas.update(
                        index as int,
                        widened(st.areas[index as int]),
                    ));
                }
            }
            return Some(ScanState { open, column });
        }
        if areas[index].columns.end != column {
            return None;
        }
    }
    match find_area(areas, name) {
        Some(index) => {
            proof {
                lemma_position_of(st.areas, name@);
            }
            if areas[index].columns.start != column || areas[index].rows.end != row {
                return None;
            }
            areas[index].rows.end = row + 1;
            proof {
                assert(areas_view(areas@) =~= st.areas.update(
                    index as int,
                    heightened(st.areas[index as int]),
                ));
            }
            Some(ScanState { open: Some(index), column })
        },
        None => {
            let index = areas.len();
            areas.push(
                NamedArea {
                    name: name.clone(),
                    columns: UnsignedRange { start: column, end: column + 1 },
                    rows: UnsignedRange { start: row, end: row + 1 },
                },
            );
            proof {
                assert(areas_view(areas@) =~= st.areas.push(single_cell(name@, row, column)));
            }
            Some(ScanState { open: Some(index), column })
        },
    }
}


/// The named areas of a grid, with the normalized row strings that they were
/// read from.
#[derive(Debug, PartialEq, Eq, Hash)]
pub struct TemplateAreas {
    /// The named areas, in the order in which their names first came.
    pub areas: Vec<NamedArea>,
    /// The normalized string of each row, cells separated by one space.
    pub strings: Vec<String>,
    /// The number of columns of the grid.
    pub width: u32,
}

/// Template areas with names and strings as sequences of characters.
pub struct TemplateAreasView {
    /// The named areas.
    pub areas: Seq<NamedAreaView>,
    /// The normalized string of each row.
    pub strings: Seq<Seq<char>>,
    /// The number of columns of the grid.
    pub width: u32,
}

impl TemplateAreasView {
    /// What holds of template areas that the merger hands out: there is a
    /// row, and a normalized string for each; every area is a rectangle
    /// inside the grid, at least one cell wide and one cell high; no two areas
    /// have the same name.
    pub open spec fn valid(self) -> bool {
        &&& 1 <= self.strings.len() <= MAX_CELLS
        &&& 1 <= self.width <= MAX_CELLS
        &&& forall|i: int|
            0 <= i < self.areas.len() ==> {
                let a = #[trigger] self.areas[i];
                &&& 1 <= a.rows.start < a.rows.end <= self.strings.len() + 1
                &&& 1 <= a.columns.start < a.columns.end <= self.width + 1
            }
        &&& forall|i: int, j: int|
            0 <= i < j < self.areas.len() ==> (#[trigger] self.areas[i]).name != (
            #[trigger] self.areas[j]).name
    }
}

impl View for TemplateAreas {
    type V = TemplateAreasView;

    open spec fn view(&self) -> TemplateAreasView {
        TemplateAreasView {
            areas: areas_view(self.areas@),
            strings: strings_view(self.strings@),
            width: self.width,
        }
    }
}

/// The merger of template rows: it takes the row strings in order and joins
/// cells of one name into rectangular areas.
#[derive(Debug)]
pub struct TemplateAreasParser {
    areas: Vec<NamedArea>,
    strings: Vec<String>,
    width: u32,
    row: u32,
}

impl View for TemplateAreasParser {
    type V = MergerView;

    closed spec fn view(&self) -> MergerView {
        MergerView {
            areas: areas_view(self.areas@),
            strings: strings_view(self.strings@),
            width: self.width,
            row: self.row,
        }
    }
}

impl Default for TemplateAreasParser {
    fn default() -> (r: Self)
        ensures
            r@ == (MergerView { areas: Seq::empty(), strings: Seq::empty(), width: 0, row: 0 }),
            r@.wf(),
    {
        let r = TemplateAreasParser { areas: Vec::new(), strings: Vec::new(), width: 0, row: 0 };
        proof {
            assert(r@.areas =~= Seq::empty());
            assert(r@.strings =~= Seq::empty());
        }
        r
    }
}

impl TemplateAreasParser {
    /// Takes one more row string into the grid. A row that fails leaves the
    /// merger as it was.
    pub fn parse_string(&mut self, string: &str) -> (r: Result<(), ParseFailure>)
        requires
            old(self)@.wf(),
        ensures
            final(self)@.wf(),
            match merge_row(old(self)@, string@) {
                Ok(merged) => r is Ok && final(self)@ == merged,
                Err(failure) => r == Err::<(), ParseFailure>(failure) && final(self)@ == old(
                    self,
                )@,
            },
    {
        let ghost before = self@;
        let cells = match tokenize(string) {
            Ok(cells) => cells,
            Err(failure) => {
                return Err(failure);
            },
        };
        if self.row >= MAX_CELLS {
            return Err(ParseFailure::Unspecified);
        }
        let row = self.row + 1;
        let ghost spec_cells = cells_view(cells@);
        let ghost start = row_start(before);
        let mut areas = self.areas.clone();
        let mut state = ScanState { open: None, column: 0 };
        let mut simplified = String::new();
        proof {
            assert(areas@ =~= self.areas@);
            lemma_row_start_wf(before);
            assert(spec_cells.take(0) =~= Seq::<Cell>::empty());
        }
        let mut i: usize = 0;
        while i < cells.len()
            invariant
                i <= cells.len(),
                spec_cells == cells_view(cells@),
                1 <= row <= MAX_CELLS,
                start == row_start(before),
                self@ == before,
                before.wf(),
                cells_of(string@) == Some(spec_cells),
                row == before.row + 1,
                self.width == before.width,
                scan_cells(start, row, spec_cells.take(i as int)) == Some(scan_view(areas@, state)),
                scan_view(areas@, state).wf(before.width, row),
                simplified@ == normalized(spec_cells.take(i as int)),
            decreases cells.len() - i,
        {
            proof {
                lemma_scan_cells_step(start, row, spec_cells, i as int);
                lemma_normalized_step(spec_cells, i as int);
            }
            let ghost prev = scan_view(areas@, state);
            match scan_step(&mut areas, state, self.width, row, &cells[i]) {
                Some(next) => {
                    proof {
                        lemma_scan_cell_wf(prev, before.width, row, spec_cells[i as int]);
                    }
                    state = next;
                },
                None => {
                    proof {
                        lemma_scan_cells_prefix(start, row, spec_cells, i + 1);
                    }
                    return Err(ParseFailure::Unspecified);
                },
            }
            if i > 0 {
                simplified.append(" ");
            }
            match &cells[i] {
                Some(name) => {
                    simplified.append(name.as_str());
                },
                None => {
                    simplified.append(".");
                },
            }
            proof {
                reveal_strlit(" ");
                reveal_strlit(".");
                assert(" "@ =~= seq![' ']);
                assert("."@ =~= seq!['.']);
                assert(simplified@ =~= normalized(spec_cells.take(i + 1)));
            }
            i = i + 1;
        }
        proof {
            assert(spec_cells.take(i as int) =~= spec_cells);
        }
        if state.column == 0 {
            return Err(ParseFailure::Unspecified);
        }
        if let Some(index) = state.open {
            if areas[index].columns.end != state.column + 1 {
                return Err(ParseFailure::Unspecified);
            }
        }
        if row != 1 && self.width != state.column {
            return Err(ParseFailure::Unspecified);
        }
        self.width = state.column;
        self.areas = areas;
        self.strings.push(simplified);
        self.row = row;
        proof {
            let merged = merge_row(before, string@)->Ok_0;
            assert(self@.strings =~= merged.strings);
            lemma_merge_row_wf(before, string@);
        }
        Ok(())
    }

    /// The template areas of the rows taken, or a failure where none was.
    pub fn finish(self) -> (r: Result<TemplateAreas, ParseFailure>)
        requires
            self@.wf(),
        ensures
            match r {
                Ok(areas) => {
                    &&& self@.row > 0
                    &&& areas@.areas == self@.areas
                    &&& areas@.strings == self@.strings
                    &&& areas@.width == self@.width
                    &&& areas@.valid()
                },
                Err(failure) => self@.row == 0 && failure == ParseFailure::Unspecified,
            },
    {
        if self.strings.len() == 0 {
            return Err(ParseFailure::Unspecified);
        }
        Ok(TemplateAreas { areas: self.areas, strings: self.strings, width: self.width })
    }
}


/// The text of the quoted string at index `at` of the tokens, if one stands
/// there.
pub open spec fn string_at(tokens: Seq<Token>, at: int) -> Option<Seq<char>> {
    if 0 <= at < tokens.len() {
        match tokens[at] {
            Token::QuotedString(s) => Some(s@),
            _ => None,
        }
    } else {
        None
    }
}

/// The merger before its first row.
pub open spec fn no_rows() -> MergerView {
    MergerView { areas: Seq::empty(), strings: Seq::empty(), width: 0, row: 0 }
}

/// Takes the quoted strings from index `at` on into the merger, as far as
/// they go on, and gives the index after the last one. A row that fails
/// fails the whole.
pub open spec fn rows_from(m: MergerView, tokens: Seq<Token>, at: int) -> Result<
    (MergerView, int),
    ParseFailure,
>
    decreases tokens.len() - at,
{
    match string_at(tokens, at) {
        None => Ok((m, at)),
        Some(text) => match merge_row(m, text) {
            Ok(merged) => rows_from(merged, tokens, at + 1),
            Err(failure) => Err(failure),
        },
    }
}

/// The template areas that the quoted strings from index `at` on describe,
/// and the index after the last of them. No string at all is `Unspecified`.
pub open spec fn template_areas_at(tokens: Seq<Token>, at: int) -> Result<
    (TemplateAreasView, int),
    ParseFailure,
> {
    match rows_from(no_rows(), tokens, at) {
        Ok((m, next)) => if m.row == 0 {
            Err(ParseFailure::Unspecified)
        } else {
            Ok((TemplateAreasView { areas: m.areas, strings: m.strings, width: m.width }, next))
        },
        Err(failure) => Err(failure),
    }
}

/// The text that `cssparser::serialize_string` writes for a string: the
/// string between double quotes, with the characters escaped that would end
/// it or not read back.
pub uninterp spec fn string_text(value: Seq<char>) -> Seq<char>;

/// `cssparser::serialize_string`, written into a new string.
#[verifier::external_body]
fn serialize_string(value: &str) -> (r: String)
    ensures
        r@ == string_text(value@),
{
    let mut dest = String::new();
    let _ = cssparser::serialize_string(value, &mut dest);
    dest
}

/// The text of a list of row strings: each as `serialize_string` writes it,
/// with one space between two of them.
pub open spec fn strings_text(strings: Seq<Seq<char>>) -> Seq<char>
    decreases strings.len(),
{
    if strings.len() == 0 {
        Seq::empty()
    } else if strings.len() == 1 {
        string_text(strings[0])
    } else {
        strings_text(strings.drop_last()) + " "@ + string_text(strings.last())
    }
}

impl TemplateAreasParser {
    /// Takes the quoted string at the cursor as one more row. Where no
    /// string stands there the failure is `Grammar`; a row that the merger
    /// refuses fails as the merger says. A failure consumes nothing and
    /// leaves the merger as it was.
    pub fn try_parse_string(&mut self, input: &mut Cursor) -> (r: Result<(), ParseFailure>)
        requires
            old(self)@.wf(),
            old(input).wf(),
        ensures
            final(self)@.wf(),
            final(input).wf(),
            final(input).tokens() == old(input).tokens(),
            match string_at(old(input).tokens(), old(input).position() as int) {
                None => {
                    &&& r == Err::<(), ParseFailure>(ParseFailure::Grammar)
                    &&& final(self)@ == old(self)@
                    &&& final(input).position() == old(input).position()
                },
                Some(text) => match merge_row(old(self)@, text) {
                    Ok(merged) => {
                        &&& r is Ok
                        &&& final(self)@ == merged
                        &&& final(input).position() == old(input).position() + 1
                    },
                    Err(failure) => {
                        &&& r == Err::<(), ParseFailure>(failure)
                        &&& final(self)@ == old(self)@
                        &&& final(input).position() == old(input).position()
                    },
                },
            },
    {
        let start = input.mark();
        let string = match input.next() {
            Some(Token::QuotedString(string)) => string,
            Some(_) => {
                input.reset(start);
                return Err(ParseFailure::Grammar);
            },
            None => {
                return Err(ParseFailure::Grammar);
            },
        };
        match self.parse_string(string.as_str()) {
            Ok(()) => Ok(()),
            Err(failure) => {
                input.reset(start);
                Err(failure)
            },
        }
    }
}

impl TemplateAreas {
    /// The canonical text of the value: the normalized row strings, quoted,
    /// with one space between two of them.
    pub open spec fn text(&self) -> Seq<char> {
        strings_text(self@.strings)
    }

    /// Parses the row strings at the cursor into template areas. A failure
    /// consumes nothing.
    pub fn parse(input: &mut Cursor) -> (r: Result<Self, ParseFailure>)
        requires
            old(input).wf(),
        ensures
            final(input).wf(),
            final(input).tokens() == old(input).tokens(),
            match template_areas_at(old(input).tokens(), old(input).position() as int) {
                Ok((areas, next)) => {
                    &&& r is Ok
                    &&& r->Ok_0@ == areas
                    &&& areas.valid()
                    &&& final(input).position() == next
                },
                Err(failure) => {
                    &&& r is Err
                    &&& r->Err_0 == failure
                    &&& final(input).position() == old(input).position()
                },
            },
    {
        let start = input.mark();
        let ghost tokens = input.tokens();
        let mut parser = TemplateAreasParser::default();
        loop
            invariant
                input.wf(),
                input.tokens() == tokens,
                tokens == old(input).tokens(),
                start == old(input).position(),
                start <= input.position(),
                parser@.wf(),
                rows_from(no_rows(), tokens, start as int) == rows_from(
                    parser@,
                    tokens,
                    input.position() as int,
                ),
            ensures
                input.wf(),
                input.tokens() == tokens,
                parser@.wf(),
                rows_from(no_rows(), tokens, start as int) == Ok::<
                    (MergerView, int),
                    ParseFailure,
                >((parser@, input.position() as int)),
            decreases tokens.len() - input.position(),
        {
            match parser.try_parse_string(input) {
                Ok(()) => {},
                Err(ParseFailure::Grammar) => {
                    break ;
                },
                Err(failure) => {
                    input.reset(start);
                    return Err(failure);
                },
            }
        }
        match parser.finish() {
            Ok(areas) => Ok(areas),
            Err(failure) => {
                input.reset(start);
                Err(failure)
            },
        }
    }

    /// Writes the value in its canonical form.
    pub fn to_css(&self) -> (r: String)
        ensures
            r@ == self.text(),
    {
        let mut dest = String::new();
        let ghost strings = strings_view(self.strings@);
        let mut i: usize = 0;
        proof {
            assert(strings.take(0) =~= Seq::<Seq<char>>::empty());
        }
        while i < self.strings.len()
            invariant
                i <= self.strings.len(),
                strings == strings_view(self.strings@),
                dest@ == strings_text(strings.take(i as int)),
            decreases self.strings.len() - i,
        {
            if i > 0 {
                dest.append(" ");
            }
            dest.append(serialize_string(self.strings[i].as_str()).as_str());
            proof {
                assert(strings.take(i + 1).drop_last() =~= strings.take(i as int));
                assert(dest@ =~= strings_text(strings.take(i + 1)));
            }
            i = i + 1;
        }
        proof {
            assert(strings.take(i as int) =~= strings);
        }
        dest
    }
}

/// `servo_arc::Arc`, a shared pointer: a value that is carried, never looked
/// into.
#[verifier::external_type_specification]
#[verifier::external_body]
#[verifier::reject_recursive_types(T)]
pub struct ExArc<T: ?Sized>(Arc<T>);

/// The template areas that a shared pointer points to.
pub uninterp spec fn shared_areas(areas: &Arc<TemplateAreas>) -> TemplateAreasView;

/// `servo_arc::Arc::new`: a shared pointer to the value.
#[verifier::external_body]
fn share_areas(areas: TemplateAreas) -> (r: Arc<TemplateAreas>)
    ensures
        shared_areas(&r) == areas@,
{
    Arc::new(areas)
}

/// Dereferencing a `servo_arc::Arc`: the value that it points to.
#[verifier::external_body]
fn borrow_areas(areas: &Arc<TemplateAreas>) -> (r: &TemplateAreas)
    ensures
        r@ == shared_areas(areas),
{
    &**areas
}

/// Template areas behind a shared pointer: a copy shares the areas.
#[derive(Debug, PartialEq, Eq, Hash)]
pub struct TemplateAreasArc(pub Arc<TemplateAreas>);

impl View for TemplateAreasArc {
    type V = TemplateAreasView;

    open spec fn view(&self) -> TemplateAreasView {
        shared_areas(&self.0)
    }
}

impl TemplateAreasArc {
    /// Shares the given template areas.
    pub fn new(areas: TemplateAreas) -> (r: Self)
        ensures
            r@ == areas@,
    {
        TemplateAreasArc(share_areas(areas))
    }

    /// The template areas.
    pub fn areas(&self) -> (r: &TemplateAreas)
        ensures
            r@ == self@,
    {
        borrow_areas(&self.0)
    }

    /// Parses the row strings at the cursor into shared template areas. A
    /// failure consumes nothing.
    pub fn parse(input: &mut Cursor) -> (r: Result<Self, ParseFailure>)
        requires
            old(input).wf(),
        ensures
            final(input).wf(),
            final(input).tokens() == old(input).tokens(),
            match template_areas_at(old(input).tokens(), old(input).position() as int) {
                Ok((areas, next)) => {
                    &&& r is Ok
                    &&& r->Ok_0@ == areas
                    &&& areas.valid()
                    &&& final(input).position() == next
                },
                Err(failure) => {
                    &&& r is Err
                    &&& r->Err_0 == failure
                    &&& final(input).position() == old(input).position()
                },
            },
    {
        match TemplateAreas::parse(input) {
            Ok(parsed) => Ok(TemplateAreasArc::new(parsed)),
            Err(failure) => Err(failure),
        }
    }
}

/// The value of `grid-template-areas`: the named grid areas.
#[derive(Debug, PartialEq, Eq, Hash)]
pub enum GridTemplateAreas {
    /// The `none` value.
    NoAreas,
    /// The actual value.
    Areas(TemplateAreasArc),
}

/// The value of `grid-template-areas` that starts at index `at`, and the
/// index after it: `none`, which has no areas, or the row strings.
pub open spec fn grid_template_areas_at(tokens: Seq<Token>, at: int) -> Result<
    (Option<TemplateAreasView>, int),
    ParseFailure,
> {
    if ident_at(tokens, at, "none"@) {
        Ok((None, at + 1))
    } else {
        match template_areas_at(tokens, at) {
            Ok((areas, next)) => Ok((Some(areas), next)),
            Err(failure) => Err(failure),
        }
    }
}

impl GridTemplateAreas {
    /// The areas of the value; `none` has no areas.
    pub open spec fn areas(&self) -> Option<TemplateAreasView> {
        match self {
            GridTemplateAreas::NoAreas => None,
            GridTemplateAreas::Areas(areas) => Some(areas@),
        }
    }

    /// Get default value as `none`
    #[inline]
    pub fn none() -> (r: GridTemplateAreas)
        ensures
            r.areas() is None,
    {
        GridTemplateAreas::NoAreas
    }

    /// Parses a `grid-template-areas` value. A failure consumes nothing.
    pub fn parse(input: &mut Cursor) -> (r: Result<Self, ParseFailure>)
        requires
            old(input).wf(),
        ensures
            final(input).wf(),
            final(input).tokens() == old(input).tokens(),
            match grid_template_areas_at(old(input).tokens(), old(input).position() as int) {
                Ok((areas, next)) => {
                    &&& r is Ok
                    &&& r->Ok_0.areas() == areas
                    &&& areas matches Some(a) ==> a.valid()
                    &&& final(input).position() == next
                },
                Err(failure) => {
                    &&& r is Err
                    &&& r->Err_0 == failure
                    &&& final(input).position() == old(input).position()
                },
            },
    {
        if try_ident(input, "none") {
            return Ok(GridTemplateAreas::NoAreas);
        }
        match TemplateAreasArc::parse(input) {
            Ok(areas) => Ok(GridTemplateAreas::Areas(areas)),
            Err(failure) => Err(failure),
        }
    }

    /// Writes the value in its canonical form: `none`, or the row strings.
    pub fn to_css(&self) -> (r: String)
        ensures
            r@ == match self.areas() {
                None => "none"@,
                Some(areas) => strings_text(areas.strings),
            },
    {
        match self {
            GridTemplateAreas::NoAreas => "none".to_owned(),
            GridTemplateAreas::Areas(areas) => areas.areas().to_css(),
        }
    }
}

} // verus!
