//! What the merger of template rows guarantees: the areas that it hands out
//! are exactly the rectangles that the names fill in the grid.

use crate::error::ParseFailure;
use crate::grid::{
    lemma_merge_row_wf, lemma_position_of, lemma_row_start_wf, lemma_scan_cell_wf,
    lemma_scan_cells_step, merge_row, no_rows, open_area_ends_at, position_of, row_start,
    rows_from, scan_cell, scan_cells, string_at, template_areas_at, MergerView, NamedAreaView,
    RowScan, MAX_CELLS,
};
use crate::grid_cells::{cells_of, Cell};
use crate::token::Token;
use vstd::prelude::*;

verus! {

/// Takes the row strings into the merger one after another; the first row
/// that fails fails the whole.
pub open spec fn merge_rows(m: MergerView, texts: Seq<Seq<char>>) -> Result<
    MergerView,
    ParseFailure,
>
    decreases texts.len(),
{
    if texts.len() == 0 {
        Ok(m)
    } else {
        match merge_rows(m, texts.drop_last()) {
            Ok(mid) => merge_row(mid, texts.last()),
            Err(failure) => Err(failure),
        }
    }
}

/// The cells of each row string.
pub open spec fn grid_of(texts: Seq<Seq<char>>) -> Seq<Seq<Cell>> {
    Seq::new(texts.len(), |i: int| cells_of(texts[i])->0)
}

/// The cell at row `r` and column `c`, both counted from 1.
pub open spec fn cell(grid: Seq<Seq<Cell>>, r: int, c: int) -> Cell {
    grid[r - 1][c - 1]
}

/// Whether the cell at row `r` and column `c` lies in the area's rectangle.
pub open spec fn contains(area: NamedAreaView, r: int, c: int) -> bool {
    area.rows.start <= r < area.rows.end && area.columns.start <= c < area.columns.end
}

/// Whether row `r` and column `c` name a cell of a grid of that many rows
/// and columns.
pub open spec fn inside(rows: int, width: int, r: int, c: int) -> bool {
    1 <= r <= rows && 1 <= c <= width
}

/// Whether the areas are what the names fill in the grid: every row has
/// `width` cells; every cell of an area's rectangle lies in the grid and holds
/// the area's name; and every cell that holds a name lies in the rectangle of
/// an area of that name.
pub open spec fn areas_describe(
    areas: Seq<NamedAreaView>,
    grid: Seq<Seq<Cell>>,
    width: int,
) -> bool {
    &&& forall|r: int| 0 <= r < grid.len() ==> (#[trigger] grid[r]).len() == width
    &&& forall|i: int, r: int, c: int|
        0 <= i < areas.len() && #[trigger] contains(areas[i], r, c) ==> inside(
            grid.len() as int,
            width,
            r,
            c,
        ) && cell(grid, r, c) == Cell::Name(areas[i].name)
    &&& forall|r: int, c: int|
        inside(grid.len() as int, width, r, c) && (#[trigger] cell(grid, r, c)) is Name
            ==> exists|i: int|
            0 <= i < areas.len() && areas[i].name == cell(grid, r, c)->Name_0
                && #[trigger] contains(areas[i], r, c)
}

/// Whether the cell at row `r` and column `c` belongs to area `i` while row
/// `row` is being read: in the rows before, the cells of the area's
/// rectangle; in row `row`, the cells from the area's first column on, up to
/// the last column read where the area is the open one and up to its last
/// column where it is not.
pub open spec fn in_scan(st: RowScan, row: int, i: int, r: int, c: int) -> bool {
    let a = st.areas[i];
    if r < row {
        contains(a, r, c)
    } else if r == row {
        &&& a.rows.start <= row < a.rows.end
        &&& a.columns.start <= c
        &&& if st.open == Some(i) {
            c <= st.column
        } else {
            c < a.columns.end
        }
    } else {
        false
    }
}

/// The cell at row `r` and column `c` of the grid with the row that is being
/// read below it.
pub open spec fn cell_in(grid: Seq<Seq<Cell>>, current: Seq<Cell>, r: int, c: int) -> Cell {
    if r <= grid.len() {
        grid[r - 1][c - 1]
    } else {
        current[c - 1]
    }
}

/// Whether the cell at row `r` and column `c` has been read: it lies in one
/// of the `rows` rows before, or among the first `column` cells of the row
/// after them.
pub open spec fn read(rows: int, width: int, column: int, r: int, c: int) -> bool {
    1 <= c && ((1 <= r <= rows && c <= width) || (r == rows + 1 && c <= column))
}

/// What holds while row `grid.len() + 1` is being read, `current` being its
/// cells read so far: the areas are what the names fill in the cells read.
pub open spec fn scan_describes(
    st: RowScan,
    grid: Seq<Seq<Cell>>,
    current: Seq<Cell>,
    width: u32,
) -> bool {
    let row = (grid.len() + 1) as int;
    &&& row <= MAX_CELLS
    &&& st.wf(width, row as u32)
    &&& st.column == current.len()
    &&& forall|r: int| 0 <= r < grid.len() ==> (#[trigger] grid[r]).len() == width
    &&& st.open matches Some(i) ==> st.areas[i].columns.start <= st.column
    &&& forall|i: int, r: int, c: int|
        0 <= i < st.areas.len() && #[trigger] in_scan(st, row, i, r, c) ==> read(
            grid.len() as int,
            width as int,
            st.column as int,
            r,
            c,
        ) && cell_in(grid, current, r, c) == Cell::Name(st.areas[i].name)
    &&& forall|r: int, c: int|
        read(grid.len() as int, width as int, st.column as int, r, c) && (#[trigger] cell_in(
            grid,
            current,
            r,
            c,
        )) is Name ==> exists|i: int|
            0 <= i < st.areas.len() && st.areas[i].name == cell_in(grid, current, r, c)->Name_0
                && #[trigger] in_scan(st, row, i, r, c)
}

/// One cell more keeps the areas what the names fill in the cells read.
pub proof fn lemma_scan_cell_describes(
    st: RowScan,
    grid: Seq<Seq<Cell>>,
    current: Seq<Cell>,
    width: u32,
    next: Cell,
)
    requires
        scan_describes(st, grid, current, width),
        scan_cell(st, (grid.len() + 1) as u32, next) is Some,
    ensures
        scan_describes(
            scan_cell(st, (grid.len() + 1) as u32, next)->0,
            grid,
            current.push(next),
            width,
        ),
{
    let row = (grid.len() + 1) as u32;
    let after = scan_cell(st, row, next)->0;
    let cells = current.push(next);
    let k = st.column as int;
    lemma_scan_cell_wf(st, width, row, next);
    assert(after.column == k + 1);
    assert forall|r: int, c: int|
        read(grid.len() as int, width as int, k, r, c) implies cell_in(grid, cells, r, c)
        == cell_in(grid, current, r, c) by {}
    match next {
        Cell::Null => {
            assert forall|i: int, r: int, c: int|
                0 <= i < after.areas.len() && #[trigger] in_scan(
                    after,
                    row as int,
                    i,
                    r,
                    c,
                ) implies in_scan(st, row as int, i, r, c) by {}
            assert forall|r: int, c: int|
                read(grid.len() as int, width as int, k + 1, r, c) && (#[trigger] cell_in(
                    grid,
                    cells,
                    r,
                    c,
                )) is Name implies exists|i: int|
                0 <= i < after.areas.len() && after.areas[i].name == cell_in(
                    grid,
                    cells,
                    r,
                    c,
                )->Name_0 && #[trigger] in_scan(after, row as int, i, r, c) by {
                assert(read(grid.len() as int, width as int, k, r, c));
                assert(cell_in(grid, current, r, c) is Name);
                let i = choose|i: int|
                    0 <= i < st.areas.len() && st.areas[i].name == cell_in(
                        grid,
                        current,
                        r,
                        c,
                    )->Name_0 && #[trigger] in_scan(st, row as int, i, r, c);
                assert(in_scan(after, row as int, i, r, c));
            }
        },
        Cell::Name(name) => {
            lemma_position_of(st.areas, name);
            let fresh = if st.open is Some && st.areas[st.open->0].name == name {
                st.open->0
            } else {
                match position_of(st.areas, name) {
                    Some(j) => j,
                    None => st.areas.len() as int,
                }
            };
            assert(after.open == Some(fresh));
            assert(after.areas[fresh].name == name);
            assert(in_scan(after, row as int, fresh, row as int, k + 1));
            assert forall|i: int, r: int, c: int|
                0 <= i < after.areas.len() && #[trigger] in_scan(
                    after,
                    row as int,
                    i,
                    r,
                    c,
                ) implies read(grid.len() as int, width as int, k + 1, r, c) && cell_in(
                grid,
                cells,
                r,
                c,
            ) == Cell::Name(after.areas[i].name) by {
                if r == row && c == k + 1 {
                    if i != fresh {
                        assert(in_scan(st, row as int, i, r, c));
                    }
                } else {
                    assert(in_scan(st, row as int, i, r, c));
                }
            }
            assert forall|r: int, c: int|
                read(grid.len() as int, width as int, k + 1, r, c) && (#[trigger] cell_in(
                    grid,
                    cells,
                    r,
                    c,
                )) is Name implies exists|i: int|
                0 <= i < after.areas.len() && after.areas[i].name == cell_in(
                    grid,
                    cells,
                    r,
                    c,
                )->Name_0 && #[trigger] in_scan(after, row as int, i, r, c) by {
                if r == row && c == k + 1 {
                    assert(in_scan(after, row as int, fresh, r, c));
                } else {
                    assert(read(grid.len() as int, width as int, k, r, c));
                    assert(cell_in(grid, current, r, c) is Name);
                    let i = choose|i: int|
                        0 <= i < st.areas.len() && st.areas[i].name == cell_in(
                            grid,
                            current,
                            r,
                            c,
                        )->Name_0 && #[trigger] in_scan(st, row as int, i, r, c);
                    assert(in_scan(after, row as int, i, r, c));
                }
            }
        },
    }
}


/// The cells of a row that the merger reads keep the areas what the names
/// fill in the cells read.
pub proof fn lemma_scan_cells_describes(
    start: RowScan,
    grid: Seq<Seq<Cell>>,
    width: u32,
    cells: Seq<Cell>,
)
    requires
        scan_describes(start, grid, Seq::empty(), width),
        scan_cells(start, (grid.len() + 1) as u32, cells) is Some,
    ensures
        scan_describes(scan_cells(start, (grid.len() + 1) as u32, cells)->0, grid, cells, width),
    decreases cells.len(),
{
    if cells.len() == 0 {
        assert(cells =~= Seq::empty());
    } else {
        let row = (grid.len() + 1) as u32;
        lemma_scan_cells_describes(start, grid, width, cells.drop_last());
        lemma_scan_cell_describes(
            scan_cells(start, row, cells.drop_last())->0,
            grid,
            cells.drop_last(),
            width,
            cells.last(),
        );
        assert(cells.drop_last().push(cells.last()) =~= cells);
    }
}

/// A row that the merger takes keeps the areas what the names fill in the
/// grid.
pub proof fn lemma_merge_row_describes(m: MergerView, grid: Seq<Seq<Cell>>, text: Seq<char>)
    requires
        m.wf(),
        m.row == grid.len(),
        areas_describe(m.areas, grid, m.width as int),
        merge_row(m, text) is Ok,
    ensures
        cells_of(text) is Some,
        merge_row(m, text)->Ok_0.wf(),
        merge_row(m, text)->Ok_0.row == grid.len() + 1,
        areas_describe(
            merge_row(m, text)->Ok_0.areas,
            grid.push(cells_of(text)->0),
            merge_row(m, text)->Ok_0.width as int,
        ),
{
    let cells = cells_of(text)->0;
    let row = (m.row + 1) as u32;
    let start = row_start(m);
    let merged = merge_row(m, text)->Ok_0;
    let end = scan_cells(start, row, cells)->0;
    let rows = grid.push(cells);
    lemma_row_start_wf(m);
    lemma_merge_row_wf(m, text);
    assert forall|i: int, r: int, c: int|
        0 <= i < start.areas.len() && #[trigger] in_scan(start, row as int, i, r, c) implies read(
        grid.len() as int,
        m.width as int,
        0,
        r,
        c,
    ) && cell_in(grid, Seq::empty(), r, c) == Cell::Name(start.areas[i].name) by {
        assert(contains(m.areas[i], r, c));
    }
    assert forall|r: int, c: int|
        read(grid.len() as int, m.width as int, 0, r, c) && (#[trigger] cell_in(
            grid,
            Seq::empty(),
            r,
            c,
        )) is Name implies exists|i: int|
        0 <= i < start.areas.len() && start.areas[i].name == cell_in(
            grid,
            Seq::empty(),
            r,
            c,
        )->Name_0 && #[trigger] in_scan(start, row as int, i, r, c) by {
        assert(cell(grid, r, c) is Name);
        let i = choose|i: int|
            0 <= i < m.areas.len() && m.areas[i].name == cell(grid, r, c)->Name_0
                && #[trigger] contains(m.areas[i], r, c);
        assert(in_scan(start, row as int, i, r, c));
    }
    assert(scan_describes(start, grid, Seq::empty(), m.width));
    lemma_scan_cells_describes(start, grid, m.width, cells);
    assert(scan_describes(end, grid, cells, m.width));
    assert forall|r: int| 0 <= r < rows.len() implies (#[trigger] rows[r]).len()
        == merged.width by {
        if r < grid.len() {
            assert(rows[r] == grid[r]);
        }
    }
    assert forall|i: int, r: int, c: int|
        0 <= i < merged.areas.len() && #[trigger] contains(merged.areas[i], r, c) implies inside(
        rows.len() as int,
        merged.width as int,
        r,
        c,
    ) && cell(rows, r, c) == Cell::Name(merged.areas[i].name) by {
        assert(in_scan(end, row as int, i, r, c));
        assert(cell_in(grid, cells, r, c) == cell(rows, r, c));
    }
    assert forall|r: int, c: int|
        inside(rows.len() as int, merged.width as int, r, c) && (#[trigger] cell(rows, r, c))
            is Name implies exists|i: int|
        0 <= i < merged.areas.len() && merged.areas[i].name == cell(rows, r, c)->Name_0
            && #[trigger] contains(merged.areas[i], r, c) by {
        assert(cell_in(grid, cells, r, c) == cell(rows, r, c));
        assert(read(grid.len() as int, m.width as int, end.column as int, r, c));
        let i = choose|i: int|
            0 <= i < end.areas.len() && end.areas[i].name == cell_in(grid, cells, r, c)->Name_0
                && #[trigger] in_scan(end, row as int, i, r, c);
        assert(contains(merged.areas[i], r, c));
    }
}

/// The areas that the merger hands out are the rectangles that the names
/// fill in the grid. Where the merger takes the row strings `texts` one
/// after another: each string has cells, as many as the grid is wide; every
/// cell of an area's rectangle holds the area's name; every cell that holds a
/// name lies in the rectangle of the area of that name; and no two areas have
/// the same name. So a name fills one rectangle, without holes, and no cell
/// belongs to two areas.
pub proof fn lemma_areas_are_rectangles_of_names(texts: Seq<Seq<char>>)
    requires
        merge_rows(no_rows(), texts) is Ok,
    ensures
        merge_rows(no_rows(), texts)->Ok_0.wf(),
        merge_rows(no_rows(), texts)->Ok_0.row == texts.len(),
        forall|r: int| 0 <= r < texts.len() ==> cells_of(#[trigger] texts[r]) is Some,
        areas_describe(
            merge_rows(no_rows(), texts)->Ok_0.areas,
            grid_of(texts),
            merge_rows(no_rows(), texts)->Ok_0.width as int,
        ),
    decreases texts.len(),
{
    if texts.len() == 0 {
        assert(grid_of(texts) =~= Seq::empty());
    } else {
        let before = texts.drop_last();
        lemma_areas_are_rectangles_of_names(before);
        let m = merge_rows(no_rows(), before)->Ok_0;
        assert forall|r: int| 0 <= r < before.len() implies before[r] == texts[r] by {}
        lemma_merge_row_describes(m, grid_of(before), texts.last());
        assert(grid_of(texts) =~= grid_of(before).push(cells_of(texts.last())->0));
        assert forall|r: int| 0 <= r < texts.len() implies cells_of(#[trigger] texts[r])
            is Some by {
            if r < before.len() {
                assert(before[r] == texts[r]);
            }
        }
    }
}


/// Taking a row and then more rows is taking them all.
pub proof fn lemma_merge_rows_first(m: MergerView, first: Seq<char>, rest: Seq<Seq<char>>)
    ensures
        merge_rows(m, seq![first] + rest) == match merge_row(m, first) {
            Ok(mid) => merge_rows(mid, rest),
            Err(failure) => Err(failure),
        },
    decreases rest.len(),
{
    let all = seq![first] + rest;
    if rest.len() == 0 {
        assert(all.drop_last() =~= Seq::<Seq<char>>::empty());
        assert(all.last() == first);
        assert(merge_rows(m, all.drop_last()) == Ok::<MergerView, ParseFailure>(m));
    } else {
        lemma_merge_rows_first(m, first, rest.drop_last());
        assert(all.drop_last() =~= seq![first] + rest.drop_last());
        assert(all.last() == rest.last());
    }
}

/// The texts of the tokens from index `from` up to index `to`, each taken
/// for a quoted string.
pub open spec fn strings_between(tokens: Seq<Token>, from: int, to: int) -> Seq<Seq<char>> {
    Seq::new((to - from) as nat, |i: int| string_at(tokens, from + i)->0)
}

/// The rows that are read at the cursor are the quoted strings that stand
/// there, taken one after another.
pub proof fn lemma_rows_from_is_merge_rows(m: MergerView, tokens: Seq<Token>, at: int)
    requires
        0 <= at,
        rows_from(m, tokens, at) is Ok,
    ensures
        at <= rows_from(m, tokens, at)->Ok_0.1,
        merge_rows(m, strings_between(tokens, at, rows_from(m, tokens, at)->Ok_0.1)) == Ok::<
            MergerView,
            ParseFailure,
        >(rows_from(m, tokens, at)->Ok_0.0),
    decreases tokens.len() - at,
{
    let next = rows_from(m, tokens, at)->Ok_0.1;
    match string_at(tokens, at) {
        None => {
            assert(strings_between(tokens, at, next) =~= Seq::<Seq<char>>::empty());
        },
        Some(text) => {
            let mid = merge_row(m, text)->Ok_0;
            lemma_rows_from_is_merge_rows(mid, tokens, at + 1);
            lemma_merge_rows_first(m, text, strings_between(tokens, at + 1, next));
            assert(strings_between(tokens, at, next) =~= seq![text] + strings_between(
                tokens,
                at + 1,
                next,
            ));
        },
    }
}

/// The template areas that are parsed at the cursor are the rectangles that
/// the names fill in the grid of the quoted strings that stand there: every
/// cell of an area's rectangle holds the area's name, and every cell that
/// holds a name lies in the rectangle of an area of that name.
pub proof fn lemma_parsed_areas_are_rectangles_of_names(tokens: Seq<Token>, at: int)
    requires
        0 <= at,
        template_areas_at(tokens, at) is Ok,
    ensures
        at < template_areas_at(tokens, at)->Ok_0.1,
        areas_describe(
            template_areas_at(tokens, at)->Ok_0.0.areas,
            grid_of(strings_between(tokens, at, template_areas_at(tokens, at)->Ok_0.1)),
            template_areas_at(tokens, at)->Ok_0.0.width as int,
        ),
{
    let next = template_areas_at(tokens, at)->Ok_0.1;
    lemma_rows_from_is_merge_rows(no_rows(), tokens, at);
    lemma_areas_are_rectangles_of_names(strings_between(tokens, at, next));
}


/// Whether the areas are rectangles that the names fill in the grid, each of
/// at least one cell and no two of the same name.
pub open spec fn rectangles_of_names(
    areas: Seq<NamedAreaView>,
    grid: Seq<Seq<Cell>>,
    width: int,
) -> bool {
    &&& areas_describe(areas, grid, width)
    &&& forall|j: int|
        0 <= j < areas.len() ==> {
            let t = #[trigger] areas[j];
            t.rows.start < t.rows.end && t.columns.start < t.columns.end
        }
    &&& forall|i: int, j: int|
        0 <= i < j < areas.len() ==> (#[trigger] areas[i]).name != (#[trigger] areas[j]).name
}

/// The lesser of two numbers.
pub open spec fn lesser(a: int, b: int) -> int {
    if a <= b {
        a
    } else {
        b
    }
}

/// Whether the merger's area `a` is the part of the rectangle `t` that has
/// been read when `column` cells of row `row` are read: the same name and
/// the same first row and column; of a rectangle that begins in this row, the
/// columns read; of one that began before, all its columns, and its rows down
/// to this one where its first column has been read in this row.
pub open spec fn part_read(a: NamedAreaView, t: NamedAreaView, row: int, column: int) -> bool {
    &&& a.name == t.name
    &&& a.rows.start == t.rows.start
    &&& a.columns.start == t.columns.start
    &&& if t.rows.start == row {
        &&& a.rows.end == row + 1
        &&& t.columns.start <= column
        &&& a.columns.end == lesser(t.columns.end as int, column + 1)
    } else {
        &&& t.rows.start < row
        &&& a.columns.end == t.columns.end
        &&& a.rows.end == if row < t.rows.end && t.columns.start <= column {
            row + 1
        } else {
            lesser(t.rows.end as int, row)
        }
    }
}

/// Whether the first cell of the rectangle has been read when `column`
/// cells of row `row` are read.
pub open spec fn begun(t: NamedAreaView, row: int, column: int) -> bool {
    t.rows.start < row || (t.rows.start == row && t.columns.start <= column)
}

/// Whether the merger's state is what has been read of the rectangles
/// `truth` when `st.column` cells of row `row` are read: its areas are the
/// parts read of the rectangles that have begun, and the open area is the one
/// of the last cell read.
pub open spec fn follows(
    st: RowScan,
    truth: Seq<NamedAreaView>,
    grid: Seq<Seq<Cell>>,
    row: int,
) -> bool {
    let column = st.column as int;
    &&& forall|i: int|
        0 <= i < st.areas.len() ==> {
            &&& position_of(truth, (#[trigger] st.areas[i]).name) matches Some(j)
            &&& part_read(st.areas[i], truth[j], row, column)
        }
    &&& forall|j: int|
        0 <= j < truth.len() && begun(#[trigger] truth[j], row, column) ==> position_of(
            st.areas,
            truth[j].name,
        ) is Some
    &&& st.open == if column >= 1 && cell(grid, row, column) is Name {
        position_of(st.areas, cell(grid, row, column)->Name_0)
    } else {
        None
    }
}

/// In a sequence without two areas of one name, an area is the first of its
/// name.
pub proof fn lemma_position_of_member(areas: Seq<NamedAreaView>, j: int)
    requires
        0 <= j < areas.len(),
        forall|i: int, j: int|
            0 <= i < j < areas.len() ==> (#[trigger] areas[i]).name != (#[trigger] areas[j]).name,
    ensures
        position_of(areas, areas[j].name) == Some(j),
{
    lemma_position_of(areas, areas[j].name);
}

/// The rectangle that fills a cell which holds a name.
pub proof fn lemma_rectangle_of_cell(
    truth: Seq<NamedAreaView>,
    grid: Seq<Seq<Cell>>,
    width: int,
    r: int,
    c: int,
)
    requires
        rectangles_of_names(truth, grid, width),
        inside(grid.len() as int, width, r, c),
        cell(grid, r, c) is Name,
    ensures
        position_of(truth, cell(grid, r, c)->Name_0) matches Some(j) && 0 <= j < truth.len()
            && contains(truth[j], r, c) && truth[j].name == cell(grid, r, c)->Name_0,
{
    let i = choose|i: int|
        0 <= i < truth.len() && truth[i].name == cell(grid, r, c)->Name_0 && #[trigger] contains(
            truth[i],
            r,
            c,
        );
    lemma_position_of_member(truth, i);
}

/// A cell of a rectangle lies in the grid and holds the rectangle's name.
pub proof fn lemma_cell_of_rectangle(
    truth: Seq<NamedAreaView>,
    grid: Seq<Seq<Cell>>,
    width: int,
    j: int,
    r: int,
    c: int,
)
    requires
        rectangles_of_names(truth, grid, width),
        0 <= j < truth.len(),
        contains(truth[j], r, c),
    ensures
        inside(grid.len() as int, width, r, c),
        cell(grid, r, c) == Cell::Name(truth[j].name),
{
}


/// Two sequences of areas with the same names, place by place, have every
/// name at the same place.
pub proof fn lemma_position_of_same_names(
    a: Seq<NamedAreaView>,
    b: Seq<NamedAreaView>,
    name: Seq<char>,
)
    requires
        a.len() == b.len(),
        forall|i: int| 0 <= i < a.len() ==> (#[trigger] a[i]).name == b[i].name,
    ensures
        position_of(a, name) == position_of(b, name),
    decreases a.len(),
{
    if a.len() > 0 {
        let front = a.drop_last();
        assert forall|i: int| 0 <= i < front.len() implies (#[trigger] front[i]).name
            == b.drop_last()[i].name by {
            assert(a[i].name == b[i].name);
        }
        lemma_position_of_same_names(a.drop_last(), b.drop_last(), name);
        assert(a.last().name == b.last().name) by {
            assert(a[a.len() - 1].name == b[a.len() - 1].name);
        }
    }
}

/// Where a name is once one more area stands at the end.
pub proof fn lemma_position_of_push(a: Seq<NamedAreaView>, area: NamedAreaView, name: Seq<char>)
    ensures
        position_of(a.push(area), name) == match position_of(a, name) {
            Some(i) => Some(i),
            None => if area.name == name {
                Some(a.len() as int)
            } else {
                None
            },
        },
{
    assert(a.push(area).drop_last() =~= a);
}

/// Whether no two of the areas have the same name.
pub open spec fn distinct_names(areas: Seq<NamedAreaView>) -> bool {
    forall|i: int, j: int|
        0 <= i < j < areas.len() ==> (#[trigger] areas[i]).name != (#[trigger] areas[j]).name
}

/// The merger takes the next cell of a grid of rectangles, and its state
/// goes on being what has been read of them.
pub proof fn lemma_scan_cell_accepts(
    st: RowScan,
    truth: Seq<NamedAreaView>,
    grid: Seq<Seq<Cell>>,
    width: int,
    row: int,
)
    requires
        rectangles_of_names(truth, grid, width),
        1 <= row <= grid.len() <= MAX_CELLS,
        0 <= st.column < width <= MAX_CELLS,
        distinct_names(st.areas),
        follows(st, truth, grid, row),
    ensures
        scan_cell(st, row as u32, cell(grid, row, st.column + 1)) is Some,
        scan_cell(st, row as u32, cell(grid, row, st.column + 1))->0.column == st.column + 1,
        distinct_names(scan_cell(st, row as u32, cell(grid, row, st.column + 1))->0.areas),
        follows(scan_cell(st, row as u32, cell(grid, row, st.column + 1))->0, truth, grid, row),
{
    let k = st.column as int;
    let next = cell(grid, row, k + 1);
    // The open area is the part read of the rectangle of the last cell, and
    // where that rectangle does not reach the next cell it ends here.
    if st.open is Some {
        let n0 = cell(grid, row, k)->Name_0;
        let i0 = st.open->0;
        lemma_rectangle_of_cell(truth, grid, width, row, k);
        lemma_position_of(st.areas, n0);
        let j0 = position_of(truth, n0)->0;
        assert(part_read(st.areas[i0], truth[j0], row, k));
        if !(next is Name && next->Name_0 == n0) {
            if truth[j0].columns.end > k + 1 {
                assert(contains(truth[j0], row, k + 1));
                lemma_cell_of_rectangle(truth, grid, width, j0, row, k + 1);
            }
            assert(truth[j0].columns.end == k + 1);
            assert(open_area_ends_at(st, (k + 1) as u32));
        }
    }
    // A rectangle whose first cell is the next one holds a name there, and so
    // does one that began in a row before and whose first column is the next.
    assert forall|j: int|
        0 <= j < truth.len() && (#[trigger] truth[j]).columns.start == k + 1 && truth[j].rows.start
            <= row < truth[j].rows.end implies next == Cell::Name(truth[j].name) by {
        assert(contains(truth[j], row, k + 1));
        lemma_cell_of_rectangle(truth, grid, width, j, row, k + 1);
    }
    // A rectangle that has begun in this row and is not the one of the next
    // cell has ended.
    assert forall|j: int|
        0 <= j < truth.len() && (#[trigger] truth[j]).rows.start == row && truth[j].columns.start
            <= k && next != Cell::Name(truth[j].name) implies truth[j].columns.end <= k + 1 by {
        if truth[j].columns.end > k + 1 {
            assert(contains(truth[j], row, k + 1));
            lemma_cell_of_rectangle(truth, grid, width, j, row, k + 1);
        }
    }
    match next {
        Cell::Null => {
            let after = scan_cell(st, row as u32, next)->0;
            assert(after.areas == st.areas);
            assert forall|i: int| 0 <= i < after.areas.len() implies (position_of(
                truth,
                (#[trigger] after.areas[i]).name,
            ) matches Some(j) && part_read(after.areas[i], truth[j], row, k + 1)) by {
                let j = position_of(truth, st.areas[i].name)->0;
                lemma_position_of(truth, st.areas[i].name);
                assert(part_read(st.areas[i], truth[j], row, k));
            }
            assert forall|j: int|
                0 <= j < truth.len() && begun(
                    #[trigger] truth[j],
                    row,
                    k + 1,
                ) implies position_of(after.areas, truth[j].name) is Some by {
                assert(begun(truth[j], row, k));
            }
        },
        Cell::Name(name) => {
            lemma_rectangle_of_cell(truth, grid, width, row, k + 1);
            let j = position_of(truth, name)->0;
            lemma_position_of(st.areas, name);
            let after = scan_cell(st, row as u32, next)->0;
            if st.open is Some && st.areas[st.open->0].name == name {
                let i = st.open->0;
                assert(part_read(st.areas[i], truth[j], row, k));
                lemma_position_of_same_names(st.areas, after.areas, name);
                assert forall|x: int| 0 <= x < after.areas.len() implies (position_of(
                    truth,
                    (#[trigger] after.areas[x]).name,
                ) matches Some(y) && part_read(after.areas[x], truth[y], row, k + 1)) by {
                    let y = position_of(truth, st.areas[x].name)->0;
                    lemma_position_of(truth, st.areas[x].name);
                    assert(part_read(st.areas[x], truth[y], row, k));
                    if x != i {
                        assert(st.areas[x].name != st.areas[i].name);
                    }
                }
                assert forall|y: int|
                    0 <= y < truth.len() && begun(
                        #[trigger] truth[y],
                        row,
                        k + 1,
                    ) implies position_of(after.areas, truth[y].name) is Some by {
                    lemma_position_of_same_names(st.areas, after.areas, truth[y].name);
                    if !begun(truth[y], row, k) {
                        lemma_position_of_member(truth, y);
                    }
                }
            } else {
                // The cell before does not hold this name, so the rectangle
                // of the next cell begins at its column.
                if truth[j].columns.start <= k {
                    assert(contains(truth[j], row, k));
                    lemma_cell_of_rectangle(truth, grid, width, j, row, k);
                    assert(begun(truth[j], row, k));
                }
                assert(truth[j].columns.start == k + 1);
                match position_of(st.areas, name) {
                    Some(i) => {
                        assert(part_read(st.areas[i], truth[j], row, k));
                        lemma_position_of_same_names(st.areas, after.areas, name);
                        assert forall|x: int| 0 <= x < after.areas.len() implies (position_of(
                            truth,
                            (#[trigger] after.areas[x]).name,
                        ) matches Some(y) && part_read(after.areas[x], truth[y], row, k + 1)) by {
                            let y = position_of(truth, st.areas[x].name)->0;
                            lemma_position_of(truth, st.areas[x].name);
                            assert(part_read(st.areas[x], truth[y], row, k));
                            if x != i {
                                assert(st.areas[x].name != st.areas[i].name);
                            }
                        }
                        assert forall|y: int|
                            0 <= y < truth.len() && begun(
                                #[trigger] truth[y],
                                row,
                                k + 1,
                            ) implies position_of(after.areas, truth[y].name) is Some by {
                            lemma_position_of_same_names(st.areas, after.areas, truth[y].name);
                            if !begun(truth[y], row, k) {
                                lemma_position_of_member(truth, y);
                            }
                        }
                    },
                    None => {
                        if begun(truth[j], row, k) {
                            assert(position_of(st.areas, truth[j].name) is Some);
                        }
                        assert(truth[j].rows.start == row);
                        lemma_position_of_push(st.areas, after.areas.last(), name);
                        assert(after.areas =~= st.areas.push(after.areas.last()));
                        assert forall|x: int| 0 <= x < after.areas.len() implies (position_of(
                            truth,
                            (#[trigger] after.areas[x]).name,
                        ) matches Some(y) && part_read(after.areas[x], truth[y], row, k + 1)) by {
                            if x < st.areas.len() {
                                let y = position_of(truth, st.areas[x].name)->0;
                                lemma_position_of(truth, st.areas[x].name);
                                assert(part_read(st.areas[x], truth[y], row, k));
                                assert(st.areas[x].name != name);
                            }
                        }
                        assert forall|y: int|
                            0 <= y < truth.len() && begun(
                                #[trigger] truth[y],
                                row,
                                k + 1,
                            ) implies position_of(after.areas, truth[y].name) is Some by {
                            lemma_position_of_push(st.areas, after.areas.last(), truth[y].name);
                            if !begun(truth[y], row, k) {
                                lemma_position_of_member(truth, y);
                            }
                        }
                        assert forall|x: int, y: int|
                            0 <= x < y < after.areas.len() implies (#[trigger] after.areas[x]).name
                            != (#[trigger] after.areas[y]).name by {
                            if y == st.areas.len() {
                                assert(st.areas[x].name != name);
                            }
                        }
                    },
                }
            }
        },
    }
}


/// The merger takes the first `k` cells of a row of a grid of rectangles,
/// and its state goes on being what has been read of them.
pub proof fn lemma_scan_cells_accept(
    start: RowScan,
    truth: Seq<NamedAreaView>,
    grid: Seq<Seq<Cell>>,
    width: int,
    row: int,
    k: int,
)
    requires
        rectangles_of_names(truth, grid, width),
        1 <= row <= grid.len() <= MAX_CELLS,
        0 <= k <= width <= MAX_CELLS,
        start.column == 0,
        distinct_names(start.areas),
        follows(start, truth, grid, row),
    ensures
        scan_cells(start, row as u32, grid[row - 1].take(k)) is Some,
        scan_cells(start, row as u32, grid[row - 1].take(k))->0.column == k,
        distinct_names(scan_cells(start, row as u32, grid[row - 1].take(k))->0.areas),
        follows(scan_cells(start, row as u32, grid[row - 1].take(k))->0, truth, grid, row),
    decreases k,
{
    let cells = grid[row - 1];
    assert(cells.len() == width);
    if k == 0 {
        assert(cells.take(0) =~= Seq::<Cell>::empty());
    } else {
        lemma_scan_cells_accept(start, truth, grid, width, row, k - 1);
        let mid = scan_cells(start, row as u32, cells.take(k - 1))->0;
        lemma_scan_cells_step(start, row as u32, cells, k - 1);
        assert(cell(grid, row, k) == cells[k - 1]);
        lemma_scan_cell_accepts(mid, truth, grid, width, row);
    }
}

/// Whether the merger, `rows` rows taken, holds what has been read of the
/// rectangles `truth`.
pub open spec fn keeps_up(
    m: MergerView,
    truth: Seq<NamedAreaView>,
    grid: Seq<Seq<Cell>>,
    width: int,
    rows: int,
) -> bool {
    &&& m.row == rows
    &&& rows >= 1 ==> m.width == width
    &&& distinct_names(m.areas)
    &&& follows(row_start(m), truth, grid, rows + 1)
}

/// The merger takes the next row of a grid of rectangles.
pub proof fn lemma_merge_row_accepts(
    m: MergerView,
    truth: Seq<NamedAreaView>,
    texts: Seq<Seq<char>>,
    width: int,
)
    requires
        forall|r: int| 0 <= r < texts.len() ==> cells_of(#[trigger] texts[r]) is Some,
        rectangles_of_names(truth, grid_of(texts), width),
        m.row < texts.len() <= MAX_CELLS,
        1 <= width <= MAX_CELLS,
        keeps_up(m, truth, grid_of(texts), width, m.row as int),
    ensures
        merge_row(m, texts[m.row as int]) is Ok,
        keeps_up(
            merge_row(m, texts[m.row as int])->Ok_0,
            truth,
            grid_of(texts),
            width,
            m.row + 1,
        ),
{
    let grid = grid_of(texts);
    let text = texts[m.row as int];
    let row = m.row + 1;
    let cells = grid[row - 1];
    let start = row_start(m);
    assert(cells_of(text) == Some(cells));
    assert(cells.len() == width);
    lemma_scan_cells_accept(start, truth, grid, width, row, width);
    assert(cells.take(width) =~= cells);
    let end = scan_cells(start, row as u32, cells)->0;
    assert forall|j: int| 0 <= j < truth.len() implies {
        &&& 1 <= (#[trigger] truth[j]).rows.start
        &&& truth[j].rows.end <= grid.len() + 1
        &&& 1 <= truth[j].columns.start
        &&& truth[j].columns.end <= width + 1
    } by {
        let t = truth[j];
        assert(contains(t, t.rows.start as int, t.columns.start as int));
        assert(contains(t, t.rows.end - 1, t.columns.end - 1));
    }
    if end.open is Some {
        let n0 = cell(grid, row, width)->Name_0;
        lemma_rectangle_of_cell(truth, grid, width, row, width);
        lemma_position_of(end.areas, n0);
        let j0 = position_of(truth, n0)->0;
        assert(part_read(end.areas[end.open->0], truth[j0], row, width));
        assert(open_area_ends_at(end, (width + 1) as u32));
    }
    let merged = merge_row(m, text)->Ok_0;
    let again = row_start(merged);
    assert forall|i: int| 0 <= i < again.areas.len() implies (position_of(
        truth,
        (#[trigger] again.areas[i]).name,
    ) matches Some(j) && part_read(again.areas[i], truth[j], row + 1, 0)) by {
        let j = position_of(truth, end.areas[i].name)->0;
        lemma_position_of(truth, end.areas[i].name);
        assert(part_read(end.areas[i], truth[j], row, width));
    }
    assert forall|j: int|
        0 <= j < truth.len() && begun(#[trigger] truth[j], row + 1, 0) implies position_of(
        again.areas,
        truth[j].name,
    ) is Some by {
        assert(begun(truth[j], row, width));
    }
}

/// The merger takes the first `rows` rows of a grid of rectangles, and then
/// holds what has been read of them.
pub proof fn lemma_rows_of_rectangles_are_taken(
    texts: Seq<Seq<char>>,
    truth: Seq<NamedAreaView>,
    width: int,
    rows: int,
)
    requires
        forall|r: int| 0 <= r < texts.len() ==> cells_of(#[trigger] texts[r]) is Some,
        rectangles_of_names(truth, grid_of(texts), width),
        texts.len() <= MAX_CELLS,
        1 <= width <= MAX_CELLS,
        0 <= rows <= texts.len(),
    ensures
        merge_rows(no_rows(), texts.take(rows)) is Ok,
        keeps_up(merge_rows(no_rows(), texts.take(rows))->Ok_0, truth, grid_of(texts), width, rows),
    decreases rows,
{
    let grid = grid_of(texts);
    if rows == 0 {
        assert(texts.take(0) =~= Seq::<Seq<char>>::empty());
        assert forall|j: int| 0 <= j < truth.len() implies !begun(#[trigger] truth[j], 1, 0) by {
            let t = truth[j];
            assert(contains(t, t.rows.start as int, t.columns.start as int));
        }
    } else {
        lemma_rows_of_rectangles_are_taken(texts, truth, width, rows - 1);
        let m = merge_rows(no_rows(), texts.take(rows - 1))->Ok_0;
        lemma_merge_row_accepts(m, truth, texts, width);
        assert(texts.take(rows).drop_last() =~= texts.take(rows - 1));
        assert(texts.take(rows).last() == texts[rows - 1]);
    }
}


/// The merger takes every grid of rectangles. Where each row string has
/// cells, the grid has no more rows and columns than line numbers can count,
/// and the names fill the rectangles `truth`, no two of one name, the merger
/// takes the rows one after another without failure.
pub proof fn lemma_rectangles_are_taken(
    texts: Seq<Seq<char>>,
    truth: Seq<NamedAreaView>,
    width: int,
)
    requires
        forall|r: int| 0 <= r < texts.len() ==> cells_of(#[trigger] texts[r]) is Some,
        rectangles_of_names(truth, grid_of(texts), width),
        texts.len() <= MAX_CELLS,
        1 <= width <= MAX_CELLS,
    ensures
        merge_rows(no_rows(), texts) is Ok,
{
    lemma_rows_of_rectangles_are_taken(texts, truth, width, texts.len() as int);
    assert(texts.take(texts.len() as int) =~= texts);
}

/// What the merger decides. Of row strings that have cells, at least one and
/// no more than line numbers can count, the merger takes all if and only if
/// the names fill rectangles in the grid: if and only if there are areas, no
/// two of one name and each of at least one cell, such that every row is as
/// wide as the grid, every cell of an area holds its name, and every cell
/// that holds a name lies in the area of that name.
pub proof fn lemma_merger_decides_rectangles(texts: Seq<Seq<char>>)
    requires
        forall|r: int| 0 <= r < texts.len() ==> cells_of(#[trigger] texts[r]) is Some,
        1 <= texts.len() <= MAX_CELLS,
    ensures
        merge_rows(no_rows(), texts) is Ok <==> exists|truth: Seq<NamedAreaView>, width: int|
            1 <= width <= MAX_CELLS && #[trigger] rectangles_of_names(
                truth,
                grid_of(texts),
                width,
            ),
{
    if merge_rows(no_rows(), texts) is Ok {
        let m = merge_rows(no_rows(), texts)->Ok_0;
        lemma_areas_are_rectangles_of_names(texts);
        assert(rectangles_of_names(m.areas, grid_of(texts), m.width as int));
    }
    if exists|truth: Seq<NamedAreaView>, width: int|
        1 <= width <= MAX_CELLS && #[trigger] rectangles_of_names(truth, grid_of(texts), width) {
        let (truth, width) = choose|truth: Seq<NamedAreaView>, width: int|
            1 <= width <= MAX_CELLS && #[trigger] rectangles_of_names(
                truth,
                grid_of(texts),
                width,
            );
        lemma_rectangles_are_taken(texts, truth, width);
    }
}

} // verus!
