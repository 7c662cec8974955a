//! The normalized row strings of template areas read back as the cells that
//! they were made of.

use crate::grid::{cell_text, merge_row, no_rows, normalized, MergerView};
use crate::grid_cells::{
    cell_at, cells_from, cells_of, in_class, lemma_cell_at_advances, lemma_run_end,
    name_code_point, run_end, Cell, CharClass,
};
use crate::grid_laws::merge_rows;
use vstd::prelude::*;

verus! {

/// A run that starts inside a stretch of characters of its class ends where
/// the run that starts after the stretch ends.
pub proof fn lemma_run_skips(s: Seq<char>, from: int, to: int, class: CharClass)
    requires
        0 <= from <= to <= s.len(),
        forall|k: int| from <= k < to ==> in_class(class, #[trigger] s[k]),
    ensures
        run_end(s, from, class) == run_end(s, to, class),
    decreases to - from,
{
    if from < to {
        lemma_run_skips(s, from + 1, to, class);
    }
}

/// A run in the second of two joined texts ends where it ends in that text
/// alone, moved by the length of the first.
pub proof fn lemma_run_end_shifted(s: Seq<char>, t: Seq<char>, at: int, class: CharClass)
    requires
        0 <= at <= t.len(),
    ensures
        run_end(s + t, s.len() + at, class) == s.len() + run_end(t, at, class),
    decreases t.len() - at,
{
    if at < t.len() {
        assert((s + t)[s.len() + at] == t[at]);
        if in_class(class, t[at]) {
            lemma_run_end_shifted(s, t, at + 1, class);
        }
    }
}

/// A run in the first of two joined texts ends where it ends in that text
/// alone, unless it reaches the end of that text, where it goes on into the
/// second.
pub proof fn lemma_run_end_joined(s: Seq<char>, t: Seq<char>, from: int, class: CharClass)
    requires
        0 <= from <= s.len(),
    ensures
        run_end(s, from, class) < s.len() ==> run_end(s + t, from, class) == run_end(
            s,
            from,
            class,
        ),
        run_end(s, from, class) == s.len() ==> run_end(s + t, from, class) == s.len() + run_end(
            t,
            0,
            class,
        ),
{
    let end = run_end(s, from, class);
    lemma_run_end(s, from, class);
    assert forall|k: int| from <= k < end implies in_class(class, #[trigger] (s + t)[k]) by {
        assert((s + t)[k] == s[k]);
    }
    lemma_run_skips(s + t, from, end, class);
    if end < s.len() {
        assert((s + t)[end] == s[end]);
    } else {
        lemma_run_end_shifted(s, t, 0, class);
    }
}

/// The cells of the second of two joined texts are its cells alone.
pub proof fn lemma_cells_from_shifted(s: Seq<char>, t: Seq<char>, at: int)
    requires
        0 <= at <= t.len(),
    ensures
        cells_from(s + t, s.len() + at) == cells_from(t, at),
    decreases t.len() - at,
{
    let u = s + t;
    let off = s.len() as int;
    lemma_run_end_shifted(s, t, at, CharClass::Space);
    lemma_run_end(t, at, CharClass::Space);
    let start = run_end(t, at, CharClass::Space);
    if start < t.len() {
        assert(u[off + start] == t[start]);
        lemma_run_end_shifted(s, t, start, CharClass::Dot);
        lemma_run_end_shifted(s, t, start, CharClass::Name);
        lemma_run_end(t, start, CharClass::Dot);
        lemma_run_end(t, start, CharClass::Name);
        if t[start] == '.' {
            lemma_cells_from_shifted(s, t, run_end(t, start, CharClass::Dot));
        } else if name_code_point(t[start]) {
            let end = run_end(t, start, CharClass::Name);
            assert(u.subrange(off + start, off + end) =~= t.subrange(start, end));
            lemma_cells_from_shifted(s, t, end);
        }
    }
}

/// The cells of a text with a second text after it that begins with a space
/// are the cells of the one and then the cells of the other.
pub proof fn lemma_cells_from_joined(s: Seq<char>, t: Seq<char>, from: int)
    requires
        0 <= from <= s.len(),
        t.len() > 0,
        t[0] == ' ',
    ensures
        cells_from(s + t, from) == match (cells_from(s, from), cells_from(t, 0)) {
            (Some(first), Some(second)) => Some(first + second),
            _ => None,
        },
    decreases s.len() - from,
{
    let u = s + t;
    lemma_run_end_joined(s, t, from, CharClass::Space);
    lemma_run_end(s, from, CharClass::Space);
    let start = run_end(s, from, CharClass::Space);
    if start < s.len() {
        assert(u[start] == s[start]);
        lemma_run_end_joined(s, t, start, CharClass::Dot);
        lemma_run_end_joined(s, t, start, CharClass::Name);
        lemma_run_end(s, start, CharClass::Dot);
        lemma_run_end(s, start, CharClass::Name);
        assert(run_end(t, 0, CharClass::Dot) == 0);
        assert(run_end(t, 0, CharClass::Name) == 0);
        if s[start] == '.' {
            let end = run_end(s, start, CharClass::Dot);
            lemma_cells_from_joined(s, t, end);
            match (cells_from(s, end), cells_from(t, 0)) {
                (Some(first), Some(second)) => {
                    assert(seq![Cell::Null] + (first + second) =~= (seq![Cell::Null] + first)
                        + second);
                },
                _ => {},
            }
        } else if name_code_point(s[start]) {
            let end = run_end(s, start, CharClass::Name);
            assert(u.subrange(start, end) =~= s.subrange(start, end));
            lemma_cells_from_joined(s, t, end);
            let cell = Cell::Name(s.subrange(start, end));
            match (cells_from(s, end), cells_from(t, 0)) {
                (Some(first), Some(second)) => {
                    assert(seq![cell] + (first + second) =~= (seq![cell] + first) + second);
                },
                _ => {},
            }
        }
    } else {
        // Nothing but spaces is left of the first text: the cells are those
        // of the second.
        lemma_cells_from_shifted(s, t, 0);
        lemma_run_end_shifted(s, t, 0, CharClass::Space);
        assert forall|k: int| from <= k < s.len() implies in_class(
            CharClass::Space,
            #[trigger] u[k],
        ) by {
            assert(u[k] == s[k]);
        }
        lemma_run_skips(u, from, s.len() as int, CharClass::Space);
        assert(cell_at(u, from) == cell_at(u, s.len() as int));
        lemma_cell_at_advances(u, s.len() as int);
        match cells_from(t, 0) {
            Some(second) => {
                assert(Seq::<Cell>::empty() + second =~= second);
            },
            None => {},
        }
    }
}


/// Whether the cell is one that a row string can hold: a name has at least
/// one character, and name code points only.
pub open spec fn well_formed(cell: Cell) -> bool {
    match cell {
        Cell::Null => true,
        Cell::Name(name) => name.len() > 0 && forall|k: int|
            0 <= k < name.len() ==> name_code_point(#[trigger] name[k]),
    }
}

/// The cells of a row string are well-formed.
pub proof fn lemma_cells_are_well_formed(s: Seq<char>, from: int)
    requires
        0 <= from <= s.len(),
        cells_from(s, from) is Some,
    ensures
        forall|i: int|
            0 <= i < cells_from(s, from)->0.len() ==> well_formed(
                #[trigger] cells_from(s, from)->0[i],
            ),
    decreases s.len() - from,
{
    lemma_run_end(s, from, CharClass::Space);
    let start = run_end(s, from, CharClass::Space);
    if start < s.len() {
        lemma_run_end(s, start, CharClass::Dot);
        lemma_run_end(s, start, CharClass::Name);
        let end = if s[start] == '.' {
            run_end(s, start, CharClass::Dot)
        } else {
            run_end(s, start, CharClass::Name)
        };
        lemma_cells_are_well_formed(s, end);
        let rest = cells_from(s, end)->0;
        let all = cells_from(s, from)->0;
        assert forall|i: int| 0 <= i < all.len() implies well_formed(#[trigger] all[i]) by {
            if i > 0 {
                assert(all[i] == rest[i - 1]);
            } else if s[start] != '.' {
                let name = s.subrange(start, end);
                assert forall|k: int| 0 <= k < name.len() implies name_code_point(
                    #[trigger] name[k],
                ) by {
                    assert(in_class(CharClass::Name, s[start + k]));
                }
            }
        }
    }
}

/// The text of a well-formed cell reads as that cell.
pub proof fn lemma_cell_text_reads_back(cell: Cell)
    requires
        well_formed(cell),
    ensures
        cells_of(cell_text(cell)) == Some(seq![cell]),
{
    let w = cell_text(cell);
    let len = w.len() as int;
    let class = match cell {
        Cell::Null => CharClass::Dot,
        Cell::Name(_) => CharClass::Name,
    };
    assert(run_end(w, 0, CharClass::Space) == 0);
    assert forall|k: int| 0 <= k < len implies in_class(class, #[trigger] w[k]) by {}
    lemma_run_skips(w, 0, len, class);
    assert(run_end(w, len, class) == len);
    assert(run_end(w, len, CharClass::Space) == len);
    assert(cells_from(w, len) == Some(Seq::<Cell>::empty()));
    assert(w.subrange(0, len) =~= w);
    assert(seq![cell] + Seq::<Cell>::empty() =~= seq![cell]);
}

/// The text of a well-formed cell with a space before it reads as that
/// cell.
pub proof fn lemma_spaced_cell_text_reads_back(cell: Cell)
    requires
        well_formed(cell),
    ensures
        cells_of(seq![' '] + cell_text(cell)) == Some(seq![cell]),
{
    let lead = seq![' '];
    let w = cell_text(cell);
    let t = lead + w;
    lemma_cell_text_reads_back(cell);
    lemma_cells_from_shifted(lead, w, 0);
    lemma_run_end_shifted(lead, w, 0, CharClass::Space);
    assert(run_end(w, 0, CharClass::Space) == 0);
    lemma_run_skips(t, 0, 1, CharClass::Space);
    assert(cell_at(t, 0) == cell_at(t, 1));
    lemma_cell_at_advances(t, 1);
}

/// A normalized row string reads back as the cells that it was made of.
pub proof fn lemma_normalized_reads_back(cells: Seq<Cell>)
    requires
        forall|i: int| 0 <= i < cells.len() ==> well_formed(#[trigger] cells[i]),
    ensures
        cells_of(normalized(cells)) == Some(cells),
    decreases cells.len(),
{
    if cells.len() == 0 {
        let empty = Seq::<char>::empty();
        assert(run_end(empty, 0, CharClass::Space) == 0);
        assert(cells =~= Seq::<Cell>::empty());
    } else if cells.len() == 1 {
        lemma_cell_text_reads_back(cells[0]);
        assert(cells =~= seq![cells[0]]);
    } else {
        reveal_strlit(" ");
        let front = cells.drop_last();
        let last = cells.last();
        assert forall|i: int| 0 <= i < front.len() implies well_formed(#[trigger] front[i]) by {
            assert(front[i] == cells[i]);
        }
        lemma_normalized_reads_back(front);
        lemma_spaced_cell_text_reads_back(last);
        let t = seq![' '] + cell_text(last);
        assert(" "@ =~= seq![' ']);
        assert(normalized(cells) =~= normalized(front) + t);
        lemma_cells_from_joined(normalized(front), t, 0);
        assert(front + seq![last] =~= cells);
    }
}

/// A row string and its normalized form are the same row to the merger.
pub proof fn lemma_normalized_is_the_same_row(m: MergerView, text: Seq<char>)
    requires
        cells_of(text) is Some,
    ensures
        merge_row(m, normalized(cells_of(text)->0)) == merge_row(m, text),
{
    lemma_cells_are_well_formed(text, 0);
    lemma_normalized_reads_back(cells_of(text)->0);
}

/// Reading undoes writing: the normalized strings that the merger keeps of
/// the rows it took, taken again from the start, give the merger the same
/// areas, strings and width.
pub proof fn lemma_strings_read_back(texts: Seq<Seq<char>>)
    requires
        merge_rows(no_rows(), texts) is Ok,
    ensures
        merge_rows(no_rows(), merge_rows(no_rows(), texts)->Ok_0.strings) == merge_rows(
            no_rows(),
            texts,
        ),
    decreases texts.len(),
{
    let m = merge_rows(no_rows(), texts)->Ok_0;
    if texts.len() == 0 {
        assert(m.strings =~= Seq::<Seq<char>>::empty());
    } else {
        let front = texts.drop_last();
        let mid = merge_rows(no_rows(), front)->Ok_0;
        lemma_strings_read_back(front);
        lemma_normalized_is_the_same_row(mid, texts.last());
        let written = normalized(cells_of(texts.last())->0);
        assert(m.strings == mid.strings.push(written));
        assert(m.strings.drop_last() =~= mid.strings);
        assert(m.strings.last() == written);
    }
}

} // verus!
