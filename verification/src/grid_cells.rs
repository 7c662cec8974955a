//! The tokenizer of grid template rows: it splits one row string into
//! cells, a run of `.` being a null cell and a run of name code points a
//! name.

use crate::error::ParseFailure;
use vstd::prelude::*;

verus! {

/// The characters of a string, in order.
pub fn chars_of(s: &str) -> (v: Vec<char>)
    ensures
        v@ == s@,
{
    let mut v: Vec<char> = Vec::new();
    for c in it: s.chars()
        invariant
            v@ == it.seq().take(it.index() as int),
            it.seq() == s@,
    {
        v.push(c);
    }
    v
}

/// The three kinds of character run that a row is made of.
#[derive(Clone, Copy, Debug, PartialEq, Eq, Structural)]
pub enum CharClass {
    /// HTML space characters, which separate cells.
    Space,
    /// `.`, a run of which is one null cell.
    Dot,
    /// Name code points, a run of which is one name.
    Name,
}

/// An HTML space character: space, tab, line feed, form feed or carriage
/// return.
pub open spec fn html_space(c: char) -> bool {
    c == ' ' || c == '\t' || c == '\n' || c == '\x0C' || c == '\r'
}

/// A name code point: an ASCII letter or digit, `_`, `-`, or any character
/// outside ASCII.
pub open spec fn name_code_point(c: char) -> bool {
    ||| 'A' <= c <= 'Z'
    ||| 'a' <= c <= 'z'
    ||| c >= '\u{80}'
    ||| c == '_'
    ||| '0' <= c <= '9'
    ||| c == '-'
}

/// Whether `c` belongs to the class.
pub open spec fn in_class(class: CharClass, c: char) -> bool {
    match class {
        CharClass::Space => html_space(c),
        CharClass::Dot => c == '.',
        CharClass::Name => name_code_point(c),
    }
}

/// Whether `c` is an HTML space character.
pub fn is_html_space(c: char) -> (r: bool)
    ensures
        r == html_space(c),
{
    c == ' ' || c == '\t' || c == '\n' || c == '\x0C' || c == '\r'
}

/// Whether `c` is a name code point.
pub fn is_name_code_point(c: char) -> (r: bool)
    ensures
        r == name_code_point(c),
{
    c >= 'A' && c <= 'Z' || c >= 'a' && c <= 'z' || c >= '\u{80}' || c == '_' || c >= '0' && c
        <= '9' || c == '-'
}

/// Whether `c` belongs to the class.
pub fn class_contains(class: CharClass, c: char) -> (r: bool)
    ensures
        r == in_class(class, c),
{
    match class {
        CharClass::Space => is_html_space(c),
        CharClass::Dot => c == '.',
        CharClass::Name => is_name_code_point(c),
    }
}

/// Where the longest run of characters of the class that starts at `from`
/// ends: the first index at or after `from` whose character is outside the
/// class, or the length of `s`.
pub open spec fn run_end(s: Seq<char>, from: int, class: CharClass) -> int
    decreases s.len() - from,
{
    if 0 <= from < s.len() && in_class(class, s[from]) {
        run_end(s, from + 1, class)
    } else {
        from
    }
}

/// A run ends at or after its start and inside the text, every character in
/// it is of the class, and the character after it, if any, is not.
pub proof fn lemma_run_end(s: Seq<char>, from: int, class: CharClass)
    requires
        0 <= from <= s.len(),
    ensures
        from <= run_end(s, from, class) <= s.len(),
        forall|k: int| from <= k < run_end(s, from, class) ==> in_class(class, #[trigger] s[k]),
        run_end(s, from, class) < s.len() ==> !in_class(class, s[run_end(s, from, class)]),
        from < s.len() && in_class(class, s[from]) ==> from < run_end(s, from, class),
    decreases s.len() - from,
{
    if from < s.len() && in_class(class, s[from]) {
        lemma_run_end(s, from + 1, class);
    }
}

/// Finds the end of the longest run of the class that starts at `from`.
pub fn scan_run(chars: &Vec<char>, from: usize, class: CharClass) -> (end: usize)
    requires
        from <= chars.len(),
    ensures
        end == run_end(chars@, from as int, class),
        from <= end <= chars.len(),
{
    let mut end = from;
    while end < chars.len() && class_contains(class, chars[end])
        invariant
            from <= end <= chars.len(),
            run_end(chars@, from as int, class) == run_end(chars@, end as int, class),
        decreases chars.len() - end,
    {
        end = end + 1;
    }
    end
}

/// One cell of a template row.
pub enum Cell {
    /// A run of `.`: no area.
    Null,
    /// A name.
    Name(Seq<char>),
}

/// What stands at a position of a row once the spaces before it are skipped.
pub enum CellStep {
    /// Nothing but spaces is left.
    End,
    /// A cell, and the index after its last character.
    Found(Cell, int),
    /// A character that starts no cell.
    Invalid,
}

/// The cell that starts at or after `from`. Both runs are taken at their
/// greatest length.
pub open spec fn cell_at(s: Seq<char>, from: int) -> CellStep {
    let start = run_end(s, from, CharClass::Space);
    if start >= s.len() {
        CellStep::End
    } else if s[start] == '.' {
        CellStep::Found(Cell::Null, run_end(s, start, CharClass::Dot))
    } else if name_code_point(s[start]) {
        let end = run_end(s, start, CharClass::Name);
        CellStep::Found(Cell::Name(s.subrange(start, end)), end)
    } else {
        CellStep::Invalid
    }
}

/// The cells of the text from `from` on, or nothing where a character starts
/// no cell.
pub open spec fn cells_from(s: Seq<char>, from: int) -> Option<Seq<Cell>>
    decreases s.len() - from,
{
    match cell_at(s, from) {
        CellStep::End => Some(Seq::empty()),
        CellStep::Invalid => None,
        CellStep::Found(cell, next) => {
            if from < next <= s.len() {
                match cells_from(s, next) {
                    Some(rest) => Some(seq![cell] + rest),
                    None => None,
                }
            } else {
                None
            }
        },
    }
}

/// The cells of a row string.
pub open spec fn cells_of(s: Seq<char>) -> Option<Seq<Cell>> {
    cells_from(s, 0)
}

/// A cell always ends after the position it was looked for at.
pub proof fn lemma_cell_at_advances(s: Seq<char>, from: int)
    requires
        0 <= from <= s.len(),
    ensures
        cell_at(s, from) matches CellStep::Found(_, next) ==> from < next <= s.len(),
{
    lemma_run_end(s, from, CharClass::Space);
    let start = run_end(s, from, CharClass::Space);
    if start < s.len() {
        lemma_run_end(s, start, CharClass::Dot);
        lemma_run_end(s, start, CharClass::Name);
    }
}

/// The cell that an executable cell stands for.
pub open spec fn cell_of(cell: Option<String>) -> Cell {
    match cell {
        Some(name) => Cell::Name(name@),
        None => Cell::Null,
    }
}

/// The cells that a vector of executable cells stands for.
pub open spec fn cells_view(cells: Seq<Option<String>>) -> Seq<Cell> {
    cells.map_values(|c: Option<String>| cell_of(c))
}

/// One step of the tokenizer.
pub enum NextCell {
    /// Nothing but spaces is left.
    End,
    /// A cell, `None` for a null cell, and the index after its last character.
    Found(Option<String>, usize),
    /// A character that starts no cell.
    Invalid,
}

impl NextCell {
    /// The step that this value stands for.
    pub open spec fn view(self) -> CellStep {
        match self {
            NextCell::End => CellStep::End,
            NextCell::Found(cell, next) => CellStep::Found(cell_of(cell), next as int),
            NextCell::Invalid => CellStep::Invalid,
        }
    }
}

/// Reads the cell that starts at or after `from`: skips HTML spaces, then
/// takes a whole run of `.` as a null cell or a whole run of name code points
/// as a name.
pub fn next_cell(row: &str, chars: &Vec<char>, from: usize) -> (r: NextCell)
    requires
        chars@ == row@,
        from <= chars.len(),
    ensures
        r@ == cell_at(row@, from as int),
        r matches NextCell::Found(_, next) ==> from < next <= chars.len(),
{
    proof {
        lemma_cell_at_advances(row@, from as int);
    }
    let start = scan_run(chars, from, CharClass::Space);
    if start >= chars.len() {
        return NextCell::End;
    }
    if chars[start] == '.' {
        let end = scan_run(chars, start, CharClass::Dot);
        return NextCell::Found(None, end);
    }
    if !is_name_code_point(chars[start]) {
        return NextCell::Invalid;
    }
    let end = scan_run(chars, start, CharClass::Name);
    let name = row.substring_char(start, end).to_owned();
    NextCell::Found(Some(name), end)
}

/// Splits a row string into its cells.
pub fn tokenize(row: &str) -> (r: Result<Vec<Option<String>>, ParseFailure>)
    ensures
        match cells_of(row@) {
            Some(cells) => r is Ok && cells_view(r->Ok_0@) == cells,
            None => r == Err::<Vec<Option<String>>, ParseFailure>(ParseFailure::Tokenization),
        },
{
    let chars = chars_of(row);
    let mut cells: Vec<Option<String>> = Vec::new();
    let mut at: usize = 0;
    loop
        invariant
            chars@ == row@,
            at <= chars.len(),
            cells_of(row@) == match cells_from(row@, at as int) {
                Some(rest) => Some(cells_view(cells@) + rest),
                None => None,
            },
        decreases chars.len() - at,
    {
        match next_cell(row, &chars, at) {
            NextCell::End => {
                proof {
                    assert(cells_view(cells@) + Seq::<Cell>::empty() =~= cells_view(cells@));
                }
                return Ok(cells);
            },
            NextCell::Invalid => {
                return Err(ParseFailure::Tokenization);
            },
            NextCell::Found(cell, next) => {
                proof {
                    let ghost before = cells_view(cells@);
                    let ghost c = cell_of(cell);
                    assert(cells_view(cells@.push(cell)) =~= before.push(c));
                    match cells_from(row@, next as int) {
                        Some(rest) => {
                            assert(before + (seq![c] + rest) =~= before.push(c) + rest);
                        },
                        None => {},
                    }
                }
                cells.push(cell);
                at = next;
            },
        }
    }
}

} // verus!
