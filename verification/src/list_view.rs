use vstd::prelude::*;
use crate::files::file_base::FileBase;
use crate::ordered_type::OrderedSearchMatch;

verus! {

/// How one result is drawn: its number on the page, the terminal row it
/// goes to, whether the cursor marks it, its score, and for each character
/// of its search path whether the match hit it.
pub struct ResultRow {
    pub counter: u16,
    pub physical_row: u16,
    pub selected: bool,
    pub score: i64,
    pub highlighted: Vec<bool>,
}

/// For each character position `i` of `text`, whether `indices` holds
/// `i + shift`.
pub fn shifted_marks(text: &str, shift: usize, indices: &Vec<usize>) -> (r: Vec<bool>)
    requires
        shift + text@.len() <= usize::MAX,
    ensures
        r@.len() == text@.len(),
        forall|i: int| 0 <= i < r@.len() ==> r@[i] == indices@.contains((i + shift) as usize),
{
    let n = text.unicode_len();
    let mut r: Vec<bool> = Vec::new();
    let mut i: usize = 0;
    while i < n
        invariant
            n == text@.len(),
            shift + n <= usize::MAX,
            i <= n,
            r@.len() == i,
            forall|k: int| 0 <= k < i ==> r@[k] == indices@.contains((k + shift) as usize),
        decreases n - i,
    {
        let target = i + shift;
        let mut found = false;
        let mut j: usize = 0;
        while j < indices.len()
            invariant
                j <= indices@.len(),
                found == (exists|q: int| 0 <= q < j && indices@[q] == target),
            decreases indices@.len() - j,
        {
            if indices[j] == target {
                found = true;
            }
            j = j + 1;
        }
        proof {
            if found {
                let q = choose|q: int| 0 <= q < j && indices@[q] == target;
                assert(indices@.contains(target));
            } else {
                assert(!indices@.contains(target));
            }
        }
        r.push(found);
        i = i + 1;
    }
    r
}

/// For each character position of `text`, whether `indices` holds it.
pub fn highlight_marks(text: &str, indices: &Vec<usize>) -> (r: Vec<bool>)
    ensures
        r@.len() == text@.len(),
        forall|i: int| 0 <= i < r@.len() ==> r@[i] == indices@.contains(i as usize),
{
    let _n = text.unicode_len();
    shifted_marks(text, 0, indices)
}

/// Plans the drawing of a page of results below the input line at
/// `start_row`: the rows count from 1, the row equal to the cursor (taken
/// modulo 2^16, as the screen compares it) is marked. Also returns the
/// count that the drawing reports: one more than the number of results.
pub fn plan_results<'a, T: FileBase>(
    cursor_pos: usize,
    list: &Vec<&OrderedSearchMatch<&'a T>>,
    start_row: u16,
) -> (r: (Vec<ResultRow>, usize))
    requires
        start_row + list@.len() <= u16::MAX,
        list@.len() < u16::MAX,
    ensures
        r.0@.len() == list@.len(),
        r.1 == list@.len() + 1,
        forall|j: int|
            0 <= j < list@.len() ==> {
                let row = #[trigger] r.0@[j];
                &&& row.counter == j + 1
                &&& row.physical_row == start_row + j + 1
                &&& row.selected == (cursor_pos as u16 == j + 1)
                &&& row.score == list@[j].score
                &&& row.highlighted@.len() == list@[j].file.search_path_view().len()
                &&& forall|i: int|
                    0 <= i < row.highlighted@.len() ==> row.highlighted@[i]
                        == list@[j].indices@.contains(i as usize)
            },
{
    let mut rows: Vec<ResultRow> = Vec::new();
    let mut counter: u16 = 1;
    let mut j: usize = 0;
    while j < list.len()
        invariant
            start_row + list@.len() <= u16::MAX,
            list@.len() < u16::MAX,
            j <= list@.len(),
            counter == j + 1,
            rows@.len() == j,
            forall|k: int|
                0 <= k < j ==> {
                    let row = #[trigger] rows@[k];
                    &&& row.counter == k + 1
                    &&& row.physical_row == start_row + k + 1
                    &&& row.selected == (cursor_pos as u16 == k + 1)
                    &&& row.score == list@[k].score
                    &&& row.highlighted@.len() == list@[k].file.search_path_view().len()
                    &&& forall|i: int|
                        0 <= i < row.highlighted@.len() ==> row.highlighted@[i]
                            == list@[k].indices@.contains(i as usize)
                },
        decreases list@.len() - j,
    {
        let ot = list[j];
        let physical_row = start_row + counter;
        let highlighted = highlight_marks(ot.file.get_search_path(), &ot.indices);
        rows.push(
            ResultRow {
                counter,
                physical_row,
                selected: cursor_pos as u16 == counter,
                score: ot.score,
                highlighted,
            },
        );
        counter = counter + 1;
        j = j + 1;
    }
    (rows, j + 1)
}

} // verus!
