//! Finding the header row of a table of texts.

use vstd::prelude::*;
use crate::data::datetime::{date_pattern, pattern_text, reads_by, reads_by_pattern};
use crate::data::number::{number_of, parse_number};
use crate::text::{contains_text, has_substring, lowercase, lowercase_of, trimmed, trimmed_of};

verus! {

/// How many rows are looked at to find the header.
pub const HEADER_SEARCH_ROWS: usize = 50;

/// The date patterns by which a cell is recognized as a date.
pub open spec fn probe_pattern(k: int) -> int {
    if k == 0 {
        2
    } else if k == 1 {
        3
    } else if k == 2 {
        4
    } else if k == 3 {
        14
    } else {
        15
    }
}

/// Whether a text carries what dates are written with: a slash, a colon
/// or, in any case, `am` or `pm`.
pub open spec fn date_marked(s: Seq<char>) -> bool {
    has_substring(s, "/"@) || has_substring(s, ":"@) || has_substring(lowercase_of(s), "am"@)
        || has_substring(lowercase_of(s), "pm"@)
}

/// Whether a text looks like a date: it carries the marks of one and one
/// of five common patterns reads it.
pub open spec fn date_like(s: Seq<char>) -> bool {
    date_marked(s) && exists|k: int|
        0 <= k < 5 && reads_by_pattern(s, #[trigger] pattern_text(probe_pattern(k)))
}

/// Whether a text looks like a date.
pub fn is_date_like(s: &str) -> (r: bool)
    ensures
        r == date_like(s@),
{
    let mut marked = contains_text(s, "/") || contains_text(s, ":");
    if !marked {
        let lower = lowercase(s);
        marked = contains_text(lower.as_str(), "am") || contains_text(lower.as_str(), "pm");
    }
    if !marked {
        return false;
    }
    let mut k: usize = 0;
    while k < 5
        invariant
            k <= 5,
            date_marked(s@),
            forall|j: int|
                0 <= j < k ==> !reads_by_pattern(s@, #[trigger] pattern_text(probe_pattern(j))),
        decreases 5 - k,
    {
        let p: usize = if k == 0 {
            2
        } else if k == 1 {
            3
        } else if k == 2 {
            4
        } else if k == 3 {
            14
        } else {
            15
        };
        if reads_by(s, date_pattern(p)) {
            assert(p == probe_pattern(k as int));
            assert(reads_by_pattern(s@, pattern_text(probe_pattern(k as int))));
            return true;
        }
        k += 1;
    }
    false
}

// ---------------------------------------------------------------------------
// Row lengths
// ---------------------------------------------------------------------------

/// How many of the first `upto` lengths equal `len`.
pub open spec fn rows_of_len(lens: Seq<int>, len: int, upto: int) -> int
    decreases upto,
{
    if upto <= 0 {
        0
    } else {
        rows_of_len(lens, len, upto - 1) + if lens[upto - 1] == len {
            1int
        } else {
            0int
        }
    }
}

/// The most common of the first `upto` lengths; of several equally common
/// ones the one that occurs first. Zero without any.
pub open spec fn most_common_len(lens: Seq<int>, upto: int) -> int
    decreases upto,
{
    if upto <= 0 {
        0
    } else {
        let prev = most_common_len(lens, upto - 1);
        if upto == 1 || rows_of_len(lens, lens[upto - 1], lens.len() as int) > rows_of_len(
            lens,
            prev,
            lens.len() as int,
        ) {
            lens[upto - 1]
        } else {
            prev
        }
    }
}

/// The most common length is one of the lengths, and none of them is more common.
pub proof fn lemma_most_common(lens: Seq<int>, upto: int)
    requires
        0 < upto <= lens.len(),
    ensures
        exists|k: int| 0 <= k < upto && #[trigger] lens[k] == most_common_len(lens, upto),
        forall|k: int|
            0 <= k < upto ==> rows_of_len(lens, #[trigger] lens[k], lens.len() as int)
                <= rows_of_len(lens, most_common_len(lens, upto), lens.len() as int),
    decreases upto,
{
    if upto > 1 {
        lemma_most_common(lens, upto - 1);
        let prev = most_common_len(lens, upto - 1);
        let k = choose|k: int| 0 <= k < upto - 1 && #[trigger] lens[k] == prev;
        if rows_of_len(lens, lens[upto - 1], lens.len() as int) > rows_of_len(
            lens,
            prev,
            lens.len() as int,
        ) {
            assert(lens[upto - 1] == most_common_len(lens, upto));
        } else {
            assert(lens[k] == most_common_len(lens, upto));
        }
    } else {
        assert(lens[0] == most_common_len(lens, upto));
    }
}

/// The lengths of the first `n` rows.
pub open spec fn row_lens(rows: Seq<Vec<String>>, n: int) -> Seq<int> {
    Seq::new(n as nat, |k: int| rows[k]@.len() as int)
}

fn count_len(rows: &Vec<Vec<String>>, n: usize, len: usize) -> (c: usize)
    requires
        n <= rows@.len(),
    ensures
        c == rows_of_len(row_lens(rows@, n as int), len as int, n as int),
        c <= n,
{
    let mut c: usize = 0;
    let mut i: usize = 0;
    while i < n
        invariant
            i <= n <= rows@.len(),
            c <= i,
            c == rows_of_len(row_lens(rows@, n as int), len as int, i as int),
        decreases n - i,
    {
        if rows[i].len() == len {
            c += 1;
        }
        i += 1;
    }
    c
}

/// The most common length of the first `n` rows.
pub fn most_common_row_len(rows: &Vec<Vec<String>>, n: usize) -> (len: usize)
    requires
        n <= rows@.len(),
    ensures
        len == most_common_len(row_lens(rows@, n as int), n as int),
{
    let mut best: usize = 0;
    let mut best_count: usize = 0;
    let mut i: usize = 0;
    while i < n
        invariant
            i <= n <= rows@.len(),
            best == most_common_len(row_lens(rows@, n as int), i as int),
            i > 0 ==> best_count == rows_of_len(row_lens(rows@, n as int), best as int, n as int),
        decreases n - i,
    {
        let c = count_len(rows, n, rows[i].len());
        if i == 0 || c > best_count {
            best = rows[i].len();
            best_count = c;
        }
        i += 1;
    }
    best
}

// ---------------------------------------------------------------------------
// Header of a table read from separated text
// ---------------------------------------------------------------------------

/// Whether a cell speaks for a header row: trimmed, it is not empty, no
/// number and no date.
pub open spec fn heading_cell(cell: Seq<char>) -> bool {
    &&& trimmed_of(cell).len() > 0
    &&& number_of(trimmed_of(cell)).is_none()
    &&& !date_like(trimmed_of(cell))
}

/// Whether the first `upto` cells of a row all speak for a header row.
pub open spec fn heading_cells(row: Seq<String>, upto: int) -> bool
    decreases upto,
{
    if upto <= 0 {
        true
    } else {
        heading_cells(row, upto - 1) && heading_cell(row[upto - 1]@)
    }
}

/// The last of the first `upto` rows that has `len` cells, all of which
/// speak for a header row; `-1` if there is none.
pub open spec fn last_heading_row(rows: Seq<Vec<String>>, len: int, upto: int) -> int
    decreases upto,
{
    if upto <= 0 {
        -1
    } else if rows[upto - 1]@.len() == len && heading_cells(rows[upto - 1]@, len) {
        upto - 1
    } else {
        last_heading_row(rows, len, upto - 1)
    }
}

/// How many rows the search for the header looks at.
pub open spec fn searched_rows(len: int, max_lines: int) -> int {
    if len <= max_lines {
        len
    } else {
        max_lines
    }
}

/// The header row of a table: the last of the searched rows with the most
/// common number of cells, all of them headings; the first row if there is
/// no such row.
pub open spec fn header_row_of(rows: Seq<Vec<String>>, max_lines: int) -> int {
    let n = searched_rows(rows.len() as int, max_lines);
    let h = last_heading_row(rows, most_common_len(row_lens(rows, n), n), n);
    if h < 0 {
        0
    } else {
        h
    }
}

/// The text of the failure for a table without rows.
pub open spec fn no_rows_text() -> Seq<char> {
    "No data found in file"@
}

fn is_heading_cell(cell: &str) -> (r: bool)
    ensures
        r == heading_cell(cell@),
{
    let t = trimmed(cell);
    !t.is_empty() && parse_number(t).is_none() && !is_date_like(t)
}

fn is_heading_row(row: &Vec<String>) -> (r: bool)
    ensures
        r == heading_cells(row@, row@.len() as int),
{
    let mut i: usize = 0;
    while i < row.len()
        invariant
            i <= row.len(),
            heading_cells(row@, i as int),
        decreases row.len() - i,
    {
        if !is_heading_cell(row[i].as_str()) {
            proof {
                lemma_heading_cells_fail(row@, i as int, row@.len() as int);
            }
            return false;
        }
        i += 1;
    }
    true
}

/// One cell that is no heading spoils every longer run of cells.
pub proof fn lemma_heading_cells_fail(row: Seq<String>, i: int, upto: int)
    requires
        0 <= i < upto,
        !heading_cell(row[i]@),
    ensures
        !heading_cells(row, upto),
    decreases upto,
{
    if upto > i + 1 {
        lemma_heading_cells_fail(row, i, upto - 1);
    }
}

/// Finds the header row among the first `max_lines` rows of a table read
/// from separated text. Fails for a table without rows.
pub fn detect_csv_header(rows: &Vec<Vec<String>>, max_lines: usize) -> (r: Result<usize, String>)
    ensures
        match r {
            Ok(h) => searched_rows(rows@.len() as int, max_lines as int) > 0 && h == header_row_of(
                rows@,
                max_lines as int,
            ) && (rows@.len() > 0 ==> h < rows@.len()),
            Err(e) => searched_rows(rows@.len() as int, max_lines as int) == 0 && e@
                == no_rows_text(),
        },
{
    let n = if rows.len() <= max_lines {
        rows.len()
    } else {
        max_lines
    };
    if n == 0 {
        return Err("No data found in file".to_string());
    }
    let common = most_common_row_len(rows, n);
    let mut i: usize = n;
    while i > 0
        invariant
            i <= n <= rows@.len(),
            n == searched_rows(rows@.len() as int, max_lines as int),
            common == most_common_len(row_lens(rows@, n as int), n as int),
            last_heading_row(rows@, common as int, n as int) == last_heading_row(
                rows@,
                common as int,
                i as int,
            ),
        decreases i,
    {
        i -= 1;
        if rows[i].len() == common && is_heading_row(&rows[i]) {
            assert(last_heading_row(rows@, common as int, i + 1) == i);
            return Ok(i);
        }
        assert(last_heading_row(rows@, common as int, i + 1) == last_heading_row(
            rows@,
            common as int,
            i as int,
        ));
    }
    Ok(0)
}

// ---------------------------------------------------------------------------
// Header of a sheet
// ---------------------------------------------------------------------------

/// Whether one of the first `upto` rows has a cell in column `c`.
pub open spec fn column_used(rows: Seq<Vec<Option<String>>>, c: int, upto: int) -> bool
    decreases upto,
{
    if upto <= 0 {
        false
    } else {
        column_used(rows, c, upto - 1) || (c < rows[upto - 1]@.len() && rows[upto - 1]@[c].is_some())
    }
}

/// How many of the first `upto` columns are used by one of the first `n` rows.
pub open spec fn used_columns(rows: Seq<Vec<Option<String>>>, n: int, upto: int) -> int
    decreases upto,
{
    if upto <= 0 {
        0
    } else {
        used_columns(rows, n, upto - 1) + if column_used(rows, upto - 1, n) {
            1int
        } else {
            0int
        }
    }
}

/// The length of the longest of the first `upto` rows.
pub open spec fn longest_row(rows: Seq<Vec<Option<String>>>, upto: int) -> int
    decreases upto,
{
    if upto <= 0 {
        0
    } else if rows[upto - 1]@.len() > longest_row(rows, upto - 1) {
        rows[upto - 1]@.len() as int
    } else {
        longest_row(rows, upto - 1)
    }
}

/// How many of the first `upto` cells of a row are not empty.
pub open spec fn filled_cells(row: Seq<Option<String>>, upto: int) -> int
    decreases upto,
{
    if upto <= 0 {
        0
    } else {
        filled_cells(row, upto - 1) + if row[upto - 1].is_some() {
            1int
        } else {
            0int
        }
    }
}

/// Whether none of the first `upto` cells of a row is a number or a date.
pub open spec fn sheet_headings(row: Seq<Option<String>>, upto: int) -> bool
    decreases upto,
{
    if upto <= 0 {
        true
    } else {
        sheet_headings(row, upto - 1) && match row[upto - 1] {
            Some(s) => number_of(s@).is_none() && !date_like(s@),
            None => true,
        }
    }
}

/// The last of the first `upto` rows of a sheet that fills at least `used`
/// cells, none of them a number or a date; `-1` if there is none.
pub open spec fn last_sheet_heading(rows: Seq<Vec<Option<String>>>, used: int, upto: int) -> int
    decreases upto,
{
    if upto <= 0 {
        -1
    } else if filled_cells(rows[upto - 1]@, rows[upto - 1]@.len() as int) >= used
        && sheet_headings(rows[upto - 1]@, rows[upto - 1]@.len() as int) {
        upto - 1
    } else {
        last_sheet_heading(rows, used, upto - 1)
    }
}

/// The header row of a sheet: the last of the searched rows that fills as
/// many cells as the sheet uses columns, none of them a number or a date;
/// the first row if there is no such row.
pub open spec fn sheet_header_of(rows: Seq<Vec<Option<String>>>, max_rows: int) -> int {
    let n = searched_rows(rows.len() as int, max_rows);
    let h = last_sheet_heading(rows, used_columns(rows, n, longest_row(rows, n)), n);
    if h < 0 {
        0
    } else {
        h
    }
}

/// The text of the failure for a sheet without rows.
pub open spec fn no_sheet_rows_text() -> Seq<char> {
    "No data in sheet"@
}

fn is_column_used(rows: &Vec<Vec<Option<String>>>, n: usize, c: usize) -> (r: bool)
    requires
        n <= rows@.len(),
    ensures
        r == column_used(rows@, c as int, n as int),
{
    let mut i: usize = 0;
    while i < n
        invariant
            i <= n <= rows@.len(),
            !column_used(rows@, c as int, i as int),
        decreases n - i,
    {
        if c < rows[i].len() && rows[i][c].is_some() {
            proof {
                lemma_column_used(rows@, c as int, i as int, n as int);
            }
            return true;
        }
        i += 1;
    }
    false
}

/// A column used by one row is used by every longer run of rows.
pub proof fn lemma_column_used(rows: Seq<Vec<Option<String>>>, c: int, i: int, upto: int)
    requires
        0 <= i < upto,
        c < rows[i]@.len(),
        rows[i]@[c].is_some(),
    ensures
        column_used(rows, c, upto),
    decreases upto,
{
    if upto > i + 1 {
        lemma_column_used(rows, c, i, upto - 1);
    }
}

fn count_used_columns(rows: &Vec<Vec<Option<String>>>, n: usize) -> (used: usize)
    requires
        n <= rows@.len(),
    ensures
        used == used_columns(rows@, n as int, longest_row(rows@, n as int)),
{
    let mut longest: usize = 0;
    let mut i: usize = 0;
    while i < n
        invariant
            i <= n <= rows@.len(),
            longest == longest_row(rows@, i as int),
        decreases n - i,
    {
        if rows[i].len() > longest {
            longest = rows[i].len();
        }
        i += 1;
    }
    let mut used: usize = 0;
    let mut c: usize = 0;
    while c < longest
        invariant
            c <= longest,
            n <= rows@.len(),
            used <= c,
            used == used_columns(rows@, n as int, c as int),
        decreases longest - c,
    {
        if is_column_used(rows, n, c) {
            used += 1;
        }
        c += 1;
    }
    used
}

fn count_filled(row: &Vec<Option<String>>) -> (filled: usize)
    ensures
        filled == filled_cells(row@, row@.len() as int),
{
    let mut filled: usize = 0;
    let mut i: usize = 0;
    while i < row.len()
        invariant
            i <= row.len(),
            filled <= i,
            filled == filled_cells(row@, i as int),
        decreases row.len() - i,
    {
        if row[i].is_some() {
            filled += 1;
        }
        i += 1;
    }
    filled
}

fn is_sheet_heading(row: &Vec<Option<String>>) -> (r: bool)
    ensures
        r == sheet_headings(row@, row@.len() as int),
{
    let mut i: usize = 0;
    while i < row.len()
        invariant
            i <= row.len(),
            sheet_headings(row@, i as int),
        decreases row.len() - i,
    {
        let plain = match &row[i] {
            Some(s) => parse_number(s.as_str()).is_none() && !is_date_like(s.as_str()),
            None => true,
        };
        if !plain {
            proof {
                lemma_sheet_headings_fail(row@, i as int, row@.len() as int);
            }
            return false;
        }
        i += 1;
    }
    true
}

/// One cell that is a number or a date spoils every longer run of cells.
pub proof fn lemma_sheet_headings_fail(row: Seq<Option<String>>, i: int, upto: int)
    requires
        0 <= i < upto,
        row[i].is_some(),
        number_of(row[i].unwrap()@).is_some() || date_like(row[i].unwrap()@),
    ensures
        !sheet_headings(row, upto),
    decreases upto,
{
    if upto > i + 1 {
        lemma_sheet_headings_fail(row, i, upto - 1);
    }
}

/// Finds the header row among the first `max_rows` rows of a sheet. Fails
/// for a sheet without rows.
pub fn detect_excel_header(rows: &Vec<Vec<Option<String>>>, max_rows: usize) -> (r: Result<
    usize,
    String,
>)
    ensures
        match r {
            Ok(h) => searched_rows(rows@.len() as int, max_rows as int) > 0 && h == sheet_header_of(
                rows@,
                max_rows as int,
            ) && (rows@.len() > 0 ==> h < rows@.len()),
            Err(e) => searched_rows(rows@.len() as int, max_rows as int) == 0 && e@
                == no_sheet_rows_text(),
        },
{
    let n = if rows.len() <= max_rows {
        rows.len()
    } else {
        max_rows
    };
    if n == 0 {
        return Err("No data in sheet".to_string());
    }
    let used = count_used_columns(rows, n);
    let mut i: usize = n;
    while i > 0
        invariant
            i <= n <= rows@.len(),
            n == searched_rows(rows@.len() as int, max_rows as int),
            used == used_columns(rows@, n as int, longest_row(rows@, n as int)),
            last_sheet_heading(rows@, used as int, n as int) == last_sheet_heading(
                rows@,
                used as int,
                i as int,
            ),
        decreases i,
    {
        i -= 1;
        if count_filled(&rows[i]) >= used && is_sheet_heading(&rows[i]) {
            assert(last_sheet_heading(rows@, used as int, i + 1) == i);
            return Ok(i);
        }
        assert(last_sheet_heading(rows@, used as int, i + 1) == last_sheet_heading(
            rows@,
            used as int,
            i as int,
        ));
    }
    Ok(0)
}

} // verus!
