//! Tables of texts: reading them from separated text or from the cells of
//! a sheet, and turning their columns into values.

use vstd::prelude::*;
use vstd::string::StringExecFns;
use crate::data::datetime::{detect_date_format, parse_to_timestamp, timestamp_of, best_format,
    format_name, sample_positions, DATE_FORMAT_COUNT, SAMPLE_SIZE};
use crate::data::number::{number_of, parse_number};
use crate::data::parser::{detect_csv_header, detect_excel_header, header_row_of, sheet_header_of,
    HEADER_SEARCH_ROWS};
use crate::fixed::{finite, is_finite, NAN};
use crate::text::{lowercase, lowercase_of, push_char, same_text, trimmed, trimmed_of, utf8_text};

verus! {

/// A table of texts with named columns.
pub struct LoadedData {
    pub columns: Vec<String>,
    /// The cells, column by column.
    pub column_data: Vec<Vec<String>>,
    pub row_count: usize,
}

/// What kind of file a name stands for.
#[derive(Debug, Clone, Copy, PartialEq, Eq, Structural)]
pub enum FileKind {
    Csv,
    Excel,
    Unsupported,
}

/// What was read from a file before it is made a table.
pub enum FileContent {
    /// The bytes of a file of separated text.
    Bytes(Vec<u8>),
    /// The cells of the first sheet of a workbook, row by row.
    Cells(Vec<Vec<Option<String>>>),
}

/// The records of a separated text, field by field, as the `csv` reader
/// yields them without a header row and without a fixed number of fields;
/// none in the place of a record that the reader fails on.
pub uninterp spec fn csv_records_of(text: Seq<char>, delimiter: u8) -> Seq<Option<Seq<Seq<char>>>>;

/// The texts of the cells of rows.
pub open spec fn table_text(rows: Seq<Vec<String>>) -> Seq<Seq<Seq<char>>> {
    Seq::new(rows.len(), |r: int| row_text(rows[r]))
}

/// The texts of the cells of a row.
pub open spec fn row_text(row: Vec<String>) -> Seq<Seq<char>> {
    Seq::new(row@.len(), |c: int| row@[c]@)
}

/// The texts of the fields of records.
pub open spec fn records_text(records: Seq<Option<Vec<String>>>) -> Seq<Option<Seq<Seq<char>>>> {
    Seq::new(
        records.len(),
        |r: int|
            match records[r] {
                Some(row) => Some(row_text(row)),
                None => None,
            },
    )
}

/// `csv::ReaderBuilder` with the given delimiter, without a header row and
/// with records of any length, then `Reader::records`: the records of the
/// text one by one, which depend on the text and the delimiter alone.
#[verifier::external_body]
fn csv_records(text: &str, delimiter: u8) -> (records: Vec<Option<Vec<String>>>)
    ensures
        records_text(records@) == csv_records_of(text@, delimiter),
{
    let mut reader = csv::ReaderBuilder::new().delimiter(delimiter).has_headers(false).flexible(
        true,
    ).from_reader(text.as_bytes());
    reader.records().map(
        |r| r.ok().map(|record| record.iter().map(|s| s.to_string()).collect()),
    ).collect()
}

/// The records among the first `upto` that were read, in order.
pub open spec fn good_records(records: Seq<Option<Seq<Seq<char>>>>, upto: int) -> Seq<
    Seq<Seq<char>>,
>
    decreases upto,
{
    if upto <= 0 {
        Seq::empty()
    } else {
        let rest = good_records(records, upto - 1);
        match records[upto - 1] {
            Some(row) => rest.push(row),
            None => rest,
        }
    }
}

/// The rows of a separated text: the records that the reader does not fail on.
pub open spec fn csv_rows_of(text: Seq<char>, delimiter: u8) -> Seq<Seq<Seq<char>>> {
    good_records(csv_records_of(text, delimiter), csv_records_of(text, delimiter).len() as int)
}

/// The records that were read, without the places of those that were not.
pub fn good_rows(records: &Vec<Option<Vec<String>>>) -> (rows: Vec<Vec<String>>)
    ensures
        table_text(rows@) == good_records(records_text(records@), records@.len() as int),
{
    let mut rows: Vec<Vec<String>> = Vec::new();
    let mut r: usize = 0;
    while r < records.len()
        invariant
            r <= records.len(),
            table_text(rows@) == good_records(records_text(records@), r as int),
        decreases records.len() - r,
    {
        let ghost before = rows@;
        match &records[r] {
            Some(row) => {
                let mut copy: Vec<String> = Vec::new();
                let mut c: usize = 0;
                while c < row.len()
                    invariant
                        c <= row.len(),
                        copy@.len() == c,
                        forall|k: int| 0 <= k < c ==> (#[trigger] copy@[k])@ == row@[k]@,
                    decreases row.len() - c,
                {
                    copy.push(row[c].clone());
                    c += 1;
                }
                assert(row_text(copy) =~= row_text(*row));
                rows.push(copy);
                assert(table_text(rows@) =~= table_text(before).push(row_text(*row)));
            },
            None => {},
        }
        r += 1;
    }
    rows
}

// ---------------------------------------------------------------------------
// Model
// ---------------------------------------------------------------------------

/// The kind of file for a lower-case extension.
pub open spec fn kind_of(ext: Seq<char>) -> FileKind {
    if ext == "csv"@ {
        FileKind::Csv
    } else if ext == "xls"@ || ext == "xlsx"@ {
        FileKind::Excel
    } else {
        FileKind::Unsupported
    }
}

/// Each byte as the character of the same number.
pub open spec fn latin1_text(bytes: Seq<u8>) -> Seq<char> {
    Seq::new(bytes.len(), |k: int| bytes[k] as char)
}

/// The text of a file: its bytes as UTF-8 where they are valid, else each
/// byte as one character.
pub open spec fn decoded_text(bytes: Seq<u8>) -> Seq<char> {
    if vstd::utf8::valid_utf8(bytes) {
        vstd::utf8::decode_utf8(bytes)
    } else {
        latin1_text(bytes)
    }
}

/// Whether `data` is the table that `rows` hold under the header row `h`:
/// the trimmed cells of that row name the columns, and each later row gives
/// one cell to each column, an empty one where the row is too short.
pub open spec fn is_table_of(data: LoadedData, rows: Seq<Vec<String>>, h: int) -> bool {
    &&& data.row_count == rows.len() - h - 1
    &&& data.columns@.len() == rows[h]@.len()
    &&& data.column_data@.len() == rows[h]@.len()
    &&& forall|c: int|
        0 <= c < data.columns@.len() ==> (#[trigger] data.columns@[c])@ == trimmed_of(rows[h]@[c]@)
    &&& forall|c: int|
        0 <= c < data.column_data@.len() ==> (#[trigger] data.column_data@[c])@.len()
            == data.row_count
    &&& forall|c: int, r: int|
        0 <= c < data.column_data@.len() && 0 <= r < data.row_count ==> (
        #[trigger] data.column_data@[c]@[r])@ == cell_or_empty(rows[h + 1 + r]@, c)
}

/// The text of cell `c` of a row; empty beyond the end of the row.
pub open spec fn cell_or_empty(row: Seq<String>, c: int) -> Seq<char> {
    if c < row.len() {
        row[c]@
    } else {
        Seq::empty()
    }
}

/// The text of the failure for a table without a row at the header's place.
pub open spec fn no_data_text() -> Seq<char> {
    "No data found after header detection"@
}

/// The text of the failure for a file of a kind that is not read.
pub open spec fn unsupported_text(ext: Seq<char>) -> Seq<char> {
    "Unsupported file format: ."@ + ext
}

/// The text of the failure for content that does not fit the kind of file.
pub open spec fn mismatch_text() -> Seq<char> {
    "File content does not match its format"@
}

// ---------------------------------------------------------------------------
// Executable code
// ---------------------------------------------------------------------------

/// The kind of file for the extension of its name, in any letter case.
pub fn file_kind(extension: &str) -> (kind: FileKind)
    ensures
        kind == kind_of(lowercase_of(extension@)),
{
    let ext = lowercase(extension);
    kind_for_lowercase(ext.as_str())
}

/// The kind of file for an extension in lower case.
pub fn kind_for_lowercase(ext: &str) -> (kind: FileKind)
    ensures
        kind == kind_of(ext@),
{
    if same_text(ext, "csv") {
        FileKind::Csv
    } else if same_text(ext, "xls") || same_text(ext, "xlsx") {
        FileKind::Excel
    } else {
        FileKind::Unsupported
    }
}

/// Decodes the bytes of a text file: as UTF-8 where they are valid, else
/// each byte as one character.
pub fn decode_text(bytes: &[u8]) -> (text: String)
    ensures
        text@ == decoded_text(bytes@),
{
    match utf8_text(bytes) {
        Some(s) => s,
        None => {
            let mut text = String::new();
            let mut i: usize = 0;
            while i < bytes.len()
                invariant
                    i <= bytes.len(),
                    text@ == latin1_text(bytes@).subrange(0, i as int),
                decreases bytes.len() - i,
            {
                push_char(&mut text, bytes[i] as char);
                assert(text@ =~= latin1_text(bytes@).subrange(0, i + 1));
                i += 1;
            }
            assert(latin1_text(bytes@).subrange(0, bytes@.len() as int) =~= latin1_text(bytes@));
            text
        },
    }
}

/// Makes the table that `rows` hold under the header row `header_row`.
/// Fails where there is no such row.
pub fn build_table(rows: &Vec<Vec<String>>, header_row: usize) -> (r: Result<LoadedData, String>)
    ensures
        match r {
            Ok(data) => header_row < rows@.len() && is_table_of(data, rows@, header_row as int),
            Err(e) => header_row >= rows@.len() && e@ == no_data_text(),
        },
{
    if header_row >= rows.len() {
        return Err("No data found after header detection".to_string());
    }
    let header = &rows[header_row];
    let num_cols = header.len();
    let row_count = rows.len() - header_row - 1;
    let mut columns: Vec<String> = Vec::new();
    let mut c: usize = 0;
    while c < num_cols
        invariant
            c <= num_cols,
            header_row < rows@.len(),
            *header == rows@[header_row as int],
            num_cols == header@.len(),
            columns@.len() == c,
            forall|k: int| 0 <= k < c ==> (#[trigger] columns@[k])@ == trimmed_of(header@[k]@),
        decreases num_cols - c,
    {
        columns.push(trimmed(header[c].as_str()).to_string());
        c += 1;
    }
    let mut column_data: Vec<Vec<String>> = Vec::new();
    let mut c: usize = 0;
    while c < num_cols
        invariant
            c <= num_cols,
            header_row < rows@.len() <= usize::MAX,
            row_count == rows@.len() - header_row - 1,
            column_data@.len() == c,
            forall|k: int| 0 <= k < c ==> (#[trigger] column_data@[k])@.len() == row_count,
            forall|k: int, r: int|
                0 <= k < c && 0 <= r < row_count ==> (#[trigger] column_data@[k]@[r])@
                    == cell_or_empty(rows@[header_row + 1 + r]@, k),
        decreases num_cols - c,
    {
        let mut cells: Vec<String> = Vec::new();
        let mut r: usize = 0;
        while r < row_count
            invariant
                r <= row_count,
                header_row < rows@.len() <= usize::MAX,
                row_count == rows@.len() - header_row - 1,
                cells@.len() == r,
                forall|j: int|
                    0 <= j < r ==> (#[trigger] cells@[j])@ == cell_or_empty(
                        rows@[header_row + 1 + j]@,
                        c as int,
                    ),
            decreases row_count - r,
        {
            let row = &rows[header_row + 1 + r];
            if c < row.len() {
                cells.push(row[c].clone());
            } else {
                cells.push(String::new());
            }
            r += 1;
        }
        column_data.push(cells);
        c += 1;
    }
    Ok(LoadedData { columns, column_data, row_count })
}

/// Whether `data` is the table of a separated text: its records, split at
/// commas, with the header row found among the first fifty.
pub open spec fn is_csv_table(data: LoadedData, text: Seq<char>) -> bool {
    exists|rows: Seq<Vec<String>>|
        table_text(rows) == csv_rows_of(text, 44u8) && rows.len() > 0 && #[trigger] is_table_of(
            data,
            rows,
            header_row_of(rows, HEADER_SEARCH_ROWS as int),
        )
}

/// Whether `data` is the table of the cells of a sheet, with the header
/// row found among the first fifty.
pub open spec fn is_sheet_table(data: LoadedData, cells: Seq<Vec<Option<String>>>) -> bool {
    exists|rows: Seq<Vec<String>>|
        rows_of_sheet(rows, cells) && #[trigger] is_table_of(
            data,
            rows,
            sheet_header_of(cells, HEADER_SEARCH_ROWS as int),
        )
}

/// Reads a table from separated text: finds the header row among the first
/// fifty records and takes the records after it as data. Fails for a text
/// without records.
pub fn load_csv(text: &str) -> (r: Result<LoadedData, String>)
    ensures
        match r {
            Ok(data) => csv_rows_of(text@, 44u8).len() > 0 && is_csv_table(data, text@),
            Err(e) => csv_rows_of(text@, 44u8).len() == 0 && e@
                == crate::data::parser::no_rows_text(),
        },
{
    let records = csv_records(text, 44u8);
    let rows = good_rows(&records);
    let header_row = match detect_csv_header(&rows, HEADER_SEARCH_ROWS) {
        Ok(h) => h,
        Err(e) => {
            assert(table_text(rows@).len() == rows@.len());
            return Err(e);
        },
    };
    assert(table_text(rows@).len() == rows@.len());
    build_table(&rows, header_row)
}

/// The rows of a sheet as texts: an empty cell gives an empty text.
pub open spec fn sheet_text(cells: Seq<Vec<Option<String>>>, r: int, c: int) -> Seq<char> {
    match cells[r]@[c] {
        Some(s) => s@,
        None => Seq::empty(),
    }
}

/// Whether `rows` hold the texts of the cells of a sheet.
pub open spec fn rows_of_sheet(rows: Seq<Vec<String>>, cells: Seq<Vec<Option<String>>>) -> bool {
    &&& rows.len() == cells.len()
    &&& forall|r: int| 0 <= r < rows.len() ==> (#[trigger] rows[r])@.len() == cells[r]@.len()
    &&& forall|r: int, c: int|
        0 <= r < rows.len() && 0 <= c < rows[r]@.len() ==> (#[trigger] rows[r]@[c])@ == sheet_text(
            cells,
            r,
            c,
        )
}

/// Reads a table from the cells of a sheet: finds the header row among the
/// first fifty rows and takes the rows after it as data. Fails for a sheet
/// without rows.
pub fn load_sheet(cells: &Vec<Vec<Option<String>>>) -> (r: Result<LoadedData, String>)
    ensures
        match r {
            Ok(data) => cells@.len() > 0 && is_sheet_table(data, cells@),
            Err(e) => cells@.len() == 0 && e@ == crate::data::parser::no_sheet_rows_text(),
        },
{
    let header_row = match detect_excel_header(cells, HEADER_SEARCH_ROWS) {
        Ok(h) => h,
        Err(e) => {
            return Err(e);
        },
    };
    let mut rows: Vec<Vec<String>> = Vec::new();
    let mut r: usize = 0;
    while r < cells.len()
        invariant
            r <= cells.len(),
            rows@.len() == r,
            forall|j: int| 0 <= j < r ==> (#[trigger] rows@[j])@.len() == cells@[j]@.len(),
            forall|j: int, c: int|
                0 <= j < r && 0 <= c < rows@[j]@.len() ==> (#[trigger] rows@[j]@[c])@ == sheet_text(
                    cells@,
                    j,
                    c,
                ),
        decreases cells.len() - r,
    {
        let mut row: Vec<String> = Vec::new();
        let mut c: usize = 0;
        while c < cells[r].len()
            invariant
                r < cells.len(),
                c <= cells@[r as int]@.len(),
                row@.len() == c,
                forall|k: int| 0 <= k < c ==> (#[trigger] row@[k])@ == sheet_text(cells@, r as int, k),
            decreases cells@[r as int]@.len() - c,
        {
            match &cells[r][c] {
                Some(s) => row.push(s.clone()),
                None => row.push(String::new()),
            }
            c += 1;
        }
        rows.push(row);
        r += 1;
    }
    build_table(&rows, header_row)
}

/// Makes a table of what was read from a file whose name has the given
/// extension: of the bytes of a file of separated text, or of the cells of a
/// sheet. Fails for other kinds of file, for content that does not fit the
/// kind, and where the content holds no table.
pub fn load_file(extension: &str, content: &FileContent) -> (r: Result<LoadedData, String>)
    ensures
        match (kind_of(lowercase_of(extension@)), content) {
            (FileKind::Csv, FileContent::Bytes(bytes)) => match r {
                Ok(data) => csv_rows_of(decoded_text(bytes@), 44u8).len() > 0 && is_csv_table(
                    data,
                    decoded_text(bytes@),
                ),
                Err(e) => csv_rows_of(decoded_text(bytes@), 44u8).len() == 0 && e@
                    == crate::data::parser::no_rows_text(),
            },
            (FileKind::Excel, FileContent::Cells(cells)) => match r {
                Ok(data) => cells@.len() > 0 && is_sheet_table(data, cells@),
                Err(e) => cells@.len() == 0 && e@ == crate::data::parser::no_sheet_rows_text(),
            },
            (FileKind::Unsupported, _) => match r {
                Ok(_) => false,
                Err(e) => e@ == unsupported_text(lowercase_of(extension@)),
            },
            _ => match r {
                Ok(_) => false,
                Err(e) => e@ == mismatch_text(),
            },
        },
{
    match file_kind(extension) {
        FileKind::Csv => match content {
            FileContent::Bytes(bytes) => {
                let text = decode_text(bytes.as_slice());
                load_csv(text.as_str())
            },
            FileContent::Cells(_) => Err("File content does not match its format".to_string()),
        },
        FileKind::Excel => match content {
            FileContent::Cells(cells) => load_sheet(cells),
            FileContent::Bytes(_) => Err("File content does not match its format".to_string()),
        },
        FileKind::Unsupported => {
            let ext = lowercase(extension);
            let mut message = String::from_str("Unsupported file format: .");
            message.append(ext.as_str());
            Err(message)
        },
    }
}

// ---------------------------------------------------------------------------
// Columns as values
// ---------------------------------------------------------------------------

/// The value of a cell of a numeric column: the number that the trimmed
/// text spells, not-a-number for any other text.
pub open spec fn cell_value(text: Seq<char>) -> i64 {
    match number_of(trimmed_of(text)) {
        Some(v) => v,
        None => NAN,
    }
}

/// How many of the first `upto` cells hold a finite number.
pub open spec fn finite_cells(data: Seq<String>, upto: int) -> int
    decreases upto,
{
    if upto <= 0 {
        0
    } else {
        finite_cells(data, upto - 1) + if finite(cell_value(data[upto - 1]@) as int) {
            1int
        } else {
            0int
        }
    }
}

/// The value of a cell of a date column by a format: the moment that the
/// trimmed text names, not-a-number for a text that names none.
pub open spec fn cell_moment(text: Seq<char>, format: Seq<char>) -> i64 {
    match timestamp_of(trimmed_of(text), format) {
        Some(v) => v,
        None => NAN,
    }
}

/// How many of the first `upto` cells name a moment by a format.
pub open spec fn dated_cells(data: Seq<String>, format: Seq<char>, upto: int) -> int
    decreases upto,
{
    if upto <= 0 {
        0
    } else {
        dated_cells(data, format, upto - 1) + if timestamp_of(trimmed_of(data[upto - 1]@), format).is_some() {
            1int
        } else {
            0int
        }
    }
}

/// Whether more than seven tenths of `total` cells are among the `valid` ones.
pub open spec fn mostly(valid: int, total: int) -> bool {
    total > 0 && valid * 10 > total * 7
}

/// Whether more than seven tenths of `total` cells are among the `valid` ones.
pub fn is_mostly(valid: usize, total: usize) -> (r: bool)
    ensures
        r == mostly(valid as int, total as int),
{
    total > 0 && (valid as u128) * 10 > (total as u128) * 7
}

/// Reads a column of texts as numbers. Gives the value of each cell,
/// not-a-number where the text is no number or spells one of a magnitude
/// above four million million, and how many cells hold a finite number.
pub fn column_to_f64(data: &[String]) -> (r: (Vec<i64>, usize))
    ensures
        r.0@.len() == data@.len(),
        forall|i: int| 0 <= i < data@.len() ==> #[trigger] r.0@[i] == cell_value(data@[i]@),
        r.1 == finite_cells(data@, data@.len() as int),
        r.1 <= data@.len(),
{
    let mut values: Vec<i64> = Vec::new();
    let mut valid: usize = 0;
    let mut i: usize = 0;
    while i < data.len()
        invariant
            i <= data.len(),
            values@.len() == i,
            valid <= i,
            forall|k: int| 0 <= k < i ==> #[trigger] values@[k] == cell_value(data@[k]@),
            valid == finite_cells(data@, i as int),
        decreases data.len() - i,
    {
        match parse_number(trimmed(data[i].as_str())) {
            Some(v) => {
                values.push(v);
                if is_finite(v) {
                    valid += 1;
                }
            },
            None => {
                values.push(NAN);
            },
        }
        i += 1;
    }
    (values, valid)
}

/// Reads a column of texts as dates. Finds the format that reads most of a
/// sample of the column and gives the moment of each cell by it,
/// not-a-number where the text names none, and how many cells name one.
/// None where no format reads any text of the sample, or where seven tenths
/// of the cells or fewer name a moment.
pub fn column_to_timestamps(data: &[String]) -> (r: Option<(Vec<i64>, usize)>)
    ensures
        ({
            let sample = sample_positions(data@, SAMPLE_SIZE as int, data@.len() as int);
            let best = best_format(data@, sample, DATE_FORMAT_COUNT as int);
            let format = format_name(best);
            match r {
                Some(t) => {
                    &&& best >= -1
                    &&& mostly(dated_cells(data@, format, data@.len() as int), data@.len() as int)
                    &&& t.1 == dated_cells(data@, format, data@.len() as int)
                    &&& t.0@.len() == data@.len()
                    &&& forall|i: int|
                        0 <= i < data@.len() ==> #[trigger] t.0@[i] == cell_moment(data@[i]@, format)
                },
                None => best == -2 || !mostly(
                    dated_cells(data@, format, data@.len() as int),
                    data@.len() as int,
                ),
            }
        }),
{
    let format = match detect_date_format(data) {
        Some(f) => f,
        None => {
            return None;
        },
    };
    let mut timestamps: Vec<i64> = Vec::new();
    let mut valid: usize = 0;
    let mut i: usize = 0;
    while i < data.len()
        invariant
            i <= data.len(),
            timestamps@.len() == i,
            valid <= i,
            forall|k: int| 0 <= k < i ==> #[trigger] timestamps@[k] == cell_moment(data@[k]@, format@),
            valid == dated_cells(data@, format@, i as int),
        decreases data.len() - i,
    {
        match parse_to_timestamp(trimmed(data[i].as_str()), format) {
            Some(ts) => {
                timestamps.push(ts);
                valid += 1;
            },
            None => {
                timestamps.push(NAN);
            },
        }
        i += 1;
    }
    if is_mostly(valid, data.len()) {
        Some((timestamps, valid))
    } else {
        None
    }
}

} // verus!
