//! Choosing the columns of a loaded table that become series.

use vstd::prelude::*;
use crate::data::loader::LoadedData;
use crate::data::number::{number_of, parse_number};
use crate::text::{contains_text, has_substring, lowercase, lowercase_of, trimmed, trimmed_of};

verus! {

/// How many cells of a column are looked at to tell whether it is numeric.
pub const USABLE_SAMPLE: usize = 100;

/// The state of the dialog that chooses columns.
pub struct DataSelectionState {
    pub loaded_data: LoadedData,
    pub target_graph_id: u64,
    /// The chosen `x` column, as a position among the usable columns.
    pub selected_x: usize,
    /// Which of the usable columns are chosen as `y`.
    pub selected_y: Vec<bool>,
    /// The chosen `z` column, if the data is plotted in space.
    pub selected_z: Option<usize>,
    /// The columns of the table that can be plotted.
    pub usable_columns: Vec<usize>,
}

/// The columns that the user chose.
pub struct ColumnSelection {
    pub graph_id: u64,
    pub x_col_index: usize,
    pub y_col_indices: Vec<usize>,
    /// The `z` column, if the data is plotted in space.
    pub z_col_index: Option<usize>,
}

/// How the dialog ended.
pub enum DialogResult {
    Accepted(ColumnSelection),
    Cancel,
}

/// How many of the first `upto` cells of a column spell a number.
pub open spec fn numeric_cells(cells: Seq<String>, upto: int) -> int
    decreases upto,
{
    if upto <= 0 {
        0
    } else {
        numeric_cells(cells, upto - 1) + if number_of(trimmed_of(cells[upto - 1]@)).is_some() {
            1int
        } else {
            0int
        }
    }
}

/// How many cells of a column are looked at.
pub open spec fn sample_len(cells: Seq<String>) -> int {
    if cells.len() <= USABLE_SAMPLE {
        cells.len() as int
    } else {
        USABLE_SAMPLE as int
    }
}

/// Whether a column can be plotted: its name holds `time` in any case, or
/// at least half of the cells looked at spell a number.
pub open spec fn usable(name: Seq<char>, cells: Seq<String>) -> bool {
    has_substring(lowercase_of(name), "time"@) || (sample_len(cells) > 0 && 2 * numeric_cells(
        cells,
        sample_len(cells),
    ) >= sample_len(cells))
}

/// The usable ones among the first `upto` columns, in order.
pub open spec fn usable_among(data: LoadedData, upto: int) -> Seq<usize>
    decreases upto,
{
    if upto <= 0 {
        Seq::empty()
    } else {
        let rest = usable_among(data, upto - 1);
        if usable(data.columns@[upto - 1]@, data.column_data@[upto - 1]@) {
            rest.push((upto - 1) as usize)
        } else {
            rest
        }
    }
}

/// The columns that the dialog offers: the usable ones, or all where none
/// is usable.
pub open spec fn offered_columns(data: LoadedData) -> Seq<usize> {
    if usable_among(data, data.columns@.len() as int).len() == 0 {
        Seq::new(data.columns@.len(), |k: int| k as usize)
    } else {
        usable_among(data, data.columns@.len() as int)
    }
}

/// The chosen ones among the first `upto` offered columns, in order.
pub open spec fn chosen_columns(offered: Seq<usize>, chosen: Seq<bool>, upto: int) -> Seq<usize>
    decreases upto,
{
    if upto <= 0 {
        Seq::empty()
    } else {
        let rest = chosen_columns(offered, chosen, upto - 1);
        if chosen[upto - 1] {
            rest.push(offered[upto - 1])
        } else {
            rest
        }
    }
}

fn is_usable(name: &str, cells: &Vec<String>) -> (r: bool)
    ensures
        r == usable(name@, cells@),
{
    let lower = lowercase(name);
    if contains_text(lower.as_str(), "time") {
        return true;
    }
    let n = if cells.len() <= USABLE_SAMPLE {
        cells.len()
    } else {
        USABLE_SAMPLE
    };
    let mut count: usize = 0;
    let mut i: usize = 0;
    while i < n
        invariant
            i <= n <= cells.len(),
            n <= USABLE_SAMPLE,
            count <= i,
            count == numeric_cells(cells@, i as int),
        decreases n - i,
    {
        if parse_number(trimmed(cells[i].as_str())).is_some() {
            count += 1;
        }
        i += 1;
    }
    n > 0 && 2 * count >= n
}

impl DataSelectionState {
    /// Whether the selections name offered columns.
    pub open spec fn well_formed(&self) -> bool {
        &&& self.selected_y@.len() == self.usable_columns@.len()
        &&& self.selected_x < self.usable_columns@.len()
        &&& match self.selected_z {
            Some(z) => z < self.usable_columns@.len(),
            None => true,
        }
    }

    /// Checks [`DataSelectionState::well_formed`].
    pub fn is_well_formed(&self) -> (r: bool)
        ensures
            r == self.well_formed(),
    {
        self.selected_y.len() == self.usable_columns.len() && self.selected_x
            < self.usable_columns.len() && match self.selected_z {
            Some(z) => z < self.usable_columns.len(),
            None => true,
        }
    }

    /// The dialog for a loaded table: it offers the usable columns, with
    /// the first as `x` and none chosen as `y` or `z`.
    pub fn new(loaded_data: LoadedData, target_graph_id: u64) -> (state: DataSelectionState)
        requires
            loaded_data.columns@.len() == loaded_data.column_data@.len(),
        ensures
            state.loaded_data == loaded_data,
            state.target_graph_id == target_graph_id,
            state.selected_x == 0,
            state.selected_z.is_none(),
            state.usable_columns@ == offered_columns(loaded_data),
            state.selected_y@.len() == state.usable_columns@.len(),
            forall|k: int| 0 <= k < state.selected_y@.len() ==> !(#[trigger] state.selected_y@[k]),
            forall|k: int|
                0 <= k < state.usable_columns@.len() ==> (#[trigger] state.usable_columns@[k])
                    < loaded_data.columns@.len(),
    {
        let n = loaded_data.columns.len();
        let mut usable_columns: Vec<usize> = Vec::new();
        let mut i: usize = 0;
        while i < n
            invariant
                i <= n,
                n == loaded_data.columns@.len(),
                n == loaded_data.column_data@.len(),
                usable_columns@ == usable_among(loaded_data, i as int),
                forall|k: int| 0 <= k < usable_columns@.len() ==> (#[trigger] usable_columns@[k]) < i,
            decreases n - i,
        {
            if is_usable(loaded_data.columns[i].as_str(), &loaded_data.column_data[i]) {
                usable_columns.push(i);
            }
            i += 1;
        }
        if usable_columns.len() == 0 {
            let mut k: usize = 0;
            while k < n
                invariant
                    k <= n,
                    usable_columns@.len() == k,
                    forall|j: int| 0 <= j < k ==> #[trigger] usable_columns@[j] == j,
                decreases n - k,
            {
                usable_columns.push(k);
                k += 1;
            }
            assert(usable_columns@ =~= Seq::new(n as nat, |k: int| k as usize));
        }
        let mut selected_y: Vec<bool> = Vec::new();
        let mut k: usize = 0;
        while k < usable_columns.len()
            invariant
                k <= usable_columns.len(),
                selected_y@.len() == k,
                forall|j: int| 0 <= j < k ==> !(#[trigger] selected_y@[j]),
            decreases usable_columns.len() - k,
        {
            selected_y.push(false);
            k += 1;
        }
        DataSelectionState {
            loaded_data,
            target_graph_id,
            selected_x: 0,
            selected_y,
            selected_z: None,
            usable_columns,
        }
    }

    /// Whether a `y` column is chosen, so that the dialog can be accepted.
    pub fn any_y_selected(&self) -> (r: bool)
        ensures
            r == self.selected_y@.contains(true),
    {
        let mut i: usize = 0;
        while i < self.selected_y.len()
            invariant
                i <= self.selected_y.len(),
                forall|k: int| 0 <= k < i ==> !(#[trigger] self.selected_y@[k]),
            decreases self.selected_y.len() - i,
        {
            if self.selected_y[i] {
                return true;
            }
            i += 1;
        }
        false
    }

    /// The columns that the dialog hands over when it is accepted: the
    /// chosen `x`, the chosen `y` columns in order, and the chosen `z`.
    /// None while no `y` column is chosen.
    pub fn selection(&self) -> (r: Option<ColumnSelection>)
        requires
            self.well_formed(),
        ensures
            ({
                let ys = chosen_columns(
                    self.usable_columns@,
                    self.selected_y@,
                    self.selected_y@.len() as int,
                );
                match r {
                    Some(s) => {
                        &&& ys.len() > 0
                        &&& s.graph_id == self.target_graph_id
                        &&& s.x_col_index == self.usable_columns@[self.selected_x as int]
                        &&& s.y_col_indices@ == ys
                        &&& match self.selected_z {
                            Some(z) => s.z_col_index == Some(self.usable_columns@[z as int]),
                            None => s.z_col_index.is_none(),
                        }
                    },
                    None => ys.len() == 0,
                }
            }),
    {
        let mut y_cols: Vec<usize> = Vec::new();
        let mut i: usize = 0;
        while i < self.selected_y.len()
            invariant
                i <= self.selected_y.len(),
                self.selected_y@.len() == self.usable_columns@.len(),
                y_cols@ == chosen_columns(self.usable_columns@, self.selected_y@, i as int),
            decreases self.selected_y.len() - i,
        {
            if self.selected_y[i] {
                y_cols.push(self.usable_columns[i]);
            }
            i += 1;
        }
        if y_cols.len() == 0 {
            return None;
        }
        let z_col = match self.selected_z {
            Some(z) => Some(self.usable_columns[z]),
            None => None,
        };
        Some(
            ColumnSelection {
                graph_id: self.target_graph_id,
                x_col_index: self.usable_columns[self.selected_x],
                y_col_indices: y_cols,
                z_col_index: z_col,
            },
        )
    }
}

} // verus!
