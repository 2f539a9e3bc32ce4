//! The result mapper: backend row data becomes ordered key-value records
//! with the column order preserved.
use vstd::prelude::*;

use crate::GatewayError;
use crate::value::SqlValue;
use crate::value::SqlValueModel;
use crate::value::vals;
use crate::value::value_dup;

verus! {

/// One result record: the column names, in result order, and the value of
/// each column at the same index.
#[derive(Debug)]
pub struct RowRecord {
    pub columns: Vec<String>,
    pub values: Vec<SqlValue>,
}

/// The name texts of a column list.
pub open spec fn col_views(cols: Seq<String>) -> Seq<Seq<char>> {
    cols.map_values(|c: String| c@)
}

/// A record carries exactly these column names over exactly this row.
pub open spec fn record_matches(rec: RowRecord, cols: Seq<Seq<char>>, row: Seq<SqlValueModel>) -> bool {
    &&& col_views(rec.columns@) == cols
    &&& vals(rec.values@) == row
    &&& rec.columns@.len() == rec.values@.len()
}

/// Maps raw backend rows to records, preserving row order and column
/// order. Succeeds exactly when every row has one value per column;
/// a row of the wrong width reports `BackendError`.
pub fn map_rows(columns: &Vec<String>, rows: &Vec<Vec<SqlValue>>) -> (r: Result<
    Vec<RowRecord>,
    GatewayError,
>)
    ensures
        r is Ok <==> (forall|i: int|
            0 <= i < rows@.len() ==> (#[trigger] rows@[i])@.len() == columns@.len()),
        r matches Ok(recs) ==> recs@.len() == rows@.len() && forall|i: int|
            0 <= i < rows@.len() ==> record_matches(
                #[trigger] recs@[i],
                col_views(columns@),
                vals(rows@[i]@),
            ),
        r matches Err(e) ==> e is BackendError,
{
    let ncols = columns.len();
    let nrows = rows.len();
    let mut recs: Vec<RowRecord> = Vec::new();
    let mut i: usize = 0;
    while i < nrows
        invariant
            0 <= i <= nrows,
            nrows == rows@.len(),
            ncols == columns@.len(),
            recs@.len() == i,
            forall|p: int|
                0 <= p < i ==> record_matches(
                    #[trigger] recs@[p],
                    col_views(columns@),
                    vals(rows@[p]@),
                ),
            forall|p: int| 0 <= p < i ==> (#[trigger] rows@[p])@.len() == columns@.len(),
        decreases nrows - i,
    {
        if rows[i].len() != ncols {
            return Err(GatewayError::BackendError("row width does not match column count".to_owned()));
        }
        let mut keys: Vec<String> = Vec::new();
        let mut values: Vec<SqlValue> = Vec::new();
        let mut j: usize = 0;
        while j < ncols
            invariant
                0 <= j <= ncols,
                0 <= i < nrows,
                nrows == rows@.len(),
                ncols == columns@.len(),
                rows@[i as int]@.len() == ncols,
                keys@.len() == j,
                values@.len() == j,
                forall|q: int| 0 <= q < j ==> (#[trigger] keys@[q])@ == columns@[q]@,
                forall|q: int| 0 <= q < j ==> (#[trigger] values@[q])@ == rows@[i as int]@[q]@,
            decreases ncols - j,
        {
            keys.push(columns[j].clone());
            values.push(value_dup(&rows[i][j]));
            j = j + 1;
        }
        let rec = RowRecord { columns: keys, values };
        proof {
            assert(col_views(rec.columns@) =~= col_views(columns@));
            assert(vals(rec.values@) =~= vals(rows@[i as int]@));
        }
        recs.push(rec);
        i = i + 1;
    }
    Ok(recs)
}

} // verus!
