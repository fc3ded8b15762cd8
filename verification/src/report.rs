//! The report on a session: the measurements ranked, and their comparison
//! table.

use crate::figures::{total, total_time, total_time_of_rearranged, LONGEST_TIME};
use crate::measure::Product;
use crate::rank::{carried, in_turn, rank, ranking};
use crate::table::{comparison_table, table_row, TableRow};
use vstd::prelude::*;

verus! {

/// The measurements in ranked order, and their comparison table.
pub struct Report {
    pub ranked: Vec<Product>,
    pub rows: Vec<TableRow>,
}

/// `report` is the report on `products`: their ranking, and the table of
/// that ranking.
pub open spec fn reports(products: Seq<Product>, report: Report) -> bool {
    &&& ranking(products, report.ranked@)
    &&& report.rows.len() == products.len() + 2
    &&& forall|i: int|
        0 <= i < report.rows.len() ==> (#[trigger] report.rows[i])@ == table_row(
            report.ranked@,
            i,
        )
}

/// Ranks the measurements and draws up their comparison table. There is no
/// report on an empty list, nor on one whose times together are longer than
/// `LONGEST_TIME`.
pub fn report(products: Vec<Product>) -> (outcome: Option<Report>)
    ensures
        outcome is Some <==> products.len() > 0 && total_time(products@) <= LONGEST_TIME,
        outcome matches Some(report) ==> reports(products@, report),
{
    let ghost before = products@;
    let ranked: Vec<Product> = rank(products);
    proof {
        let from = choose|from: Seq<int>| carried(before, ranked@, from) && in_turn(ranked@, from);
        total_time_of_rearranged(before, ranked@, from);
    }
    if ranked.len() == 0 {
        return None;
    }
    match total(ranked.as_slice()) {
        Some(_) => {
            let rows: Vec<TableRow> = comparison_table(ranked.as_slice());
            Some(Report { ranked, rows })
        },
        None => None,
    }
}

} // verus!
