//! The comparison table as text: six cells to a row, a heading row first.

use crate::figures::{
    lines, lines_of, slowest_first, time_within_total, total_time, Line, LineView, LONGEST_TIME,
};
use crate::measure::Product;
use std::time::Duration;
use vstd::prelude::*;

verus! {

/// The text that `Duration`'s `Debug` gives for a duration of `secs` whole
/// seconds and `subsec_nanos` nanoseconds.
pub uninterp spec fn duration_debug(secs: u64, subsec_nanos: u32) -> Seq<char>;

/// Formats a `Duration` made by `Duration::new` with `{:?}`. The result is
/// the text named `duration_debug`; nothing else is claimed of it. Fewer
/// than a thousand million nanoseconds carry nothing into the seconds, so
/// `Duration::new` does not overflow.
#[verifier::external_body]
fn duration_text(secs: u64, subsec_nanos: u32) -> (text: String)
    requires
        subsec_nanos < 1_000_000_000,
    ensures
        text@ == duration_debug(secs, subsec_nanos),
{
    format!("{:?}", Duration::new(secs, subsec_nanos))
}

/// How a time of `nanos` nanoseconds is shown.
pub open spec fn time_shown(nanos: nat) -> Seq<char> {
    duration_debug((nanos / 1_000_000_000) as u64, (nanos % 1_000_000_000) as u32)
}

/// Writes a time out as a duration.
pub fn time_text(nanos: u128) -> (text: String)
    requires
        nanos <= LONGEST_TIME,
    ensures
        text@ == time_shown(nanos as nat),
{
    let secs: u128 = nanos / 1_000_000_000;
    let rest: u128 = nanos % 1_000_000_000;
    duration_text(secs as u64, rest as u32)
}

/// One row of the table.
#[derive(Debug)]
pub struct TableRow {
    pub name: String,
    pub time: String,
    pub speedup: String,
    pub difference: String,
    pub percent: String,
    pub compared_to: String,
}

/// A row as plain text.
pub struct RowText {
    pub name: Seq<char>,
    pub time: Seq<char>,
    pub speedup: Seq<char>,
    pub difference: Seq<char>,
    pub percent: Seq<char>,
    pub compared_to: Seq<char>,
}

impl View for TableRow {
    type V = RowText;

    open spec fn view(&self) -> RowText {
        RowText {
            name: self.name@,
            time: self.time@,
            speedup: self.speedup@,
            difference: self.difference@,
            percent: self.percent@,
            compared_to: self.compared_to@,
        }
    }
}

/// The heading row.
pub open spec fn heading() -> RowText {
    RowText {
        name: "Name"@,
        time: "Time taken"@,
        speedup: "times faster than previous"@,
        difference: "Absolute time difference"@,
        percent: "percent of previous time"@,
        compared_to: "Compared to"@,
    }
}

/// The row of a line whose two times are already written out as `time` and
/// `gained`. A line that is compared with nothing shows a dash in the four
/// cells of the comparison.
pub open spec fn row_with(line: LineView, time: Seq<char>, gained: Seq<char>) -> RowText {
    match line.versus {
        Some(versus) => RowText {
            name: line.name,
            time,
            speedup: versus.speedup.text() + "x"@,
            difference: gained,
            percent: versus.share.text() + "%"@,
            compared_to: versus.against,
        },
        None => RowText {
            name: line.name,
            time,
            speedup: "-"@,
            difference: "-"@,
            percent: "-"@,
            compared_to: "-"@,
        },
    }
}

/// The row of a line.
pub open spec fn row_of(line: LineView) -> RowText {
    row_with(
        line,
        time_shown(line.time),
        match line.versus {
            Some(versus) => time_shown(versus.gained),
            None => Seq::empty(),
        },
    )
}

/// Sets a line out as a row, given its two times as text.
pub fn row_from(line: &Line, time: String, gained: String) -> (row: TableRow)
    ensures
        row@ == row_with(line@, time@, gained@),
{
    match &line.versus {
        Some(versus) => TableRow {
            name: line.name.clone(),
            time,
            speedup: versus.speedup.render("x"),
            difference: gained,
            percent: versus.share.render("%"),
            compared_to: versus.against.clone(),
        },
        None => TableRow {
            name: line.name.clone(),
            time,
            speedup: "-".to_owned(),
            difference: "-".to_owned(),
            percent: "-".to_owned(),
            compared_to: "-".to_owned(),
        },
    }
}

/// Neither time of the line is longer than `LONGEST_TIME`.
pub open spec fn showable(line: LineView) -> bool {
    &&& line.time <= LONGEST_TIME
    &&& line.versus matches Some(versus) ==> versus.gained <= LONGEST_TIME
}

/// Sets a line out as a row.
pub fn render(line: &Line) -> (row: TableRow)
    requires
        showable(line@),
    ensures
        row@ == row_of(line@),
{
    let time: String = time_text(line.time);
    let gained: String = match &line.versus {
        Some(versus) => time_text(versus.gained),
        None => String::new(),
    };
    row_from(line, time, gained)
}

/// The row at `i` of the table of `products`: the heading, a row for each
/// measurement and the closing row.
pub open spec fn table_row(products: Seq<Product>, i: int) -> RowText {
    if i == 0 {
        heading()
    } else {
        row_of(lines_of(products)[i - 1])
    }
}

/// The comparison table of measurements that are ranked from the slowest to
/// the fastest.
pub fn comparison_table(products: &[Product]) -> (rows: Vec<TableRow>)
    requires
        products.len() > 0,
        slowest_first(products@),
        total_time(products@) <= LONGEST_TIME,
    ensures
        rows.len() == products.len() + 2,
        forall|i: int| 0 <= i < rows.len() ==> (#[trigger] rows[i])@ == table_row(products@, i),
{
    let figures: Vec<Line> = lines(products);
    let mut rows: Vec<TableRow> = Vec::new();
    rows.push(
        TableRow {
            name: "Name".to_owned(),
            time: "Time taken".to_owned(),
            speedup: "times faster than previous".to_owned(),
            difference: "Absolute time difference".to_owned(),
            percent: "percent of previous time".to_owned(),
            compared_to: "Compared to".to_owned(),
        },
    );
    let mut i: usize = 0;
    while i < figures.len()
        invariant
            i <= figures.len(),
            figures.len() == products.len() + 1,
            rows.len() == i + 1,
            products.len() > 0,
            slowest_first(products@),
            total_time(products@) <= LONGEST_TIME,
            forall|k: int|
                0 <= k < figures.len() ==> (#[trigger] figures[k])@ == lines_of(products@)[k],
            forall|k: int| 0 <= k < rows.len() ==> (#[trigger] rows[k])@ == table_row(products@, k),
        decreases figures.len() - i,
    {
        proof {
            lines_are_showable(products@, i as int);
        }
        rows.push(render(&figures[i]));
        i += 1;
    }
    rows
}

/// Every line of such a table can be shown.
pub proof fn lines_are_showable(products: Seq<Product>, i: int)
    requires
        products.len() > 0,
        slowest_first(products),
        total_time(products) <= LONGEST_TIME,
        0 <= i <= products.len(),
    ensures
        showable(lines_of(products)[i]),
{
    time_within_total(products, 0);
    if i < products.len() {
        time_within_total(products, i);
        if i > 0 {
            time_within_total(products, i - 1);
        }
    }
}

} // verus!
