//! The figures of the comparison table: each measurement compared with the
//! one before it, and a closing line that sums the times and compares the
//! two ends.

use crate::measure::Product;
use crate::rank::carried;
use crate::text::{ratio_of, Ratio};
use vstd::prelude::*;

verus! {

/// The longest time a line of the table can show: the whole seconds must fit
/// in 64 bits.
pub const LONGEST_TIME: u128 = 18_446_744_073_709_551_615_999_999_999;

/// No measurement is followed by a slower one.
pub open spec fn slowest_first(products: Seq<Product>) -> bool {
    forall|i: int, j: int| 0 <= i <= j < products.len() ==> products[i].time >= products[j].time
}

/// The sum of all the times.
pub open spec fn total_time(products: Seq<Product>) -> nat
    decreases products.len(),
{
    if products.len() == 0 {
        0
    } else {
        total_time(products.drop_last()) + products.last().time as nat
    }
}

/// A measurement set against a slower one.
pub struct Versus {
    /// How many times faster: the slower time over the faster.
    pub speedup: Ratio,
    /// The time gained, in nanoseconds.
    pub gained: u128,
    /// The faster time as a percentage of the slower.
    pub share: Ratio,
    /// The name of the measurement compared against.
    pub against: String,
}

/// One line of the table.
pub struct Line {
    pub name: String,
    pub time: u128,
    /// Absent on the first line, which has nothing before it.
    pub versus: Option<Versus>,
}

/// A comparison as plain values.
pub struct VersusView {
    pub speedup: Ratio,
    pub gained: nat,
    pub share: Ratio,
    pub against: Seq<char>,
}

/// A line as plain values.
pub struct LineView {
    pub name: Seq<char>,
    pub time: nat,
    pub versus: Option<VersusView>,
}

impl View for Versus {
    type V = VersusView;

    open spec fn view(&self) -> VersusView {
        VersusView {
            speedup: self.speedup,
            gained: self.gained as nat,
            share: self.share,
            against: self.against@,
        }
    }
}

impl View for Line {
    type V = LineView;

    open spec fn view(&self) -> LineView {
        LineView {
            name: self.name@,
            time: self.time as nat,
            versus: match self.versus {
                Some(v) => Some(v@),
                None => None,
            },
        }
    }
}

/// A time of `faster` set against a time of `slower`.
pub open spec fn compared(slower: nat, faster: nat, against: Seq<char>) -> VersusView {
    VersusView {
        speedup: ratio_of(slower, faster),
        gained: (slower - faster) as nat,
        share: ratio_of(faster * 100, slower),
        against,
    }
}

/// The line of the measurement at `i`: the first stands alone, every other
/// one is compared with the measurement just before it.
pub open spec fn line_at(products: Seq<Product>, i: int) -> LineView {
    LineView {
        name: products[i].name@,
        time: products[i].time as nat,
        versus: if i == 0 {
            None
        } else {
            Some(
                compared(
                    products[i - 1].time as nat,
                    products[i].time as nat,
                    products[i - 1].name@,
                ),
            )
        },
    }
}

/// The closing line: all the times together, and the last measurement
/// compared with the first.
pub open spec fn total_line(products: Seq<Product>) -> LineView {
    LineView {
        name: "Total"@,
        time: total_time(products),
        versus: Some(
            compared(products.first().time as nat, products.last().time as nat, "-"@),
        ),
    }
}

/// The whole table: a line for each measurement, and the closing line.
pub open spec fn lines_of(products: Seq<Product>) -> Seq<LineView> {
    Seq::new(products.len(), |i: int| line_at(products, i)).push(total_line(products))
}

/// The sum of a part is at most the sum of the whole.
pub proof fn total_time_grows(products: Seq<Product>, n: int)
    requires
        0 <= n <= products.len(),
    ensures
        total_time(products.take(n)) <= total_time(products),
    decreases products.len() - n,
{
    if n == products.len() {
        assert(products.take(n) =~= products);
    } else {
        total_time_grows(products, n + 1);
        assert(products.take(n + 1).drop_last() =~= products.take(n));
    }
}

/// No single time exceeds the sum.
pub proof fn time_within_total(products: Seq<Product>, i: int)
    requires
        0 <= i < products.len(),
    ensures
        products[i].time <= total_time(products),
{
    total_time_grows(products, i + 1);
}

/// Taking one measurement out lowers the sum by its time.
pub proof fn total_time_without(products: Seq<Product>, k: int)
    requires
        0 <= k < products.len(),
    ensures
        total_time(products) == total_time(products.remove(k)) + products[k].time,
    decreases products.len(),
{
    if k < products.len() - 1 {
        total_time_without(products.drop_last(), k);
        assert(products.remove(k).drop_last() =~= products.drop_last().remove(k));
    }
}

/// The sum does not depend on the order of the measurements.
pub proof fn total_time_of_rearranged(before: Seq<Product>, after: Seq<Product>, from: Seq<int>)
    requires
        carried(before, after, from),
    ensures
        total_time(after) == total_time(before),
    decreases after.len(),
{
    if after.len() > 0 {
        let n = after.len() as int;
        let k = from[n - 1];
        let fewer = before.remove(k);
        let shifted = Seq::new(
            (n - 1) as nat,
            |i: int|
                if from[i] > k {
                    from[i] - 1
                } else {
                    from[i]
                },
        );
        assert(carried(fewer, after.drop_last(), shifted)) by {
            assert forall|i: int| 0 <= i < n - 1 implies 0 <= #[trigger] shifted[i] < fewer.len()
                && after.drop_last()[i] == fewer[shifted[i]] by {
                assert(from[i] != from[n - 1]);
            }
            assert forall|i: int, j: int| 0 <= i < j < n - 1 implies #[trigger] shifted[i]
                != #[trigger] shifted[j] by {
                assert(from[i] != from[j]);
            }
        }
        total_time_of_rearranged(fewer, after.drop_last(), shifted);
        total_time_without(before, k);
    }
}

/// The sum of all the times, unless it is longer than `LONGEST_TIME`.
pub fn total(products: &[Product]) -> (sum: Option<u128>)
    ensures
        sum == if total_time(products@) <= LONGEST_TIME {
            Some(total_time(products@) as u128)
        } else {
            None
        },
{
    let mut sum: u128 = 0;
    let mut i: usize = 0;
    while i < products.len()
        invariant
            i <= products.len(),
            sum == total_time(products@.take(i as int)),
            sum <= LONGEST_TIME,
        decreases products.len() - i,
    {
        proof {
            assert(products@.take(i + 1).drop_last() =~= products@.take(i as int));
            total_time_grows(products@, i + 1);
        }
        let time: u128 = products[i].time;
        if time > LONGEST_TIME || sum > LONGEST_TIME - time {
            return None;
        }
        sum = sum + time;
        i += 1;
    }
    proof {
        assert(products@.take(i as int) =~= products@);
    }
    Some(sum)
}

/// Sets a time against a slower one.
pub fn compare(slower: u128, faster: u128, against: String) -> (versus: Versus)
    requires
        faster <= slower <= LONGEST_TIME,
    ensures
        versus@ == compared(slower as nat, faster as nat, against@),
{
    Versus {
        speedup: Ratio::of(slower, faster),
        gained: slower - faster,
        share: Ratio::of(faster * 100, slower),
        against,
    }
}

/// The lines of the comparison table for measurements that are already
/// ranked from the slowest to the fastest.
pub fn lines(products: &[Product]) -> (out: Vec<Line>)
    requires
        products.len() > 0,
        slowest_first(products@),
        total_time(products@) <= LONGEST_TIME,
    ensures
        out.len() == products.len() + 1,
        forall|i: int| 0 <= i < out.len() ==> (#[trigger] out[i])@ == lines_of(products@)[i],
{
    let mut out: Vec<Line> = Vec::new();
    let mut sum: u128 = 0;
    let mut i: usize = 0;
    while i < products.len()
        invariant
            i <= products.len(),
            out.len() == i,
            products.len() > 0,
            slowest_first(products@),
            total_time(products@) <= LONGEST_TIME,
            sum == total_time(products@.take(i as int)),
            forall|k: int| 0 <= k < i ==> (#[trigger] out[k])@ == line_at(products@, k),
        decreases products.len() - i,
    {
        proof {
            assert(products@.take(i + 1).drop_last() =~= products@.take(i as int));
            total_time_grows(products@, i + 1);
        }
        let versus: Option<Versus> = if i == 0 {
            None
        } else {
            proof {
                time_within_total(products@, i - 1);
            }
            Some(compare(products[i - 1].time, products[i].time, products[i - 1].name.clone()))
        };
        out.push(Line { name: products[i].name.clone(), time: products[i].time, versus });
        sum = sum + products[i].time;
        i += 1;
    }
    let last: usize = products.len() - 1;
    proof {
        assert(products@.take(i as int) =~= products@);
        time_within_total(products@, 0);
    }
    let closing = Line {
        name: "Total".to_owned(),
        time: sum,
        versus: Some(compare(products[0].time, products[last].time, "-".to_owned())),
    };
    out.push(closing);
    out
}

} // verus!
