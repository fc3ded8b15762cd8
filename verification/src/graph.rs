//! The bar graph as text: a line for each measurement, its name padded to
//! the longest name, and a bar of marks whose length the caller has scaled.

use crate::measure::Product;
use vstd::prelude::*;
use vstd::string::*;

verus! {

/// `n` times the character `c`.
pub open spec fn run_of(c: char, n: int) -> Seq<char> {
    Seq::new(
        if n > 0 {
            n as nat
        } else {
            0
        },
        |i: int| c,
    )
}

/// One line of the graph: the name, blanks up to `width` characters, a
/// colon and a blank, and a bar of `bar` asterisks. A name longer than
/// `width` is not cut.
pub open spec fn graph_line_of(name: Seq<char>, width: nat, bar: nat) -> Seq<char> {
    name + run_of(' ', width - name.len()) + ": "@ + run_of('*', bar as int)
}

/// The length of the longest name among the measurements, in characters;
/// 0 when there is none.
pub open spec fn longest_name_of(products: Seq<Product>) -> nat
    decreases products.len(),
{
    if products.len() == 0 {
        0
    } else {
        let before = longest_name_of(products.drop_last());
        if products.last().name@.len() > before {
            products.last().name@.len()
        } else {
            before
        }
    }
}

/// No name is longer than the longest, and some name is that long.
pub proof fn longest_name_is_longest(products: Seq<Product>)
    ensures
        forall|i: int|
            0 <= i < products.len() ==> (#[trigger] products[i]).name@.len() <= longest_name_of(
                products,
            ),
        products.len() > 0 ==> exists|i: int|
            0 <= i < products.len() && (#[trigger] products[i]).name@.len() == longest_name_of(
                products,
            ),
    decreases products.len(),
{
    if products.len() > 0 {
        let rest = products.drop_last();
        longest_name_is_longest(rest);
        assert forall|i: int| 0 <= i < products.len() implies (#[trigger] products[i]).name@.len()
            <= longest_name_of(products) by {
            if i < rest.len() {
                assert(rest[i] == products[i]);
            }
        }
        if products.last().name@.len() <= longest_name_of(rest) && rest.len() > 0 {
            let w = choose|w: int|
                0 <= w < rest.len() && (#[trigger] rest[w]).name@.len() == longest_name_of(rest);
            assert(products[w].name@.len() == longest_name_of(products));
        } else {
            assert(products[products.len() - 1].name@.len() == longest_name_of(products));
        }
    }
}

/// The length of the longest name.
pub fn longest_name(products: &[Product]) -> (n: usize)
    ensures
        n == longest_name_of(products@),
{
    let mut n: usize = 0;
    let mut i: usize = 0;
    while i < products.len()
        invariant
            i <= products.len(),
            n == longest_name_of(products@.take(i as int)),
        decreases products.len() - i,
    {
        assert(products@.take(i + 1).drop_last() =~= products@.take(i as int));
        let len: usize = products[i].name.as_str().unicode_len();
        if len > n {
            n = len;
        }
        i += 1;
    }
    proof {
        assert(products@.take(i as int) =~= products@);
    }
    n
}

/// The width of the terminal when it cannot be found out.
pub const DEFAULT_COLUMNS: u16 = 80;

/// The width of the terminal to go by: the one that was found, or
/// `DEFAULT_COLUMNS`.
pub fn columns_or_default(found: Option<u16>) -> (columns: u16)
    ensures
        columns == match found {
            Some(width) => width,
            None => DEFAULT_COLUMNS,
        },
{
    match found {
        Some(width) => width,
        None => DEFAULT_COLUMNS,
    }
}

/// The room that is left for the bars on a terminal of `columns` columns,
/// beside names of up to `longest` characters and the two characters that
/// part a name from its bar; none when the terminal is narrower than that.
pub fn bar_room(columns: u16, longest: usize) -> (room: Option<usize>)
    ensures
        room == if longest + 2 <= columns {
            Some((columns - longest - 2) as usize)
        } else {
            None
        },
{
    let columns: usize = columns as usize;
    if longest <= columns && columns - longest >= 2 {
        Some(columns - longest - 2)
    } else {
        None
    }
}

/// Appends `n` times the character `c`.
fn push_run(line: &mut String, c: char, n: usize)
    ensures
        final(line)@ == old(line)@ + run_of(c, n as int),
{
    let mut i: usize = 0;
    while i < n
        invariant
            i <= n,
            line@ == old(line)@ + run_of(c, i as int),
        decreases n - i,
    {
        line.push(c);
        i += 1;
        assert(run_of(c, i as int) =~= run_of(c, i - 1).push(c));
    }
}

/// Writes one line of the graph.
pub fn graph_line(name: &str, width: usize, bar: usize) -> (line: String)
    ensures
        line@ == graph_line_of(name@, width as nat, bar as nat),
{
    let mut line: String = name.to_owned();
    let len: usize = name.unicode_len();
    if len < width {
        push_run(&mut line, ' ', width - len);
    }
    line.append(": ");
    push_run(&mut line, '*', bar);
    line
}

/// The lines of the graph, one for each measurement, with the bars that the
/// caller has scaled.
pub fn graph(products: &[Product], bars: &[usize]) -> (lines: Vec<String>)
    requires
        bars.len() == products.len(),
    ensures
        lines.len() == products.len(),
        forall|i: int|
            0 <= i < lines.len() ==> (#[trigger] lines[i])@ == graph_line_of(
                products[i].name@,
                longest_name_of(products@),
                bars[i] as nat,
            ),
{
    let width: usize = longest_name(products);
    let mut lines: Vec<String> = Vec::new();
    let mut i: usize = 0;
    while i < products.len()
        invariant
            i <= products.len(),
            bars.len() == products.len(),
            lines.len() == i,
            width == longest_name_of(products@),
            forall|k: int|
                0 <= k < i ==> (#[trigger] lines[k])@ == graph_line_of(
                    products[k].name@,
                    width as nat,
                    bars[k] as nat,
                ),
        decreases products.len() - i,
    {
        lines.push(graph_line(products[i].name.as_str(), width, bars[i]));
        i += 1;
    }
    lines
}

} // verus!
