//! Measurements: one timed run of one strategy on one ordered pair of
//! inputs, and the session that runs every strategy in both orders.

use crate::parallel::par_map;
use crate::strategy::{designate, roles, Strategy};
use std::time::SystemTime;
use vstd::prelude::*;
use vstd::string::*;

verus! {

/// What one run of a strategy left behind: the name it is reported under,
/// the time the run took in nanoseconds, and the elements it emitted.
#[derive(Debug)]
pub struct Product {
    pub name: String,
    pub time: u128,
    pub result: Vec<usize>,
}

impl Product {
    /// A measurement of the given name, time in nanoseconds and result.
    pub fn new(name: String, time: u128, result: Vec<usize>) -> (product: Product)
        ensures
            product == (Product { name, time, result }),
    {
        Product { name, time, result }
    }
}

/// The clock went backwards while the named measurement was taken.
#[derive(Debug)]
pub struct ClockError {
    pub name: String,
}

/// Closes a measurement once the clock has been read: with the time that
/// has passed it is a product, without one it is given up.
pub fn conclude(name: String, elapsed: Option<u128>, result: Vec<usize>) -> (outcome: Result<
    Product,
    ClockError,
>)
    ensures
        outcome == match elapsed {
            Some(time) => Ok::<Product, ClockError>(Product { name, time, result }),
            None => Err::<Product, ClockError>(ClockError { name }),
        },
{
    match elapsed {
        Some(time) => Ok(Product::new(name, time, result)),
        None => Err(ClockError { name }),
    }
}

/// `outcome` is what a measurement of `method` on `big` and `small` may
/// come to: under the name of the strategy followed by `appendage`, either
/// a product that holds what the strategy emits, whatever the time, or a
/// clock error.
pub open spec fn measured(
    method: Strategy,
    big: Seq<usize>,
    small: Seq<usize>,
    appendage: Seq<char>,
    outcome: Result<Product, ClockError>,
) -> bool {
    match outcome {
        Ok(product) => product.name@ == method.label() + appendage && product.result@
            == method.emitted(big, small),
        Err(error) => error.name@ == method.label() + appendage,
    }
}

/// Runs `method` once with `big` as the collection that is walked and
/// `small` as the one that is searched, and times the run by the system
/// clock.
pub fn test_method(method: Strategy, big: &[usize], small: &[usize], appendage: &str) -> (outcome:
    Result<Product, ClockError>)
    ensures
        measured(method, big@, small@, appendage@, outcome),
{
    let mut name: String = method.name();
    name.append(appendage);
    let start: SystemTime = SystemTime::now();
    let result: Vec<usize> = method.intersect(big, small);
    let elapsed: Option<u128> = match SystemTime::now().duration_since(start) {
        Ok(duration) => Some(duration.as_nanos()),
        Err(_) => None,
    };
    conclude(name, elapsed, result)
}

/// One measurement to take: a strategy, and whether the roles of the two
/// collections are switched.
#[derive(Clone, Copy, Debug)]
pub struct Job {
    pub strategy: Strategy,
    pub switched: bool,
}

/// `outcome` is what the job may come to.
pub open spec fn job_done(
    job: Job,
    big: Seq<usize>,
    small: Seq<usize>,
    outcome: Result<Product, ClockError>,
) -> bool {
    if job.switched {
        measured(job.strategy, small, big, " switched order"@, outcome)
    } else {
        measured(job.strategy, big, small, ""@, outcome)
    }
}

/// The jobs of a session: for each strategy in turn one in the given order
/// and one with the roles switched.
pub open spec fn jobs_of(strategies: Seq<Strategy>) -> Seq<Job> {
    Seq::new(
        2 * strategies.len(),
        |k: int| Job { strategy: strategies[k / 2], switched: k % 2 == 1 },
    )
}

/// Lists the jobs of a session.
pub fn jobs(strategies: &[Strategy]) -> (list: Vec<Job>)
    ensures
        list@ == jobs_of(strategies@),
{
    let mut list: Vec<Job> = Vec::new();
    let mut i: usize = 0;
    while i < strategies.len()
        invariant
            i <= strategies.len(),
            list@ == jobs_of(strategies@.take(i as int)),
        decreases strategies.len() - i,
    {
        list.push(Job { strategy: strategies[i], switched: false });
        list.push(Job { strategy: strategies[i], switched: true });
        i += 1;
        assert(list@ =~= jobs_of(strategies@.take(i as int)));
    }
    assert(strategies@.take(i as int) =~= strategies@);
    list
}

/// `outcomes` is what a session on `a` and `b` may come to: an outcome for
/// each job, at the place of the job, with the longer collection as the big
/// one.
pub open spec fn session(
    strategies: Seq<Strategy>,
    a: Seq<usize>,
    b: Seq<usize>,
    outcomes: Seq<Result<Product, ClockError>>,
) -> bool {
    &&& outcomes.len() == 2 * strategies.len()
    &&& forall|k: int|
        0 <= k < outcomes.len() ==> job_done(
            jobs_of(strategies)[k],
            roles(a, b).0,
            roles(a, b).1,
            #[trigger] outcomes[k],
        )
}

/// Measures every strategy twice, once with the longer collection as the
/// big one and once with the roles switched. The jobs are handed out to
/// worker threads; all of them are done when the function returns.
pub fn run(strategies: &[Strategy], a: &[usize], b: &[usize]) -> (outcomes: Vec<
    Result<Product, ClockError>,
>)
    ensures
        session(strategies@, a@, b@, outcomes@),
{
    let (big, small) = designate(a, b);
    let list: Vec<Job> = jobs(strategies);
    let work = |job: &Job| -> (outcome: Result<Product, ClockError>)
        ensures
            job_done(*job, big@, small@, outcome),
        {
            if job.switched {
                test_method(job.strategy, small, big, " switched order")
            } else {
                test_method(job.strategy, big, small, "")
            }
        };
    let outcomes = par_map(list.as_slice(), work);
    proof {
        assert forall|k: int| 0 <= k < outcomes@.len() implies job_done(
            jobs_of(strategies@)[k],
            big@,
            small@,
            #[trigger] outcomes@[k],
        ) by {
            assert(call_ensures(work, (&list@[k],), outcomes@[k]));
        }
    }
    outcomes
}

/// The products among the outcomes, in their order.
pub open spec fn successes(outcomes: Seq<Result<Product, ClockError>>) -> Seq<Product>
    decreases outcomes.len(),
{
    if outcomes.len() == 0 {
        Seq::empty()
    } else {
        match outcomes.last() {
            Ok(product) => successes(outcomes.drop_last()).push(product),
            Err(_) => successes(outcomes.drop_last()),
        }
    }
}

/// The clock errors among the outcomes, in their order.
pub open spec fn failures(outcomes: Seq<Result<Product, ClockError>>) -> Seq<ClockError>
    decreases outcomes.len(),
{
    if outcomes.len() == 0 {
        Seq::empty()
    } else {
        match outcomes.last() {
            Ok(_) => failures(outcomes.drop_last()),
            Err(error) => failures(outcomes.drop_last()).push(error),
        }
    }
}

/// Parts the measurements that were taken from those that were given up.
pub fn completed(outcomes: Vec<Result<Product, ClockError>>) -> (parts: (
    Vec<Product>,
    Vec<ClockError>,
))
    ensures
        parts.0@ == successes(outcomes@),
        parts.1@ == failures(outcomes@),
{
    let mut products: Vec<Product> = Vec::new();
    let mut errors: Vec<ClockError> = Vec::new();
    let ghost all = outcomes@;
    for outcome in it: outcomes
        invariant
            it.seq() == all,
            products@ == successes(all.take(it.index() as int)),
            errors@ == failures(all.take(it.index() as int)),
    {
        proof {
            assert(all.take(it.index() + 1).drop_last() =~= all.take(it.index() as int));
        }
        match outcome {
            Ok(product) => {
                products.push(product);
            },
            Err(error) => {
                errors.push(error);
            },
        }
    }
    proof {
        assert(all.take(all.len() as int) =~= all);
    }
    (products, errors)
}

} // verus!
