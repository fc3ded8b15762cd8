//! Test data: collections of random length and random contents.

use crate::parallel::par_tabulate;
use rand::rngs::StdRng;
use rand::Rng;
use vstd::prelude::*;

verus! {

/// rand's standard generator, seeded by the caller or from the system.
#[verifier::external_type_specification]
#[verifier::external_body]
pub struct ExStdRng(StdRng);

/// `rand::random` for a 16-bit number, drawn from the generator of the
/// calling thread: any value may come back.
#[verifier::external_body]
fn random_length() -> (length: u16) {
    rand::random()
}

/// `rand::random` for a machine word, drawn from the generator of the
/// calling thread: any value may come back.
#[verifier::external_body]
fn random_element() -> (element: usize) {
    rand::random()
}

/// `Rng::gen` for a 16-bit number, drawn from `source`: any value may come
/// back, and nothing is said of the state in which it leaves the generator.
#[verifier::external_body]
fn next_length(source: &mut StdRng) -> (length: u16) {
    source.gen()
}

/// `Rng::gen` for a machine word, drawn from `source`: any value may come
/// back, and nothing is said of the state in which it leaves the generator.
#[verifier::external_body]
fn next_element(source: &mut StdRng) -> (element: usize) {
    source.gen()
}

/// A collection of random length, from 0 to 65535, with random elements.
/// The length is drawn first; the elements are those of `collection_of` for
/// that length.
pub fn generate() -> (collection: Vec<usize>)
    ensures
        collection.len() <= u16::MAX,
{
    let length: u16 = random_length();
    let collection: Vec<usize> = collection_of(length);
    collection
}

/// A collection of random length, at most 65535, with random elements, all
/// drawn from `source` one after the other: the length first, and for that
/// length the elements of `collection_from`. A generator with a fixed seed
/// gives the same collection every time.
pub fn generate_with(source: &mut StdRng) -> (collection: Vec<usize>)
    ensures
        collection.len() <= u16::MAX,
{
    let length: u16 = next_length(source);
    collection_from(source, length)
}

/// A collection of exactly `length` random elements, drawn on the worker
/// threads, each from the generator of its thread.
pub fn collection_of(length: u16) -> (collection: Vec<usize>)
    ensures
        collection.len() == length,
{
    let draw = |_place: u16| -> (element: usize) { random_element() };
    par_tabulate(length, draw)
}

/// A collection of exactly `length` random elements, drawn from `source`
/// one after the other.
pub fn collection_from(source: &mut StdRng, length: u16) -> (collection: Vec<usize>)
    ensures
        collection.len() == length,
{
    let mut collection: Vec<usize> = Vec::new();
    let mut drawn: u16 = 0;
    while drawn < length
        invariant
            drawn <= length,
            collection.len() == drawn,
        decreases length - drawn,
    {
        collection.push(next_element(source));
        drawn += 1;
    }
    collection
}

} // verus!
