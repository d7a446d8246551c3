//! Sampling helpers for a set of test nodes: picking two distinct nodes, and
//! picking a node that is running. The raw randomness comes from an outside
//! generator; every decision taken on a draw is verified for all draws.

use vstd::prelude::*;
use vstd::pervasive::unreached;

verus! {

/// Relies on `rand::random`: a fresh integer from the thread's generator.
/// Nothing is promised of the value.
#[verifier::external_body]
fn random_u64() -> u64 {
    rand::random::<u64>()
}

/// A raw random draw, reduced to a `usize`.
fn random_draw() -> usize {
    #[verifier::truncate]
    (random_u64() as usize)
}

/// Two distinct indices below `num_nodes`, from two raw draws: the first is
/// the first draw reduced, and the second avoids it by skipping over it.
pub fn pick_two_distinct(num_nodes: usize, draw_i: usize, draw_j: usize) -> (r: (usize, usize))
    requires
        2 <= num_nodes,
    ensures
        r.0 < num_nodes,
        r.1 < num_nodes,
        r.0 != r.1,
{
    let i = draw_i % num_nodes;
    let mut j = draw_j % (num_nodes - 1);
    if j >= i {
        j = j + 1;
    }
    (i, j)
}

/// Two distinct node indices below `num_nodes`, drawn at random.
pub fn sample_two_nodes(num_nodes: usize) -> (r: (usize, usize))
    requires
        2 <= num_nodes,
    ensures
        r.0 < num_nodes,
        r.1 < num_nodes,
        r.0 != r.1,
{
    let a = random_draw();
    let b = random_draw();
    pick_two_distinct(num_nodes, a, b)
}

/// The first running node at or after `start`, wrapping around to the front;
/// nothing when no node is running.
pub fn first_running_from(running: &Vec<bool>, start: usize) -> (r: Option<usize>)
    requires
        start < running@.len(),
    ensures
        match r {
            Option::Some(i) => i < running@.len() && running@[i as int],
            Option::None => forall|i: int| 0 <= i < running@.len() ==> !running@[i],
        },
{
    let n = running.len();
    let mut k = start;
    while k < n
        invariant
            n == running@.len(),
            start <= k <= n,
            forall|j: int| start <= j < k ==> !running@[j],
        decreases n - k,
    {
        if running[k] {
            return Option::Some(k);
        }
        k += 1;
    }
    let mut k2: usize = 0;
    while k2 < start
        invariant
            n == running@.len(),
            start < n,
            0 <= k2 <= start,
            forall|j: int| start <= j < n ==> !running@[j],
            forall|j: int| 0 <= j < k2 ==> !running@[j],
        decreases start - k2,
    {
        if running[k2] {
            return Option::Some(k2);
        }
        k2 += 1;
    }
    Option::None
}

/// A running node for sending a transaction or checking a balance, found
/// from a random starting position.
pub fn sample_queryable_node(running: &Vec<bool>) -> (r: usize)
    requires
        running@.len() > 0,
        exists|i: int| 0 <= i < running@.len() && running@[i],
    ensures
        r < running@.len(),
        running@[r as int],
{
    let n = running.len();
    let start = random_draw() % n;
    match first_running_from(running, start) {
        Option::Some(i) => i,
        Option::None => {
            proof {
                let w = choose|w: int| 0 <= w < running@.len() && running@[w];
                assert(!running@[w]);
            }
            unreached()
        },
    }
}

} // verus!
