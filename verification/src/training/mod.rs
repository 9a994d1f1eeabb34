//! One generation of training: the first pool of brains, and the pool that the
//! ranked players of a generation breed.
pub mod tournament;

use crate::player::brain::{
    explained_by_draws, genome_fits, id_modulus, is_point_mutation_of, is_single_bit,
    OrganicNNBrain,
};
use vstd::prelude::*;

verus! {

/// A brain that can be mutated without any risk of an undecodable chunk: its inner
/// layer has a non-zero id modulus, or its genome has no chunk.
pub open spec fn safe_to_mutate(b: OrganicNNBrain) -> bool {
    id_modulus(b.inside_size()) != 0 || b.genome_seq().len() < 9
}

/// `pool_size` random brains with `conns` connections and `inside_size` inner neurons;
/// `None` when one of the drawn genomes has a chunk that needs an inner layer whose id
/// modulus is zero. A pool is always returned when that modulus is non-zero or there
/// is no connection.
pub fn initial_pool(pool_size: usize, inside_size: usize, conns: usize) -> (r: Option<
    Vec<OrganicNNBrain>,
>)
    requires
        pool_size == 0 || conns * 9 <= usize::MAX,
    ensures
        id_modulus(inside_size) != 0 || conns == 0 || pool_size == 0 ==> r is Some,
        r is None ==> exists|g: Seq<u8>| g.len() == conns * 9 && !#[trigger] genome_fits(g, inside_size),
        r matches Some(pool) ==> {
            &&& pool@.len() == pool_size
            &&& forall|k: int|
                0 <= k < pool_size ==> {
                    &&& (#[trigger] pool@[k]).genome_seq().len() == conns * 9
                    &&& pool@[k].inside_size() == inside_size
                    &&& genome_fits(pool@[k].genome_seq(), inside_size)
                    &&& pool@[k].in_sync()
                }
        },
{
    let mut pool: Vec<OrganicNNBrain> = Vec::new();
    let mut k: usize = 0;
    while k < pool_size
        invariant
            k <= pool_size,
            pool_size == 0 || conns * 9 <= usize::MAX,
            pool@.len() == k,
            forall|j: int|
                0 <= j < k ==> {
                    &&& (#[trigger] pool@[j]).genome_seq().len() == conns * 9
                    &&& pool@[j].inside_size() == inside_size
                    &&& genome_fits(pool@[j].genome_seq(), inside_size)
                    &&& pool@[j].in_sync()
                },
        decreases pool_size - k,
    {
        match OrganicNNBrain::random(inside_size, conns) {
            Some(b) => {
                pool.push(b);
            },
            None => {
                return None;
            },
        }
        k = k + 1;
    }
    Some(pool)
}

/// A parent of the next generation that `next_pool` can mutate without dividing by
/// zero: its genome fits its inner layer, and the period is non-zero unless the genome
/// is empty.
pub open spec fn can_breed(b: OrganicNNBrain, period: u32) -> bool {
    &&& genome_fits(b.genome_seq(), b.inside_size())
    &&& (period > 0 || b.genome_seq().len() == 0)
}

/// Child `k` of the next generation is a mutation at period `period` of `parent`.
pub open spec fn is_child_of(child: OrganicNNBrain, parent: OrganicNNBrain, period: u32) -> bool {
    &&& exists|rolls: Seq<u32>, bits: Seq<u32>|
        #[trigger] explained_by_draws(parent.genome_seq(), child.genome_seq(), rolls, bits, period)
    &&& is_point_mutation_of(parent.genome_seq(), child.genome_seq())
    &&& (period <= 8 ==> forall|i: int|
        0 <= i < parent.genome_seq().len() ==> is_single_bit(
            parent.genome_seq()[i] ^ #[trigger] child.genome_seq()[i],
        ))
    &&& child.inside_size() == parent.inside_size()
    &&& genome_fits(child.genome_seq(), child.inside_size())
    &&& child.in_sync()
}

/// The next generation: `pool_size` brains, brain `k` a mutation (at period `period`)
/// of `ranked[k % reproduction_sample]`, so that the best `reproduction_sample` players
/// take turns as parents. Only the parents that are used must exist and be breedable.
/// `None` when some mutation made a chunk need an inner layer whose id modulus is
/// zero; a pool is always returned when every parent used is safe to mutate.
pub fn next_pool(
    ranked: &Vec<&OrganicNNBrain>,
    pool_size: usize,
    reproduction_sample: usize,
    period: u32,
) -> (r: Option<Vec<OrganicNNBrain>>)
    requires
        pool_size > 0 ==> reproduction_sample > 0,
        pool_size > 0 ==> reproduction_sample <= ranked@.len() || pool_size <= ranked@.len(),
        forall|j: int|
            0 <= j < ranked@.len() && j < pool_size && j < reproduction_sample ==> can_breed(
                *#[trigger] ranked@[j],
                period,
            ),
    ensures
        (forall|j: int|
            0 <= j < ranked@.len() && j < pool_size && j < reproduction_sample ==> safe_to_mutate(
                *#[trigger] ranked@[j],
            )) ==> r is Some,
        r is None ==> exists|j: int|
            0 <= j < ranked@.len() && j < pool_size && j < reproduction_sample && !safe_to_mutate(
                *#[trigger] ranked@[j],
            ),
        r is None ==> exists|k: int, g: Seq<u8>, rolls: Seq<u32>, bits: Seq<u32>|
            0 <= k < pool_size && #[trigger] explained_by_draws(
                (*ranked@[k % (reproduction_sample as int)]).genome_seq(),
                g,
                rolls,
                bits,
                period,
            ) && !genome_fits(g, (*ranked@[k % (reproduction_sample as int)]).inside_size()),
        r matches Some(pool) ==> {
            &&& pool@.len() == pool_size
            &&& forall|k: int|
                0 <= k < pool_size ==> is_child_of(
                    #[trigger] pool@[k],
                    *ranked@[k % (reproduction_sample as int)],
                    period,
                )
        },
{
    let mut pool: Vec<OrganicNNBrain> = Vec::new();
    let mut i: usize = 0;
    while pool.len() < pool_size
        invariant
            i == pool@.len(),
            i <= pool_size,
            pool_size > 0 ==> reproduction_sample > 0,
            pool_size > 0 ==> reproduction_sample <= ranked@.len() || pool_size <= ranked@.len(),
            forall|j: int|
                0 <= j < ranked@.len() && j < pool_size && j < reproduction_sample ==> can_breed(
                    *#[trigger] ranked@[j],
                    period,
                ),
            forall|k: int|
                0 <= k < i ==> is_child_of(
                    #[trigger] pool@[k],
                    *ranked@[k % (reproduction_sample as int)],
                    period,
                ),
        decreases pool_size - i,
    {
        let ghost j = i as int % (reproduction_sample as int);
        assert(0 <= j < reproduction_sample && j <= i) by (nonlinear_arith)
            requires
                reproduction_sample > 0,
                j == i as int % (reproduction_sample as int),
        ;
        assert(can_breed(*ranked@[j], period));
        let parent = ranked[i % reproduction_sample];
        match parent.get_mutated(period) {
            Some(child) => {
                pool.push(child);
            },
            None => {
                assert(!safe_to_mutate(*ranked@[j]));
                proof {
                    let (g, rolls, bits) = choose|g: Seq<u8>, rolls: Seq<u32>, bits: Seq<u32>|
                        #[trigger] explained_by_draws(parent.genome_seq(), g, rolls, bits, period)
                            && !genome_fits(g, parent.inside_size());
                    let k = i as int;
                    assert(*ranked@[k % (reproduction_sample as int)] == *parent);
                    assert(explained_by_draws(
                        (*ranked@[k % (reproduction_sample as int)]).genome_seq(),
                        g,
                        rolls,
                        bits,
                        period,
                    ));
                }
                return None;
            },
        }
        i = i + 1;
    }
    Some(pool)
}

} // verus!
