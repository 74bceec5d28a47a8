use vstd::prelude::*;

verus! {

/// The floating-point operations of one sample: `sample_iterations` products of
/// two `dim` by `dim` matrices on each of `n_threads` buffers. A product costs
/// two operations for each multiply-add, and two more for each entry of the
/// output that is scaled and accumulated.
pub open spec fn flop_count(dim: nat, n_threads: nat, sample_iterations: nat) -> nat {
    (dim * dim * dim * 2 + dim * dim * 2) * sample_iterations * n_threads
}

/// The operations of one product do not exceed those of a sample that holds
/// at least one product on at least one thread.
proof fn lemma_flop_count_bounds(dim: nat, n_threads: nat, sample_iterations: nat)
    requires
        n_threads >= 1,
        sample_iterations >= 1,
    ensures
        dim * dim <= dim * dim * dim + dim * dim,
        dim * dim * dim <= dim * dim * dim + dim * dim,
        dim * dim * dim + dim * dim <= (dim * dim * dim + dim * dim) * 2,
        (dim * dim * dim + dim * dim) * 2 <= (dim * dim * dim + dim * dim) * 2 * sample_iterations,
        (dim * dim * dim + dim * dim) * 2 * sample_iterations <= flop_count(
            dim,
            n_threads,
            sample_iterations,
        ),
        (dim * dim * dim + dim * dim) * 2 * sample_iterations * n_threads == flop_count(
            dim,
            n_threads,
            sample_iterations,
        ),
{
    let per: nat = (dim * dim * dim + dim * dim) * 2;
    assert(per == dim * dim * dim * 2 + dim * dim * 2) by (nonlinear_arith)
        requires
            per == (dim * dim * dim + dim * dim) * 2,
    ;
    assert(per <= per * sample_iterations) by (nonlinear_arith)
        requires
            sample_iterations >= 1,
    ;
    assert(per * sample_iterations <= per * sample_iterations * n_threads) by (nonlinear_arith)
        requires
            n_threads >= 1,
    ;
}

/// The operation count of one sample, or `None` where it exceeds `usize`.
pub fn checked_dim_to_flop(dim: usize, n_threads: usize, sample_iterations: usize) -> (count:
    Option<usize>)
    ensures
        flop_count(dim as nat, n_threads as nat, sample_iterations as nat) <= usize::MAX
            ==> count == Some(
            flop_count(dim as nat, n_threads as nat, sample_iterations as nat) as usize,
        ),
        flop_count(dim as nat, n_threads as nat, sample_iterations as nat) > usize::MAX
            ==> count.is_none(),
{
    if n_threads == 0 || sample_iterations == 0 {
        assert(flop_count(dim as nat, n_threads as nat, sample_iterations as nat) == 0)
            by (nonlinear_arith)
            requires
                n_threads == 0 || sample_iterations == 0,
        ;
        return Some(0);
    }
    proof {
        lemma_flop_count_bounds(dim as nat, n_threads as nat, sample_iterations as nat);
    }
    let square = match dim.checked_mul(dim) {
        Some(v) => v,
        None => { return None; },
    };
    let cube = match square.checked_mul(dim) {
        Some(v) => v,
        None => { return None; },
    };
    let entries = match cube.checked_add(square) {
        Some(v) => v,
        None => { return None; },
    };
    let product = match entries.checked_mul(2) {
        Some(v) => v,
        None => { return None; },
    };
    let per_thread = match product.checked_mul(sample_iterations) {
        Some(v) => v,
        None => { return None; },
    };
    per_thread.checked_mul(n_threads)
}

/// The operation count of one sample.
pub fn dim_to_flop(dim: usize, n_threads: usize, sample_iterations: usize) -> (count: usize)
    requires
        flop_count(dim as nat, n_threads as nat, sample_iterations as nat) <= usize::MAX,
    ensures
        count == flop_count(dim as nat, n_threads as nat, sample_iterations as nat),
{
    match checked_dim_to_flop(dim, n_threads, sample_iterations) {
        Some(count) => count,
        None => 0,
    }
}

} // verus!
