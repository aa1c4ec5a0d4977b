//! Laws of the simulation, stated and proved over the model.

use vstd::prelude::*;
use crate::board::Board;
use crate::model::{
    cell_step, fish_cands, grid_dims_ok, grid_empty, grid_fish, grid_shark, grid_upd,
    lemma_grid_partition, params_ok, scan_steps, stock_steps, Params,
};
use crate::Cell;

verus! {

/// Occupancy exclusivity and population accounting: each coordinate
/// holds exactly one cell, so the fish, shark and empty counts of any
/// full grid always add up to `width * height`.
pub proof fn lemma_population_partition(g: Seq<Seq<Cell>>, p: Params)
    requires
        params_ok(p),
    ensures
        grid_fish(g, p, p.height) + grid_shark(g, p, p.height) + grid_empty(g, p, p.height)
            == p.width * p.height,
{
    lemma_grid_partition(g, p, p.height);
    assert(p.height * p.width == p.width * p.height) by (nonlinear_arith);
}

/// Single processing per generation: between generations no organism's
/// stamp ever exceeds the tick counter — every organism on a
/// well-formed board carries exactly the current tick, which is what
/// stops the scan from moving an organism twice.
pub proof fn lemma_generation_stamps(b: Board, i: int, j: int)
    requires
        b.wf(),
        0 <= i < b.params().height,
        0 <= j < b.params().width,
    ensures
        match b.grid()[i][j] {
            Cell::Empty => true,
            Cell::Fish(r, a) => a == b.tick(),
            Cell::Shark(e, r, a) => a == b.tick(),
        },
{
}

/// A shark's energy never reaches zero while the shark exists: on a
/// well-formed board every shark cell carries positive energy.
pub proof fn lemma_shark_energy_positive(b: Board, i: int, j: int)
    requires
        b.wf(),
        0 <= i < b.params().height,
        0 <= j < b.params().width,
    ensures
        b.grid()[i][j] matches Cell::Shark(e, r, a) ==> e >= 1,
{
}

/// A shark at energy 1 whose survey finds no fish dies this very turn:
/// the scan's action at its coordinate is exactly to empty it, whether
/// or not an empty destination was available.
pub proof fn lemma_starving_shark_dies(
    g: Seq<Seq<Cell>>, p: Params, tick: int, row: int, col: int, r: usize, a: usize,
    vals: Seq<usize>, pos: int,
)
    requires
        params_ok(p),
        grid_dims_ok(g, p),
        0 <= row < p.height,
        0 <= col < p.width,
        g[row][col] == Cell::Shark(1usize, r, a),
        a as int != tick,
        fish_cands(g, p, row, col, 9).len() == 0,
    ensures
        cell_step(g, p, tick, row, col, vals, pos).0 == grid_upd(g, row, col, Cell::Empty),
{
}

/// Determinism given fixed randomness: one generation's scan is a
/// function of the starting grid, the parameters and the replayed draw
/// sequence alone, so two equal runs stay equal.
pub proof fn lemma_scan_deterministic(
    g1: Seq<Seq<Cell>>, g2: Seq<Seq<Cell>>, p1: Params, p2: Params, tick1: int, tick2: int,
    vals1: Seq<usize>, vals2: Seq<usize>, pos1: int, pos2: int, i: int,
)
    requires
        g1 == g2,
        p1 == p2,
        tick1 == tick2,
        vals1 == vals2,
        pos1 == pos2,
    ensures
        scan_steps(g1, p1, tick1, vals1, pos1, i) == scan_steps(g2, p2, tick2, vals2, pos2, i),
{
}

/// Determinism of stocking: the initial population is a function of the
/// parameters, the bands and the replayed draw sequence alone.
pub proof fn lemma_stock_deterministic(
    g1: Seq<Seq<Cell>>, g2: Seq<Seq<Cell>>, p1: Params, p2: Params, fish_t1: int,
    fish_t2: int, total_t1: int, total_t2: int, vals1: Seq<usize>, vals2: Seq<usize>,
    pos1: int, pos2: int, i: int,
)
    requires
        g1 == g2,
        p1 == p2,
        fish_t1 == fish_t2,
        total_t1 == total_t2,
        vals1 == vals2,
        pos1 == pos2,
    ensures
        stock_steps(g1, p1, fish_t1, total_t1, vals1, pos1, i)
            == stock_steps(g2, p2, fish_t2, total_t2, vals2, pos2, i),
{
}

} // verus!
