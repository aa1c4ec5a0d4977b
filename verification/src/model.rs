//! The mathematical model of the simulation: grid states as sequences of
//! cells, and the exact meaning of stocking and of one generation's scan,
//! given the sequence of random draws.

use vstd::prelude::*;
use crate::Cell;
use crate::sampler::{pick_next, pick_val};

verus! {

/// Largest accepted grid dimension (keeps every coordinate computation
/// comfortably inside `usize`).
pub const MAX_DIM: usize = 16384;

/// Stocking fractions are expressed in parts of `SCALE`.
pub const SCALE: usize = 1000000;

/// The construction-time configuration of a grid.
pub ghost struct Params {
    pub width: int,
    pub height: int,
    pub fish_repo: int,
    pub shark_repo: int,
    pub shark_energy: int,
    pub shark_boost: int,
    pub four_neighborhood: bool,
}

/// A configuration under which every rule of the simulation is defined.
pub open spec fn params_ok(p: Params) -> bool {
    &&& 1 <= p.width <= MAX_DIM
    &&& 1 <= p.height <= MAX_DIM
    &&& p.fish_repo >= 1
    &&& p.shark_repo >= 1
    &&& p.shark_energy >= 1
    &&& p.shark_boost >= 0
}

/// The grid has `height` rows of `width` cells each.
pub open spec fn grid_dims_ok(g: Seq<Seq<Cell>>, p: Params) -> bool {
    &&& g.len() == p.height
    &&& forall|i: int| 0 <= i < g.len() ==> (#[trigger] g[i]).len() == p.width
}

/// A grid of the given dimensions holding only empty cells.
pub open spec fn empty_grid(p: Params) -> Seq<Seq<Cell>> {
    Seq::new(p.height as nat, |i: int| Seq::new(p.width as nat, |j: int| Cell::Empty))
}

/// The grid with the cell at (`row`, `col`) replaced by `c`.
pub open spec fn grid_upd(g: Seq<Seq<Cell>>, row: int, col: int, c: Cell) -> Seq<Seq<Cell>> {
    g.update(row, g[row].update(col, c))
}

/// An organism between generations: its stamp equals the tick counter,
/// and a shark still has energy to live on.
pub open spec fn cell_settled(c: Cell, tick: int) -> bool {
    match c {
        Cell::Empty => true,
        Cell::Fish(r, a) => a == tick,
        Cell::Shark(e, r, a) => a == tick && e >= 1,
    }
}

/// The reproduction counter lies in `[0, period)` for the organism's kind.
pub open spec fn cell_repro_ok(c: Cell, p: Params) -> bool {
    match c {
        Cell::Empty => true,
        Cell::Fish(r, a) => r < p.fish_repo,
        Cell::Shark(e, r, a) => r < p.shark_repo,
    }
}

/// A cell mid-scan at generation `tick`: either not yet processed (stamp
/// one behind) or already processed (stamped, counter back in range).
pub open spec fn cell_mid(c: Cell, tick: int, p: Params) -> bool {
    match c {
        Cell::Empty => true,
        Cell::Fish(r, a) => a == tick - 1 || (a == tick && r < p.fish_repo),
        Cell::Shark(e, r, a) => e >= 1 && (a == tick - 1 || (a == tick && r < p.shark_repo)),
    }
}

/// A cell the scan is finished with at generation `tick`.
pub open spec fn cell_done(c: Cell, tick: int, p: Params) -> bool {
    cell_settled(c, tick) && cell_repro_ok(c, p)
}

/// Scan order is column-major: scan index `i` visits this column ...
pub open spec fn scan_col(p: Params, i: int) -> int {
    i / p.height
}

/// ... and this row.
pub open spec fn scan_row(p: Params, i: int) -> int {
    i % p.height
}

/// The column of the `k`-th surveyed neighbor of `col` (k in 0..9,
/// column offset `k / 3 - 1`, wrapped around the torus).
pub open spec fn nbr_col(p: Params, col: int, k: int) -> int {
    (p.width + col - 1 + k / 3) % p.width
}

/// The row of the `k`-th surveyed neighbor of `row` (row offset
/// `k % 3 - 1`, wrapped around the torus).
pub open spec fn nbr_row(p: Params, row: int, k: int) -> int {
    (p.height + row - 1 + k % 3) % p.height
}

/// Whether survey slot `k` is an eligible destination: not the origin
/// itself, and not a diagonal when only the four-neighborhood is active.
pub open spec fn nbr_eligible(p: Params, row: int, col: int, k: int) -> bool {
    let cn = nbr_col(p, col, k);
    let rn = nbr_row(p, row, k);
    &&& !(p.four_neighborhood && cn != col && rn != row)
    &&& !(rn == row && cn == col)
}

/// The empty eligible neighbors among the first `k` survey slots, in
/// survey order (a coordinate may appear more than once on a torus so
/// small that distinct offsets wrap to it).
pub open spec fn empty_cands(g: Seq<Seq<Cell>>, p: Params, row: int, col: int, k: int)
    -> Seq<(usize, usize)>
    decreases k,
{
    if k <= 0 {
        Seq::empty()
    } else {
        let prev = empty_cands(g, p, row, col, k - 1);
        let rn = nbr_row(p, row, k - 1);
        let cn = nbr_col(p, col, k - 1);
        if nbr_eligible(p, row, col, k - 1) && g[rn][cn] is Empty {
            prev.push((rn as usize, cn as usize))
        } else {
            prev
        }
    }
}

/// The fish-holding eligible neighbors among the first `k` survey slots.
pub open spec fn fish_cands(g: Seq<Seq<Cell>>, p: Params, row: int, col: int, k: int)
    -> Seq<(usize, usize)>
    decreases k,
{
    if k <= 0 {
        Seq::empty()
    } else {
        let prev = fish_cands(g, p, row, col, k - 1);
        let rn = nbr_row(p, row, k - 1);
        let cn = nbr_col(p, col, k - 1);
        if nbr_eligible(p, row, col, k - 1) && g[rn][cn] is Fish {
            prev.push((rn as usize, cn as usize))
        } else {
            prev
        }
    }
}

/// One fish's turn: move to a drawn empty neighbor if any (leaving a
/// newborn behind when the counter was about to wrap), else stay in
/// place; either way the counter advances and the stamp is refreshed.
pub open spec fn fish_step(
    g: Seq<Seq<Cell>>, p: Params, row: int, col: int, r: int, a: int,
    vals: Seq<usize>, pos: int,
) -> (Seq<Seq<Cell>>, int) {
    let cands = empty_cands(g, p, row, col, 9);
    let moved = Cell::Fish((((r + 1) % p.fish_repo) as usize), ((a + 1) as usize));
    if cands.len() == 0 {
        (grid_upd(g, row, col, moved), pos)
    } else {
        let i = pick_val(vals, pos, cands.len() as int);
        let dest = cands[i];
        let g1 = grid_upd(g, dest.0 as int, dest.1 as int, moved);
        let g2 = if r == p.fish_repo - 1 {
            grid_upd(g1, row, col, Cell::Fish(0, (a + 1) as usize))
        } else {
            grid_upd(g1, row, col, Cell::Empty)
        };
        (g2, pick_next(pos))
    }
}

/// The energy a shark carries after its move: boosted when it ate
/// (saturating at the machine bound), else decremented.
pub open spec fn shark_new_energy(e: int, boost: int, eating: bool) -> int {
    if eating {
        if e + boost <= usize::MAX {
            e + boost
        } else {
            usize::MAX as int
        }
    } else {
        e - 1
    }
}

/// One shark's turn: feeding dominates movement; a shark at energy 1
/// that cannot feed dies this turn; a move whose counter wraps leaves a
/// newborn with a drawn reproduction phase behind.
pub open spec fn shark_step(
    g: Seq<Seq<Cell>>, p: Params, row: int, col: int, e: int, r: int, a: int,
    vals: Seq<usize>, pos: int,
) -> (Seq<Seq<Cell>>, int) {
    let fishes = fish_cands(g, p, row, col, 9);
    let empties = empty_cands(g, p, row, col, 9);
    if fishes.len() == 0 && empties.len() == 0 {
        if e == 1 {
            (grid_upd(g, row, col, Cell::Empty), pos)
        } else {
            let stayed = Cell::Shark(
                (e - 1) as usize,
                (((r + 1) % p.shark_repo) as usize),
                ((a + 1) as usize),
            );
            (grid_upd(g, row, col, stayed), pos)
        }
    } else {
        let eating = fishes.len() > 0;
        let n = if eating { fishes.len() as int } else { empties.len() as int };
        let i = pick_val(vals, pos, n);
        let dest = if eating { fishes[i] } else { empties[i] };
        let pos1 = pick_next(pos);
        if !eating && e == 1 {
            (grid_upd(g, row, col, Cell::Empty), pos1)
        } else {
            let new_e = shark_new_energy(e, p.shark_boost, eating);
            let new_r = (r + 1) % p.shark_repo;
            let moved = Cell::Shark(new_e as usize, new_r as usize, (a + 1) as usize);
            let g1 = grid_upd(g, dest.0 as int, dest.1 as int, moved);
            if new_r == 0 {
                let phase = pick_val(vals, pos1, p.shark_repo);
                let baby = Cell::Shark(
                    p.shark_energy as usize,
                    phase as usize,
                    ((a + 1) as usize),
                );
                (grid_upd(g1, row, col, baby), pick_next(pos1))
            } else {
                (grid_upd(g1, row, col, Cell::Empty), pos1)
            }
        }
    }
}

/// The scan's action at one coordinate: empty cells and organisms already
/// stamped with the current generation are skipped.
pub open spec fn cell_step(
    g: Seq<Seq<Cell>>, p: Params, tick: int, row: int, col: int,
    vals: Seq<usize>, pos: int,
) -> (Seq<Seq<Cell>>, int) {
    match g[row][col] {
        Cell::Empty => (g, pos),
        Cell::Fish(r, a) => if a == tick {
            (g, pos)
        } else {
            fish_step(g, p, row, col, r as int, a as int, vals, pos)
        },
        Cell::Shark(e, r, a) => if a == tick {
            (g, pos)
        } else {
            shark_step(g, p, row, col, e as int, r as int, a as int, vals, pos)
        },
    }
}

/// The grid and replay position after the first `i` coordinates of one
/// generation's scan.
pub open spec fn scan_steps(
    g: Seq<Seq<Cell>>, p: Params, tick: int, vals: Seq<usize>, pos: int, i: int,
) -> (Seq<Seq<Cell>>, int)
    decreases i,
{
    if i <= 0 {
        (g, pos)
    } else {
        let prev = scan_steps(g, p, tick, vals, pos, i - 1);
        cell_step(prev.0, p, tick, scan_row(p, i - 1), scan_col(p, i - 1), vals, prev.1)
    }
}

/// What one stocking draw puts in a cell: a newborn fish when the sample
/// falls in the fish band, a newborn shark in the shark band, else
/// nothing.
pub open spec fn stock_cell(sample: int, fish_t: int, total_t: int, energy: int) -> Cell {
    if sample < fish_t {
        Cell::Fish(0, 0)
    } else if sample < total_t {
        Cell::Shark(energy as usize, 0, 0)
    } else {
        Cell::Empty
    }
}

/// The grid and replay position after stocking the first `i` coordinates
/// (one draw in `[0, SCALE)` per cell, in scan order).
pub open spec fn stock_steps(
    g: Seq<Seq<Cell>>, p: Params, fish_t: int, total_t: int,
    vals: Seq<usize>, pos: int, i: int,
) -> (Seq<Seq<Cell>>, int)
    decreases i,
{
    if i <= 0 {
        (g, pos)
    } else {
        let prev = stock_steps(g, p, fish_t, total_t, vals, pos, i - 1);
        let s = pick_val(vals, prev.1, SCALE as int);
        let c = stock_cell(s, fish_t, total_t, p.shark_energy);
        (grid_upd(prev.0, scan_row(p, i - 1), scan_col(p, i - 1), c), pick_next(prev.1))
    }
}

/// Advancing a counter by one modulo `m` can be computed from the
/// counter's residue alone.
pub proof fn lemma_mod_incr(r: int, m: int)
    requires
        m >= 1,
        r >= 0,
    ensures
        0 <= (r % m + 1) % m < m,
        (r % m + 1) % m == (r + 1) % m,
{
    vstd::arithmetic::div_mod::lemma_mod_division_less_than_divisor(r, m);
    vstd::arithmetic::div_mod::lemma_mod_division_less_than_divisor(r % m + 1, m);
    vstd::arithmetic::div_mod::lemma_add_mod_noop(r, 1, m);
    if m == 1 {
        vstd::arithmetic::div_mod::lemma_small_mod(0, 1);
    } else {
        vstd::arithmetic::div_mod::lemma_small_mod(1, m as nat);
    }
}

/// Each coordinate of the grid is visited by exactly one scan index:
/// `col * height + row`.
pub proof fn lemma_scan_index(p: Params, row: int, col: int)
    requires
        params_ok(p),
        0 <= row < p.height,
        0 <= col < p.width,
    ensures
        0 <= col * p.height + row < p.width * p.height,
        scan_row(p, col * p.height + row) == row,
        scan_col(p, col * p.height + row) == col,
{
    let n = col * p.height + row;
    assert(0 <= col * p.height + row && col * p.height + row < p.width * p.height)
        by (nonlinear_arith)
        requires
            0 <= row < p.height,
            0 <= col < p.width,
    ;
    vstd::arithmetic::div_mod::lemma_fundamental_div_mod_converse(n, p.height, col, row);
}

/// Every scan index addresses an in-range coordinate.
pub proof fn lemma_scan_coords(p: Params, n: int)
    requires
        params_ok(p),
        0 <= n < p.width * p.height,
    ensures
        0 <= scan_row(p, n) < p.height,
        0 <= scan_col(p, n) < p.width,
{
    vstd::arithmetic::div_mod::lemma_mod_division_less_than_divisor(n, p.height);
    assert(n / p.height < p.width) by (nonlinear_arith)
        requires
            0 <= n,
            n < p.width * p.height,
            p.height >= 1,
    ;
    assert(n / p.height >= 0) by (nonlinear_arith)
        requires
            0 <= n,
            p.height >= 1,
    ;
}

/// A scan index is reconstructed from the coordinate it visits.
pub proof fn lemma_scan_roundtrip(p: Params, n: int)
    requires
        params_ok(p),
        0 <= n,
    ensures
        scan_col(p, n) * p.height + scan_row(p, n) == n,
{
    vstd::arithmetic::div_mod::lemma_fundamental_div_mod(n, p.height);
    assert(n == p.height * (n / p.height) + n % p.height);
    assert(p.height * (n / p.height) == (n / p.height) * p.height) by (nonlinear_arith);
}

/// Every entry of the empty-candidate list is an in-range coordinate,
/// distinct from the origin, whose cell is empty.
pub proof fn lemma_empty_cands_props(g: Seq<Seq<Cell>>, p: Params, row: int, col: int, k: int)
    requires
        params_ok(p),
        grid_dims_ok(g, p),
        0 <= row < p.height,
        0 <= col < p.width,
        0 <= k <= 9,
    ensures
        forall|j: int| 0 <= j < empty_cands(g, p, row, col, k).len() ==> {
            let d = #[trigger] empty_cands(g, p, row, col, k)[j];
            &&& 0 <= d.0 < p.height
            &&& 0 <= d.1 < p.width
            &&& g[d.0 as int][d.1 as int] is Empty
            &&& !(d.0 == row && d.1 == col)
        },
    decreases k,
{
    if k > 0 {
        lemma_empty_cands_props(g, p, row, col, k - 1);
    }
}

/// Every entry of the fish-candidate list is an in-range coordinate,
/// distinct from the origin, whose cell holds a fish.
pub proof fn lemma_fish_cands_props(g: Seq<Seq<Cell>>, p: Params, row: int, col: int, k: int)
    requires
        params_ok(p),
        grid_dims_ok(g, p),
        0 <= row < p.height,
        0 <= col < p.width,
        0 <= k <= 9,
    ensures
        forall|j: int| 0 <= j < fish_cands(g, p, row, col, k).len() ==> {
            let d = #[trigger] fish_cands(g, p, row, col, k)[j];
            &&& 0 <= d.0 < p.height
            &&& 0 <= d.1 < p.width
            &&& g[d.0 as int][d.1 as int] is Fish
            &&& !(d.0 == row && d.1 == col)
        },
    decreases k,
{
    if k > 0 {
        lemma_fish_cands_props(g, p, row, col, k - 1);
    }
}

/// The number of fish among the first `j` cells of a row.
pub open spec fn row_fish(r: Seq<Cell>, j: int) -> int
    decreases j,
{
    if j <= 0 {
        0
    } else {
        row_fish(r, j - 1) + if r[j - 1] is Fish { 1int } else { 0int }
    }
}

/// The number of sharks among the first `j` cells of a row.
pub open spec fn row_shark(r: Seq<Cell>, j: int) -> int
    decreases j,
{
    if j <= 0 {
        0
    } else {
        row_shark(r, j - 1) + if r[j - 1] is Shark { 1int } else { 0int }
    }
}

/// The number of empty cells among the first `j` cells of a row.
pub open spec fn row_empty(r: Seq<Cell>, j: int) -> int
    decreases j,
{
    if j <= 0 {
        0
    } else {
        row_empty(r, j - 1) + if r[j - 1] is Empty { 1int } else { 0int }
    }
}

/// The number of fish in the first `i` rows of the grid.
pub open spec fn grid_fish(g: Seq<Seq<Cell>>, p: Params, i: int) -> int
    decreases i,
{
    if i <= 0 {
        0
    } else {
        grid_fish(g, p, i - 1) + row_fish(g[i - 1], p.width)
    }
}

/// The number of sharks in the first `i` rows of the grid.
pub open spec fn grid_shark(g: Seq<Seq<Cell>>, p: Params, i: int) -> int
    decreases i,
{
    if i <= 0 {
        0
    } else {
        grid_shark(g, p, i - 1) + row_shark(g[i - 1], p.width)
    }
}

/// The number of empty cells in the first `i` rows of the grid.
pub open spec fn grid_empty(g: Seq<Seq<Cell>>, p: Params, i: int) -> int
    decreases i,
{
    if i <= 0 {
        0
    } else {
        grid_empty(g, p, i - 1) + row_empty(g[i - 1], p.width)
    }
}

/// Within one row, every cell is exactly one of fish, shark or empty,
/// so the three counts partition the cells.
pub proof fn lemma_row_partition(r: Seq<Cell>, j: int)
    requires
        0 <= j,
    ensures
        row_fish(r, j) + row_shark(r, j) + row_empty(r, j) == j,
        0 <= row_fish(r, j) <= j,
        0 <= row_shark(r, j) <= j,
        0 <= row_empty(r, j) <= j,
    decreases j,
{
    if j > 0 {
        lemma_row_partition(r, j - 1);
    }
}

/// Over the first `i` rows, the three counts partition the `i * width`
/// cells.
pub proof fn lemma_grid_partition(g: Seq<Seq<Cell>>, p: Params, i: int)
    requires
        params_ok(p),
        0 <= i,
    ensures
        grid_fish(g, p, i) + grid_shark(g, p, i) + grid_empty(g, p, i) == i * p.width,
        0 <= grid_fish(g, p, i) <= i * p.width,
        0 <= grid_shark(g, p, i) <= i * p.width,
        0 <= grid_empty(g, p, i) <= i * p.width,
    decreases i,
{
    if i > 0 {
        lemma_grid_partition(g, p, i - 1);
        lemma_row_partition(g[i - 1], p.width);
        assert((i - 1) * p.width + p.width == i * p.width) by (nonlinear_arith);
    } else {
        assert(i * p.width == 0) by (nonlinear_arith)
            requires
                i == 0,
        ;
    }
}

} // verus!
