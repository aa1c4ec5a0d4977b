//! The grid engine: a toroidal board of cells advanced one synchronous
//! generation at a time.

use vstd::prelude::*;
use crate::{Cell, WatorError};
use crate::model::{
    cell_done, cell_mid, cell_repro_ok, cell_settled, cell_step, empty_cands, empty_grid,
    fish_cands, grid_dims_ok, grid_upd, lemma_empty_cands_props, lemma_fish_cands_props,
    grid_fish, grid_shark, lemma_mod_incr, lemma_scan_coords, lemma_scan_index,
    lemma_scan_roundtrip, params_ok, row_fish, row_shark, scan_col, scan_row, scan_steps,
    stock_cell, stock_steps, Params, MAX_DIM, SCALE,
};
use crate::sampler::{pick_next, pick_val, Sampler};

verus! {

/// A fixed-size toroidal grid of cells, the configuration that governs
/// reproduction and energy, and the generation counter.
///
/// The fields are public so that the specification functions below can
/// speak of them; mutate them only through the engine's methods, whose
/// contracts assume and preserve `wf`.
pub struct Board {
    /// `height` rows of `width` cells each.
    pub cells: Vec<Vec<Cell>>,
    pub width: usize,
    pub height: usize,
    /// Energy of every newborn shark.
    pub shark_energy: usize,
    /// Fish reproduce when their counter wraps at this period.
    pub fish_repo: usize,
    /// Sharks reproduce when their counter wraps at this period.
    pub shark_repo: usize,
    /// Energy gained by a feeding shark.
    pub shark_boost: usize,
    /// Generations advanced so far.
    pub advances: usize,
    /// Restrict movement to the four orthogonal neighbors.
    pub use_4_neighborhood: bool,
}

/// What stocking leaves in every cell: nothing, a newborn fish, or a
/// newborn shark with the configured energy; and each band of the unit
/// interval gets what the fractions promise.
pub open spec fn stocked_cell_ok(
    c: Cell, fish_frac: int, shark_frac: int, energy: int,
) -> bool {
    &&& (c == Cell::Empty || c == Cell::Fish(0, 0)
        || c == Cell::Shark(energy as usize, 0, 0))
    &&& (fish_frac == 0 ==> !(c is Fish))
    &&& (shark_frac == 0 ==> !(c is Shark))
    &&& (fish_frac == SCALE ==> c is Fish)
    &&& (fish_frac + shark_frac >= SCALE ==> !(c is Empty))
}

impl Board {
    /// The grid as a sequence of rows of cells.
    pub open spec fn grid(self) -> Seq<Seq<Cell>> {
        self.cells@.map_values(|v: Vec<Cell>| v@)
    }

    /// The configuration as model parameters.
    pub open spec fn params(self) -> Params {
        Params {
            width: self.width as int,
            height: self.height as int,
            fish_repo: self.fish_repo as int,
            shark_repo: self.shark_repo as int,
            shark_energy: self.shark_energy as int,
            shark_boost: self.shark_boost as int,
            four_neighborhood: self.use_4_neighborhood,
        }
    }

    /// The generation counter.
    pub open spec fn tick(self) -> int {
        self.advances as int
    }

    /// Well-formedness between generations: a valid configuration, full
    /// rows, and every organism settled (stamped with the current tick,
    /// sharks with energy left).
    pub open spec fn wf(self) -> bool {
        &&& params_ok(self.params())
        &&& grid_dims_ok(self.grid(), self.params())
        &&& forall|i: int, j: int|
            0 <= i < self.params().height && 0 <= j < self.params().width
                ==> cell_settled(#[trigger] self.grid()[i][j], self.tick())
    }

    /// Every organism's reproduction counter lies in `[0, period)`.
    pub open spec fn repro_ok(self) -> bool {
        forall|i: int, j: int|
            0 <= i < self.params().height && 0 <= j < self.params().width
                ==> cell_repro_ok(#[trigger] self.grid()[i][j], self.params())
    }

    /// Build a board with randomized stocking drawn from the given
    /// sampler: one sample per cell; samples under the fish band place a
    /// newborn fish, samples in the shark band (clamped so both bands
    /// never exceed the unit interval) a newborn shark.
    pub fn new_with(
        width: usize, height: usize, fish_frac: usize, shark_frac: usize,
        shark_energy: usize, fish_repo: usize, shark_repo: usize, shark_boost: usize,
        rng: &mut Sampler,
    ) -> (r: Result<Board, WatorError>)
        requires
            fish_frac <= SCALE,
            shark_frac <= SCALE,
        ensures
            r is Err <==> (width == 0 || height == 0 || width > MAX_DIM || height > MAX_DIM
                || fish_repo == 0 || shark_repo == 0 || shark_energy == 0),
            r matches Err(e) ==> e == WatorError::InvalidConfiguration
                && *final(rng) == *old(rng),
            final(rng).replay == old(rng).replay,
            final(rng).vals@ == old(rng).vals@,
            r matches Ok(b) ==> {
                let p = Params {
                    width: width as int,
                    height: height as int,
                    fish_repo: fish_repo as int,
                    shark_repo: shark_repo as int,
                    shark_energy: shark_energy as int,
                    shark_boost: shark_boost as int,
                    four_neighborhood: false,
                };
                &&& b.wf()
                &&& b.repro_ok()
                &&& b.tick() == 0
                &&& b.params() == p
                &&& forall|i: int, j: int| 0 <= i < p.height && 0 <= j < p.width
                    ==> stocked_cell_ok(#[trigger] b.grid()[i][j], fish_frac as int,
                        shark_frac as int, shark_energy as int)
                &&& (old(rng).replay ==> ({
                    let total_t = if fish_frac + shark_frac > SCALE {
                        SCALE as int
                    } else {
                        fish_frac + shark_frac
                    };
                    let st = stock_steps(empty_grid(p), p, fish_frac as int, total_t,
                        old(rng).vals@, old(rng).pos as int, p.width * p.height);
                    b.grid() == st.0 && final(rng).pos as int == st.1
                }))
                &&& (!old(rng).replay ==> final(rng).pos == old(rng).pos)
            },
    {
        if width == 0 || height == 0 || width > MAX_DIM || height > MAX_DIM
            || fish_repo == 0 || shark_repo == 0 || shark_energy == 0 {
            return Err(WatorError::InvalidConfiguration);
        }
        let total_frac = if fish_frac + shark_frac > SCALE {
            SCALE
        } else {
            fish_frac + shark_frac
        };

        let mut cells: Vec<Vec<Cell>> = Vec::new();
        let mut r: usize = 0;
        while r < height
            invariant
                r <= height,
                cells@.len() == r,
                forall|i: int| 0 <= i < r ==> (#[trigger] cells@[i])@.len() == width,
                forall|i: int, j: int| 0 <= i < r && 0 <= j < width
                    ==> #[trigger] cells@[i]@[j] == Cell::Empty,
            decreases height - r,
        {
            let mut rowv: Vec<Cell> = Vec::new();
            let mut c: usize = 0;
            while c < width
                invariant
                    c <= width,
                    rowv@.len() == c,
                    forall|j: int| 0 <= j < c ==> rowv@[j] == Cell::Empty,
                decreases width - c,
            {
                rowv.push(Cell::Empty);
                c = c + 1;
            }
            cells.push(rowv);
            r = r + 1;
        }

        let mut b = Board {
            cells,
            width,
            height,
            shark_energy,
            fish_repo,
            shark_repo,
            shark_boost,
            advances: 0,
            use_4_neighborhood: false,
        };
        let ghost p = b.params();
        let ghost vals = rng.vals@;
        let ghost pos0 = rng.pos as int;
        proof {
            assert(b.grid() =~~= empty_grid(p));
            assert(p.width * p.height <= MAX_DIM * MAX_DIM) by (nonlinear_arith)
                requires
                    1 <= p.width <= MAX_DIM,
                    1 <= p.height <= MAX_DIM,
            ;
            assert forall|n: int| 0 <= n < p.width * p.height implies
                b.grid()[#[trigger] scan_row(p, n)][scan_col(p, n)] == Cell::Empty
            by {
                lemma_scan_coords(p, n);
            }
        }
        let total = width * height;
        let mut i: usize = 0;
        while i < total
            invariant
                params_ok(p),
                b.params() == p,
                b.tick() == 0,
                grid_dims_ok(b.grid(), p),
                width as int == p.width,
                height as int == p.height,
                p.shark_energy == shark_energy as int,
                total as int == p.width * p.height,
                i <= total,
                fish_frac <= SCALE,
                shark_frac <= SCALE,
                total_frac as int == (if fish_frac + shark_frac > SCALE {
                    SCALE as int
                } else {
                    fish_frac + shark_frac
                }),
                forall|n: int| 0 <= n < i
                    ==> stocked_cell_ok(b.grid()[#[trigger] scan_row(p, n)][scan_col(p, n)],
                        fish_frac as int, shark_frac as int, shark_energy as int),
                forall|n: int| i <= n < total
                    ==> b.grid()[#[trigger] scan_row(p, n)][scan_col(p, n)] == Cell::Empty,
                rng.replay == old(rng).replay,
                rng.vals@ == vals,
                old(rng).replay ==> ({
                    let st = stock_steps(empty_grid(p), p, fish_frac as int,
                        total_frac as int, vals, pos0, i as int);
                    b.grid() == st.0 && rng.pos as int == st.1
                }),
                !old(rng).replay ==> rng.pos == old(rng).pos,
            decreases total - i,
        {
            proof {
                lemma_scan_coords(p, i as int);
            }
            let col = i / height;
            let row = i % height;
            let ghost pos_before = rng.pos as int;
            let sample = rng.pick(SCALE);
            let cell = if sample < fish_frac {
                Cell::Fish(0, 0)
            } else if sample < total_frac {
                Cell::Shark(shark_energy, 0, 0)
            } else {
                Cell::Empty
            };
            let ghost before = b.grid();
            b.put(row, col, cell);
            proof {
                let ft = fish_frac as int;
                let tt = total_frac as int;
                let prev = stock_steps(empty_grid(p), p, ft, tt, vals, pos0, i as int);
                assert(stock_steps(empty_grid(p), p, ft, tt, vals, pos0, i as int + 1) == (
                    grid_upd(prev.0, scan_row(p, i as int), scan_col(p, i as int),
                        stock_cell(pick_val(vals, prev.1, SCALE as int), ft, tt,
                            p.shark_energy)),
                    pick_next(prev.1),
                ));
                if rng.replay {
                    assert(before == prev.0 && pos_before == prev.1);
                    assert(sample as int == pick_val(vals, pos_before, SCALE as int));
                    let s = pick_val(vals, prev.1, SCALE as int);
                    assert(s == sample as int);
                    assert(s < ft ==> cell == Cell::Fish(0, 0));
                    assert(!(s < ft) && s < tt ==> cell == Cell::Shark(shark_energy, 0, 0));
                    assert(!(s < tt) ==> cell == Cell::Empty);
                    assert(p.shark_energy == shark_energy as int);
                    assert(p.shark_energy as usize == shark_energy);
                    assert(cell == stock_cell(s, ft, tt, p.shark_energy));
                }
                assert forall|n: int| 0 <= n < i + 1 implies
                    stocked_cell_ok(b.grid()[#[trigger] scan_row(p, n)][scan_col(p, n)],
                        fish_frac as int, shark_frac as int, shark_energy as int)
                by {
                    lemma_scan_coords(p, n);
                    lemma_scan_roundtrip(p, n);
                    lemma_scan_roundtrip(p, i as int);
                    if n < i {
                        assert(stocked_cell_ok(before[scan_row(p, n)][scan_col(p, n)],
                            fish_frac as int, shark_frac as int, shark_energy as int));
                    }
                }
                assert forall|n: int| i + 1 <= n < total implies
                    b.grid()[#[trigger] scan_row(p, n)][scan_col(p, n)] == Cell::Empty
                by {
                    lemma_scan_coords(p, n);
                    lemma_scan_roundtrip(p, n);
                    lemma_scan_roundtrip(p, i as int);
                    assert(before[scan_row(p, n)][scan_col(p, n)] == Cell::Empty);
                }
            }
            i = i + 1;
        }
        proof {
            assert forall|row: int, colq: int| 0 <= row < p.height && 0 <= colq < p.width
                implies stocked_cell_ok(#[trigger] b.grid()[row][colq], fish_frac as int,
                    shark_frac as int, shark_energy as int)
            by {
                lemma_scan_index(p, row, colq);
                assert(stocked_cell_ok(b.grid()[scan_row(p, colq * p.height + row)][
                    scan_col(p, colq * p.height + row)], fish_frac as int,
                    shark_frac as int, shark_energy as int));
            }
        }
        Ok(b)
    }

    /// Build a board with randomized stocking from system randomness.
    pub fn new(
        width: usize, height: usize, fish_frac: usize, shark_frac: usize,
        shark_energy: usize, fish_repo: usize, shark_repo: usize, shark_boost: usize,
    ) -> (r: Result<Board, WatorError>)
        requires
            fish_frac <= SCALE,
            shark_frac <= SCALE,
        ensures
            r is Err <==> (width == 0 || height == 0 || width > MAX_DIM || height > MAX_DIM
                || fish_repo == 0 || shark_repo == 0 || shark_energy == 0),
            r matches Err(e) ==> e == WatorError::InvalidConfiguration,
            r matches Ok(b) ==> {
                let p = Params {
                    width: width as int,
                    height: height as int,
                    fish_repo: fish_repo as int,
                    shark_repo: shark_repo as int,
                    shark_energy: shark_energy as int,
                    shark_boost: shark_boost as int,
                    four_neighborhood: false,
                };
                &&& b.wf()
                &&& b.repro_ok()
                &&& b.tick() == 0
                &&& b.params() == p
                &&& forall|i: int, j: int| 0 <= i < p.height && 0 <= j < p.width
                    ==> stocked_cell_ok(#[trigger] b.grid()[i][j], fish_frac as int,
                        shark_frac as int, shark_energy as int)
            },
    {
        let mut rng = Sampler::system();
        Board::new_with(width, height, fish_frac, shark_frac, shark_energy, fish_repo,
            shark_repo, shark_boost, &mut rng)
    }

    /// Choose whether movement searches see only the four orthogonal
    /// neighbors (`true`) or all eight surrounding cells (`false`).
    /// Construction leaves the eight-neighborhood active; pick the mode
    /// before the first generation and leave it alone afterwards.
    pub fn set_neighborhood_mode(&mut self, four: bool)
        requires
            old(self).wf(),
        ensures
            final(self).wf(),
            final(self).grid() == old(self).grid(),
            final(self).tick() == old(self).tick(),
            final(self).params() == (Params {
                four_neighborhood: four,
                ..old(self).params()
            }),
    {
        self.use_4_neighborhood = four;
    }

    /// The number of rows.
    pub fn rows(&self) -> (r: usize)
        ensures
            r as int == self.params().height,
    {
        self.height
    }

    /// The number of columns.
    pub fn cols(&self) -> (r: usize)
        ensures
            r as int == self.params().width,
    {
        self.width
    }

    /// Read the cell at a coordinate. Out-of-range coordinates are a
    /// caller error, excluded by precondition rather than wrapped.
    pub fn cell_at(&self, row: usize, col: usize) -> (r: Cell)
        requires
            grid_dims_ok(self.grid(), self.params()),
            (row as int) < self.params().height,
            (col as int) < self.params().width,
        ensures
            r == self.grid()[row as int][col as int],
    {
        self.cells[row][col]
    }

    /// True when the coordinate holds a fish.
    pub fn is_fish(&self, row: usize, col: usize) -> (r: bool)
        requires
            grid_dims_ok(self.grid(), self.params()),
            (row as int) < self.params().height,
            (col as int) < self.params().width,
        ensures
            r == (self.grid()[row as int][col as int] is Fish),
    {
        match self.cells[row][col] {
            Cell::Fish(_, _) => true,
            _ => false,
        }
    }

    /// True when the coordinate holds a shark.
    pub fn is_shark(&self, row: usize, col: usize) -> (r: bool)
        requires
            grid_dims_ok(self.grid(), self.params()),
            (row as int) < self.params().height,
            (col as int) < self.params().width,
        ensures
            r == (self.grid()[row as int][col as int] is Shark),
    {
        match self.cells[row][col] {
            Cell::Shark(_, _, _) => true,
            _ => false,
        }
    }

    /// Count the fish on the whole grid.
    pub fn count_fish(&self) -> (r: usize)
        requires
            params_ok(self.params()),
            grid_dims_ok(self.grid(), self.params()),
        ensures
            r as int == grid_fish(self.grid(), self.params(), self.params().height),
    {
        let ghost p = self.params();
        let mut count: usize = 0;
        let mut row: usize = 0;
        while row < self.height
            invariant
                params_ok(p),
                self.params() == p,
                grid_dims_ok(self.grid(), p),
                row <= self.height,
                count as int == grid_fish(self.grid(), p, row as int),
                count as int <= (row as int) * p.width,
            decreases self.height - row,
        {
            let mut col: usize = 0;
            while col < self.width
                invariant
                    params_ok(p),
                    self.params() == p,
                    grid_dims_ok(self.grid(), p),
                    row < self.height,
                    col <= self.width,
                    count as int == grid_fish(self.grid(), p, row as int)
                        + row_fish(self.grid()[row as int], col as int),
                    count as int <= (row as int) * p.width + col as int,
                decreases self.width - col,
            {
                proof {
                    assert((row as int) * p.width + col + 1 <= p.height * p.width)
                        by (nonlinear_arith)
                        requires
                            0 <= row as int,
                            (row as int) < p.height,
                            0 <= col as int,
                            (col as int) < p.width,
                    ;
                    assert(p.height * p.width <= MAX_DIM * MAX_DIM) by (nonlinear_arith)
                        requires
                            1 <= p.width <= MAX_DIM,
                            1 <= p.height <= MAX_DIM,
                    ;
                }
                if self.is_fish(row, col) {
                    count = count + 1;
                }
                col = col + 1;
            }
            proof {
                assert((row as int) * p.width + p.width == (row as int + 1) * p.width)
                    by (nonlinear_arith);
            }
            row = row + 1;
        }
        count
    }

    /// Count the sharks on the whole grid.
    pub fn count_sharks(&self) -> (r: usize)
        requires
            params_ok(self.params()),
            grid_dims_ok(self.grid(), self.params()),
        ensures
            r as int == grid_shark(self.grid(), self.params(), self.params().height),
    {
        let ghost p = self.params();
        let mut count: usize = 0;
        let mut row: usize = 0;
        while row < self.height
            invariant
                params_ok(p),
                self.params() == p,
                grid_dims_ok(self.grid(), p),
                row <= self.height,
                count as int == grid_shark(self.grid(), p, row as int),
                count as int <= (row as int) * p.width,
            decreases self.height - row,
        {
            let mut col: usize = 0;
            while col < self.width
                invariant
                    params_ok(p),
                    self.params() == p,
                    grid_dims_ok(self.grid(), p),
                    row < self.height,
                    col <= self.width,
                    count as int == grid_shark(self.grid(), p, row as int)
                        + row_shark(self.grid()[row as int], col as int),
                    count as int <= (row as int) * p.width + col as int,
                decreases self.width - col,
            {
                proof {
                    assert((row as int) * p.width + col + 1 <= p.height * p.width)
                        by (nonlinear_arith)
                        requires
                            0 <= row as int,
                            (row as int) < p.height,
                            0 <= col as int,
                            (col as int) < p.width,
                    ;
                    assert(p.height * p.width <= MAX_DIM * MAX_DIM) by (nonlinear_arith)
                        requires
                            1 <= p.width <= MAX_DIM,
                            1 <= p.height <= MAX_DIM,
                    ;
                }
                if self.is_shark(row, col) {
                    count = count + 1;
                }
                col = col + 1;
            }
            proof {
                assert((row as int) * p.width + p.width == (row as int + 1) * p.width)
                    by (nonlinear_arith);
            }
            row = row + 1;
        }
        count
    }

    /// Write a cell, with no concern for well-formedness: the engine's
    /// own mid-scan writes go through here.
    fn put(&mut self, row: usize, col: usize, c: Cell)
        requires
            (row as int) < old(self).grid().len(),
            (col as int) < old(self).grid()[row as int].len(),
        ensures
            final(self).grid() == grid_upd(old(self).grid(), row as int, col as int, c),
            final(self).params() == old(self).params(),
            final(self).tick() == old(self).tick(),
    {
        let row_ref = &mut self.cells[row];
        row_ref[col] = c;
        proof {
            assert(final(self).grid() =~~= grid_upd(
                old(self).grid(), row as int, col as int, c,
            ));
        }
    }

    /// Survey the up-to-eight toroidal neighbors of a coordinate in a
    /// fixed order and collect, separately, the empty and the
    /// fish-holding eligible destinations.
    fn survey(&self, row: usize, col: usize) -> (r: (Vec<(usize, usize)>, Vec<(usize, usize)>))
        requires
            params_ok(self.params()),
            grid_dims_ok(self.grid(), self.params()),
            (row as int) < self.params().height,
            (col as int) < self.params().width,
        ensures
            r.0@ == empty_cands(self.grid(), self.params(), row as int, col as int, 9),
            r.1@ == fish_cands(self.grid(), self.params(), row as int, col as int, 9),
    {
        let mut empties: Vec<(usize, usize)> = Vec::new();
        let mut fishes: Vec<(usize, usize)> = Vec::new();
        let mut k: usize = 0;
        while k < 9
            invariant
                params_ok(self.params()),
                grid_dims_ok(self.grid(), self.params()),
                (row as int) < self.params().height,
                (col as int) < self.params().width,
                k <= 9,
                empties@ == empty_cands(self.grid(), self.params(), row as int, col as int, k as int),
                fishes@ == fish_cands(self.grid(), self.params(), row as int, col as int, k as int),
            decreases 9 - k,
        {
            let cs = self.width + col - 1 + k / 3;
            let rs = self.height + row - 1 + k % 3;
            let cn = cs % self.width;
            let rn = rs % self.height;
            let eligible = !(self.use_4_neighborhood && cn != col && rn != row)
                && !(rn == row && cn == col);
            proof {
                assert(rn < self.height);
                assert(cn < self.width);
                assert(self.cells@.len() == self.grid().len());
                assert(self.cells@[rn as int]@.len() == self.grid()[rn as int].len());
            }
            if eligible {
                match self.cells[rn][cn] {
                    Cell::Empty => empties.push((rn, cn)),
                    Cell::Fish(_, _) => fishes.push((rn, cn)),
                    _ => {},
                }
            }
            k = k + 1;
        }
        (empties, fishes)
    }

    /// Fish movement search: collect every eligible empty neighbor and,
    /// if any, draw one. `None` exactly when the fish is fully crowded.
    fn find_empty_neighbor(&self, row: usize, col: usize, rng: &mut Sampler)
        -> (r: Option<(usize, usize)>)
        requires
            params_ok(self.params()),
            grid_dims_ok(self.grid(), self.params()),
            (row as int) < self.params().height,
            (col as int) < self.params().width,
        ensures
            ({
                let cands = empty_cands(self.grid(), self.params(), row as int, col as int, 9);
                &&& final(rng).replay == old(rng).replay
                &&& final(rng).vals@ == old(rng).vals@
                &&& match r {
                    None => cands.len() == 0 && final(rng).pos == old(rng).pos,
                    Some(d) => {
                        &&& cands.len() >= 1
                        &&& exists|j: int| 0 <= j < cands.len() && cands[j] == d
                        &&& (old(rng).replay ==> d == cands[pick_val(
                            old(rng).vals@, old(rng).pos as int, cands.len() as int)]
                            && final(rng).pos as int == pick_next(old(rng).pos as int))
                        &&& (!old(rng).replay ==> final(rng).pos == old(rng).pos)
                    },
                }
            }),
    {
        let (empties, _fishes) = self.survey(row, col);
        if empties.len() == 0 {
            None
        } else {
            let idx = rng.pick(empties.len());
            let d = empties[idx];
            Some(d)
        }
    }

    /// Shark movement search: feeding candidates strictly dominate empty
    /// ones; a candidate is drawn from whichever list applies. `None`
    /// exactly when neither exists.
    fn find_shark_neighbor(&self, row: usize, col: usize, rng: &mut Sampler)
        -> (r: Option<(usize, usize)>)
        requires
            params_ok(self.params()),
            grid_dims_ok(self.grid(), self.params()),
            (row as int) < self.params().height,
            (col as int) < self.params().width,
        ensures
            ({
                let fishes = fish_cands(self.grid(), self.params(), row as int, col as int, 9);
                let empties = empty_cands(self.grid(), self.params(), row as int, col as int, 9);
                &&& final(rng).replay == old(rng).replay
                &&& final(rng).vals@ == old(rng).vals@
                &&& match r {
                    None => fishes.len() == 0 && empties.len() == 0
                        && final(rng).pos == old(rng).pos,
                    Some(d) => {
                        &&& fishes.len() > 0 || empties.len() > 0
                        &&& (fishes.len() > 0 ==> (exists|j: int|
                            0 <= j < fishes.len() && fishes[j] == d)
                            && (old(rng).replay ==> d == fishes[pick_val(
                                old(rng).vals@, old(rng).pos as int, fishes.len() as int)]))
                        &&& (fishes.len() == 0 ==> (exists|j: int|
                            0 <= j < empties.len() && empties[j] == d)
                            && (old(rng).replay ==> d == empties[pick_val(
                                old(rng).vals@, old(rng).pos as int, empties.len() as int)]))
                        &&& (old(rng).replay
                            ==> final(rng).pos as int == pick_next(old(rng).pos as int))
                        &&& (!old(rng).replay ==> final(rng).pos == old(rng).pos)
                    },
                }
            }),
    {
        let (empties, fishes) = self.survey(row, col);
        if fishes.len() > 0 {
            let idx = rng.pick(fishes.len());
            let d = fishes[idx];
            Some(d)
        } else if empties.len() > 0 {
            let idx = rng.pick(empties.len());
            let d = empties[idx];
            Some(d)
        } else {
            None
        }
    }

    /// Process the scan's action at one coordinate: empty cells and
    /// organisms already stamped with the current generation are
    /// skipped; otherwise the organism moves, feeds, reproduces or dies
    /// as its rules dictate.
    fn step_cell(&mut self, row: usize, col: usize, rng: &mut Sampler)
        requires
            params_ok(old(self).params()),
            grid_dims_ok(old(self).grid(), old(self).params()),
            (row as int) < old(self).params().height,
            (col as int) < old(self).params().width,
            forall|i: int, j: int|
                0 <= i < old(self).params().height && 0 <= j < old(self).params().width
                    ==> cell_mid(#[trigger] old(self).grid()[i][j], old(self).tick(),
                        old(self).params()),
        ensures
            final(self).params() == old(self).params(),
            final(self).tick() == old(self).tick(),
            grid_dims_ok(final(self).grid(), final(self).params()),
            forall|i: int, j: int|
                0 <= i < old(self).params().height && 0 <= j < old(self).params().width
                    ==> cell_mid(#[trigger] final(self).grid()[i][j], old(self).tick(),
                        old(self).params()),
            forall|i: int, j: int|
                0 <= i < old(self).params().height && 0 <= j < old(self).params().width
                    && cell_done(old(self).grid()[i][j], old(self).tick(), old(self).params())
                    ==> cell_done(#[trigger] final(self).grid()[i][j], old(self).tick(),
                        old(self).params()),
            cell_done(final(self).grid()[row as int][col as int], old(self).tick(),
                old(self).params()),
            final(rng).replay == old(rng).replay,
            final(rng).vals@ == old(rng).vals@,
            old(rng).replay ==> ({
                let st = cell_step(old(self).grid(), old(self).params(), old(self).tick(),
                    row as int, col as int, old(rng).vals@, old(rng).pos as int);
                final(self).grid() == st.0 && final(rng).pos as int == st.1
            }),
            !old(rng).replay ==> final(rng).pos == old(rng).pos,
    {
        let ghost g0 = self.grid();
        let ghost p = self.params();
        let ghost tick = self.tick();
        let c = self.cell_at(row, col);
        match c {
            Cell::Empty => {},
            Cell::Fish(r, a) => {
                if a == self.advances {
                    // already moved this generation
                } else {
                    proof {
                        assert(cell_mid(g0[row as int][col as int], tick, p));
                        assert(a as int == tick - 1);
                        lemma_mod_incr(r as int, self.fish_repo as int);
                        lemma_empty_cands_props(g0, p, row as int, col as int, 9);
                    }
                    let dest = self.find_empty_neighbor(row, col, rng);
                    let new_r = (r % self.fish_repo + 1) % self.fish_repo;
                    match dest {
                        Some(d) => {
                            self.put(d.0, d.1, Cell::Fish(new_r, a + 1));
                            if r == self.fish_repo - 1 {
                                self.put(row, col, Cell::Fish(0, a + 1));
                            } else {
                                self.put(row, col, Cell::Empty);
                            }
                        },
                        None => {
                            self.put(row, col, Cell::Fish(new_r, a + 1));
                        },
                    }
                }
            },
            Cell::Shark(e, r, a) => {
                if a == self.advances {
                    // already moved this generation
                } else {
                    proof {
                        assert(cell_mid(g0[row as int][col as int], tick, p));
                        assert(a as int == tick - 1);
                        assert(e >= 1);
                        lemma_mod_incr(r as int, self.shark_repo as int);
                        lemma_empty_cands_props(g0, p, row as int, col as int, 9);
                        lemma_fish_cands_props(g0, p, row as int, col as int, 9);
                    }
                    let dest = self.find_shark_neighbor(row, col, rng);
                    let new_r = (r % self.shark_repo + 1) % self.shark_repo;
                    match dest {
                        Some(d) => {
                            let eating = self.is_fish(d.0, d.1);
                            if !eating && e == 1 {
                                // would run out of energy en route
                                self.put(row, col, Cell::Empty);
                            } else {
                                let new_e = if eating {
                                    if e <= usize::MAX - self.shark_boost {
                                        e + self.shark_boost
                                    } else {
                                        usize::MAX
                                    }
                                } else {
                                    e - 1
                                };
                                self.put(d.0, d.1, Cell::Shark(new_e, new_r, a + 1));
                                if new_r == 0 {
                                    let phase = rng.pick(self.shark_repo);
                                    self.put(row, col,
                                        Cell::Shark(self.shark_energy, phase, a + 1));
                                } else {
                                    self.put(row, col, Cell::Empty);
                                }
                            }
                        },
                        None => {
                            if e == 1 {
                                // starves in place
                                self.put(row, col, Cell::Empty);
                            } else {
                                self.put(row, col, Cell::Shark(e - 1, new_r, a + 1));
                            }
                        },
                    }
                }
            },
        }
    }

    /// Advance the simulation by one generation, drawing tie-breaks from
    /// the given sampler. Afterwards every organism carries the new
    /// generation stamp and a reproduction counter back in range; in
    /// replay mode the resulting grid and replay position are exact
    /// functions of the starting state and the recording.
    pub fn advance_with(&mut self, rng: &mut Sampler)
        requires
            old(self).wf(),
            old(self).advances < usize::MAX,
        ensures
            final(self).wf(),
            final(self).repro_ok(),
            final(self).params() == old(self).params(),
            final(self).tick() == old(self).tick() + 1,
            final(rng).replay == old(rng).replay,
            final(rng).vals@ == old(rng).vals@,
            old(rng).replay ==> ({
                let st = scan_steps(old(self).grid(), old(self).params(), old(self).tick() + 1,
                    old(rng).vals@, old(rng).pos as int,
                    old(self).params().width * old(self).params().height);
                final(self).grid() == st.0 && final(rng).pos as int == st.1
            }),
            !old(rng).replay ==> final(rng).pos == old(rng).pos,
    {
        self.advances = self.advances + 1;
        let ghost g0 = self.grid();
        let ghost p = self.params();
        let ghost tick = self.tick();
        let ghost vals = rng.vals@;
        let ghost pos0 = rng.pos as int;
        proof {
            assert(p.width * p.height <= MAX_DIM * MAX_DIM) by (nonlinear_arith)
                requires
                    1 <= p.width <= MAX_DIM,
                    1 <= p.height <= MAX_DIM,
            ;
        }
        let total = self.width * self.height;
        let mut i: usize = 0;
        while i < total
            invariant
                params_ok(p),
                self.params() == p,
                self.tick() == tick,
                grid_dims_ok(self.grid(), p),
                total as int == p.width * p.height,
                i <= total,
                forall|r: int, c: int|
                    0 <= r < p.height && 0 <= c < p.width
                        ==> cell_mid(#[trigger] self.grid()[r][c], tick, p),
                forall|n: int| 0 <= n < i
                    ==> cell_done(self.grid()[#[trigger] scan_row(p, n)][scan_col(p, n)],
                        tick, p),
                rng.replay == old(rng).replay,
                rng.vals@ == vals,
                old(rng).replay ==> ({
                    let st = scan_steps(g0, p, tick, vals, pos0, i as int);
                    self.grid() == st.0 && rng.pos as int == st.1
                }),
                !old(rng).replay ==> rng.pos == old(rng).pos,
            decreases total - i,
        {
            proof {
                lemma_scan_coords(p, i as int);
            }
            let col = i / self.height;
            let row = i % self.height;
            let ghost done_before = self.grid();
            self.step_cell(row, col, rng);
            proof {
                assert forall|n: int| 0 <= n < i + 1 implies
                    cell_done(self.grid()[#[trigger] scan_row(p, n)][scan_col(p, n)], tick, p)
                by {
                    lemma_scan_coords(p, n);
                    if n < i {
                        assert(cell_done(done_before[scan_row(p, n)][scan_col(p, n)], tick, p));
                    }
                }
            }
            i = i + 1;
        }
        proof {
            assert forall|r: int, c: int| 0 <= r < p.height && 0 <= c < p.width implies
                cell_done(#[trigger] self.grid()[r][c], tick, p)
            by {
                lemma_scan_index(p, r, c);
                assert(cell_done(self.grid()[scan_row(p, c * p.height + r)][
                    scan_col(p, c * p.height + r)], tick, p));
            }
        }
    }

    /// Advance the simulation by one generation with system randomness.
    pub fn advance(&mut self)
        requires
            old(self).wf(),
            old(self).advances < usize::MAX,
        ensures
            final(self).wf(),
            final(self).repro_ok(),
            final(self).params() == old(self).params(),
            final(self).tick() == old(self).tick() + 1,
    {
        let mut rng = Sampler::system();
        self.advance_with(&mut rng);
    }

    /// Seed a cell from outside the engine (test and debug use). The
    /// organism must carry the current generation stamp, and a seeded
    /// shark must have energy to live on; its reproduction counter may
    /// be any value, the next generation folds it back into range.
    pub fn set_cell(&mut self, row: usize, col: usize, cell: Cell)
        requires
            old(self).wf(),
            (row as int) < old(self).params().height,
            (col as int) < old(self).params().width,
            match cell {
                Cell::Empty => true,
                Cell::Fish(r, a) => a as int == old(self).tick(),
                Cell::Shark(e, r, a) => a as int == old(self).tick() && e >= 1,
            },
        ensures
            final(self).wf(),
            final(self).grid() == grid_upd(old(self).grid(), row as int, col as int, cell),
            final(self).params() == old(self).params(),
            final(self).tick() == old(self).tick(),
    {
        self.put(row, col, cell);
    }
}

} // verus!
