//! The tick pipeline: builds the world and its colony, and drives one
//! simulation step — a parallel per-ant update against an immutable grid
//! snapshot, followed by a sequential application of the emitted
//! pheromones and cell actions.

use vstd::prelude::*;
use rayon::iter::{IndexedParallelIterator, IntoParallelRefIterator, IntoParallelRefMutIterator, ParallelIterator};
use crate::ant::{Ant, AntActionTaken, AntState, TickDraws, ant_tick_post, ant_wf, draws_ok, ANT_RANDOM_WALK_MAX_ROTATION};
use crate::grid::{GridLocation, WorldGrid, GRID_WIDTH, GRID_HEIGHT, loc_valid};
use crate::pheromone::{Pheromone, DT_MAX_FP};
use crate::rng::AntRng;

verus! {

/// Side length of the square home region seeded at the world's center.
pub const HOME_CELLS: usize = 10;

/// Whether a location lies in the home region: a `HOME_CELLS`-sided
/// square centered on the grid.
pub open spec fn home_region(l: GridLocation) -> bool {
    &&& GRID_HEIGHT / 2 - HOME_CELLS / 2 <= l.r < GRID_HEIGHT / 2 - HOME_CELLS / 2 + HOME_CELLS
    &&& GRID_WIDTH / 2 - HOME_CELLS / 2 <= l.c < GRID_WIDTH / 2 - HOME_CELLS / 2 + HOME_CELLS
}

/// The cell at the center of the home region, where the colony spawns.
pub open spec fn spawn_cell_loc() -> GridLocation {
    GridLocation {
        r: (GRID_HEIGHT / 2 - HOME_CELLS / 2 + HOME_CELLS / 2) as usize,
        c: (GRID_WIDTH / 2 - HOME_CELLS / 2 + HOME_CELLS / 2) as usize,
    }
}

/// Draws the random inputs for one parallel ant phase, one packet per
/// ant, sequentially, so the phase itself consumes no shared randomness.
pub fn draw_tick_inputs(rng: &mut AntRng, n: usize) -> (v: Vec<TickDraws>)
    ensures
        v@.len() == n,
        forall|i: int| 0 <= i < n ==> draws_ok(#[trigger] v@[i]),
{
    let mut v: Vec<TickDraws> = Vec::new();
    let mut i: usize = 0;
    while i < n
        invariant
            i <= n,
            v@.len() == i,
            forall|j: int| 0 <= j < i ==> draws_ok(#[trigger] v@[j]),
        decreases n - i,
    {
        let walk_offset = rng.gen_range_fp(
            -ANT_RANDOM_WALK_MAX_ROTATION,
            ANT_RANDOM_WALK_MAX_ROTATION,
        );
        let bounce_flip = rng.gen_bool();
        v.push(TickDraws { walk_offset, bounce_flip });
        i += 1;
    }
    v
}

/// Relies on rayon's `par_iter_mut().zip(..).map(..).collect()`: the
/// verified `Ant::tick` runs exactly once on each ant, in place, paired
/// with that ant's own draw packet, and the outputs are collected in ant
/// order.
#[verifier::external_body]
fn tick_ants_par(ants: &mut Vec<Ant>, grid: &WorldGrid, dt: i64, draws: &Vec<TickDraws>) -> (outs:
    Vec<(GridLocation, Option<Pheromone>, Option<AntActionTaken>)>)
    requires
        grid.wf(),
        0 <= dt <= DT_MAX_FP,
        old(ants)@.len() == draws@.len(),
        forall|i: int| 0 <= i < old(ants)@.len() ==> ant_wf(#[trigger] old(ants)@[i], *grid),
        forall|i: int| 0 <= i < draws@.len() ==> draws_ok(#[trigger] draws@[i]),
    ensures
        final(ants)@.len() == old(ants)@.len(),
        outs@.len() == old(ants)@.len(),
        forall|i: int| 0 <= i < old(ants)@.len() ==> ant_tick_post(
            old(ants)@[i],
            #[trigger] final(ants)@[i],
            *grid,
            dt as int,
            draws@[i],
            outs@[i].0,
            outs@[i].1,
            outs@[i].2,
        ),
{
    ants.par_iter_mut().zip(draws.par_iter()).map(|(a, d)| a.tick(grid, dt, *d)).collect()
}

/// Builds the world and its colony: a grid with the home region seeded at
/// the center, and `ant_count` ants spawned at the home region's center
/// cell, all looking for food.
pub fn init(screen_width: i64, screen_height: i64, ant_count: usize, rng: &mut AntRng) -> (r: (
    Vec<Ant>,
    WorldGrid,
))
    requires
        0x400_0000 <= screen_width <= 0x4000_0000,
        0x400_0000 <= screen_height <= 0x4000_0000,
    ensures
        r.1.wf(),
        r.0@.len() == ant_count,
        forall|i: int| 0 <= i < ant_count ==> ant_wf(#[trigger] r.0@[i], r.1),
        forall|i: int| 0 <= i < ant_count ==> (#[trigger] r.0@[i]).state
            == AntState::LookingForFood,
        forall|i: int| 0 <= i < crate::grid::GRID_AREA ==> ((#[trigger] r.1.cells@[i]).cell_type
            == if home_region(crate::grid::idx_loc(i)) {
            crate::grid::CellType::Home
        } else {
            crate::grid::CellType::Empty
        }),
        forall|i: int| 0 <= i < crate::grid::GRID_AREA
            ==> #[trigger] r.1.home_pheromones.entries@[i] == (if home_region(
            crate::grid::idx_loc(i),
        ) {
            Option::Some(r.1.anchor_ph(crate::pheromone::PheromoneType::Home, i))
        } else {
            Option::<Pheromone>::None
        }),
        forall|i: int| 0 <= i < crate::grid::GRID_AREA
            ==> #[trigger] r.1.food_pheromones.entries@[i] is None,
        forall|i: int| 0 <= i < ant_count ==> (#[trigger] r.0@[i]).rect == crate::ant::ant_rect_at(
            crate::util::rect_center_x(
                crate::grid::rect_for(
                    r.1.cell_width as int,
                    r.1.cell_height as int,
                    spawn_cell_loc(),
                ),
            ),
            crate::util::rect_center_y(
                crate::grid::rect_for(
                    r.1.cell_width as int,
                    r.1.cell_height as int,
                    spawn_cell_loc(),
                ),
            ),
        ),
        r.1.food_collected == 0,
    {
        let home_start_row: usize = GRID_HEIGHT / 2 - HOME_CELLS / 2;
        let home_start_col: usize = GRID_WIDTH / 2 - HOME_CELLS / 2;

        let mut home_locs: Vec<GridLocation> = Vec::new();
        let mut j: usize = 0;
        while j < HOME_CELLS * HOME_CELLS
            invariant
                j <= HOME_CELLS * HOME_CELLS,
                home_locs@.len() == j,
                home_start_row == GRID_HEIGHT / 2 - HOME_CELLS / 2,
                home_start_col == GRID_WIDTH / 2 - HOME_CELLS / 2,
                forall|j2: int| 0 <= j2 < j ==> #[trigger] home_locs@[j2] == (GridLocation {
                    r: (home_start_row + j2 / (HOME_CELLS as int)) as usize,
                    c: (home_start_col + j2 % (HOME_CELLS as int)) as usize,
                }),
            decreases HOME_CELLS * HOME_CELLS - j,
        {
            proof {
                vstd::arithmetic::div_mod::lemma_fundamental_div_mod(j as int, HOME_CELLS as int);
                vstd::arithmetic::div_mod::lemma_mod_division_less_than_divisor(
                    j as int,
                    HOME_CELLS as int,
                );
                vstd::arithmetic::div_mod::lemma_div_pos_is_pos(j as int, HOME_CELLS as int);
                vstd::arithmetic::div_mod::lemma_multiply_divide_lt(
                    j as int,
                    HOME_CELLS as int,
                    HOME_CELLS as int,
                );
            }
            let r = home_start_row + j / HOME_CELLS;
            let c = home_start_col + j % HOME_CELLS;
            home_locs.push(GridLocation { r, c });
            j += 1;
        }
        proof {
            assert forall|k: int| 0 <= k < home_locs@.len() implies loc_valid(
                #[trigger] home_locs@[k],
            ) by {
                vstd::arithmetic::div_mod::lemma_mod_division_less_than_divisor(
                    k,
                    HOME_CELLS as int,
                );
                vstd::arithmetic::div_mod::lemma_div_pos_is_pos(k, HOME_CELLS as int);
                vstd::arithmetic::div_mod::lemma_multiply_divide_lt(
                    k,
                    HOME_CELLS as int,
                    HOME_CELLS as int,
                );
            }
        }
        let grid = WorldGrid::new(&home_locs, screen_width, screen_height);
        proof {
            assert forall|l: GridLocation| home_locs@.contains(l) == home_region(l) by {
                if home_locs@.contains(l) {
                    let w = choose|w: int| 0 <= w < home_locs@.len() && home_locs@[w] == l;
                    vstd::arithmetic::div_mod::lemma_mod_division_less_than_divisor(
                        w,
                        HOME_CELLS as int,
                    );
                    vstd::arithmetic::div_mod::lemma_div_pos_is_pos(w, HOME_CELLS as int);
                    vstd::arithmetic::div_mod::lemma_multiply_divide_lt(
                        w,
                        HOME_CELLS as int,
                        HOME_CELLS as int,
                    );
                    assert(home_region(l));
                }
                if home_region(l) {
                    let dr = l.r - (GRID_HEIGHT / 2 - HOME_CELLS / 2);
                    let dc = l.c - (GRID_WIDTH / 2 - HOME_CELLS / 2);
                    let w = dr * (HOME_CELLS as int) + dc;
                    vstd::arithmetic::div_mod::lemma_fundamental_div_mod_converse(
                        w,
                        HOME_CELLS as int,
                        dr,
                        dc,
                    );
                    assert(0 <= w < 100 && w < home_locs@.len()) by (nonlinear_arith)
                        requires
                            w == dr * (HOME_CELLS as int) + dc,
                            0 <= dr < 10,
                            0 <= dc < 10,
                            HOME_CELLS == 10,
                            home_locs@.len() == 100,
                    ;
                    assert(home_locs@[w] == l);
                    assert(home_locs@.contains(l));
                }
            }
        }
        let grid_center_loc = GridLocation {
            r: home_start_row + HOME_CELLS / 2,
            c: home_start_col + HOME_CELLS / 2,
        };
        let ant_spawn_point = grid.get_rect_from_loc(grid_center_loc);
        proof {
            crate::grid::lemma_rect_for_bounds(
                grid.cell_width as int,
                grid.cell_height as int,
                grid_center_loc,
            );
        }
        let (sx, sy) = ant_spawn_point.center();
        proof {
            crate::grid::lemma_cell_center_loc(
                grid.cell_width as int,
                grid.cell_height as int,
                grid_center_loc,
            );
            vstd::arithmetic::div_mod::lemma_div_is_ordered(0x400_0000, screen_width as int, 200);
            vstd::arithmetic::div_mod::lemma_div_is_ordered(0x400_0000, screen_height as int, 150);
            lemma_spawn_point_clearance(grid.cell_width as int, grid.cell_height as int, sx as int, sy as int);
        }
        let mut ants: Vec<Ant> = Vec::new();
        let mut i: usize = 0;
        while i < ant_count
            invariant
                i <= ant_count,
                ants@.len() == i,
                grid.wf(),
                0 <= sx - crate::ant::ANT_WIDTH_FP / 2,
                sx - crate::ant::ANT_WIDTH_FP / 2 + crate::ant::ANT_WIDTH_FP
                    <= grid.bounding_box.w,
                0 <= sy - crate::ant::ANT_HEIGHT_FP / 2,
                sy - crate::ant::ANT_HEIGHT_FP / 2 + crate::ant::ANT_HEIGHT_FP
                    <= grid.bounding_box.h,
                sx == crate::util::rect_center_x(
                    crate::grid::rect_for(
                        grid.cell_width as int,
                        grid.cell_height as int,
                        spawn_cell_loc(),
                    ),
                ),
                sy == crate::util::rect_center_y(
                    crate::grid::rect_for(
                        grid.cell_width as int,
                        grid.cell_height as int,
                        spawn_cell_loc(),
                    ),
                ),
                forall|k: int| 0 <= k < i ==> ant_wf(#[trigger] ants@[k], grid),
                forall|k: int| 0 <= k < i ==> (#[trigger] ants@[k]).state
                    == AntState::LookingForFood,
                forall|k: int| 0 <= k < i ==> (#[trigger] ants@[k]).rect == crate::ant::ant_rect_at(
                    sx as int,
                    sy as int,
                ),
            decreases ant_count - i,
        {
            let ant = Ant::new(sx, sy, &grid, rng);
            ants.push(ant);
            i += 1;
        }
        proof {
            assert(grid_center_loc == spawn_cell_loc());
        }
        (ants, grid)
    }

/// One output of an ant's tick: the cell it ended on, an optional scent
/// deposit, and an optional cell action.
pub type TickOutput = (GridLocation, Option<Pheromone>, Option<AntActionTaken>);

/// The grid after one decay step: both fields swept slot-wise, everything
/// else untouched.
pub open spec fn grid_ticked(g0: WorldGrid, g1: WorldGrid, dt: int) -> bool {
    &&& g1.cells == g0.cells
    &&& g1.food_cells == g0.food_cells
    &&& g1.bounding_box == g0.bounding_box
    &&& g1.cell_width == g0.cell_width
    &&& g1.cell_height == g0.cell_height
    &&& g1.food_collected == g0.food_collected
    &&& g1.food_pheromones.entries@.len() == g0.food_pheromones.entries@.len()
    &&& g1.home_pheromones.entries@.len() == g0.home_pheromones.entries@.len()
    &&& forall|i: int| 0 <= i < crate::grid::GRID_AREA ==> #[trigger] g1.food_pheromones.entries@[i]
        == crate::pheromone::opt_survives(g0.food_pheromones.entries@[i], dt)
    &&& forall|i: int| 0 <= i < crate::grid::GRID_AREA ==> #[trigger] g1.home_pheromones.entries@[i]
        == crate::pheromone::opt_survives(g0.home_pheromones.entries@[i], dt)
}

/// Applying one ant's output: deposit its pheromone, if any, then apply
/// its cell action.
pub open spec fn applied_one(g0: WorldGrid, out: TickOutput, g1: WorldGrid) -> bool {
    match out.1 {
        Option::None => crate::grid::visited_rel(g0, out.0, out.2, g1),
        Option::Some(p) => exists|gm: WorldGrid|
            #[trigger] crate::grid::deposited_rel(g0, p, gm) && crate::grid::visited_rel(
                gm,
                out.0,
                out.2,
                g1,
            ),
    }
}

/// Applying a whole batch of ant outputs, in batch order.
pub open spec fn applied_all(g0: WorldGrid, outs: Seq<TickOutput>, g1: WorldGrid) -> bool
    decreases outs.len(),
{
    if outs.len() == 0 {
        g1 == g0
    } else {
        exists|gm: WorldGrid|
            #[trigger] applied_one(g0, outs[0], gm) && applied_all(gm, outs.drop_first(), g1)
    }
}

/// Appending one more output to an applied batch applies it after the
/// batch.
proof fn lemma_applied_all_snoc(
    g0: WorldGrid,
    outs: Seq<TickOutput>,
    gm: WorldGrid,
    out: TickOutput,
    g1: WorldGrid,
)
    requires
        applied_all(g0, outs, gm),
        applied_one(gm, out, g1),
    ensures
        applied_all(g0, outs.push(out), g1),
    decreases outs.len(),
{
    let snoc = outs.push(out);
    if outs.len() == 0 {
        assert(snoc[0] == out);
        assert(snoc.drop_first() =~= Seq::<TickOutput>::empty());
        assert(applied_one(g0, snoc[0], g1));
        assert(applied_all(g1, snoc.drop_first(), g1));
    } else {
        let gstep = choose|gstep: WorldGrid|
            #[trigger] applied_one(g0, outs[0], gstep) && applied_all(
                gstep,
                outs.drop_first(),
                gm,
            );
        lemma_applied_all_snoc(gstep, outs.drop_first(), gm, out, g1);
        assert(snoc.drop_first() =~= outs.drop_first().push(out));
        assert(snoc[0] == outs[0]);
        assert(applied_one(g0, snoc[0], gstep) && applied_all(gstep, snoc.drop_first(), g1));
    }
}

/// The whole trace of one simulation step: the grid decays to a snapshot,
/// every ant ticks against that snapshot with its own drawn inputs, and
/// the outputs are applied to the snapshot in batch order.
pub open spec fn step_trace_ok(
    g0: WorldGrid,
    a0: Seq<Ant>,
    g1: WorldGrid,
    a1: Seq<Ant>,
    dt: int,
    mid: WorldGrid,
    ds: Seq<TickDraws>,
    outs: Seq<TickOutput>,
) -> bool {
    &&& grid_ticked(g0, mid, dt)
    &&& ds.len() == a0.len()
    &&& forall|i: int| 0 <= i < ds.len() ==> draws_ok(#[trigger] ds[i])
    &&& outs.len() == a0.len()
    &&& a1.len() == a0.len()
    &&& forall|i: int| 0 <= i < a0.len() ==> ant_tick_post(
        a0[i],
        #[trigger] a1[i],
        mid,
        dt,
        ds[i],
        outs[i].0,
        outs[i].1,
        outs[i].2,
    )
    &&& applied_all(mid, outs, g1)
}

/// One simulation step: decay both scent fields, run every ant's tick in
/// parallel against the resulting grid snapshot, then apply the emitted
/// pheromones and cell actions sequentially, in batch order.
pub fn world_step(grid: &mut WorldGrid, ants: &mut Vec<Ant>, rng: &mut AntRng, dt: i64)
    requires
        old(grid).wf(),
        0 <= dt <= DT_MAX_FP,
        forall|i: int| 0 <= i < old(ants)@.len() ==> ant_wf(#[trigger] old(ants)@[i], *old(grid)),
    ensures
        final(grid).wf(),
        final(grid).bounding_box == old(grid).bounding_box,
        final(grid).cell_width == old(grid).cell_width,
        final(grid).cell_height == old(grid).cell_height,
        final(grid).food_collected >= old(grid).food_collected,
        final(ants)@.len() == old(ants)@.len(),
        forall|i: int| 0 <= i < final(ants)@.len() ==> ant_wf(#[trigger] final(ants)@[i], *final(grid)),
        exists|mid: WorldGrid, ds: Seq<TickDraws>, outs: Seq<TickOutput>|
            #[trigger] step_trace_ok(
                *old(grid),
                old(ants)@,
                *final(grid),
                final(ants)@,
                dt as int,
                mid,
                ds,
                outs,
            ),
{
    grid.tick(dt);
    let ghost gsnap = *grid;
    let draws = draw_tick_inputs(rng, ants.len());
    let updates = tick_ants_par(ants, grid, dt, &draws);
    proof {
        assert forall|k: int| 0 <= k < old(ants)@.len() implies ant_wf(
            #[trigger] old(ants)@[k],
            gsnap,
        ) by {
            assert(ant_wf(old(ants)@[k], *old(grid)));
        }
    }
    let n = updates.len();
    let mut i: usize = 0;
    while i < n
        invariant
            n == updates@.len(),
            n == old(ants)@.len(),
            forall|k: int| 0 <= k < n ==> ant_wf(#[trigger] old(ants)@[k], gsnap),
            i <= n,
            grid.wf(),
            grid.bounding_box == gsnap.bounding_box,
            grid.cell_width == gsnap.cell_width,
            grid.cell_height == gsnap.cell_height,
            grid.food_collected >= gsnap.food_collected,
            gsnap.wf(),
            gsnap.bounding_box == old(grid).bounding_box,
            gsnap.cell_width == old(grid).cell_width,
            gsnap.cell_height == old(grid).cell_height,
            gsnap.food_collected == old(grid).food_collected,
            ants@.len() == old(ants)@.len(),
            draws@.len() == n,
            0 <= dt <= DT_MAX_FP,
            forall|k: int| 0 <= k < n ==> ant_tick_post(
                old(ants)@[k],
                #[trigger] ants@[k],
                gsnap,
                dt as int,
                draws@[k],
                updates@[k].0,
                updates@[k].1,
                updates@[k].2,
            ),
            applied_all(gsnap, updates@.take(i as int), *grid),
        decreases n - i,
    {
        let (loc, ph, act) = updates[i];
        proof {
            assert(ant_tick_post(
                old(ants)@[i as int],
                ants@[i as int],
                gsnap,
                dt as int,
                draws@[i as int],
                updates@[i as int].0,
                updates@[i as int].1,
                updates@[i as int].2,
            ));
            let (mid, dist) = choose|mid: Ant, dist: int|
                #[trigger] crate::ant::tick_trace_ok(
                    old(ants)@[i as int],
                    ants@[i as int],
                    gsnap,
                    dt as int,
                    draws@[i as int],
                    loc,
                    ph,
                    act,
                    mid,
                    dist,
                );
            match ph {
                Option::Some(p) => {
                    assert(!p.decayed && 0 <= p.intensity
                        <= crate::ant::ANT_PHEROMONE_BASE_INTENSITY_FP && p.rect
                        == crate::grid::rect_for(
                        grid.cell_width as int,
                        grid.cell_height as int,
                        loc,
                    ));
                },
                Option::None => {},
            }
        }
        let ghost g_before = *grid;
        if let Option::Some(pheromone) = ph {
            grid.deposit_pheromone(pheromone);
        }
        let ghost g_dep = *grid;
        grid.visit_cell(loc, act);
        proof {
            assert(crate::grid::visited_rel(g_dep, loc, act, *grid));
            assert(applied_one(g_before, updates@[i as int], *grid));
            lemma_applied_all_snoc(
                gsnap,
                updates@.take(i as int),
                g_before,
                updates@[i as int],
                *grid,
            );
            assert(updates@.take(i as int).push(updates@[i as int]) =~= updates@.take(i + 1));
        }
        i += 1;
    }
    proof {
        assert(updates@.take(n as int) =~= updates@);
        assert(step_trace_ok(
            *old(grid),
            old(ants)@,
            *grid,
            ants@,
            dt as int,
            gsnap,
            draws@,
            updates@,
        ));
    }
    proof {
        assert forall|k: int| 0 <= k < ants@.len() implies ant_wf(
            #[trigger] ants@[k],
            *grid,
        ) by {
            assert(ant_wf(ants@[k], gsnap));
        }
    }
}

/// The center cell's center point leaves room for an ant's rectangle on
/// every side, for any world at least 1024 pixels wide and tall.
proof fn lemma_spawn_point_clearance(cw: int, ch: int, sx: int, sy: int)
    requires
        335544 <= cw,
        cw * 200 <= 0x4000_0000,
        447392 <= ch,
        ch * 150 <= 0x4000_0000,
        sx == 100 * cw + cw / 2,
        sy == 75 * ch + ch / 2,
    ensures
        0 <= sx - crate::ant::ANT_WIDTH_FP / 2,
        sx - crate::ant::ANT_WIDTH_FP / 2 + crate::ant::ANT_WIDTH_FP <= cw * 200,
        0 <= sy - crate::ant::ANT_HEIGHT_FP / 2,
        sy - crate::ant::ANT_HEIGHT_FP / 2 + crate::ant::ANT_HEIGHT_FP <= ch * 150,
{
    let cwh = cw / 2;
    let chh = ch / 2;
    vstd::arithmetic::div_mod::lemma_div_pos_is_pos(cw, 2);
    vstd::arithmetic::div_mod::lemma_div_is_ordered(cw, 2 * cw, 2);
    vstd::arithmetic::div_mod::lemma_div_multiples_vanish(cw, 2);
    vstd::arithmetic::div_mod::lemma_div_pos_is_pos(ch, 2);
    vstd::arithmetic::div_mod::lemma_div_is_ordered(ch, 2 * ch, 2);
    vstd::arithmetic::div_mod::lemma_div_multiples_vanish(ch, 2);
    assert(0 <= sx - 330956 && sx - 330956 + 661913 <= cw * 200) by (nonlinear_arith)
        requires
            sx == 100 * cw + cwh,
            0 <= cwh <= cw,
            335544 <= cw,
    ;
    assert(0 <= sy - 406323 && sy - 406323 + 812646 <= ch * 150) by (nonlinear_arith)
        requires
            sy == 75 * ch + chh,
            0 <= chh <= ch,
            447392 <= ch,
    ;
}

} // verus!
