//! Pheromones: decaying scent deposits, and the per-type field that maps
//! each grid cell to at most one of them.

use vstd::prelude::*;
use rayon::iter::{IntoParallelRefMutIterator, ParallelIterator};
use crate::fixed::{SCALE, mul_fp, mul_fp_s};
use crate::util::Rect;
use crate::grid::{GridLocation, WorldGrid, GRID_AREA, loc_index, loc_index_s, idx_loc, rect_for, loc_valid};

verus! {

/// Per-second decay rate of unlocked pheromones (`0.4 * SCALE`).
pub const PHEROMONE_DECAY_RATE_FP: i64 = 26214;

/// Minimum intensity at which a pheromone is still detectable; below this
/// it is marked decayed and removed from the world (`0.01 * SCALE`).
pub const PHEROMONE_DETECTION_MINIMUM_FP: i64 = 655;

/// Cap applied when reinforcement folds intensity into an existing
/// pheromone (`1000 * SCALE`).
pub const PHEROMONE_INTENSITY_MAX_FP: i64 = 65536000;

/// Intensity of the locked anchor scent seeded on Home and fresh Food
/// cells (`10000 * SCALE`).
pub const SPECIAL_PHEROMONE_INTENSITY: i64 = 655360000;

/// Largest tick duration the simulation accepts (ten seconds).
pub const DT_MAX_FP: i64 = 655360;

/// Which scent field a pheromone belongs to.
#[derive(Copy, Clone, PartialEq, Eq, Structural, Debug)]
pub enum PheromoneType {
    Food,
    Home,
}

/// A single scent deposit.
#[derive(Copy, Clone, PartialEq, Eq, Structural, Debug)]
pub struct Pheromone {
    pub intensity: i64,
    pub pheromone_type: PheromoneType,
    pub rect: Rect,
    pub decayed: bool,
    pub locked_intensity: bool,
}

/// The multiplicative factor a decay step of length `dt` applies to an
/// unlocked intensity.
pub open spec fn decay_factor(dt: int) -> int {
    SCALE - mul_fp_s(dt, PHEROMONE_DECAY_RATE_FP as int)
}

/// One decay step: locked or already decayed pheromones are untouched;
/// any other has its intensity scaled down and is marked decayed once it
/// falls below the detection minimum.
pub open spec fn ph_ticked(p: Pheromone, dt: int) -> Pheromone {
    if p.locked_intensity || p.decayed {
        p
    } else {
        let ni = mul_fp_s(p.intensity as int, decay_factor(dt));
        Pheromone {
            intensity: ni as i64,
            decayed: ni < PHEROMONE_DETECTION_MINIMUM_FP,
            ..p
        }
    }
}

/// Reinforcement: a locked pheromone ignores the extra intensity; any
/// other absorbs it, capped at `PHEROMONE_INTENSITY_MAX_FP`.
pub open spec fn ph_increased(p: Pheromone, additional: int) -> Pheromone {
    if p.locked_intensity {
        p
    } else {
        let s = p.intensity + additional;
        Pheromone {
            intensity: if s > PHEROMONE_INTENSITY_MAX_FP {
                PHEROMONE_INTENSITY_MAX_FP
            } else {
                s as i64
            },
            ..p
        }
    }
}

impl Pheromone {
    /// Builds a fresh (not yet decayed) pheromone.
    pub fn new(intensity: i64, pheromone_type: PheromoneType, rect: Rect, locked_intensity: bool) -> (p: Pheromone)
        ensures
            p == (Pheromone { intensity, pheromone_type, rect, decayed: false, locked_intensity }),
    {
        Pheromone { intensity, pheromone_type, rect, decayed: false, locked_intensity }
    }

    /// One decay step of length `dt`.
    pub fn tick(&mut self, dt: i64)
        requires
            0 <= dt <= DT_MAX_FP,
            -SPECIAL_PHEROMONE_INTENSITY <= old(self).intensity <= SPECIAL_PHEROMONE_INTENSITY,
        ensures
            *final(self) == ph_ticked(*old(self), dt as int),
    {
        if self.locked_intensity || self.decayed {
            // locked pheromones (like those on food cells) don't degrade over time
            return;
        }
        proof {
            crate::fixed::lemma_mul_fp_s_bound(
                dt as int,
                PHEROMONE_DECAY_RATE_FP as int,
                DT_MAX_FP as int,
                PHEROMONE_DECAY_RATE_FP as int,
            );
        }
        let f: i64 = SCALE - mul_fp(dt, PHEROMONE_DECAY_RATE_FP);
        let ni: i64 = mul_fp(self.intensity, f);
        self.intensity = ni;
        if ni < PHEROMONE_DETECTION_MINIMUM_FP {
            self.decayed = true;
        }
    }

    /// Folds extra intensity into this pheromone, unless it is locked.
    pub fn increase_intensity(&mut self, additional_intensity: i64)
        requires
            0 <= additional_intensity <= SPECIAL_PHEROMONE_INTENSITY,
            0 <= old(self).intensity <= SPECIAL_PHEROMONE_INTENSITY,
        ensures
            *final(self) == ph_increased(*old(self), additional_intensity as int),
    {
        if self.locked_intensity {
            return;
        }
        // cap intensity at intensity max
        let s: i64 = self.intensity + additional_intensity;
        self.intensity = if s > PHEROMONE_INTENSITY_MAX_FP {
            PHEROMONE_INTENSITY_MAX_FP
        } else {
            s
        };
    }

    /// Whether this pheromone has decayed past the detection minimum.
    pub fn decayed(&self) -> (r: bool)
        ensures
            r == self.decayed,
    {
        self.decayed
    }

    /// The pheromone's footprint rectangle.
    pub fn rect(&self) -> (r: &Rect)
        ensures
            *r == self.rect,
    {
        &self.rect
    }

    /// The pheromone's current intensity.
    pub fn intensity(&self) -> (r: i64)
        ensures
            r == self.intensity,
    {
        self.intensity
    }

    /// Which scent field this pheromone belongs to.
    pub fn pheromone_type(&self) -> (r: &PheromoneType)
        ensures
            *r == self.pheromone_type,
    {
        &self.pheromone_type
    }

    /// Whether the intensity is locked (anchor scent).
    pub fn locked_intensity(&self) -> (r: bool)
        ensures
            r == self.locked_intensity,
    {
        self.locked_intensity
    }
}

/// Pheromone decay strictly lowers the intensity of an unlocked,
/// undecayed pheromone, for every decay step long enough to register at
/// the fixed-point resolution.
pub proof fn lemma_decay_monotone(p: Pheromone, dt: int)
    requires
        !p.locked_intensity,
        !p.decayed,
        1 <= p.intensity <= SPECIAL_PHEROMONE_INTENSITY,
        1 <= mul_fp_s(dt, PHEROMONE_DECAY_RATE_FP as int),
        0 <= dt <= DT_MAX_FP,
    ensures
        ph_ticked(p, dt).intensity < p.intensity,
{
    let f = decay_factor(dt);
    let i = p.intensity as int;
    let prod = i * f;
    crate::fixed::lemma_mul_fp_s_bound(
        dt,
        PHEROMONE_DECAY_RATE_FP as int,
        DT_MAX_FP as int,
        PHEROMONE_DECAY_RATE_FP as int,
    );
    crate::fixed::lemma_mul_fp_s_bound(i, f, SPECIAL_PHEROMONE_INTENSITY as int, 0x40000);
    assert(f <= SCALE - 1);
    if f <= 0 {
        assert(prod <= 0) by (nonlinear_arith)
            requires
                0 <= i,
                f <= 0,
                prod == i * f,
        ;
        if prod >= 0 {
            assert(prod == 0);
            assert(mul_fp_s(i, f) == 0);
        } else {
            vstd::arithmetic::div_mod::lemma_div_pos_is_pos(-prod, SCALE as int);
        }
    } else {
        assert(prod <= i * SCALE - i) by (nonlinear_arith)
            requires
                1 <= i,
                f <= SCALE - 1,
                prod == i * f,
        ;
        assert(prod >= 0) by (nonlinear_arith)
            requires
                0 <= i,
                0 <= f,
                prod == i * f,
        ;
        assert(prod < i * (SCALE as int));
        vstd::arithmetic::div_mod::lemma_multiply_divide_lt(prod, SCALE as int, i);
    }
}

/// A decay step never raises the intensity of a pheromone that stays
/// detectable, and never touches its placement fields.
pub proof fn lemma_ticked_in_range(p: Pheromone, dt: int)
    requires
        0 <= p.intensity <= SPECIAL_PHEROMONE_INTENSITY,
        0 <= dt <= DT_MAX_FP,
    ensures
        !ph_ticked(p, dt).decayed ==> 0 <= ph_ticked(p, dt).intensity <= p.intensity,
        ph_ticked(p, dt).rect == p.rect,
        ph_ticked(p, dt).pheromone_type == p.pheromone_type,
        ph_ticked(p, dt).locked_intensity == p.locked_intensity,
{
    if !p.locked_intensity && !p.decayed {
        let f = decay_factor(dt);
        let i = p.intensity as int;
        let prod = i * f;
        let ni = mul_fp_s(i, f);
        crate::fixed::lemma_mul_fp_s_bound(
            dt,
            PHEROMONE_DECAY_RATE_FP as int,
            DT_MAX_FP as int,
            PHEROMONE_DECAY_RATE_FP as int,
        );
        if ni >= PHEROMONE_DETECTION_MINIMUM_FP {
            if f <= 0 {
                assert(prod <= 0) by (nonlinear_arith)
                    requires
                        0 <= i,
                        f <= 0,
                        prod == i * f,
                ;
                if prod >= 0 {
                    assert(prod == 0);
                } else {
                    vstd::arithmetic::div_mod::lemma_div_pos_is_pos(-prod, SCALE as int);
                }
                assert(ni <= 0);
            } else {
                assert(0 <= prod <= i * SCALE) by (nonlinear_arith)
                    requires
                        0 <= i,
                        0 < f <= SCALE,
                        prod == i * f,
                ;
                vstd::arithmetic::div_mod::lemma_div_is_ordered(prod, i * (SCALE as int), SCALE as int);
                vstd::arithmetic::div_mod::lemma_div_multiples_vanish(i, SCALE as int);
                assert((SCALE as int) * i == i * SCALE) by (nonlinear_arith);
            }
        }
    }
}

/// Iterated decay: the pheromone after a whole sequence of decay steps.
pub open spec fn ph_ticked_many(p: Pheromone, dts: Seq<int>) -> Pheromone
    decreases dts.len(),
{
    if dts.len() == 0 {
        p
    } else {
        ph_ticked_many(ph_ticked(p, dts[0]), dts.drop_first())
    }
}

/// Locked pheromones never decay: any number of decay steps leaves both
/// the intensity and the decayed flag unchanged.
pub proof fn lemma_locked_never_decays(p: Pheromone, dts: Seq<int>)
    requires
        p.locked_intensity,
    ensures
        ph_ticked_many(p, dts) == p,
    decreases dts.len(),
{
    if dts.len() > 0 {
        lemma_locked_never_decays(p, dts.drop_first());
    }
}

/// Repeated decay eventually marks an unlocked pheromone decayed: after at
/// least as many registering steps as its intensity has raw units, the
/// decayed flag is set.
pub proof fn lemma_decay_terminates(p: Pheromone, dts: Seq<int>)
    requires
        !p.locked_intensity,
        !p.decayed,
        1 <= p.intensity <= SPECIAL_PHEROMONE_INTENSITY,
        forall|k: int| 0 <= k < dts.len() ==> 1 <= mul_fp_s(#[trigger] dts[k], PHEROMONE_DECAY_RATE_FP as int),
        forall|k: int| 0 <= k < dts.len() ==> 0 <= #[trigger] dts[k] <= DT_MAX_FP,
        dts.len() >= p.intensity,
    ensures
        ph_ticked_many(p, dts).decayed,
    decreases dts.len(),
{
    let q = ph_ticked(p, dts[0]);
    let rest = dts.drop_first();
    assert(forall|k: int| 0 <= k < rest.len() ==> rest[k] == dts[k + 1]);
    lemma_decay_monotone(p, dts[0]);
    crate::fixed::lemma_mul_fp_s_bound(
        dts[0],
        PHEROMONE_DECAY_RATE_FP as int,
        DT_MAX_FP as int,
        PHEROMONE_DECAY_RATE_FP as int,
    );
    crate::fixed::lemma_mul_fp_s_bound(
        p.intensity as int,
        decay_factor(dts[0]),
        SPECIAL_PHEROMONE_INTENSITY as int,
        0x40000,
    );
    if q.decayed {
        lemma_decayed_stays(q, rest);
    } else {
        assert(q.intensity >= PHEROMONE_DETECTION_MINIMUM_FP);
        lemma_decay_terminates(q, rest);
    }
}

/// Once decayed, always decayed (and untouched by further steps).
proof fn lemma_decayed_stays(p: Pheromone, dts: Seq<int>)
    requires
        p.decayed,
    ensures
        ph_ticked_many(p, dts) == p,
    decreases dts.len(),
{
    if dts.len() > 0 {
        lemma_decayed_stays(p, dts.drop_first());
    }
}

/// A pheromone stored in a field: live (not decayed), with an intensity in
/// range and a footprint that matches the cell it is stored under.
pub open spec fn stored_ph_ok(o: Option<Pheromone>, cw: int, ch: int, i: int) -> bool {
    o matches Some(p) ==> {
        &&& !p.decayed
        &&& 0 <= p.intensity <= SPECIAL_PHEROMONE_INTENSITY
        &&& p.rect == rect_for(cw, ch, idx_loc(i))
    }
}

/// Well-formedness of a pheromone field for a grid with the given cell
/// extent: one slot per grid cell, every stored pheromone live and placed
/// consistently.
pub open spec fn field_wf(f: Pheromones, cw: int, ch: int) -> bool {
    &&& f.entries@.len() == GRID_AREA
    &&& forall|i: int| 0 <= i < GRID_AREA ==> stored_ph_ok(#[trigger] f.entries@[i], cw, ch, i)
}

/// One decay step applied to a field slot, before the removal sweep.
pub open spec fn opt_ticked(o: Option<Pheromone>, dt: int) -> Option<Pheromone> {
    match o {
        Option::None => Option::None,
        Option::Some(p) => Option::Some(ph_ticked(p, dt)),
    }
}

/// What survives in a field slot after a decay step and the removal sweep.
pub open spec fn opt_survives(o: Option<Pheromone>, dt: int) -> Option<Pheromone> {
    match o {
        Option::None => Option::None,
        Option::Some(p) => {
            let q = ph_ticked(p, dt);
            if q.decayed {
                Option::None
            } else {
                Option::Some(q)
            }
        },
    }
}

/// One deposit into a field slot: insert into a vacant slot, fold into an
/// existing unlocked pheromone, and leave a locked one untouched (anchor
/// scents are never diluted).
pub open spec fn deposit_slot(o: Option<Pheromone>, p: Pheromone) -> Option<Pheromone> {
    match o {
        Option::None => Option::Some(p),
        Option::Some(e) => if e.locked_intensity {
            Option::Some(e)
        } else {
            Option::Some(ph_increased(e, p.intensity as int))
        },
    }
}

/// How many pheromones a field slot holds.
pub open spec fn slot_count(o: Option<Pheromone>) -> int {
    if o is Some {
        1int
    } else {
        0int
    }
}

/// A whole run of deposits folded into one slot.
pub open spec fn deposit_slot_many(o: Option<Pheromone>, ps: Seq<Pheromone>) -> Option<Pheromone>
    decreases ps.len(),
{
    if ps.len() == 0 {
        o
    } else {
        deposit_slot_many(deposit_slot(o, ps[0]), ps.drop_first())
    }
}

/// Reinforcement idempotence of the location count: depositing any number
/// of pheromones at one location never leaves more than one entry there —
/// and leaves exactly one once any deposit has reached it.
pub proof fn lemma_reinforcement_single_entry(o: Option<Pheromone>, ps: Seq<Pheromone>)
    ensures
        slot_count(deposit_slot_many(o, ps)) <= 1,
        ps.len() > 0 ==> deposit_slot_many(o, ps) is Some,
        o is Some ==> deposit_slot_many(o, ps) is Some,
    decreases ps.len(),
{
    if ps.len() > 0 {
        lemma_reinforcement_single_entry(deposit_slot(o, ps[0]), ps.drop_first());
    }
}

/// Locked pheromones resist overwrite: a deposit onto a slot holding a
/// locked pheromone leaves the slot — its intensity included — unchanged.
pub proof fn lemma_locked_resists_overwrite(e: Pheromone, p: Pheromone)
    requires
        e.locked_intensity,
    ensures
        deposit_slot(Option::Some(e), p) == Option::Some(e),
{
}

/// A type-partitioned spatial index: at most one pheromone per grid cell,
/// stored in a dense table indexed by cell.
pub struct Pheromones {
    pub entries: Vec<Option<Pheromone>>,
}

/// The angular offset of the `d`-th sensing ray around a heading: the
/// center, and two pairs of symmetric offsets within the random-walk cone.
pub open spec fn ray_offset(d: int) -> int {
    if d == 0 {
        -(crate::ant::ANT_RANDOM_WALK_MAX_ROTATION as int)
    } else if d == 1 {
        -(crate::ant::ANT_RANDOM_WALK_MAX_ROTATION as int / 2)
    } else if d == 2 {
        0
    } else if d == 3 {
        crate::ant::ANT_RANDOM_WALK_MAX_ROTATION as int / 2
    } else {
        crate::ant::ANT_RANDOM_WALK_MAX_ROTATION as int
    }
}

/// A cell list that is a valid result of one ray cast.
pub open spec fn ray_cells_ok(
    g: WorldGrid,
    rect: Rect,
    dir: int,
    radius: int,
    cells: Seq<GridLocation>,
) -> bool {
    exists|m: int| #[trigger] crate::grid::ray_result_ok(g, rect, dir, radius, m, cells)
}

/// Cell lists for the whole five-ray sensing fan around a heading.
pub open spec fn scan_ok(
    g: WorldGrid,
    rect: Rect,
    rot: int,
    radius: int,
    cs: Seq<Seq<GridLocation>>,
) -> bool {
    &&& cs.len() == 5
    &&& forall|d: int| 0 <= d < 5 ==> ray_cells_ok(
        g,
        rect,
        crate::util::norm_angle(rot + ray_offset(d)),
        radius,
        #[trigger] cs[d],
    )
}

/// What sensing over a fan of cell lists returns: the most intense stored
/// pheromone on any of those cells, or nothing when they hold none.
pub open spec fn best_over_cells(
    f: Pheromones,
    cs: Seq<Seq<GridLocation>>,
    r: Option<Pheromone>,
) -> bool {
    match r {
        Option::Some(p) => {
            &&& exists|d: int, k: int| #![trigger cs[d][k]] 0 <= d < cs.len() && 0 <= k
                < cs[d].len() && f.entries@[loc_index_s(cs[d][k])] == Some(p)
            &&& forall|d: int, k: int| #![trigger cs[d][k]] 0 <= d < cs.len() && 0 <= k
                < cs[d].len() ==> (f.entries@[loc_index_s(cs[d][k])] matches Some(q)
                ==> q.intensity <= p.intensity)
        },
        Option::None => forall|d: int, k: int| #![trigger cs[d][k]] 0 <= d < cs.len() && 0 <= k
            < cs[d].len() ==> f.entries@[loc_index_s(cs[d][k])] is None,
    }
}

/// Relies on rayon's `par_iter_mut().for_each`: the closure runs exactly
/// once, in place, on every element of the vector; the verified
/// `Pheromone::tick` does each per-entry update.
#[verifier::external_body]
fn decay_entries_par(entries: &mut Vec<Option<Pheromone>>, dt: i64)
    requires
        0 <= dt <= DT_MAX_FP,
        forall|i: int| 0 <= i < old(entries)@.len()
            ==> (#[trigger] old(entries)@[i] matches Some(p)
                ==> -SPECIAL_PHEROMONE_INTENSITY <= p.intensity <= SPECIAL_PHEROMONE_INTENSITY),
    ensures
        final(entries)@.len() == old(entries)@.len(),
        forall|i: int| 0 <= i < old(entries)@.len()
            ==> final(entries)@[i] == opt_ticked(#[trigger] old(entries)@[i], dt as int),
{
    entries.par_iter_mut().for_each(|e| {
        if let Some(p) = e {
            p.tick(dt);
        }
    });
}

impl Pheromones {
    /// An empty field: one vacant slot per grid cell.
    pub fn new() -> (f: Pheromones)
        ensures
            f.entries@.len() == GRID_AREA,
            forall|i: int| 0 <= i < GRID_AREA ==> #[trigger] f.entries@[i] is None,
    {
        let mut entries: Vec<Option<Pheromone>> = Vec::new();
        let mut i: usize = 0;
        while i < GRID_AREA
            invariant
                entries@.len() == i,
                i <= GRID_AREA,
                forall|j: int| 0 <= j < i ==> #[trigger] entries@[j] is None,
            decreases GRID_AREA - i,
        {
            entries.push(Option::None);
            i += 1;
        }
        Pheromones { entries }
    }

    /// One decay step over the whole field: every unlocked live pheromone
    /// loses intensity in parallel, then every slot whose pheromone has
    /// decayed is vacated.
    pub fn tick(&mut self, dt: i64)
        requires
            0 <= dt <= DT_MAX_FP,
            forall|i: int| 0 <= i < old(self).entries@.len()
                ==> (#[trigger] old(self).entries@[i] matches Some(p)
                    ==> -SPECIAL_PHEROMONE_INTENSITY <= p.intensity <= SPECIAL_PHEROMONE_INTENSITY),
        ensures
            final(self).entries@.len() == old(self).entries@.len(),
            forall|i: int| 0 <= i < old(self).entries@.len()
                ==> final(self).entries@[i] == opt_survives(#[trigger] old(self).entries@[i], dt as int),
    {
        decay_entries_par(&mut self.entries, dt);
        let n = self.entries.len();
        let mut i: usize = 0;
        while i < n
            invariant
                n == self.entries@.len(),
                n == old(self).entries@.len(),
                i <= n,
                forall|j: int| 0 <= j < i
                    ==> self.entries@[j] == opt_survives(#[trigger] old(self).entries@[j], dt as int),
                forall|j: int| i <= j < n
                    ==> self.entries@[j] == opt_ticked(#[trigger] old(self).entries@[j], dt as int),
            decreases n - i,
        {
            let e = self.entries[i];
            if let Some(p) = e {
                if p.decayed {
                    self.entries.set(i, Option::None);
                }
            }
            i += 1;
        }
    }

    /// The most intense pheromone stored at any of the given cells, if one
    /// of them holds a pheromone at all.
    pub fn best_in_cells(&self, cells: &Vec<GridLocation>) -> (r: Option<Pheromone>)
        requires
            self.entries@.len() == GRID_AREA,
            forall|k: int| 0 <= k < cells@.len() ==> loc_valid(#[trigger] cells@[k]),
        ensures
            match r {
                Option::Some(p) => {
                    &&& exists|k: int| 0 <= k < cells@.len()
                        && self.entries@[loc_index_s(#[trigger] cells@[k])] == Some(p)
                    &&& forall|k: int| 0 <= k < cells@.len()
                        ==> (#[trigger] self.entries@[loc_index_s(cells@[k])] matches Some(q)
                            ==> q.intensity <= p.intensity)
                },
                Option::None => forall|k: int| 0 <= k < cells@.len()
                    ==> #[trigger] self.entries@[loc_index_s(cells@[k])] is None,
            },
    {
        let mut best: Option<Pheromone> = Option::None;
        let n = cells.len();
        let mut k: usize = 0;
        while k < n
            invariant
                n == cells@.len(),
                k <= n,
                self.entries@.len() == GRID_AREA,
                forall|j: int| 0 <= j < n ==> loc_valid(#[trigger] cells@[j]),
                match best {
                    Option::Some(p) => {
                        &&& exists|j: int| 0 <= j < k
                            && self.entries@[loc_index_s(#[trigger] cells@[j])] == Some(p)
                        &&& forall|j: int| 0 <= j < k
                            ==> (#[trigger] self.entries@[loc_index_s(cells@[j])] matches Some(q)
                                ==> q.intensity <= p.intensity)
                    },
                    Option::None => forall|j: int| 0 <= j < k
                        ==> #[trigger] self.entries@[loc_index_s(cells@[j])] is None,
                },
            decreases n - k,
        {
            let loc = cells[k];
            let idx = loc_index(loc);
            let e = self.entries[idx];
            if let Some(p) = e {
                match best {
                    Option::Some(b) => {
                        if p.intensity >= b.intensity {
                            best = Option::Some(p);
                        }
                    },
                    Option::None => {
                        best = Option::Some(p);
                    },
                }
            }
            k += 1;
        }
        best
    }

    /// Returns the pheromone that the ant should turn towards, if any: the
    /// most intense pheromone found along a small fan of rays cast around
    /// the given heading.
    pub fn get_pheromone_to_target(
        &self,
        grid: &WorldGrid,
        ant_rect: &Rect,
        rotation: i64,
        search_radius: i64,
    ) -> (r: Option<Pheromone>)
        requires
            grid.wf(),
            self.entries@.len() == GRID_AREA,
            crate::util::angle_in_range(rotation as int),
            0 <= search_radius <= 0x4000_0000,
            crate::grid::point_in_box(
                crate::util::rect_center_x(*ant_rect),
                crate::util::rect_center_y(*ant_rect),
                grid.bounding_box,
            ),
            0 <= ant_rect.w,
            0 <= ant_rect.h,
            -0x2000_0000_0000 <= ant_rect.x,
            -0x2000_0000_0000 <= ant_rect.y,
            ant_rect.x + ant_rect.w <= 0x2000_0000_0000,
            ant_rect.y + ant_rect.h <= 0x2000_0000_0000,
        ensures
            r matches Some(p) ==> exists|i: int| 0 <= i < GRID_AREA && self.entries@[i] == Some(p),
            exists|cs: Seq<Seq<GridLocation>>|
                #![trigger scan_ok(*grid, *ant_rect, rotation as int, search_radius as int, cs)]
                scan_ok(*grid, *ant_rect, rotation as int, search_radius as int, cs)
                    && best_over_cells(*self, cs, r),
    {
        let mut best: Option<Pheromone> = Option::None;
        let mut d: usize = 0;
        let ghost mut cs: Seq<Seq<GridLocation>> = Seq::empty();
        // Directions to check for pheromones: straight ahead, and two pairs
        // of symmetric offsets within the random-walk cone.
        let half: i64 = crate::ant::ANT_RANDOM_WALK_MAX_ROTATION / 2;
        while d < 5
            invariant
                grid.wf(),
                self.entries@.len() == GRID_AREA,
                crate::util::angle_in_range(rotation as int),
                0 <= search_radius <= 0x4000_0000,
                crate::grid::point_in_box(
                    crate::util::rect_center_x(*ant_rect),
                    crate::util::rect_center_y(*ant_rect),
                    grid.bounding_box,
                ),
                0 <= ant_rect.w,
                0 <= ant_rect.h,
                -0x2000_0000_0000 <= ant_rect.x,
                -0x2000_0000_0000 <= ant_rect.y,
                ant_rect.x + ant_rect.w <= 0x2000_0000_0000,
                ant_rect.y + ant_rect.h <= 0x2000_0000_0000,
                half == crate::ant::ANT_RANDOM_WALK_MAX_ROTATION / 2,
                d <= 5,
                cs.len() == d,
                forall|d2: int| 0 <= d2 < d as int ==> ray_cells_ok(
                    *grid,
                    *ant_rect,
                    crate::util::norm_angle(rotation as int + ray_offset(d2)),
                    search_radius as int,
                    #[trigger] cs[d2],
                ),
                best_over_cells(*self, cs, best),
                best matches Some(p)
                    ==> exists|i: int| 0 <= i < GRID_AREA && self.entries@[i] == Some(p),
            decreases 5 - d,
        {
            let offset: i64 = if d == 0 {
                -crate::ant::ANT_RANDOM_WALK_MAX_ROTATION
            } else if d == 1 {
                -half
            } else if d == 2 {
                0
            } else if d == 3 {
                half
            } else {
                crate::ant::ANT_RANDOM_WALK_MAX_ROTATION
            };
            proof {
                assert(offset == ray_offset(d as int));
            }
            let dir = crate::util::normalize_angle(rotation + offset);
            // get all cells in target direction
            let cells = grid.get_cells_in_direction(ant_rect, dir, search_radius);
            // keep only the most intense pheromone in that direction
            let candidate = self.best_in_cells(&cells);
            let ghost cs0 = cs;
            let ghost best0 = best;
            proof {
                cs = cs.push(cells@);
                assert forall|d2: int| 0 <= d2 < cs0.len() implies #[trigger] cs[d2] == cs0[d2] by {}
                assert(cs[d as int] == cells@);
                assert(ray_cells_ok(
                    *grid,
                    *ant_rect,
                    crate::util::norm_angle(rotation as int + ray_offset(d as int)),
                    search_radius as int,
                    cells@,
                ));
            }
            if let Some(p) = candidate {
                proof {
                    let k = choose|k: int| 0 <= k < cells@.len()
                        && self.entries@[loc_index_s(cells@[k])] == Some(p);
                    crate::grid::lemma_loc_index_roundtrip(cells@[k]);
                    assert(cs[d as int][k] == cells@[k]);
                }
                match best {
                    Option::Some(b) => {
                        if p.intensity >= b.intensity {
                            best = Option::Some(p);
                        }
                    },
                    Option::None => {
                        best = Option::Some(p);
                    },
                }
            }
            proof {
                assert forall|d2: int, k: int| #![trigger cs[d2][k]] 0 <= d2 < cs.len() && 0 <= k
                    < cs[d2].len() implies (match best {
                    Option::Some(p) => self.entries@[loc_index_s(cs[d2][k])] matches Some(q)
                        ==> q.intensity <= p.intensity,
                    Option::None => self.entries@[loc_index_s(cs[d2][k])] is None,
                }) by {
                    if d2 < d as int {
                        assert(cs[d2] == cs0[d2]);
                    } else {
                        assert(cs[d2] == cells@);
                    }
                }
                match best {
                    Option::Some(p) => {
                        if best0 == best {
                            let (dw, kw) = choose|dw: int, kw: int|
                                0 <= dw < cs0.len() && 0 <= kw < cs0[dw].len()
                                    && self.entries@[loc_index_s(#[trigger] cs0[dw][kw])] == Some(
                                    p,
                                );
                            assert(cs[dw] == cs0[dw]);
                            assert(0 <= dw < cs.len() && 0 <= kw < cs[dw].len()
                                && self.entries@[loc_index_s(cs[dw][kw])] == Some(p));
                        } else {
                            let kw = choose|kw: int|
                                0 <= kw < cells@.len() && self.entries@[loc_index_s(
                                    #[trigger] cells@[kw],
                                )] == Some(p);
                            assert(0 <= (d as int) < cs.len() && 0 <= kw < cs[d as int].len()
                                && self.entries@[loc_index_s(cs[d as int][kw])] == Some(p));
                        }
                    },
                    Option::None => {},
                }
                assert(best_over_cells(*self, cs, best));
            }
            d += 1;
        }
        proof {
            assert(scan_ok(*grid, *ant_rect, rotation as int, search_radius as int, cs));
        }
        best
    }
}

} // verus!
