//! Ants: per-agent state machines that integrate motion, bounce off the
//! world's edges and terrain, sense pheromone trails, and report the cell
//! interactions for the tick pipeline to apply.

use vstd::prelude::*;
use crate::fixed::{SCALE, mul_fp, mul_fp_s, isqrt, lemma_mul_fp_s_bound, lemma_mul_fp_s_scale_down};
use crate::util::{Rect, PI_FP, angle_in_range, norm_angle, normalize_angle, cos_approx, sin_approx, atan2_approx, atan2_fp, rect_center_x, rect_center_y};
use crate::grid::{
    CellType, GridLocation, WorldGrid, GRID_WIDTH, GRID_AREA, loc_valid, loc_index_s, loc_at,
    rect_for, point_in_box, lemma_idx_loc_valid, lemma_rect_for_bounds,
};
use crate::pheromone::{Pheromone, PheromoneType, DT_MAX_FP};

verus! {

/// Widest random-walk heading change, to either side (a quarter turn).
pub const ANT_RANDOM_WALK_MAX_ROTATION: i64 = 51471;

/// Base walking speed, in world units per second (one hundred pixels).
pub const BASE_ANT_MOVE_SPEED_FP: i64 = 6553600;

/// Smallest per-agent speed factor (`0.7 * SCALE`).
pub const ANT_SPEED_FACTOR_MIN_FP: i64 = 45875;

/// Largest per-agent speed factor (`1.3 * SCALE`).
pub const ANT_SPEED_FACTOR_MAX_FP: i64 = 85197;

/// Smallest possible ant speed (the base speed times the smallest factor).
pub const MIN_ANT_MOVE_SPEED_FP: i64 = 4587500;

/// Largest possible ant speed (the base speed times the largest factor).
pub const MAX_ANT_MOVE_SPEED_FP: i64 = 8519700;

/// Width of an ant's bounding rectangle (one twentieth of the sprite's
/// 202-unit base width, about ten pixels).
pub const ANT_WIDTH_FP: i64 = 661913;

/// Height of an ant's bounding rectangle (one twentieth of the sprite's
/// 248-unit base height, about twelve pixels).
pub const ANT_HEIGHT_FP: i64 = 812646;

/// Walked distance between scent deposits, as a fraction of the cell
/// width (`0.23 * SCALE`).
pub const CELLS_WIDTHS_BETWEEN_PHEROMONES_FP: i64 = 15073;

/// How much of the carried scent remains after each deposit
/// (`0.99 * SCALE`).
pub const ANT_PHEROMONE_RETAIN_RATIO_FP: i64 = 64881;

/// The carried scent intensity right after a state change (`1.0 * SCALE`).
pub const ANT_PHEROMONE_BASE_INTENSITY_FP: i64 = 65536;

/// Minimum simulated time between heading decisions (a tenth of a
/// second), preventing jitter.
pub const ANT_TIME_BETWEEN_STATE_CHECKS_FP: i64 = 6553;

/// Cap on the accumulated walked distance, far above any deposit
/// threshold.
pub const DIST_ACC_CAP_FP: i64 = 0x100_0000_0000;

/// The behavioral state of an ant.
#[derive(Copy, Clone, PartialEq, Eq, Structural, Debug)]
pub enum AntState {
    CarryingFood,
    LookingForFood,
}

/// What an ant did to the cell it ended its tick on.
#[derive(Copy, Clone, PartialEq, Eq, Structural, Debug)]
pub enum AntActionTaken {
    PickedUpFood,
    DroppedOffFood,
    HitTerrain,
}

/// The random draws one ant consumes in one tick: a heading perturbation
/// for the random walk, and a coin for the terrain bounce.
#[derive(Copy, Clone, PartialEq, Eq, Structural, Debug)]
pub struct TickDraws {
    pub walk_offset: i64,
    pub bounce_flip: bool,
}

/// A valid set of per-tick draws: the walk offset stays within the
/// random-walk cone.
pub open spec fn draws_ok(d: TickDraws) -> bool {
    -ANT_RANDOM_WALK_MAX_ROTATION <= d.walk_offset <= ANT_RANDOM_WALK_MAX_ROTATION
}

/// One foraging agent.
#[derive(Copy, Clone, PartialEq, Eq, Structural, Debug)]
pub struct Ant {
    pub rotation: i64,
    pub rect: Rect,
    pub move_speed: i64,
    pub distance_since_last_pheromone: i64,
    pub state: AntState,
    pub pheromone_intensity: i64,
    pub dt_since_last_update: i64,
    pub search_radius: i64,
    pub distance_between_pheromones: i64,
}

/// The bounding rectangle of an ant centered on a point.
pub open spec fn ant_rect_at(x: int, y: int) -> Rect {
    Rect {
        x: (x - ANT_WIDTH_FP / 2) as i64,
        y: (y - ANT_HEIGHT_FP / 2) as i64,
        w: ANT_WIDTH_FP,
        h: ANT_HEIGHT_FP,
    }
}

/// Well-formedness of an ant with respect to its world: normalized
/// heading, bounding rectangle of the fixed ant size lying inside the
/// world, and bounded derived quantities.
pub open spec fn ant_wf(a: Ant, g: WorldGrid) -> bool {
    &&& angle_in_range(a.rotation as int)
    &&& a.rect.w == ANT_WIDTH_FP
    &&& a.rect.h == ANT_HEIGHT_FP
    &&& 0 <= a.rect.x
    &&& a.rect.x + a.rect.w <= g.bounding_box.w
    &&& 0 <= a.rect.y
    &&& a.rect.y + a.rect.h <= g.bounding_box.h
    &&& 0 < a.move_speed <= MAX_ANT_MOVE_SPEED_FP
    &&& 0 <= a.distance_since_last_pheromone <= DIST_ACC_CAP_FP
    &&& 0 <= a.pheromone_intensity <= ANT_PHEROMONE_BASE_INTENSITY_FP
    &&& 0 <= a.dt_since_last_update <= ANT_TIME_BETWEEN_STATE_CHECKS_FP + DT_MAX_FP
    &&& a.search_radius == g.cell_width * (GRID_WIDTH as int) / 10
    &&& a.distance_between_pheromones == mul_fp_s(
        CELLS_WIDTHS_BETWEEN_PHEROMONES_FP as int,
        g.cell_width as int,
    )
    &&& 1 <= a.distance_between_pheromones
}

/// The exact effect of one straight-walk integration step: the position
/// advances along the heading, and any crossed world edge reflects the
/// heading about that edge's axis and clamps the position to it.
pub open spec fn walk_model(a: Ant, bb: Rect, dt: int) -> Ant {
    let step = mul_fp_s(a.move_speed as int, dt);
    let mx = a.rect.x + mul_fp_s(cos_approx(a.rotation as int), step);
    let my = a.rect.y + mul_fp_s(sin_approx(a.rotation as int), step);
    let rot_x = if mx < 0 || mx + a.rect.w > bb.w {
        norm_angle(PI_FP - a.rotation)
    } else {
        a.rotation as int
    };
    let nx = if mx < 0 {
        0int
    } else if mx + a.rect.w > bb.w {
        bb.w - a.rect.w
    } else {
        mx
    };
    let rot_y = if my < 0 || my + a.rect.h > bb.h {
        norm_angle(-rot_x)
    } else {
        rot_x
    };
    let ny = if my < 0 {
        0int
    } else if my + a.rect.h > bb.h {
        bb.h - a.rect.h
    } else {
        my
    };
    Ant {
        rotation: rot_y as i64,
        rect: Rect { x: nx as i64, y: ny as i64, w: a.rect.w, h: a.rect.h },
        ..a
    }
}

/// Boundary reflection at the left edge: an ant moving left that crosses
/// the world's left edge has its position clamped to the edge and its new
/// orientation mirrored as `normalize(pi - old)`.
pub proof fn lemma_left_edge_reflection(a: Ant, bb: Rect, dt: int)
    requires
        a.rect.x + mul_fp_s(cos_approx(a.rotation as int), mul_fp_s(a.move_speed as int, dt)) < 0,
        0 <= a.rect.y + mul_fp_s(sin_approx(a.rotation as int), mul_fp_s(a.move_speed as int, dt)),
        a.rect.y + mul_fp_s(sin_approx(a.rotation as int), mul_fp_s(a.move_speed as int, dt))
            + a.rect.h <= bb.h,
        angle_in_range(a.rotation as int),
    ensures
        walk_model(a, bb, dt).rect.x == 0,
        walk_model(a, bb, dt).rotation == norm_angle(PI_FP - a.rotation),
{
    crate::util::lemma_norm_angle_in_range(PI_FP - a.rotation);
}

/// The scent type an ant lays down in a given state: a searching ant
/// marks the way home, a carrying ant marks the way to food.
pub open spec fn scent_to_leave(st: AntState) -> PheromoneType {
    match st {
        AntState::CarryingFood => PheromoneType::Food,
        AntState::LookingForFood => PheromoneType::Home,
    }
}

/// The scent type an ant follows in a given state: the opposite concern
/// of what it lays down.
pub open spec fn scent_to_follow(st: AntState) -> PheromoneType {
    match st {
        AntState::LookingForFood => PheromoneType::Food,
        AntState::CarryingFood => PheromoneType::Home,
    }
}

/// The state transition on stepping onto a cell.
pub open spec fn state_after(st: AntState, ct: CellType) -> AntState {
    match ct {
        CellType::Food(_) => AntState::CarryingFood,
        CellType::Home => AntState::LookingForFood,
        _ => st,
    }
}

/// The carried scent intensity after standing on a cell: food and home
/// cells refresh it to the base value, any other leaves it.
pub open spec fn carried_after(intensity: int, ct: CellType) -> int {
    match ct {
        CellType::Food(_) => ANT_PHEROMONE_BASE_INTENSITY_FP as int,
        CellType::Home => ANT_PHEROMONE_BASE_INTENSITY_FP as int,
        _ => intensity,
    }
}

/// The action reported for a state transition.
pub open spec fn action_for(prev: AntState, next: AntState) -> Option<AntActionTaken> {
    if prev == next {
        Option::None
    } else if next == AntState::CarryingFood {
        Option::Some(AntActionTaken::PickedUpFood)
    } else {
        Option::Some(AntActionTaken::DroppedOffFood)
    }
}

/// The pheromone field an ant senses in its current state.
pub open spec fn followed_field(a: Ant, g: WorldGrid) -> crate::pheromone::Pheromones {
    match scent_to_follow(a.state) {
        PheromoneType::Food => g.food_pheromones,
        PheromoneType::Home => g.home_pheromones,
    }
}

/// The sensing outcome an ant acted on: the most intense pheromone over
/// the five rays of its followed field, per the fan contract, or nothing
/// when those rays' cells hold none.
pub open spec fn sensed_ok(a: Ant, g: WorldGrid, found: Option<Pheromone>) -> bool {
    exists|cs: Seq<Seq<GridLocation>>|
        #![trigger crate::pheromone::scan_ok(g, a.rect, a.rotation as int, a.search_radius as int, cs)]
        crate::pheromone::scan_ok(g, a.rect, a.rotation as int, a.search_radius as int, cs)
            && crate::pheromone::best_over_cells(followed_field(a, g), cs, found)
}

/// The heading an ant turns to for a sensing outcome: straight at the
/// found pheromone's footprint center, or the drawn random-walk
/// perturbation of its current heading when nothing was found.
pub open spec fn target_heading(a: Ant, d: TickDraws, found: Option<Pheromone>) -> int {
    match found {
        Option::Some(p) => atan2_approx(
            rect_center_y(p.rect) - rect_center_y(a.rect),
            rect_center_x(p.rect) - rect_center_x(a.rect),
        ),
        Option::None => a.rotation + d.walk_offset,
    }
}

/// The exact walk phase of a tick: within the retarget cooldown the ant
/// only integrates motion; past it, it resets the timer, turns to the
/// heading its sensing outcome dictates, and then integrates motion.
pub open spec fn walk_phase_ok(o: Ant, mid: Ant, g: WorldGrid, dt: int, d: TickDraws) -> bool {
    if o.dt_since_last_update < ANT_TIME_BETWEEN_STATE_CHECKS_FP {
        mid == walk_model(
            Ant { dt_since_last_update: (o.dt_since_last_update + dt) as i64, ..o },
            g.bounding_box,
            dt,
        )
    } else {
        exists|found: Option<Pheromone>|
            #![trigger sensed_ok(o, g, found)]
            sensed_ok(o, g, found) && mid == walk_model(
                Ant {
                    dt_since_last_update: 0,
                    rotation: norm_angle(target_heading(o, d, found)) as i64,
                    ..o
                },
                g.bounding_box,
                dt,
            )
    }
}

/// The distance accumulator saturates far above any deposit threshold.
pub open spec fn cap_distance(x: int) -> int {
    if x > DIST_ACC_CAP_FP {
        DIST_ACC_CAP_FP as int
    } else {
        x
    }
}

/// The whole trace of one ant tick, through the intermediate state `mid`
/// reached by the walk phase and the integer distance `dist` it covered:
/// the walked distance accumulates (saturating), the cell under `mid`
/// decides the outcome — on terrain the move is undone by re-integrating
/// motion with `-dt` and the heading mirrors as the drawn coin decides;
/// on any other cell the state transition fires, and a scent deposit is
/// emitted exactly when the accumulator reaches the deposit spacing,
/// whereupon the carried intensity decays geometrically and the
/// accumulator resets.
pub open spec fn tick_trace_ok(
    o: Ant,
    n: Ant,
    g: WorldGrid,
    dt: int,
    d: TickDraws,
    loc: GridLocation,
    ph: Option<Pheromone>,
    act: Option<AntActionTaken>,
    mid: Ant,
    dist: int,
) -> bool {
    let cw = g.cell_width as int;
    let ch = g.cell_height as int;
    let acc = cap_distance(o.distance_since_last_pheromone + dist);
    let mloc = loc_at(cw, ch, rect_center_x(mid.rect), rect_center_y(mid.rect));
    let ct = g.cells@[loc_index_s(mloc)].cell_type;
    &&& walk_phase_ok(o, mid, g, dt, d)
    &&& crate::fixed::is_sqrt_floor(
        (mid.rect.x - o.rect.x) * (mid.rect.x - o.rect.x) + (mid.rect.y - o.rect.y) * (mid.rect.y
            - o.rect.y),
        dist,
    )
    &&& if ct == CellType::Terrain {
        let undone = walk_model(
            Ant { distance_since_last_pheromone: acc as i64, ..mid },
            g.bounding_box,
            -dt,
        );
        &&& act == Option::Some(AntActionTaken::HitTerrain)
        &&& ph is None
        &&& n == (Ant {
            rotation: (if d.bounce_flip {
                norm_angle(-undone.rotation)
            } else {
                norm_angle(PI_FP - undone.rotation)
            }) as i64,
            ..undone
        })
    } else {
        let carried = carried_after(o.pheromone_intensity as int, ct);
        &&& loc == mloc
        &&& n.rect == mid.rect
        &&& n.rotation == mid.rotation
        &&& n.dt_since_last_update == mid.dt_since_last_update
        &&& n.state == state_after(o.state, ct)
        &&& act == action_for(o.state, n.state)
        &&& if acc >= o.distance_between_pheromones {
            &&& ph == Option::Some(
                Pheromone {
                    intensity: carried as i64,
                    pheromone_type: scent_to_leave(n.state),
                    rect: rect_for(cw, ch, loc),
                    decayed: false,
                    locked_intensity: false,
                },
            )
            &&& n.pheromone_intensity == mul_fp_s(carried, ANT_PHEROMONE_RETAIN_RATIO_FP as int)
            &&& n.distance_since_last_pheromone == 0
        } else {
            &&& ph is None
            &&& n.pheromone_intensity == carried
            &&& n.distance_since_last_pheromone == acc
        }
    }
}

/// What one ant tick guarantees: the ant stays well formed with its
/// innate parameters untouched, the reported location is the cell under
/// its final position, and the full tick trace holds for the walk phase's
/// intermediate state and walked distance.
pub open spec fn ant_tick_post(
    o: Ant,
    n: Ant,
    g: WorldGrid,
    dt: int,
    d: TickDraws,
    loc: GridLocation,
    ph: Option<Pheromone>,
    act: Option<AntActionTaken>,
) -> bool {
    let cw = g.cell_width as int;
    let ch = g.cell_height as int;
    &&& ant_wf(n, g)
    &&& n.move_speed == o.move_speed
    &&& n.search_radius == o.search_radius
    &&& n.distance_between_pheromones == o.distance_between_pheromones
    &&& loc_valid(loc)
    &&& loc == loc_at(cw, ch, rect_center_x(n.rect), rect_center_y(n.rect))
    &&& exists|mid: Ant, dist: int| #[trigger] tick_trace_ok(o, n, g, dt, d, loc, ph, act, mid, dist)
    &&& (act == Option::Some(AntActionTaken::HitTerrain) ==> {
        &&& n.state == o.state
        &&& ph is None
        &&& n.pheromone_intensity == o.pheromone_intensity
    })
}

impl Ant {
    /// Spawns an ant centered on `(x, y)`, looking for food, with a
    /// randomized heading, speed and decision-timer offset.
    pub fn new(x: i64, y: i64, grid: &WorldGrid, rng: &mut crate::rng::AntRng) -> (a: Ant)
        requires
            grid.wf(),
            0 <= x - ANT_WIDTH_FP / 2,
            x - ANT_WIDTH_FP / 2 + ANT_WIDTH_FP <= grid.bounding_box.w,
            0 <= y - ANT_HEIGHT_FP / 2,
            y - ANT_HEIGHT_FP / 2 + ANT_HEIGHT_FP <= grid.bounding_box.h,
        ensures
            ant_wf(a, *grid),
            a.state == AntState::LookingForFood,
            a.rect == ant_rect_at(x as int, y as int),
            a.pheromone_intensity == ANT_PHEROMONE_BASE_INTENSITY_FP,
            a.distance_since_last_pheromone == 0,
            MIN_ANT_MOVE_SPEED_FP <= a.move_speed <= MAX_ANT_MOVE_SPEED_FP,
            0 <= a.dt_since_last_update <= ANT_TIME_BETWEEN_STATE_CHECKS_FP,
            angle_in_range(a.rotation as int),
    {
        let rotation = rng.gen_range_fp(-PI_FP, PI_FP);
        let factor = rng.gen_range_fp(ANT_SPEED_FACTOR_MIN_FP, ANT_SPEED_FACTOR_MAX_FP);
        let move_speed = mul_fp(factor, BASE_ANT_MOVE_SPEED_FP);
        proof {
            lemma_mul_fp_s_bound(
                factor as int,
                BASE_ANT_MOVE_SPEED_FP as int,
                ANT_SPEED_FACTOR_MAX_FP as int,
                BASE_ANT_MOVE_SPEED_FP as int,
            );
            assert(ANT_SPEED_FACTOR_MIN_FP as int * BASE_ANT_MOVE_SPEED_FP <= factor as int
                * BASE_ANT_MOVE_SPEED_FP && 0 <= factor as int * BASE_ANT_MOVE_SPEED_FP
                && ANT_SPEED_FACTOR_MIN_FP as int * BASE_ANT_MOVE_SPEED_FP == (SCALE as int)
                * MIN_ANT_MOVE_SPEED_FP) by (nonlinear_arith)
                requires
                    ANT_SPEED_FACTOR_MIN_FP <= factor,
            ;
            vstd::arithmetic::div_mod::lemma_div_is_ordered(
                ANT_SPEED_FACTOR_MIN_FP as int * BASE_ANT_MOVE_SPEED_FP,
                factor as int * BASE_ANT_MOVE_SPEED_FP,
                SCALE as int,
            );
            vstd::arithmetic::div_mod::lemma_div_multiples_vanish(
                MIN_ANT_MOVE_SPEED_FP as int,
                SCALE as int,
            );
        }
        let dt0 = rng.gen_range_fp(0, ANT_TIME_BETWEEN_STATE_CHECKS_FP);
        let distance_between_pheromones = mul_fp(
            CELLS_WIDTHS_BETWEEN_PHEROMONES_FP,
            grid.cell_width,
        );
        proof {
            vstd::arithmetic::div_mod::lemma_div_is_ordered(
                SCALE as int,
                CELLS_WIDTHS_BETWEEN_PHEROMONES_FP as int * grid.cell_width,
                SCALE as int,
            );
            assert(SCALE as int <= CELLS_WIDTHS_BETWEEN_PHEROMONES_FP as int * grid.cell_width)
                by (nonlinear_arith)
                requires
                    grid.cell_width >= 8,
            ;
        }
        let search_radius = grid.cell_width * (GRID_WIDTH as i64) / 10;
        Ant {
            rotation,
            rect: Rect {
                x: x - ANT_WIDTH_FP / 2,
                y: y - ANT_HEIGHT_FP / 2,
                w: ANT_WIDTH_FP,
                h: ANT_HEIGHT_FP,
            },
            move_speed,
            distance_since_last_pheromone: 0,
            state: AntState::LookingForFood,
            pheromone_intensity: ANT_PHEROMONE_BASE_INTENSITY_FP,
            dt_since_last_update: dt0,
            search_radius,
            distance_between_pheromones,
        }
    }

    /// The angle from this ant's center to the target pheromone's center.
    fn get_target_angle(&self, pheromone: Pheromone) -> (r: i64)
        requires
            0 <= self.rect.w,
            0 <= self.rect.h,
            -0x4000_0000 <= self.rect.x,
            -0x4000_0000 <= self.rect.y,
            self.rect.x + self.rect.w <= 0x4000_0000,
            self.rect.y + self.rect.h <= 0x4000_0000,
            0 <= pheromone.rect.w,
            0 <= pheromone.rect.h,
            -0x4000_0000 <= pheromone.rect.x,
            -0x4000_0000 <= pheromone.rect.y,
            pheromone.rect.x + pheromone.rect.w <= 0x4000_0000,
            pheromone.rect.y + pheromone.rect.h <= 0x4000_0000,
        ensures
            r == atan2_approx(
                rect_center_y(pheromone.rect) - rect_center_y(self.rect),
                rect_center_x(pheromone.rect) - rect_center_x(self.rect),
            ),
            angle_in_range(r as int),
    {
        let (cx, cy) = self.rect.center();
        let (px, py) = pheromone.rect().center();
        atan2_fp(py - cy, px - cx)
    }

    /// Instantly turns the ant towards the target angle.
    fn snap_towards(&mut self, target_angle: i64)
        ensures
            *final(self) == (Ant { rotation: norm_angle(target_angle as int) as i64, ..*old(self) }),
            angle_in_range(final(self).rotation as int),
    {
        self.rotation = normalize_angle(target_angle);
    }

    /// Walks straight given its current rotation, reflecting off and
    /// clamping to any crossed boundary of the world.
    pub fn walk_straight(&mut self, bounding_box: &Rect, dt: i64)
        requires
            -DT_MAX_FP <= dt <= DT_MAX_FP,
            angle_in_range(old(self).rotation as int),
            0 < old(self).move_speed <= MAX_ANT_MOVE_SPEED_FP,
            bounding_box.x == 0,
            bounding_box.y == 0,
            1 <= old(self).rect.w <= bounding_box.w <= 0x4000_0000,
            1 <= old(self).rect.h <= bounding_box.h <= 0x4000_0000,
            0 <= old(self).rect.x,
            old(self).rect.x + old(self).rect.w <= bounding_box.w,
            0 <= old(self).rect.y,
            old(self).rect.y + old(self).rect.h <= bounding_box.h,
        ensures
            *final(self) == walk_model(*old(self), *bounding_box, dt as int),
            angle_in_range(final(self).rotation as int),
            0 <= final(self).rect.x,
            final(self).rect.x + final(self).rect.w <= bounding_box.w,
            0 <= final(self).rect.y,
            final(self).rect.y + final(self).rect.h <= bounding_box.h,
    {
        proof {
            lemma_mul_fp_s_bound(
                old(self).move_speed as int,
                dt as int,
                MAX_ANT_MOVE_SPEED_FP as int,
                DT_MAX_FP as int,
            );
        }
        let step = mul_fp(self.move_speed, dt);
        let cos_v = crate::util::cos_fp(self.rotation);
        let sin_v = crate::util::sin_fp(self.rotation);
        proof {
            lemma_mul_fp_s_bound(cos_v as int, step as int, SCALE as int, 0x6000_0000);
            lemma_mul_fp_s_bound(sin_v as int, step as int, SCALE as int, 0x6000_0000);
        }
        let dx = mul_fp(cos_v, step);
        let dy = mul_fp(sin_v, step);
        self.rect.x = self.rect.x + dx;
        self.rect.y = self.rect.y + dy;

        // keep the ant within world boundary
        if self.rect.x < bounding_box.x {
            self.rotation = normalize_angle(PI_FP - self.rotation);
            self.rect.x = bounding_box.x;
        } else if self.rect.x + self.rect.w > bounding_box.w {
            self.rotation = normalize_angle(PI_FP - self.rotation);
            self.rect.x = bounding_box.w - self.rect.w;
        }
        if self.rect.y < bounding_box.y {
            self.rotation = normalize_angle(-self.rotation);
            self.rect.y = bounding_box.y;
        } else if self.rect.y + self.rect.h > bounding_box.h {
            self.rotation = normalize_angle(-self.rotation);
            self.rect.y = bounding_box.h - self.rect.h;
        }
    }

    /// Turns in one of the two mirror directions to move away from an
    /// obstacle, as the drawn coin decides.
    fn bounce_off(&mut self, flip: bool)
        requires
            angle_in_range(old(self).rotation as int),
        ensures
            *final(self) == (Ant {
                rotation: (if flip {
                    norm_angle(-old(self).rotation)
                } else {
                    norm_angle(PI_FP - old(self).rotation)
                }) as i64,
                ..*old(self)
            }),
            angle_in_range(final(self).rotation as int),
    {
        if flip {
            self.rotation = normalize_angle(-self.rotation);
        } else {
            self.rotation = normalize_angle(PI_FP - self.rotation);
        }
    }

    /// Keeps the current heading while the retarget cooldown runs;
    /// otherwise picks a new heading — towards the best pheromone of the
    /// followed scent in view, or randomly perturbed when none is found —
    /// and walks straight along it.
    fn walk_to_pheromones(&mut self, grid: &WorldGrid, dt: i64, draws: TickDraws)
        requires
            grid.wf(),
            ant_wf(*old(self), *grid),
            0 <= dt <= DT_MAX_FP,
            draws_ok(draws),
        ensures
            ant_wf(*final(self), *grid),
            final(self).move_speed == old(self).move_speed,
            final(self).search_radius == old(self).search_radius,
            final(self).distance_between_pheromones == old(self).distance_between_pheromones,
            final(self).state == old(self).state,
            final(self).pheromone_intensity == old(self).pheromone_intensity,
            final(self).distance_since_last_pheromone == old(
                self,
            ).distance_since_last_pheromone,
            walk_phase_ok(*old(self), *final(self), *grid, dt as int, draws),
    {
        proof {
            lemma_ant_center_in_box(*old(self), *grid);
        }
        if self.dt_since_last_update < ANT_TIME_BETWEEN_STATE_CHECKS_FP {
            // dont attempt to change direction too often, likely to cause
            // weird ant behavior
            self.dt_since_last_update = self.dt_since_last_update + dt;
            self.walk_straight(grid.bounding_box(), dt);
            return ;
        }
        self.dt_since_last_update = 0;  // reset behavior change timer
        let candidate_pheromones = grid.pheromones(
            match self.state {
                AntState::LookingForFood => PheromoneType::Food,
                AntState::CarryingFood => PheromoneType::Home,
            },
        );
        let target = candidate_pheromones.get_pheromone_to_target(
            grid,
            &self.rect,
            self.rotation,
            self.search_radius,
        );
        proof {
            assert(grid.cell_width * (GRID_WIDTH as int) / 10 <= 0x4000_0000) by {
                vstd::arithmetic::div_mod::lemma_div_is_ordered(
                    grid.cell_width * (GRID_WIDTH as int),
                    0x4000_0000,
                    10,
                );
            }
            vstd::arithmetic::div_mod::lemma_div_pos_is_pos(
                grid.cell_width * (GRID_WIDTH as int),
                10,
            );
        }
        proof {
            assert(*candidate_pheromones == followed_field(*old(self), *grid));
            assert(sensed_ok(*old(self), *grid, target));
        }
        let target_angle: i64 = match target {
            Option::Some(ph) => {
                proof {
                    let i = choose|i: int|
                        0 <= i < GRID_AREA && candidate_pheromones.entries@[i] == Some(ph);
                    lemma_idx_loc_valid(i);
                    lemma_rect_for_bounds(
                        grid.cell_width as int,
                        grid.cell_height as int,
                        crate::grid::idx_loc(i),
                    );
                }
                self.get_target_angle(ph)
            },
            Option::None => {
                // no trail in view: random walk
                self.rotation + draws.walk_offset
            },
        };
        proof {
            assert(target_angle == target_heading(*old(self), draws, target));
        }
        let ghost found = target;
        self.snap_towards(target_angle);
        self.walk_straight(grid.bounding_box(), dt);
        proof {
            assert(sensed_ok(*old(self), *grid, found) && *self == walk_model(
                Ant {
                    dt_since_last_update: 0,
                    rotation: norm_angle(target_heading(*old(self), draws, found)) as i64,
                    ..*old(self)
                },
                grid.bounding_box,
                dt as int,
            ));
        }
    }

    /// One simulation tick: walk (retargeting when due), resolve the
    /// destination cell — undoing the move and bouncing on terrain —
    /// apply the food/home state transition, and emit a scent deposit
    /// once enough distance has accumulated. The ant itself never touches
    /// shared grid state: it only reports what happened.
    pub fn tick(&mut self, grid: &WorldGrid, dt: i64, draws: TickDraws) -> (r: (
        GridLocation,
        Option<Pheromone>,
        Option<AntActionTaken>,
    ))
        requires
            grid.wf(),
            ant_wf(*old(self), *grid),
            0 <= dt <= DT_MAX_FP,
            draws_ok(draws),
        ensures
            ant_tick_post(*old(self), *final(self), *grid, dt as int, draws, r.0, r.1, r.2),
    {
        // walk
        let starting = self.rect;
        self.walk_to_pheromones(grid, dt, draws);
        let ghost mid = *self;
        let ending = self.rect;

        let dx = ending.x - starting.x;
        let dy = ending.y - starting.y;
        proof {
            assert(dx * dx <= 0x1000_0000_0000_0000 && 0 <= dx * dx) by (nonlinear_arith)
                requires
                    -0x4000_0000 <= dx <= 0x4000_0000,
            ;
            assert(dy * dy <= 0x1000_0000_0000_0000 && 0 <= dy * dy) by (nonlinear_arith)
                requires
                    -0x4000_0000 <= dy <= 0x4000_0000,
            ;
        }
        let distance_walked = isqrt(dx * dx + dy * dy);
        let ghost dist = distance_walked as int;
        let acc = self.distance_since_last_pheromone + distance_walked;
        self.distance_since_last_pheromone = if acc > DIST_ACC_CAP_FP {
            DIST_ACC_CAP_FP
        } else {
            acc
        };
        proof {
            assert(self.distance_since_last_pheromone == cap_distance(
                old(self).distance_since_last_pheromone + dist,
            ));
        }

        proof {
            lemma_ant_center_in_box(*self, *grid);
        }
        let ending_location = match grid.get_grid_location_for_rect(&self.rect) {
            Option::Some(l) => l,
            Option::None => {
                proof {
                    assert(false);
                }
                return (GridLocation { r: 0, c: 0 }, Option::None, Option::None);
            },
        };

        // check for collision with important cells and update ant state
        let mut action_taken: Option<AntActionTaken> = Option::None;
        let prev_state = self.state;
        let current_cell = grid.get_cell_for_loc(ending_location);

        match *current_cell.cell_type() {
            CellType::Food(_) => {
                self.state = AntState::CarryingFood;
                self.pheromone_intensity = ANT_PHEROMONE_BASE_INTENSITY_FP;
            },
            CellType::Home => {
                self.state = AntState::LookingForFood;
                self.pheromone_intensity = ANT_PHEROMONE_BASE_INTENSITY_FP;
            },
            CellType::Terrain => {
                proof {
                    assert(*self == (Ant {
                        distance_since_last_pheromone: self.distance_since_last_pheromone,
                        ..mid
                    }));
                }
                self.walk_straight(grid.bounding_box(), -dt);  // return to starting position
                self.bounce_off(draws.bounce_flip);  // turn in a safer direction
                proof {
                    lemma_ant_center_in_box(*self, *grid);
                }
                let loc = match grid.get_grid_location_for_rect(&self.rect) {
                    Option::Some(l) => l,
                    Option::None => {
                        proof {
                            assert(false);
                        }
                        return (GridLocation { r: 0, c: 0 }, Option::None, Option::None);
                    },
                };
                proof {
                    assert(tick_trace_ok(
                        *old(self),
                        *self,
                        *grid,
                        dt as int,
                        draws,
                        loc,
                        Option::None,
                        Option::Some(AntActionTaken::HitTerrain),
                        mid,
                        dist,
                    ));
                }
                return (loc, Option::None, Option::Some(AntActionTaken::HitTerrain));
            },
            CellType::Empty => {},
        }

        if prev_state != self.state {
            action_taken = Option::Some(
                match self.state {
                    AntState::CarryingFood => AntActionTaken::PickedUpFood,
                    AntState::LookingForFood => AntActionTaken::DroppedOffFood,
                },
            );
        }
        // spawn pheromone if it's time to do so
        let mut pheromone: Option<Pheromone> = Option::None;
        if self.distance_since_last_pheromone >= self.distance_between_pheromones {
            self.distance_since_last_pheromone = 0;
            let pheromone_type = match self.state {
                AntState::CarryingFood => PheromoneType::Food,
                AntState::LookingForFood => PheromoneType::Home,
            };
            pheromone = Option::Some(
                grid.create_pheromone_for_loc(
                    ending_location,
                    pheromone_type,
                    self.pheromone_intensity,
                    false,
                ),
            );
            proof {
                lemma_mul_fp_s_scale_down(
                    self.pheromone_intensity as int,
                    ANT_PHEROMONE_RETAIN_RATIO_FP as int,
                );
            }
            self.pheromone_intensity = mul_fp(
                self.pheromone_intensity,
                ANT_PHEROMONE_RETAIN_RATIO_FP,
            );
        }
        proof {
            assert(tick_trace_ok(
                *old(self),
                *self,
                *grid,
                dt as int,
                draws,
                ending_location,
                pheromone,
                action_taken,
                mid,
                dist,
            ));
        }
        (ending_location, pheromone, action_taken)
    }

    /// The ant's behavioral state.
    pub fn state(&self) -> (r: AntState)
        ensures
            r == self.state,
    {
        self.state
    }
}

/// A well-formed ant's center lies strictly inside the world.
pub proof fn lemma_ant_center_in_box(a: Ant, g: WorldGrid)
    requires
        a.rect.w == ANT_WIDTH_FP,
        a.rect.h == ANT_HEIGHT_FP,
        0 <= a.rect.x,
        a.rect.x + a.rect.w <= g.bounding_box.w,
        0 <= a.rect.y,
        a.rect.y + a.rect.h <= g.bounding_box.h,
    ensures
        point_in_box(rect_center_x(a.rect), rect_center_y(a.rect), g.bounding_box),
{
    assert(ANT_WIDTH_FP / 2 < ANT_WIDTH_FP);
    assert(ANT_HEIGHT_FP / 2 < ANT_HEIGHT_FP);
}

} // verus!
