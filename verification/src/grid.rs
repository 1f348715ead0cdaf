//! The world grid: a fixed table of cells, both pheromone fields, the
//! food-location index, and the coordinate conversions and mutation
//! operations that the simulation runs on.

use vstd::prelude::*;
use crate::fixed::{SCALE, mul_fp, mul_fp_s, abs_i};
use crate::util::{Rect, angle_in_range, cos_approx, sin_approx, rect_center_x, rect_center_y, cos_fp, sin_fp};
use crate::pheromone::{
    Pheromone, Pheromones, PheromoneType, SPECIAL_PHEROMONE_INTENSITY, DT_MAX_FP,
    ph_increased, opt_survives, field_wf, stored_ph_ok,
};
use crate::ant::AntActionTaken;

verus! {

/// Number of grid columns.
pub const GRID_WIDTH: usize = 200;

/// Number of grid rows.
pub const GRID_HEIGHT: usize = 150;

/// Total number of grid cells.
pub const GRID_AREA: usize = 200 * 150;

/// Units of food a freshly painted Food cell holds.
pub const FOOD_CONSUMPTION_LIMIT: u32 = 10;

/// What a grid cell holds.
#[derive(Copy, Clone, PartialEq, Eq, Structural, Debug)]
pub enum CellType {
    Food(u32),
    Home,
    Terrain,
    Empty,
}

/// Whether a cell type is food with any remaining supply.
pub open spec fn is_food(ct: CellType) -> bool {
    ct matches CellType::Food(_)
}

/// The integer (row, column) address of one grid cell.
#[derive(Copy, Clone, PartialEq, Eq, Structural, Debug, Hash)]
pub struct GridLocation {
    pub r: usize,
    pub c: usize,
}

/// A location that addresses a cell inside the grid.
pub open spec fn loc_valid(l: GridLocation) -> bool {
    l.r < GRID_HEIGHT && l.c < GRID_WIDTH
}

/// The index of a location in the dense cell table (column-major, as the
/// cells are laid out).
pub open spec fn loc_index_s(l: GridLocation) -> int {
    l.c * GRID_HEIGHT + l.r
}

/// The location stored at a given index of the dense cell table.
pub open spec fn idx_loc(i: int) -> GridLocation {
    GridLocation {
        r: (i % (GRID_HEIGHT as int)) as usize,
        c: (i / (GRID_HEIGHT as int)) as usize,
    }
}

/// Indexing and addressing are inverse to each other.
pub proof fn lemma_loc_index_roundtrip(l: GridLocation)
    requires
        loc_valid(l),
    ensures
        0 <= loc_index_s(l) < GRID_AREA,
        idx_loc(loc_index_s(l)) == l,
{
    let h = GRID_HEIGHT as int;
    vstd::arithmetic::div_mod::lemma_fundamental_div_mod_converse(
        l.c * h + l.r,
        h,
        l.c as int,
        l.r as int,
    );
    assert(l.c * h + l.r < GRID_AREA) by (nonlinear_arith)
        requires
            l.c < 200,
            l.r < 150,
            h == 150,
    ;
    assert(0 <= l.c * h) by (nonlinear_arith)
        requires
            0 <= l.c,
            h == 150,
    ;
}

/// Every index of the dense cell table addresses a valid location, and
/// addressing is inverse to indexing.
pub proof fn lemma_idx_loc_valid(i: int)
    requires
        0 <= i < GRID_AREA,
    ensures
        loc_valid(idx_loc(i)),
        loc_index_s(idx_loc(i)) == i,
{
    let h = GRID_HEIGHT as int;
    vstd::arithmetic::div_mod::lemma_fundamental_div_mod(i, h);
    vstd::arithmetic::div_mod::lemma_div_pos_is_pos(i, h);
    vstd::arithmetic::div_mod::lemma_multiply_divide_lt(i, h, GRID_WIDTH as int);
    assert(h * (GRID_WIDTH as int) == GRID_AREA);
}

/// The screen-space rectangle of the cell at a location, for a grid with
/// the given cell extent.
pub open spec fn rect_for(cw: int, ch: int, l: GridLocation) -> Rect {
    Rect { x: (l.c * cw) as i64, y: (l.r * ch) as i64, w: cw as i64, h: ch as i64 }
}

/// Whether a point lies inside a world bounding box anchored at the
/// origin.
pub open spec fn point_in_box(x: int, y: int, bb: Rect) -> bool {
    0 <= x < bb.w && 0 <= y < bb.h
}

/// The location of the cell containing a point, for a grid with the given
/// cell extent.
pub open spec fn loc_at(cw: int, ch: int, x: int, y: int) -> GridLocation {
    GridLocation { r: (y / ch) as usize, c: (x / cw) as usize }
}

/// What `loc_from_coords` returns: the containing cell for points inside
/// the screen, nothing for points outside it.
pub open spec fn coords_loc(x: int, y: int, width: int, height: int) -> Option<GridLocation> {
    if 0 <= x < width && 0 <= y < height {
        Option::Some(GridLocation {
            r: ((y * GRID_HEIGHT) / height) as usize,
            c: ((x * GRID_WIDTH) / width) as usize,
        })
    } else {
        Option::None
    }
}

impl GridLocation {
    /// Maps a screen-space point to the grid cell containing it, or
    /// nothing if the point lies outside the screen.
    pub fn loc_from_coords(x: i64, y: i64, screen_width: i64, screen_height: i64) -> (r: Option<
        GridLocation,
    >)
        requires
            1 <= screen_width <= 0x4000_0000,
            1 <= screen_height <= 0x4000_0000,
            -0x4000_0000_0000 <= x <= 0x4000_0000_0000,
            -0x4000_0000_0000 <= y <= 0x4000_0000_0000,
        ensures
            r == coords_loc(x as int, y as int, screen_width as int, screen_height as int),
            r matches Some(l) ==> loc_valid(l),
    {
        // bounds check
        if x < 0 || x >= screen_width || y < 0 || y >= screen_height {
            return Option::None;
        }
        proof {
            vstd::arithmetic::div_mod::lemma_div_pos_is_pos(
                y as int * GRID_HEIGHT,
                screen_height as int,
            );
            vstd::arithmetic::div_mod::lemma_div_pos_is_pos(
                x as int * GRID_WIDTH,
                screen_width as int,
            );
            assert(y as int * GRID_HEIGHT < screen_height as int * GRID_HEIGHT) by (nonlinear_arith)
                requires
                    y < screen_height,
            ;
            vstd::arithmetic::div_mod::lemma_multiply_divide_lt(
                y as int * GRID_HEIGHT,
                screen_height as int,
                GRID_HEIGHT as int,
            );
            assert(x as int * GRID_WIDTH < screen_width as int * GRID_WIDTH) by (nonlinear_arith)
                requires
                    x < screen_width,
            ;
            vstd::arithmetic::div_mod::lemma_multiply_divide_lt(
                x as int * GRID_WIDTH,
                screen_width as int,
                GRID_WIDTH as int,
            );
        }
        let r: i64 = (y * GRID_HEIGHT as i64) / screen_height;
        let c: i64 = (x * GRID_WIDTH as i64) / screen_width;
        Option::Some(GridLocation { r: r as usize, c: c as usize })
    }

    /// Builds a location from its row and column.
    pub fn new(r: usize, c: usize) -> (l: GridLocation)
        ensures
            l == (GridLocation { r, c }),
    {
        GridLocation { r, c }
    }
}

/// Computes the dense-table index of a valid location.
pub fn loc_index(l: GridLocation) -> (i: usize)
    requires
        loc_valid(l),
    ensures
        i == loc_index_s(l),
        i < GRID_AREA,
        idx_loc(i as int) == l,
{
    proof {
        lemma_loc_index_roundtrip(l);
    }
    l.c * GRID_HEIGHT + l.r
}

/// One grid cell's full record: its content, its screen-space rectangle
/// and its own location.
#[derive(Copy, Clone, PartialEq, Eq, Structural, Debug)]
pub struct WorldCell {
    pub cell_type: CellType,
    pub rect: Rect,
    pub loc: GridLocation,
}

impl WorldCell {
    /// The cell's content.
    pub fn cell_type(&self) -> (r: &CellType)
        ensures
            *r == self.cell_type,
    {
        &self.cell_type
    }
}

/// The authoritative world model.
pub struct WorldGrid {
    pub cells: Vec<WorldCell>,
    pub food_pheromones: Pheromones,
    pub home_pheromones: Pheromones,
    pub food_cells: Vec<bool>,
    pub bounding_box: Rect,
    pub cell_width: i64,
    pub cell_height: i64,
    pub food_collected: u64,
}

impl WorldGrid {
    /// Well-formedness: dense tables of the right size, cells consistent
    /// with their own address, pheromones placed consistently, and the
    /// food index agreeing with the cell table.
    pub open spec fn wf(&self) -> bool {
        &&& self.cells@.len() == GRID_AREA
        &&& 8 <= self.cell_width
        &&& 8 <= self.cell_height
        &&& self.cell_width * (GRID_WIDTH as int) <= 0x4000_0000
        &&& self.cell_height * (GRID_HEIGHT as int) <= 0x4000_0000
        &&& self.bounding_box.x == 0
        &&& self.bounding_box.y == 0
        &&& self.bounding_box.w == self.cell_width * (GRID_WIDTH as int)
        &&& self.bounding_box.h == self.cell_height * (GRID_HEIGHT as int)
        &&& forall|i: int| 0 <= i < GRID_AREA ==> {
            &&& (#[trigger] self.cells@[i]).loc == idx_loc(i)
            &&& self.cells@[i].rect == rect_for(
                self.cell_width as int,
                self.cell_height as int,
                idx_loc(i),
            )
        }
        &&& field_wf(self.food_pheromones, self.cell_width as int, self.cell_height as int)
        &&& field_wf(self.home_pheromones, self.cell_width as int, self.cell_height as int)
        &&& self.food_cells@.len() == GRID_AREA
        &&& forall|i: int| 0 <= i < GRID_AREA ==> #[trigger] self.food_cells@[i] == is_food(
            self.cells@[i].cell_type,
        )
    }

    /// The locked anchor pheromone seeded at a cell.
    pub open spec fn anchor_ph(&self, ptype: PheromoneType, i: int) -> Pheromone {
        Pheromone {
            intensity: SPECIAL_PHEROMONE_INTENSITY,
            pheromone_type: ptype,
            rect: rect_for(self.cell_width as int, self.cell_height as int, idx_loc(i)),
            decayed: false,
            locked_intensity: true,
        }
    }

    /// Constructs the world: every cell starts empty except the given home
    /// region, and every home cell is seeded with a locked anchor scent so
    /// ants can find their way back from the start.
    pub fn new(home_locations: &Vec<GridLocation>, screen_width: i64, screen_height: i64) -> (g:
        WorldGrid)
        requires
            1600 <= screen_width <= 0x4000_0000,
            1200 <= screen_height <= 0x4000_0000,
            forall|k: int| 0 <= k < home_locations@.len() ==> loc_valid(#[trigger] home_locations@[k]),
        ensures
            g.wf(),
            g.cell_width == screen_width as int / (GRID_WIDTH as int),
            g.cell_height == screen_height as int / (GRID_HEIGHT as int),
            g.food_collected == 0,
            forall|i: int| 0 <= i < GRID_AREA ==> (#[trigger] g.cells@[i]).cell_type == (
            if home_locations@.contains(idx_loc(i)) {
                CellType::Home
            } else {
                CellType::Empty
            }),
            forall|i: int| 0 <= i < GRID_AREA ==> #[trigger] g.food_pheromones.entries@[i] is None,
            forall|i: int| 0 <= i < GRID_AREA ==> #[trigger] g.home_pheromones.entries@[i] == (
            if home_locations@.contains(idx_loc(i)) {
                Option::Some(g.anchor_ph(PheromoneType::Home, i))
            } else {
                Option::<Pheromone>::None
            }),
    {
        let cw: i64 = screen_width / (GRID_WIDTH as i64);
        let ch: i64 = screen_height / (GRID_HEIGHT as i64);
        proof {
            assert(8 <= cw && cw * (GRID_WIDTH as int) <= screen_width) by (nonlinear_arith)
                requires
                    cw == screen_width as int / 200,
                    1600 <= screen_width <= 0x4000_0000,
            ;
            assert(8 <= ch && ch * (GRID_HEIGHT as int) <= screen_height) by (nonlinear_arith)
                requires
                    ch == screen_height as int / 150,
                    1200 <= screen_height <= 0x4000_0000,
            ;
        }
        let mut cells: Vec<WorldCell> = Vec::new();
        let mut c: usize = 0;
        while c < GRID_WIDTH
            invariant
                c <= GRID_WIDTH,
                cells@.len() == c * GRID_HEIGHT,
                8 <= cw,
                8 <= ch,
                cw * (GRID_WIDTH as int) <= 0x4000_0000,
                ch * (GRID_HEIGHT as int) <= 0x4000_0000,
                forall|i: int| 0 <= i < cells@.len() ==> {
                    &&& (#[trigger] cells@[i]).loc == idx_loc(i)
                    &&& cells@[i].rect == rect_for(cw as int, ch as int, idx_loc(i))
                    &&& cells@[i].cell_type == CellType::Empty
                },
            decreases GRID_WIDTH - c,
        {
            let mut r: usize = 0;
            while r < GRID_HEIGHT
                invariant
                    c < GRID_WIDTH,
                    r <= GRID_HEIGHT,
                    cells@.len() == c * GRID_HEIGHT + r,
                    8 <= cw,
                    8 <= ch,
                    cw * (GRID_WIDTH as int) <= 0x4000_0000,
                    ch * (GRID_HEIGHT as int) <= 0x4000_0000,
                    forall|i: int| 0 <= i < cells@.len() ==> {
                        &&& (#[trigger] cells@[i]).loc == idx_loc(i)
                        &&& cells@[i].rect == rect_for(cw as int, ch as int, idx_loc(i))
                        &&& cells@[i].cell_type == CellType::Empty
                    },
                decreases GRID_HEIGHT - r,
            {
                let loc = GridLocation { r, c };
                proof {
                    lemma_loc_index_roundtrip(loc);
                    lemma_rect_for_bounds(cw as int, ch as int, loc);
                }
                let rect = Rect {
                    x: (c as i64) * cw,
                    y: (r as i64) * ch,
                    w: cw,
                    h: ch,
                };
                cells.push(WorldCell { cell_type: CellType::Empty, rect, loc });
                r += 1;
            }
            c += 1;
            proof {
                assert((c - 1) * (GRID_HEIGHT as int) + GRID_HEIGHT == c * GRID_HEIGHT)
                    by (nonlinear_arith);
            }
        }
        proof {
            assert(GRID_WIDTH * GRID_HEIGHT == GRID_AREA) by (nonlinear_arith);
        }
        let mut food_cells: Vec<bool> = Vec::new();
        let mut i: usize = 0;
        while i < GRID_AREA
            invariant
                i <= GRID_AREA,
                food_cells@.len() == i,
                forall|j: int| 0 <= j < i ==> #[trigger] food_cells@[j] == false,
            decreases GRID_AREA - i,
        {
            food_cells.push(false);
            i += 1;
        }
        let mut grid = WorldGrid {
            cells,
            food_pheromones: Pheromones::new(),
            home_pheromones: Pheromones::new(),
            food_cells,
            bounding_box: Rect { x: 0, y: 0, w: cw * (GRID_WIDTH as i64), h: ch * (GRID_HEIGHT as i64) },
            cell_width: cw,
            cell_height: ch,
            food_collected: 0,
        };
        // set base
        let mut k: usize = 0;
        let n = home_locations.len();
        while k < n
            invariant
                k <= n,
                n == home_locations@.len(),
                grid.wf(),
                grid.cell_width == cw,
                grid.cell_height == ch,
                grid.food_collected == 0,
                forall|j: int| 0 <= j < n ==> loc_valid(#[trigger] home_locations@[j]),
                forall|i2: int| 0 <= i2 < GRID_AREA ==> (#[trigger] grid.cells@[i2]).cell_type == (
                if home_locations@.take(k as int).contains(idx_loc(i2)) {
                    CellType::Home
                } else {
                    CellType::Empty
                }),
                forall|i2: int| 0 <= i2 < GRID_AREA
                    ==> #[trigger] grid.food_pheromones.entries@[i2] is None,
                forall|i2: int| 0 <= i2 < GRID_AREA
                    ==> #[trigger] grid.home_pheromones.entries@[i2] is None,
            decreases n - k,
        {
            let l = home_locations[k];
            let idx = loc_index(l);
            let old_cell = grid.cells[idx];
            grid.cells.set(idx, WorldCell { cell_type: CellType::Home, rect: old_cell.rect, loc: old_cell.loc });
            proof {
                assert(home_locations@.take(k + 1).drop_last() =~= home_locations@.take(k as int));
                assert forall|i2: int| 0 <= i2 < GRID_AREA implies (#[trigger] grid.cells@[i2]).cell_type
                    == (if home_locations@.take(k + 1).contains(idx_loc(i2)) {
                    CellType::Home
                } else {
                    CellType::Empty
                }) by {
                    let pre = home_locations@.take(k as int);
                    let post = home_locations@.take(k + 1);
                    assert(post.last() == home_locations@[k as int]);
                    if i2 == idx {
                        assert(post[k as int] == l);
                        assert(post.contains(l));
                    } else {
                        assert(idx_loc(i2) != l) by {
                            lemma_idx_loc_valid(i2);
                            lemma_loc_index_roundtrip(idx_loc(i2));
                        }
                        if post.contains(idx_loc(i2)) {
                            let w = choose|w: int| 0 <= w < post.len() && post[w] == idx_loc(i2);
                            assert(pre[w] == idx_loc(i2));
                            assert(pre.contains(idx_loc(i2)));
                        }
                        if pre.contains(idx_loc(i2)) {
                            let w = choose|w: int| 0 <= w < pre.len() && pre[w] == idx_loc(i2);
                            assert(post[w] == idx_loc(i2));
                            assert(post.contains(idx_loc(i2)));
                        }
                    }
                }
            }
            k += 1;
        }
        proof {
            assert(home_locations@.take(n as int) =~= home_locations@);
        }
        // spawn home pheromones
        let mut k2: usize = 0;
        while k2 < n
            invariant
                k2 <= n,
                n == home_locations@.len(),
                grid.wf(),
                grid.cell_width == cw,
                grid.cell_height == ch,
                grid.food_collected == 0,
                forall|j: int| 0 <= j < n ==> loc_valid(#[trigger] home_locations@[j]),
                forall|i2: int| 0 <= i2 < GRID_AREA ==> (#[trigger] grid.cells@[i2]).cell_type == (
                if home_locations@.contains(idx_loc(i2)) {
                    CellType::Home
                } else {
                    CellType::Empty
                }),
                forall|i2: int| 0 <= i2 < GRID_AREA
                    ==> #[trigger] grid.food_pheromones.entries@[i2] is None,
                forall|i2: int| 0 <= i2 < GRID_AREA ==> #[trigger] grid.home_pheromones.entries@[i2]
                    == (if home_locations@.take(k2 as int).contains(idx_loc(i2)) {
                    Option::Some(grid.anchor_ph(PheromoneType::Home, i2))
                } else {
                    Option::<Pheromone>::None
                }),
            decreases n - k2,
        {
            let l = home_locations[k2];
            let ph = grid.create_pheromone_for_loc(l, PheromoneType::Home, SPECIAL_PHEROMONE_INTENSITY, true);
            proof {
                lemma_loc_index_roundtrip(l);
                lemma_cell_center_loc(cw as int, ch as int, l);
            }
            grid.deposit_pheromone(ph);
            proof {
                let idx = loc_index_s(l);
                assert forall|i2: int| 0 <= i2 < GRID_AREA implies #[trigger] grid.home_pheromones.entries@[i2]
                    == (if home_locations@.take(k2 + 1).contains(idx_loc(i2)) {
                    Option::Some(grid.anchor_ph(PheromoneType::Home, i2))
                } else {
                    Option::<Pheromone>::None
                }) by {
                    let pre = home_locations@.take(k2 as int);
                    let post = home_locations@.take(k2 + 1);
                    assert(post[k2 as int] == l);
                    if i2 == idx {
                        assert(post.contains(l));
                    } else {
                        assert(idx_loc(i2) != l) by {
                            lemma_idx_loc_valid(i2);
                            lemma_loc_index_roundtrip(idx_loc(i2));
                        }
                        if post.contains(idx_loc(i2)) {
                            let w = choose|w: int| 0 <= w < post.len() && post[w] == idx_loc(i2);
                            assert(pre[w] == idx_loc(i2));
                            assert(pre.contains(idx_loc(i2)));
                        }
                        if pre.contains(idx_loc(i2)) {
                            let w = choose|w: int| 0 <= w < pre.len() && pre[w] == idx_loc(i2);
                            assert(post[w] == idx_loc(i2));
                            assert(post.contains(idx_loc(i2)));
                        }
                    }
                }
            }
            k2 += 1;
        }
        proof {
            assert(home_locations@.take(n as int) =~= home_locations@);
        }
        grid
    }

    /// Advances both pheromone fields by one decay step.
    pub fn tick(&mut self, dt: i64)
        requires
            old(self).wf(),
            0 <= dt <= DT_MAX_FP,
        ensures
            final(self).wf(),
            final(self).cells == old(self).cells,
            final(self).food_cells == old(self).food_cells,
            final(self).bounding_box == old(self).bounding_box,
            final(self).cell_width == old(self).cell_width,
            final(self).cell_height == old(self).cell_height,
            final(self).food_collected == old(self).food_collected,
            forall|i: int| 0 <= i < GRID_AREA ==> #[trigger] final(self).food_pheromones.entries@[i]
                == opt_survives(old(self).food_pheromones.entries@[i], dt as int),
            forall|i: int| 0 <= i < GRID_AREA ==> #[trigger] final(self).home_pheromones.entries@[i]
                == opt_survives(old(self).home_pheromones.entries@[i], dt as int),
    {
        self.food_pheromones.tick(dt);
        self.home_pheromones.tick(dt);
        proof {
            let cw = self.cell_width as int;
            let ch = self.cell_height as int;
            assert forall|i: int| 0 <= i < GRID_AREA implies stored_ph_ok(
                #[trigger] self.food_pheromones.entries@[i],
                cw,
                ch,
                i,
            ) by {
                match old(self).food_pheromones.entries@[i] {
                    Option::Some(p) => crate::pheromone::lemma_ticked_in_range(p, dt as int),
                    Option::None => (),
                }
            }
            assert forall|i: int| 0 <= i < GRID_AREA implies stored_ph_ok(
                #[trigger] self.home_pheromones.entries@[i],
                cw,
                ch,
                i,
            ) by {
                match old(self).home_pheromones.entries@[i] {
                    Option::Some(p) => crate::pheromone::lemma_ticked_in_range(p, dt as int),
                    Option::None => (),
                }
            }
        }
    }

    /// The world's pixel bounding box.
    pub fn bounding_box(&self) -> (r: &Rect)
        ensures
            *r == self.bounding_box,
    {
        &self.bounding_box
    }

    /// The grid cell containing a world-space point, if it lies inside the
    /// world.
    pub fn get_grid_location(&self, x: i64, y: i64) -> (r: Option<GridLocation>)
        requires
            self.wf(),
            -0x4000_0000_0000 <= x <= 0x4000_0000_0000,
            -0x4000_0000_0000 <= y <= 0x4000_0000_0000,
        ensures
            r == coords_loc(x as int, y as int, self.bounding_box.w as int, self.bounding_box.h as int),
            r is Some <==> point_in_box(x as int, y as int, self.bounding_box),
            r matches Some(l) ==> loc_valid(l) && l == loc_at(
                self.cell_width as int,
                self.cell_height as int,
                x as int,
                y as int,
            ),
    {
        let r = GridLocation::loc_from_coords(x, y, self.bounding_box.w, self.bounding_box.h);
        proof {
            if point_in_box(x as int, y as int, self.bounding_box) {
                lemma_scaled_div(x as int, self.cell_width as int, GRID_WIDTH as int);
                lemma_scaled_div(y as int, self.cell_height as int, GRID_HEIGHT as int);
            }
        }
        r
    }

    /// The grid cell containing a rectangle's center point.
    pub fn get_grid_location_for_rect(&self, rect: &Rect) -> (r: Option<GridLocation>)
        requires
            self.wf(),
            0 <= rect.w,
            0 <= rect.h,
            -0x2000_0000_0000 <= rect.x,
            -0x2000_0000_0000 <= rect.y,
            rect.x + rect.w <= 0x2000_0000_0000,
            rect.y + rect.h <= 0x2000_0000_0000,
        ensures
            r == coords_loc(
                rect_center_x(*rect),
                rect_center_y(*rect),
                self.bounding_box.w as int,
                self.bounding_box.h as int,
            ),
            r is Some <==> point_in_box(rect_center_x(*rect), rect_center_y(*rect), self.bounding_box),
            r matches Some(l) ==> loc_valid(l) && l == loc_at(
                self.cell_width as int,
                self.cell_height as int,
                rect_center_x(*rect),
                rect_center_y(*rect),
            ),
    {
        let (cx, cy) = rect.center();
        self.get_grid_location(cx, cy)
    }

    /// The screen-space rectangle of the cell at a location.
    pub fn get_rect_from_loc(&self, loc: GridLocation) -> (r: Rect)
        requires
            self.wf(),
            loc_valid(loc),
        ensures
            r == rect_for(self.cell_width as int, self.cell_height as int, loc),
    {
        proof {
            lemma_rect_for_bounds(self.cell_width as int, self.cell_height as int, loc);
        }
        let x: i64 = (loc.c as i64) * self.cell_width;
        let y: i64 = (loc.r as i64) * self.cell_height;
        Rect { x, y, w: self.cell_width, h: self.cell_height }
    }

    /// The cell record at a valid location.
    pub fn get_cell_for_loc(&self, loc: GridLocation) -> (r: &WorldCell)
        requires
            self.wf(),
            loc_valid(loc),
        ensures
            *r == self.cells@[loc_index_s(loc)],
    {
        let i = loc_index(loc);
        &self.cells[i]
    }

    /// The cell record containing a world-space point, if it lies inside
    /// the world.
    pub fn get_cell_for_coords(&self, x: i64, y: i64) -> (r: Option<&WorldCell>)
        requires
            self.wf(),
            -0x4000_0000_0000 <= x <= 0x4000_0000_0000,
            -0x4000_0000_0000 <= y <= 0x4000_0000_0000,
        ensures
            r is Some <==> point_in_box(x as int, y as int, self.bounding_box),
            r matches Some(cell) ==> *cell == self.cells@[loc_index_s(
                loc_at(self.cell_width as int, self.cell_height as int, x as int, y as int),
            )],
    {
        let loc = match self.get_grid_location(x, y) {
            Option::Some(l) => l,
            Option::None => {
                return Option::None;
            },
        };
        Option::Some(self.get_cell_for_loc(loc))
    }

    /// The field holding scents of the given type.
    pub fn pheromones(&self, pheromone_type: PheromoneType) -> (r: &Pheromones)
        ensures
            *r == (match pheromone_type {
                PheromoneType::Food => self.food_pheromones,
                PheromoneType::Home => self.home_pheromones,
            }),
    {
        match pheromone_type {
            PheromoneType::Food => &self.food_pheromones,
            PheromoneType::Home => &self.home_pheromones,
        }
    }

    /// Builds a pheromone whose footprint is the cell at the given
    /// location.
    pub fn create_pheromone_for_loc(
        &self,
        loc: GridLocation,
        pheromone_type: PheromoneType,
        intensity: i64,
        locked_intensity: bool,
    ) -> (p: Pheromone)
        requires
            self.wf(),
            loc_valid(loc),
        ensures
            p == (Pheromone {
                intensity,
                pheromone_type,
                rect: rect_for(self.cell_width as int, self.cell_height as int, loc),
                decayed: false,
                locked_intensity,
            }),
    {
        let rect = self.get_rect_from_loc(loc);
        Pheromone::new(intensity, pheromone_type, rect, locked_intensity)
    }

    /// Deposits a pheromone at the cell under its footprint center,
    /// following the reinforcement rule of its type's field: insert where
    /// vacant, fold into an unlocked occupant, leave a locked occupant
    /// untouched.
    pub fn deposit_pheromone(&mut self, pheromone: Pheromone)
        requires
            old(self).wf(),
            !pheromone.decayed,
            0 <= pheromone.intensity <= SPECIAL_PHEROMONE_INTENSITY,
            exists|l: GridLocation| loc_valid(l) && pheromone.rect == rect_for(
                old(self).cell_width as int,
                old(self).cell_height as int,
                l,
            ),
        ensures
            final(self).wf(),
            deposited_rel(*old(self), pheromone, *final(self)),
    {
        let ghost lw = choose|l: GridLocation|
            loc_valid(l) && pheromone.rect == rect_for(
                self.cell_width as int,
                self.cell_height as int,
                l,
            );
        proof {
            lemma_rect_for_bounds(self.cell_width as int, self.cell_height as int, lw);
            lemma_cell_center_loc(self.cell_width as int, self.cell_height as int, lw);
        }
        let (cx, cy) = pheromone.rect().center();
        let loc = match self.get_grid_location(cx, cy) {
            Option::Some(l) => l,
            Option::None => {
                proof {
                    assert(false);
                }
                return ;
            },
        };
        let idx = loc_index(loc);
        proof {
            assert(loc == lw);
            lemma_loc_index_roundtrip(lw);
        }
        match *pheromone.pheromone_type() {
            PheromoneType::Food => {
                let slot = self.food_pheromones.entries[idx];
                match slot {
                    Option::Some(existing) => {
                        if !existing.locked_intensity() {
                            let mut folded = existing;
                            folded.increase_intensity(pheromone.intensity());
                            self.food_pheromones.entries.set(idx, Option::Some(folded));
                        } else {
                            proof {
                                assert(self.food_pheromones.entries@ =~= self.food_pheromones.entries@.update(
                                    idx as int,
                                    Option::Some(existing),
                                ));
                            }
                        }
                    },
                    Option::None => {
                        self.food_pheromones.entries.set(idx, Option::Some(pheromone));
                    },
                }
            },
            PheromoneType::Home => {
                let slot = self.home_pheromones.entries[idx];
                match slot {
                    Option::Some(existing) => {
                        if !existing.locked_intensity() {
                            let mut folded = existing;
                            folded.increase_intensity(pheromone.intensity());
                            self.home_pheromones.entries.set(idx, Option::Some(folded));
                        } else {
                            proof {
                                assert(self.home_pheromones.entries@ =~= self.home_pheromones.entries@.update(
                                    idx as int,
                                    Option::Some(existing),
                                ));
                            }
                        }
                    },
                    Option::None => {
                        self.home_pheromones.entries.set(idx, Option::Some(pheromone));
                    },
                }
            },
        }
    }

    /// Applies the outcome of an ant's visit to a cell. Picking food up
    /// decrements the cell's supply; taking the last unit empties the cell
    /// and clears its food scent and food-index entry. Dropping food off
    /// raises the colony tally. Hitting terrain changes nothing.
    pub fn visit_cell(&mut self, loc: GridLocation, action: Option<AntActionTaken>)
        requires
            old(self).wf(),
            loc_valid(loc),
        ensures
            final(self).wf(),
            visited_rel(*old(self), loc, action, *final(self)),
    {
        let idx = loc_index(loc);
        let cell = self.cells[idx];
        if let Option::Some(action) = action {
            match action {
                AntActionTaken::PickedUpFood => {
                    if let CellType::Food(current_supply) = cell.cell_type {
                        if current_supply > 1 {
                            self.cells.set(
                                idx,
                                WorldCell {
                                    cell_type: CellType::Food(current_supply - 1),
                                    rect: cell.rect,
                                    loc: cell.loc,
                                },
                            );
                        } else {
                            self.cells.set(
                                idx,
                                WorldCell {
                                    cell_type: CellType::Empty,
                                    rect: cell.rect,
                                    loc: cell.loc,
                                },
                            );
                            self.food_pheromones.entries.set(idx, Option::None);
                            self.food_cells.set(idx, false);
                        }
                    }
                },
                AntActionTaken::DroppedOffFood => {
                    if self.food_collected < u64::MAX {
                        self.food_collected = self.food_collected + 1;
                    }
                },
                AntActionTaken::HitTerrain => {
                    // reserved for future terrain-degradation mechanics
                },
            }
        }
    }
}

/// The step length of a ray sample: half the smaller cell side, less one
/// raw unit so consecutive samples cannot skip over a cell.
pub open spec fn ray_step_s(g: WorldGrid) -> int {
    (if g.cell_width <= g.cell_height {
        g.cell_width as int
    } else {
        g.cell_height as int
    }) / 2 - 1
}

/// How many samples a ray of the given length takes (the length divided by
/// the step, rounded up).
pub open spec fn ray_steps_s(g: WorldGrid, len: int) -> int {
    len / ray_step_s(g) + (if len % ray_step_s(g) == 0 {
        0int
    } else {
        1int
    })
}

/// A coordinate of the `k`-th sample point along a ray.
pub open spec fn sample_coord(c0: int, dv: int, k: int) -> int {
    c0 + k * dv
}

/// The cell containing the `k`-th sample point of a ray.
pub open spec fn sample_loc(g: WorldGrid, cx: int, cy: int, dvx: int, dvy: int, k: int) -> GridLocation {
    loc_at(
        g.cell_width as int,
        g.cell_height as int,
        sample_coord(cx, dvx, k),
        sample_coord(cy, dvy, k),
    )
}

/// The `k`-th sample of a ray is clean: inside the world, and not on a
/// terrain cell (scent cannot be sensed through terrain).
pub open spec fn ray_clean(g: WorldGrid, cx: int, cy: int, dvx: int, dvy: int, k: int) -> bool {
    let x = sample_coord(cx, dvx, k);
    let y = sample_coord(cy, dvy, k);
    &&& point_in_box(x, y, g.bounding_box)
    &&& g.cells@[loc_index_s(loc_at(g.cell_width as int, g.cell_height as int, x, y))].cell_type
        != CellType::Terrain
}

/// Whether a location is one of the cells sampled by the first `m - 1`
/// ray steps.
pub open spec fn from_ray(
    g: WorldGrid,
    cx: int,
    cy: int,
    dvx: int,
    dvy: int,
    m: int,
    l: GridLocation,
) -> bool {
    exists|k: int| 1 <= k < m && l == #[trigger] sample_loc(g, cx, cy, dvx, dvy, k)
}

/// Extending the sampled prefix keeps every already-sampled cell sampled.
pub proof fn lemma_from_ray_mono(
    g: WorldGrid,
    cx: int,
    cy: int,
    dvx: int,
    dvy: int,
    m0: int,
    m: int,
    l: GridLocation,
)
    requires
        m0 <= m,
        from_ray(g, cx, cy, dvx, dvy, m0, l),
    ensures
        from_ray(g, cx, cy, dvx, dvy, m, l),
{
    let k = choose|k: int| 1 <= k < m0 && l == #[trigger] sample_loc(g, cx, cy, dvx, dvy, k);
    assert(1 <= k < m && l == sample_loc(g, cx, cy, dvx, dvy, k));
}

/// What `get_cells_in_direction` returns: there is a sample count `m` such
/// that samples `1..m` are clean, sampling stopped at `m` only for the full
/// ray length or because sample `m` left the world or hit terrain, and the
/// result lists exactly the distinct cells of the clean samples, the
/// origin's own cell excluded.
pub open spec fn ray_result_ok(
    g: WorldGrid,
    origin: Rect,
    direction: int,
    ray_length: int,
    m: int,
    res: Seq<GridLocation>,
) -> bool {
    let cx = rect_center_x(origin);
    let cy = rect_center_y(origin);
    let step = ray_step_s(g);
    let dvx = mul_fp_s(cos_approx(direction), step);
    let dvy = mul_fp_s(sin_approx(direction), step);
    let steps = ray_steps_s(g, ray_length);
    let oloc = loc_at(g.cell_width as int, g.cell_height as int, cx, cy);
    &&& 1 <= m <= (if steps < 1 {
        1int
    } else {
        steps
    })
    &&& forall|k: int| 1 <= k < m ==> ray_clean(g, cx, cy, dvx, dvy, k)
    &&& (m < steps ==> !ray_clean(g, cx, cy, dvx, dvy, m))
    &&& forall|k: int| 1 <= k < m ==> (sample_loc(g, cx, cy, dvx, dvy, k) != oloc
        ==> res.contains(sample_loc(g, cx, cy, dvx, dvy, k)))
    &&& forall|j: int| 0 <= j < res.len() ==> {
        &&& #[trigger] res[j] != oloc
        &&& loc_valid(res[j])
        &&& g.cells@[loc_index_s(res[j])].cell_type != CellType::Terrain
        &&& from_ray(g, cx, cy, dvx, dvy, m, res[j])
    }
    &&& forall|j1: int, j2: int| #![trigger res[j1], res[j2]] 0 <= j1 < j2 < res.len() ==> res[j1] != res[j2]
}

/// Whether the vector holds the given location.
fn contains_loc(v: &Vec<GridLocation>, l: GridLocation) -> (r: bool)
    ensures
        r == v@.contains(l),
{
    let n = v.len();
    let mut i: usize = 0;
    while i < n
        invariant
            i <= n,
            n == v@.len(),
            forall|j: int| 0 <= j < i ==> v@[j] != l,
        decreases n - i,
    {
        if v[i] == l {
            proof {
                assert(v@.contains(l));
            }
            return true;
        }
        i += 1;
    }
    proof {
        if v@.contains(l) {
            let w = choose|w: int| 0 <= w < v@.len() && v@[w] == l;
            assert(false);
        }
    }
    false
}

impl WorldGrid {
    /// Returns a list of grid locations along a ray projected in a given
    /// direction, up to the given length: the distinct cells of the sample
    /// points, excluding the origin's own cell, cut short where the ray
    /// leaves the world or meets terrain.
    pub fn get_cells_in_direction(&self, origin: &Rect, direction: i64, ray_length: i64) -> (res:
        Vec<GridLocation>)
        requires
            self.wf(),
            angle_in_range(direction as int),
            0 <= ray_length <= 0x4000_0000,
            point_in_box(rect_center_x(*origin), rect_center_y(*origin), self.bounding_box),
            0 <= origin.w,
            0 <= origin.h,
            -0x2000_0000_0000 <= origin.x,
            -0x2000_0000_0000 <= origin.y,
            origin.x + origin.w <= 0x2000_0000_0000,
            origin.y + origin.h <= 0x2000_0000_0000,
        ensures
            exists|m: int| ray_result_ok(*self, *origin, direction as int, ray_length as int, m, res@),
            forall|j: int| 0 <= j < res@.len() ==> loc_valid(#[trigger] res@[j]),
    {
        let (cx, cy) = origin.center();
        let oloc = match self.get_grid_location(cx, cy) {
            Option::Some(l) => l,
            Option::None => {
                proof {
                    assert(false);
                }
                return Vec::new();
            },
        };
        let smaller: i64 = if self.cell_width <= self.cell_height {
            self.cell_width
        } else {
            self.cell_height
        };
        let step: i64 = smaller / 2 - 1;
        proof {
            assert(step == ray_step_s(*self));
            assert(3 <= step <= 0x2000_0000);
        }
        let steps: i64 = ray_length / step + (if ray_length % step == 0 {
            0
        } else {
            1
        });
        proof {
            vstd::arithmetic::div_mod::lemma_div_pos_is_pos(ray_length as int, step as int);
            assert(steps == ray_steps_s(*self, ray_length as int));
        }
        let cos_v = cos_fp(direction);
        let sin_v = sin_fp(direction);
        let dvx = mul_fp(cos_v, step);
        let dvy = mul_fp(sin_v, step);
        proof {
            crate::fixed::lemma_mul_fp_s_bound(cos_v as int, step as int, SCALE as int, step as int);
            crate::fixed::lemma_mul_fp_s_bound(sin_v as int, step as int, SCALE as int, step as int);
            vstd::arithmetic::div_mod::lemma_div_multiples_vanish(step as int, SCALE as int);
            assert(abs_i(dvx as int) <= step && abs_i(dvy as int) <= step);
        }
        let mut results: Vec<GridLocation> = Vec::new();
        let mut px = cx;
        let mut py = cy;
        let mut k: i64 = 1;
        let mut done: bool = false;
        let ghost mut m: int = 1;
        let ghost gcx: int = cx as int;
        let ghost gcy: int = cy as int;
        let ghost gdvx: int = dvx as int;
        let ghost gdvy: int = dvy as int;
        while k < steps && !done
            invariant
                self.wf(),
                1 <= k,
                k <= steps || k == 1,
                1 <= m,
                m <= k,
                steps == ray_steps_s(*self, ray_length as int),
                gdvx == mul_fp_s(cos_approx(direction as int), ray_step_s(*self)),
                gdvy == mul_fp_s(sin_approx(direction as int), ray_step_s(*self)),
                abs_i(gdvx) <= 0x2000_0000,
                abs_i(gdvy) <= 0x2000_0000,
                gcx == rect_center_x(*origin),
                gcy == rect_center_y(*origin),
                dvx == gdvx,
                dvy == gdvy,
                oloc == loc_at(self.cell_width as int, self.cell_height as int, gcx, gcy),
                !done ==> m == k,
                !done ==> px == sample_coord(gcx, gdvx, k - 1) && py == sample_coord(
                    gcy,
                    gdvy,
                    k - 1,
                ) && point_in_box(px as int, py as int, self.bounding_box),
                done ==> !ray_clean(*self, gcx, gcy, gdvx, gdvy, m) && m < steps,
                forall|j: int| 1 <= j < m ==> ray_clean(*self, gcx, gcy, gdvx, gdvy, j),
                forall|j: int| 1 <= j < m ==> (sample_loc(*self, gcx, gcy, gdvx, gdvy, j) != oloc
                    ==> results@.contains(sample_loc(*self, gcx, gcy, gdvx, gdvy, j))),
                forall|j: int| 0 <= j < results@.len() ==> #[trigger] results@[j] != oloc,
                forall|j: int| 0 <= j < results@.len() ==> loc_valid(#[trigger] results@[j]),
                forall|j: int| 0 <= j < results@.len() ==> self.cells@[loc_index_s(
                    #[trigger] results@[j],
                )].cell_type != CellType::Terrain,
                forall|j: int| 0 <= j < results@.len() ==> from_ray(
                    *self,
                    gcx,
                    gcy,
                    gdvx,
                    gdvy,
                    m,
                    #[trigger] results@[j],
                ),
                forall|j1: int, j2: int| #![trigger results@[j1], results@[j2]] 0 <= j1 < j2
                    < results@.len() ==> results@[j1] != results@[j2],
            decreases steps - k + (if done {
                0int
            } else {
                1int
            }),
        {
            proof {
                assert(k as int * gdvx == (k - 1) as int * gdvx + gdvx) by (nonlinear_arith);
                assert(k as int * gdvy == (k - 1) as int * gdvy + gdvy) by (nonlinear_arith);
            }
            px = px + dvx;
            py = py + dvy;
            if px < 0 || px >= self.bounding_box.w || py < 0 || py >= self.bounding_box.h {
                done = true;
            } else {
                let loc = match self.get_grid_location(px, py) {
                    Option::Some(l) => l,
                    Option::None => {
                        proof {
                            assert(false);
                        }
                        return results;
                    },
                };
                let cell = self.get_cell_for_loc(loc);
                if *cell.cell_type() == CellType::Terrain {
                    // can't see/smell past terrain
                    done = true;
                } else {
                    let ghost m0 = m;
                    let ghost r0 = results@;
                    proof {
                        assert(px == sample_coord(gcx, gdvx, k as int) && py == sample_coord(
                            gcy,
                            gdvy,
                            k as int,
                        ));
                        assert(loc == sample_loc(*self, gcx, gcy, gdvx, gdvy, k as int));
                    }
                    if loc != oloc && !contains_loc(&results, loc) {
                        results.push(loc);
                        proof {
                            assert forall|x: GridLocation| r0.contains(x) implies results@.contains(
                                x,
                            ) by {
                                let w = choose|w: int| 0 <= w < r0.len() && r0[w] == x;
                                assert(results@[w] == x);
                            }
                            assert(results@[r0.len() as int] == loc);
                            assert(results@.contains(loc));
                        }
                    }
                    k = k + 1;
                    proof {
                        m = k as int;
                        assert forall|j: int| 0 <= j < results@.len() implies from_ray(
                            *self,
                            gcx,
                            gcy,
                            gdvx,
                            gdvy,
                            m,
                            #[trigger] results@[j],
                        ) by {
                            if j < r0.len() {
                                assert(results@[j] == r0[j]);
                                assert(from_ray(*self, gcx, gcy, gdvx, gdvy, m0, r0[j]));
                                lemma_from_ray_mono(*self, gcx, gcy, gdvx, gdvy, m0, m, r0[j]);
                            } else {
                                assert(results@[j] == loc);
                                assert(1 <= m0 < m && loc == sample_loc(
                                    *self,
                                    gcx,
                                    gcy,
                                    gdvx,
                                    gdvy,
                                    m0,
                                ));
                            }
                        }
                    }
                }
            }
        }
        proof {
            assert(ray_result_ok(
                *self,
                *origin,
                direction as int,
                ray_length as int,
                m,
                results@,
            ));
        }
        results
    }
}

/// Ray-cast terrain opacity: if the first unclean sample of a ray is a
/// terrain cell at index `t`, sampling stopped by `t`, so every returned
/// cell comes from a sample strictly before the terrain hit.
pub proof fn lemma_ray_terrain_opaque(
    g: WorldGrid,
    origin: Rect,
    direction: int,
    ray_length: int,
    m: int,
    res: Seq<GridLocation>,
    t: int,
)
    requires
        ray_result_ok(g, origin, direction, ray_length, m, res),
        1 <= t,
        !ray_clean(
            g,
            rect_center_x(origin),
            rect_center_y(origin),
            mul_fp_s(cos_approx(direction), ray_step_s(g)),
            mul_fp_s(sin_approx(direction), ray_step_s(g)),
            t,
        ),
    ensures
        m <= t,
        forall|j: int| 0 <= j < res.len() ==> from_ray(
            g,
            rect_center_x(origin),
            rect_center_y(origin),
            mul_fp_s(cos_approx(direction), ray_step_s(g)),
            mul_fp_s(sin_approx(direction), ray_step_s(g)),
            t + 1,
            #[trigger] res[j],
        ),
{
    let cx = rect_center_x(origin);
    let cy = rect_center_y(origin);
    let dvx = mul_fp_s(cos_approx(direction), ray_step_s(g));
    let dvy = mul_fp_s(sin_approx(direction), ray_step_s(g));
    if t < m {
        assert(ray_clean(g, cx, cy, dvx, dvy, t));
    }
    assert forall|j: int| 0 <= j < res.len() implies from_ray(
        g,
        cx,
        cy,
        dvx,
        dvy,
        t + 1,
        #[trigger] res[j],
    ) by {
        lemma_from_ray_mono(g, cx, cy, dvx, dvy, m, t + 1, res[j]);
    }
}

/// Whether a location lies in the square painting window around an origin
/// cell (two cells in each direction, clipped to the world).
pub open spec fn in_window(o: GridLocation, l: GridLocation) -> bool {
    &&& -2 <= l.r - o.r <= 2
    &&& -2 <= l.c - o.c <= 2
}

/// The window slot index of a location relative to an origin cell: row
/// offsets are ranked before column offsets.
pub open spec fn window_rank(o: GridLocation, l: GridLocation) -> int {
    (l.r - o.r + 2) * 5 + (l.c - o.c + 2)
}

impl WorldGrid {
    /// Paints cells of the given type around the world-space point `(x, y)`:
    /// every cell within two rows and two columns of the point's cell is
    /// overwritten, its pheromones of both types cleared, and — when food is
    /// painted — registered as a food cell and seeded with a locked
    /// anchor scent. A point outside the world paints nothing.
    pub fn spawn_cells(&mut self, x: i64, y: i64, cell_type: CellType)
        requires
            old(self).wf(),
            -0x4000_0000_0000 <= x <= 0x4000_0000_0000,
            -0x4000_0000_0000 <= y <= 0x4000_0000_0000,
        ensures
            final(self).wf(),
            final(self).bounding_box == old(self).bounding_box,
            final(self).cell_width == old(self).cell_width,
            final(self).cell_height == old(self).cell_height,
            final(self).food_collected == old(self).food_collected,
            !point_in_box(x as int, y as int, old(self).bounding_box) ==> *final(self) == *old(self),
            point_in_box(x as int, y as int, old(self).bounding_box) ==> {
                let o = loc_at(old(self).cell_width as int, old(self).cell_height as int, x as int, y as int);
                forall|i: int| 0 <= i < GRID_AREA ==> if in_window(o, idx_loc(i)) {
                    &&& (#[trigger] final(self).cells@[i]) == (WorldCell {
                        cell_type,
                        rect: rect_for(
                            old(self).cell_width as int,
                            old(self).cell_height as int,
                            idx_loc(i),
                        ),
                        loc: idx_loc(i),
                    })
                    &&& final(self).home_pheromones.entries@[i] is None
                    &&& final(self).food_pheromones.entries@[i] == (if is_food(cell_type) {
                        Option::Some(final(self).anchor_ph(PheromoneType::Food, i))
                    } else {
                        Option::<Pheromone>::None
                    })
                    &&& final(self).food_cells@[i] == is_food(cell_type)
                } else {
                    &&& (#[trigger] final(self).cells@[i]) == old(self).cells@[i]
                    &&& final(self).home_pheromones.entries@[i] == old(self).home_pheromones.entries@[i]
                    &&& final(self).food_pheromones.entries@[i] == old(self).food_pheromones.entries@[i]
                    &&& final(self).food_cells@[i] == old(self).food_cells@[i]
                }
            },
    {
        let origin = match self.get_grid_location(x, y) {
            Option::Some(loc) => loc,
            Option::None => {
                return ;  // point is outside the grid (eg after resizing window), no-op
            },
        };
        let ghost o = origin;
        let mut k: usize = 0;
        while k < 25
            invariant
                self.wf(),
                k <= 25,
                self.bounding_box == old(self).bounding_box,
                self.cell_width == old(self).cell_width,
                self.cell_height == old(self).cell_height,
                self.food_collected == old(self).food_collected,
                loc_valid(o),
                origin == o,
                forall|i: int| 0 <= i < GRID_AREA ==> if in_window(o, idx_loc(i)) && window_rank(
                    o,
                    idx_loc(i),
                ) < k {
                    &&& (#[trigger] self.cells@[i]) == (WorldCell {
                        cell_type,
                        rect: rect_for(
                            old(self).cell_width as int,
                            old(self).cell_height as int,
                            idx_loc(i),
                        ),
                        loc: idx_loc(i),
                    })
                    &&& self.home_pheromones.entries@[i] is None
                    &&& self.food_pheromones.entries@[i] == (if is_food(cell_type) {
                        Option::Some(self.anchor_ph(PheromoneType::Food, i))
                    } else {
                        Option::<Pheromone>::None
                    })
                    &&& self.food_cells@[i] == is_food(cell_type)
                } else {
                    &&& (#[trigger] self.cells@[i]) == old(self).cells@[i]
                    &&& self.home_pheromones.entries@[i] == old(self).home_pheromones.entries@[i]
                    &&& self.food_pheromones.entries@[i] == old(self).food_pheromones.entries@[i]
                    &&& self.food_cells@[i] == old(self).food_cells@[i]
                },
            decreases 25 - k,
        {
            let dr: i64 = (k as i64) / 5 - 2;
            let dc: i64 = (k as i64) % 5 - 2;
            let r_i: i64 = origin.r as i64 + dr;
            let c_i: i64 = origin.c as i64 + dc;
            proof {
                vstd::arithmetic::div_mod::lemma_fundamental_div_mod(k as int, 5);
                vstd::arithmetic::div_mod::lemma_mod_division_less_than_divisor(k as int, 5);
                vstd::arithmetic::div_mod::lemma_div_pos_is_pos(k as int, 5);
                vstd::arithmetic::div_mod::lemma_div_is_ordered(k as int, 24, 5);
                assert(-2 <= dr <= 2 && -2 <= dc <= 2);
            }
            // bounds check in case we're spawning next to world edges
            if r_i >= 0 && r_i < GRID_HEIGHT as i64 && c_i >= 0 && c_i < GRID_WIDTH as i64 {
                let loc = GridLocation { r: r_i as usize, c: c_i as usize };
                let idx = loc_index(loc);
                proof {
                    assert(in_window(o, loc) && window_rank(o, loc) == k);
                }
                // clear existing pheromones
                self.food_pheromones.entries.set(idx, Option::None);
                self.home_pheromones.entries.set(idx, Option::None);
                let rect = self.get_rect_from_loc(loc);
                self.cells.set(idx, WorldCell { cell_type, rect, loc });
                if let CellType::Food(_) = cell_type {
                    // food must be tracked at the grid level and carry an
                    // anchor scent so ants can find it immediately
                    self.food_cells.set(idx, true);
                    let ph = Pheromone::new(
                        SPECIAL_PHEROMONE_INTENSITY,
                        PheromoneType::Food,
                        rect,
                        true,
                    );
                    self.food_pheromones.entries.set(idx, Option::Some(ph));
                } else {
                    self.food_cells.set(idx, false);
                }
                proof {
                    assert forall|i: int| 0 <= i < GRID_AREA && i != idx implies idx_loc(i) != loc by {
                        lemma_idx_loc_valid(i);
                    }
                    assert forall|i: int|
                        0 <= i < GRID_AREA && in_window(o, idx_loc(i)) && window_rank(
                            o,
                            idx_loc(i),
                        ) == k as int implies i == idx by {
                        lemma_idx_loc_valid(i);
                        let l2 = idx_loc(i);
                        assert(l2.r - o.r == dr && l2.c - o.c == dc) by (nonlinear_arith)
                            requires
                                window_rank(o, l2) == k,
                                in_window(o, l2),
                                dr == k as int / 5 - 2,
                                dc == k as int % 5 - 2,
                                k as int == 5 * (k as int / 5) + k as int % 5,
                                0 <= k as int % 5 < 5,
                        ;
                    }
                }
            } else {
                proof {
                    assert forall|i: int|
                        0 <= i < GRID_AREA && in_window(o, idx_loc(i)) implies window_rank(
                        o,
                        idx_loc(i),
                    ) != k as int by {
                        lemma_idx_loc_valid(i);
                        let l2 = idx_loc(i);
                        if window_rank(o, l2) == k as int {
                            assert(l2.r - o.r == dr && l2.c - o.c == dc) by (nonlinear_arith)
                                requires
                                    window_rank(o, l2) == k,
                                    in_window(o, l2),
                                    dr == k as int / 5 - 2,
                                    dc == k as int % 5 - 2,
                                    k as int == 5 * (k as int / 5) + k as int % 5,
                                    0 <= k as int % 5 < 5,
                            ;
                        }
                    }
                }
            }
            k += 1;
        }
        proof {
            assert forall|i: int| 0 <= i < GRID_AREA && in_window(o, idx_loc(i)) implies window_rank(
                o,
                idx_loc(i),
            ) < 25 by {
                lemma_idx_loc_valid(i);
            }
        }
    }
}

/// A cell rectangle's coordinates stay comfortably inside `i64`.
pub proof fn lemma_rect_for_bounds(cw: int, ch: int, l: GridLocation)
    requires
        8 <= cw,
        8 <= ch,
        cw * (GRID_WIDTH as int) <= 0x4000_0000,
        ch * (GRID_HEIGHT as int) <= 0x4000_0000,
        loc_valid(l),
    ensures
        0 <= l.c * cw,
        0 <= l.r * ch,
        l.c * cw + cw <= 0x4000_0000,
        l.r * ch + ch <= 0x4000_0000,
        rect_for(cw, ch, l).x == l.c * cw,
        rect_for(cw, ch, l).y == l.r * ch,
{
    assert(0 <= l.c * cw && l.c * cw + cw <= cw * (GRID_WIDTH as int)) by (nonlinear_arith)
        requires
            0 <= l.c < GRID_WIDTH,
            8 <= cw,
    ;
    assert(0 <= l.r * ch && l.r * ch + ch <= ch * (GRID_HEIGHT as int)) by (nonlinear_arith)
        requires
            0 <= l.r < GRID_HEIGHT,
            8 <= ch,
    ;
}

/// The center of a cell's rectangle maps back to that cell, and lies
/// inside the world.
pub proof fn lemma_cell_center_loc(cw: int, ch: int, l: GridLocation)
    requires
        8 <= cw,
        8 <= ch,
        cw * (GRID_WIDTH as int) <= 0x4000_0000,
        ch * (GRID_HEIGHT as int) <= 0x4000_0000,
        loc_valid(l),
    ensures
        0 <= rect_center_x(rect_for(cw, ch, l)) < cw * (GRID_WIDTH as int),
        0 <= rect_center_y(rect_for(cw, ch, l)) < ch * (GRID_HEIGHT as int),
        loc_at(cw, ch, rect_center_x(rect_for(cw, ch, l)), rect_center_y(rect_for(cw, ch, l))) == l,
{
    lemma_rect_for_bounds(cw, ch, l);
    let r = rect_for(cw, ch, l);
    let cx = rect_center_x(r);
    let cy = rect_center_y(r);
    vstd::arithmetic::div_mod::lemma_div_pos_is_pos(cw, 2);
    vstd::arithmetic::div_mod::lemma_div_pos_is_pos(ch, 2);
    vstd::arithmetic::div_mod::lemma_div_is_ordered(cw, 2 * cw - 1, 2);
    vstd::arithmetic::div_mod::lemma_div_is_ordered(ch, 2 * ch - 1, 2);
    assert(cx == l.c * cw + cw / 2);
    assert(cy == l.r * ch + ch / 2);
    assert(cw / 2 < cw && ch / 2 < ch) by {
        vstd::arithmetic::div_mod::lemma_fundamental_div_mod(cw, 2);
        vstd::arithmetic::div_mod::lemma_fundamental_div_mod(ch, 2);
    }
    vstd::arithmetic::div_mod::lemma_div_multiples_vanish_fancy(l.c as int, cw / 2, cw);
    vstd::arithmetic::div_mod::lemma_div_multiples_vanish_fancy(l.r as int, ch / 2, ch);
    assert(cw * l.c == l.c * cw && ch * l.r == l.r * ch) by (nonlinear_arith);
    assert(l.c * cw + cw / 2 < cw * (GRID_WIDTH as int)) by (nonlinear_arith)
        requires
            0 <= l.c < GRID_WIDTH,
            8 <= cw,
            cw / 2 < cw,
    ;
    assert(l.r * ch + ch / 2 < ch * (GRID_HEIGHT as int)) by (nonlinear_arith)
        requires
            0 <= l.r < GRID_HEIGHT,
            8 <= ch,
            ch / 2 < ch,
    ;
}

/// How one pheromone deposit relates the grid before it to the grid after
/// it: the slot of the matching field at the cell under the pheromone's
/// footprint center is updated by the reinforcement rule; everything else
/// is untouched.
pub open spec fn deposited_rel(g0: WorldGrid, pheromone: Pheromone, g1: WorldGrid) -> bool {
    let l = loc_at(
        g0.cell_width as int,
        g0.cell_height as int,
        rect_center_x(pheromone.rect),
        rect_center_y(pheromone.rect),
    );
    let i = loc_index_s(l);
    &&& g1.cells == g0.cells
    &&& g1.food_cells == g0.food_cells
    &&& g1.bounding_box == g0.bounding_box
    &&& g1.cell_width == g0.cell_width
    &&& g1.cell_height == g0.cell_height
    &&& g1.food_collected == g0.food_collected
    &&& match pheromone.pheromone_type {
        PheromoneType::Food => {
            &&& g1.food_pheromones.entries@ == g0.food_pheromones.entries@.update(
                i,
                crate::pheromone::deposit_slot(g0.food_pheromones.entries@[i], pheromone),
            )
            &&& g1.home_pheromones == g0.home_pheromones
        },
        PheromoneType::Home => {
            &&& g1.home_pheromones.entries@ == g0.home_pheromones.entries@.update(
                i,
                crate::pheromone::deposit_slot(g0.home_pheromones.entries@[i], pheromone),
            )
            &&& g1.food_pheromones == g0.food_pheromones
        },
    }
}

/// How one applied cell visit relates the grid before it to the grid
/// after it: picking food up counts the cell's supply down — the last
/// unit empties the cell and clears its food scent and food-index entry —
/// dropping food off raises the colony tally, and anything else changes
/// nothing.
pub open spec fn visited_rel(
    g0: WorldGrid,
    loc: GridLocation,
    action: Option<AntActionTaken>,
    g1: WorldGrid,
) -> bool {
    &&& g1.bounding_box == g0.bounding_box
    &&& g1.cell_width == g0.cell_width
    &&& g1.cell_height == g0.cell_height
    &&& g1.home_pheromones == g0.home_pheromones
    &&& g1.cells@.len() == g0.cells@.len()
    &&& ((action is None || action == Some(AntActionTaken::HitTerrain)) ==> g1 == g0)
    &&& (action == Some(AntActionTaken::DroppedOffFood) ==> {
        &&& g1.cells == g0.cells
        &&& g1.food_pheromones == g0.food_pheromones
        &&& g1.food_cells == g0.food_cells
        &&& g1.food_collected == (if g0.food_collected < u64::MAX {
            g0.food_collected + 1
        } else {
            g0.food_collected as int
        })
    })
    &&& (action == Some(AntActionTaken::PickedUpFood) ==> {
        let i = loc_index_s(loc);
        &&& g1.food_collected == g0.food_collected
        &&& match g0.cells@[i].cell_type {
            CellType::Food(n) => if n > 1 {
                &&& g1.cells@ == g0.cells@.update(
                    i,
                    WorldCell { cell_type: CellType::Food((n - 1) as u32), ..g0.cells@[i] },
                )
                &&& g1.food_pheromones == g0.food_pheromones
                &&& g1.food_cells == g0.food_cells
            } else {
                &&& g1.cells@ == g0.cells@.update(
                    i,
                    WorldCell { cell_type: CellType::Empty, ..g0.cells@[i] },
                )
                &&& g1.food_pheromones.entries@ == g0.food_pheromones.entries@.update(
                    i,
                    Option::<Pheromone>::None,
                )
                &&& g1.food_cells@ == g0.food_cells@.update(i, false)
            },
            _ => g1 == g0,
        }
    })
}

/// Dividing a point coordinate by the cell extent and dividing its
/// grid-scaled form by the world extent agree.
pub proof fn lemma_scaled_div(x: int, cw: int, n: int)
    requires
        0 <= x,
        0 < cw,
        0 < n,
    ensures
        (x * n) / (cw * n) == x / cw,
{
    assert(0 <= x * n) by (nonlinear_arith)
        requires
            0 <= x,
            0 < n,
    ;
    vstd::arithmetic::div_mod::lemma_div_denominator(x * n, n, cw);
    assert((x * n) / n == x) by {
        vstd::arithmetic::div_mod::lemma_div_multiples_vanish(x, n);
        assert(n * x == x * n) by (nonlinear_arith);
    }
    assert(n * cw == cw * n) by (nonlinear_arith);
}

} // verus!
