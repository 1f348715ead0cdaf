//! Grid, pheromone-field and cell-mutation behavior on concrete worlds.

use antsim::ant::AntActionTaken;
use antsim::grid::{CellType, GridLocation, WorldGrid, FOOD_CONSUMPTION_LIMIT, GRID_AREA};
use antsim::pheromone::{
    Pheromone, PheromoneType, Pheromones, PHEROMONE_INTENSITY_MAX_FP, SPECIAL_PHEROMONE_INTENSITY,
};

const SCREEN: i64 = 0x400_0000; // 1024 pixels in fixed point

fn empty_grid() -> WorldGrid {
    WorldGrid::new(&Vec::new(), SCREEN, SCREEN)
}

fn cell_center(g: &WorldGrid, loc: GridLocation) -> (i64, i64) {
    let r = g.get_rect_from_loc(loc);
    (r.x + r.w / 2, r.y + r.h / 2)
}

#[test]
fn grid_new_seeds_home_anchors() {
    let home = vec![GridLocation::new(10, 20), GridLocation::new(11, 20)];
    let g = WorldGrid::new(&home, SCREEN, SCREEN);
    let idx = 20 * 150 + 10;
    match g.cells[idx].cell_type() {
        CellType::Home => {}
        other => panic!("expected home cell, got {:?}", other),
    }
    let ph = g.home_pheromones.entries[idx].expect("anchor scent expected");
    assert_eq!(ph.intensity(), SPECIAL_PHEROMONE_INTENSITY);
    assert!(ph.locked_intensity());
    assert!(!ph.decayed());
    // no food anywhere
    assert!(g.food_pheromones.entries.iter().all(|e| e.is_none()));
    assert_eq!(g.food_collected, 0);
}

#[test]
fn loc_from_coords_bounds() {
    assert_eq!(GridLocation::loc_from_coords(0, 0, SCREEN, SCREEN), Some(GridLocation::new(0, 0)));
    assert_eq!(GridLocation::loc_from_coords(-1, 0, SCREEN, SCREEN), None);
    assert_eq!(GridLocation::loc_from_coords(0, SCREEN, SCREEN, SCREEN), None);
    let l = GridLocation::loc_from_coords(SCREEN - 1, SCREEN - 1, SCREEN, SCREEN).unwrap();
    assert_eq!((l.r, l.c), (149, 199));
}

#[test]
fn decay_monotone_and_sweep() {
    // a decay step shrinks an unlocked pheromone; enough steps remove it.
    let mut g = empty_grid();
    let loc = GridLocation::new(5, 5);
    let ph = g.create_pheromone_for_loc(loc, PheromoneType::Home, 65536, false);
    g.deposit_pheromone(ph);
    let idx = 5 * 150 + 5;
    let before = g.home_pheromones.entries[idx].unwrap().intensity();
    g.tick(6554); // a tenth of a second
    let after = g.home_pheromones.entries[idx].unwrap().intensity();
    assert!(after < before);
    // repeated decay eventually removes the entry entirely
    for _ in 0..400 {
        g.tick(65536);
    }
    assert!(g.home_pheromones.entries[idx].is_none());
}

#[test]
fn locked_pheromones_never_decay() {
    // anchor scent is untouched by any number of decay steps.
    let mut g = empty_grid();
    let loc = GridLocation::new(7, 9);
    let ph = g.create_pheromone_for_loc(loc, PheromoneType::Food, SPECIAL_PHEROMONE_INTENSITY, true);
    g.deposit_pheromone(ph);
    let idx = 9 * 150 + 7;
    for _ in 0..200 {
        g.tick(65536);
    }
    let kept = g.food_pheromones.entries[idx].expect("anchor must survive");
    assert_eq!(kept.intensity(), SPECIAL_PHEROMONE_INTENSITY);
    assert!(!kept.decayed());
}

#[test]
fn reinforcement_keeps_one_entry() {
    // many deposits at one location never exceed one entry there.
    let mut g = empty_grid();
    let loc = GridLocation::new(30, 40);
    for _ in 0..50 {
        let ph = g.create_pheromone_for_loc(loc, PheromoneType::Home, 65536, false);
        g.deposit_pheromone(ph);
    }
    let occupied = g.home_pheromones.entries.iter().filter(|e| e.is_some()).count();
    assert_eq!(occupied, 1);
    let idx = 40 * 150 + 30;
    let folded = g.home_pheromones.entries[idx].unwrap();
    // intensities folded additively (well below the cap here)
    assert_eq!(folded.intensity(), 50 * 65536);
}

#[test]
fn reinforcement_caps_intensity() {
    let mut g = empty_grid();
    let loc = GridLocation::new(3, 4);
    for _ in 0..2000 {
        let ph = g.create_pheromone_for_loc(loc, PheromoneType::Home, 65536000, false);
        g.deposit_pheromone(ph);
    }
    let idx = 4 * 150 + 3;
    assert_eq!(g.home_pheromones.entries[idx].unwrap().intensity(), PHEROMONE_INTENSITY_MAX_FP);
}

#[test]
fn locked_pheromones_resist_overwrite() {
    // depositing onto a locked entry leaves its intensity unchanged.
    let mut g = empty_grid();
    let loc = GridLocation::new(12, 13);
    let anchor = g.create_pheromone_for_loc(loc, PheromoneType::Food, SPECIAL_PHEROMONE_INTENSITY, true);
    g.deposit_pheromone(anchor);
    let extra = g.create_pheromone_for_loc(loc, PheromoneType::Food, 65536, false);
    g.deposit_pheromone(extra);
    let idx = 13 * 150 + 12;
    let kept = g.food_pheromones.entries[idx].unwrap();
    assert_eq!(kept.intensity(), SPECIAL_PHEROMONE_INTENSITY);
    assert!(kept.locked_intensity());
}

#[test]
fn food_depletion() {
    // pickups count food down; the last unit empties the cell and
    // clears its scent and its food-index entry.
    let mut g = empty_grid();
    let loc = GridLocation::new(50, 60);
    let (x, y) = cell_center(&g, loc);
    g.spawn_cells(x, y, CellType::Food(2));
    let idx = 60 * 150 + 50;
    assert_eq!(*g.cells[idx].cell_type(), CellType::Food(2));
    assert!(g.food_cells[idx]);
    assert!(g.food_pheromones.entries[idx].unwrap().locked_intensity());

    g.visit_cell(loc, Some(AntActionTaken::PickedUpFood));
    assert_eq!(*g.cells[idx].cell_type(), CellType::Food(1));
    assert!(g.food_pheromones.entries[idx].is_some());

    g.visit_cell(loc, Some(AntActionTaken::PickedUpFood));
    assert_eq!(*g.cells[idx].cell_type(), CellType::Empty);
    assert!(g.food_pheromones.entries[idx].is_none());
    assert!(!g.food_cells[idx]);
}

#[test]
fn dropped_off_food_raises_tally() {
    let mut g = empty_grid();
    let loc = GridLocation::new(1, 1);
    g.visit_cell(loc, Some(AntActionTaken::DroppedOffFood));
    g.visit_cell(loc, Some(AntActionTaken::DroppedOffFood));
    assert_eq!(g.food_collected, 2);
    g.visit_cell(loc, Some(AntActionTaken::HitTerrain));
    g.visit_cell(loc, None);
    assert_eq!(g.food_collected, 2);
}

#[test]
fn paint_outside_world_is_noop() {
    let mut g = empty_grid();
    let before_cells = g.cells.clone();
    g.spawn_cells(-5, 100, CellType::Terrain);
    g.spawn_cells(100, SCREEN + 5, CellType::Terrain);
    assert!(g.cells == before_cells);
}

#[test]
fn paint_window_and_food_tracking() {
    let mut g = empty_grid();
    let loc = GridLocation::new(75, 100);
    let (x, y) = cell_center(&g, loc);
    g.spawn_cells(x, y, CellType::Food(FOOD_CONSUMPTION_LIMIT));
    let mut painted = 0;
    for idx in 0..GRID_AREA {
        if *g.cells[idx].cell_type() == CellType::Food(FOOD_CONSUMPTION_LIMIT) {
            painted += 1;
            assert!(g.food_cells[idx]);
            let ph = g.food_pheromones.entries[idx].unwrap();
            assert!(ph.locked_intensity());
            assert_eq!(ph.intensity(), SPECIAL_PHEROMONE_INTENSITY);
        } else {
            assert!(!g.food_cells[idx]);
        }
    }
    assert_eq!(painted, 25); // a five-by-five window
}

#[test]
fn ray_cast_stops_at_terrain() {
    // no cell past a terrain wall is returned, and no terrain cell is.
    let mut g = empty_grid();
    let wall = GridLocation::new(75, 110);
    let (wx, wy) = cell_center(&g, wall);
    g.spawn_cells(wx, wy, CellType::Terrain);
    let origin_loc = GridLocation::new(75, 100);
    let origin = g.get_rect_from_loc(origin_loc);
    // a ray pointing to the right, long enough to pass the wall
    let cells = g.get_cells_in_direction(&origin, 0, 30 * g.cell_width);
    assert!(!cells.is_empty());
    for l in &cells {
        assert!(*g.cells[l.c * 150 + l.r].cell_type() != CellType::Terrain);
        assert!(l.c < 108, "cell beyond the terrain wall: {:?}", (l.r, l.c));
        assert!(!(l.r == origin_loc.r && l.c == origin_loc.c));
    }
}

#[test]
fn ray_cast_reaches_radius_without_terrain() {
    let g = empty_grid();
    let origin_loc = GridLocation::new(75, 100);
    let origin = g.get_rect_from_loc(origin_loc);
    let cells = g.get_cells_in_direction(&origin, 0, 10 * g.cell_width);
    // walks several distinct cells to the right along the row
    assert!(cells.len() >= 5);
    for l in &cells {
        assert_eq!(l.r, 75);
        assert!(l.c > 100 && l.c <= 112);
    }
}

#[test]
fn best_pheromone_in_view() {
    let mut g = empty_grid();
    // two scents ahead to the right: the stronger one wins
    let near = g.create_pheromone_for_loc(GridLocation::new(75, 103), PheromoneType::Food, 30000, false);
    let far = g.create_pheromone_for_loc(GridLocation::new(75, 106), PheromoneType::Food, 60000, false);
    g.deposit_pheromone(near);
    g.deposit_pheromone(far);
    let origin = g.get_rect_from_loc(GridLocation::new(75, 100));
    let found = g
        .pheromones(PheromoneType::Food)
        .get_pheromone_to_target(&g, &origin, 0, 15 * g.cell_width)
        .expect("a scent lies straight ahead");
    assert_eq!(found.intensity(), 60000);
}

#[test]
fn field_new_is_empty() {
    let f = Pheromones::new();
    assert_eq!(f.entries.len(), GRID_AREA);
    assert!(f.entries.iter().all(|e| e.is_none()));
}

#[test]
fn pheromone_getters_round_trip() {
    let g = empty_grid();
    let rect = g.get_rect_from_loc(GridLocation::new(2, 3));
    let p = Pheromone::new(777, PheromoneType::Home, rect, false);
    assert_eq!(p.intensity(), 777);
    assert!(!p.decayed());
    assert!(!p.locked_intensity());
    assert!(matches!(p.pheromone_type(), PheromoneType::Home));
    assert_eq!(*p.rect(), rect);
}
