//! Ant behavior and whole-simulation runs.

use antsim::ant::{Ant, AntState, TickDraws, ANT_HEIGHT_FP, ANT_PHEROMONE_BASE_INTENSITY_FP, ANT_WIDTH_FP};
use antsim::grid::{CellType, GridLocation, WorldGrid, GRID_AREA};
use antsim::pheromone::PheromoneType;
use antsim::rng::AntRng;
use antsim::sim::{init, world_step};
use antsim::util::{normalize_angle, Rect, PI_FP};

const SCREEN: i64 = 0x400_0000; // 1024 pixels in fixed point
const DT: i64 = 13107; // a fifth of a second

fn test_ant(grid: &WorldGrid, x: i64, y: i64, rotation: i64) -> Ant {
    Ant {
        rotation,
        rect: Rect {
            x: x - ANT_WIDTH_FP / 2,
            y: y - ANT_HEIGHT_FP / 2,
            w: ANT_WIDTH_FP,
            h: ANT_HEIGHT_FP,
        },
        move_speed: 6553600, // one hundred pixels per second
        distance_since_last_pheromone: 0,
        state: AntState::LookingForFood,
        pheromone_intensity: ANT_PHEROMONE_BASE_INTENSITY_FP,
        dt_since_last_update: 0,
        search_radius: grid.cell_width * 200 / 10,
        distance_between_pheromones: antsim::fixed::mul_fp(15073, grid.cell_width),
    }
}

#[test]
fn boundary_reflection_left_edge() {
    // crossing the left edge clamps the position to it and mirrors
    // the heading as normalize(pi - old).
    let grid = WorldGrid::new(&Vec::new(), SCREEN, SCREEN);
    let old_rotation = PI_FP; // walking straight left
    let mut ant = test_ant(&grid, ANT_WIDTH_FP / 2, SCREEN / 2, old_rotation);
    ant.walk_straight(grid.bounding_box(), 65536);
    assert_eq!(ant.rect.x, 0);
    assert_eq!(ant.rotation, normalize_angle(PI_FP - old_rotation));
}

#[test]
fn ant_picks_up_and_drops_food() {
    let mut grid = WorldGrid::new(&vec![GridLocation::new(75, 100)], SCREEN, SCREEN);
    let food_loc = GridLocation::new(75, 104);
    let food_rect = grid.get_rect_from_loc(food_loc);
    let (fx, fy) = (food_rect.x + food_rect.w / 2, food_rect.y + food_rect.h / 2);
    grid.spawn_cells(fx, fy, CellType::Food(10));

    // an ant standing on the food cell transitions to carrying
    let mut ant = test_ant(&grid, fx, fy, 0);
    ant.dt_since_last_update = 0;
    let draws = TickDraws { walk_offset: 0, bounce_flip: false };
    let (loc, _ph, action) = ant.tick(&grid, 1, draws);
    assert_eq!(ant.state(), AntState::CarryingFood);
    assert!(matches!(action, Some(antsim::ant::AntActionTaken::PickedUpFood)));
    grid.visit_cell(loc, action);

    // standing on a home cell drops the food off again
    let home_rect = grid.get_rect_from_loc(GridLocation::new(75, 100));
    let (hx, hy) = (home_rect.x + home_rect.w / 2, home_rect.y + home_rect.h / 2);
    let mut carrier = test_ant(&grid, hx, hy, 0);
    carrier.state = AntState::CarryingFood;
    let (loc2, _ph2, action2) = carrier.tick(&grid, 1, draws);
    assert_eq!(carrier.state(), AntState::LookingForFood);
    assert!(matches!(action2, Some(antsim::ant::AntActionTaken::DroppedOffFood)));
    let before = grid.food_collected;
    grid.visit_cell(loc2, action2);
    assert_eq!(grid.food_collected, before + 1);
}

#[test]
fn ant_bounces_off_terrain() {
    let mut grid = WorldGrid::new(&Vec::new(), SCREEN, SCREEN);
    let wall = GridLocation::new(75, 104);
    let wall_rect = grid.get_rect_from_loc(wall);
    grid.spawn_cells(wall_rect.x + wall_rect.w / 2, wall_rect.y + wall_rect.h / 2, CellType::Terrain);
    // start just left of the wall, walking right, long enough to enter it
    let start = grid.get_rect_from_loc(GridLocation::new(75, 101));
    let (sx, sy) = (start.x + start.w / 2, start.y + start.h / 2);
    let mut ant = test_ant(&grid, sx, sy, 0);
    ant.dt_since_last_update = 10000; // past the cooldown: retargets, then walks
    let draws = TickDraws { walk_offset: 0, bounce_flip: false };
    let mut hit = false;
    for _ in 0..40 {
        let (loc, _ph, action) = ant.tick(&grid, DT, draws);
        assert!(*grid.cells[loc.c * 150 + loc.r].cell_type() != CellType::Terrain);
        if matches!(action, Some(antsim::ant::AntActionTaken::HitTerrain)) {
            hit = true;
            assert_eq!(ant.state(), AntState::LookingForFood);
            break;
        }
    }
    assert!(hit, "the ant never reached the wall");
}

#[test]
fn ant_lays_trail_while_walking() {
    let mut grid = WorldGrid::new(&Vec::new(), SCREEN, SCREEN);
    let start = grid.get_rect_from_loc(GridLocation::new(75, 20));
    let (sx, sy) = (start.x + start.w / 2, start.y + start.h / 2);
    let mut ant = test_ant(&grid, sx, sy, 0);
    let draws = TickDraws { walk_offset: 0, bounce_flip: false };
    let mut deposits = 0;
    for _ in 0..30 {
        let (_loc, ph, _action) = ant.tick(&grid, DT, draws);
        if let Some(p) = ph {
            // a searching ant marks the way home
            assert!(matches!(p.pheromone_type(), PheromoneType::Home));
            assert!(!p.locked_intensity());
            deposits += 1;
            grid.deposit_pheromone(p);
        }
    }
    assert!(deposits > 3);
    let stored = grid.home_pheromones.entries.iter().filter(|e| e.is_some()).count();
    assert!(stored > 3);
}

#[test]
fn rng_draws_stay_in_range() {
    let mut rng = AntRng::new_seeded(7);
    for _ in 0..200 {
        let v = rng.gen_range_fp(-500, 500);
        assert!(-500 <= v && v <= 500);
    }
    assert_eq!(rng.gen_range_fp(42, 42), 42);
}

#[test]
fn init_builds_colony_at_home() {
    let mut rng = AntRng::new_seeded(1);
    let (ants, grid) = init(SCREEN, SCREEN, 25, &mut rng);
    assert_eq!(ants.len(), 25);
    assert!(ants.iter().all(|a| a.state() == AntState::LookingForFood));
    // the home region is a ten-by-ten square at the grid's center
    let mut home_cells = 0;
    for idx in 0..GRID_AREA {
        if matches!(grid.cells[idx].cell_type(), CellType::Home) {
            home_cells += 1;
            let loc = grid.cells[idx].loc;
            assert!((70..80).contains(&loc.r) && (95..105).contains(&loc.c));
            assert!(grid.home_pheromones.entries[idx].unwrap().locked_intensity());
        }
    }
    assert_eq!(home_cells, 100);
}

#[test]
fn foraging_scenario_finds_food() {
    // with food fifty cells from the home region, some ant eventually
    // starts carrying food, and a home-scent trail reaches out toward it.
    let mut rng = AntRng::new_seeded(20);
    let (mut ants, mut grid) = init(SCREEN, SCREEN, 60, &mut rng);
    let food_loc = GridLocation::new(75, 150);
    let food_rect = grid.get_rect_from_loc(food_loc);
    grid.spawn_cells(
        food_rect.x + food_rect.w / 2,
        food_rect.y + food_rect.h / 2,
        CellType::Food(antsim::grid::FOOD_CONSUMPTION_LIMIT),
    );
    let mut found = false;
    for _ in 0..2500 {
        world_step(&mut grid, &mut ants, &mut rng, DT);
        if ants.iter().any(|a| a.state() == AntState::CarryingFood) {
            found = true;
            break;
        }
    }
    assert!(found, "no ant reached the food in time");
    // searching ants left home scent beyond the home region, toward the food
    let trail = grid
        .home_pheromones
        .entries
        .iter()
        .filter(|e| match e {
            Some(p) => !p.locked_intensity() && p.intensity() > 0,
            None => false,
        })
        .count();
    assert!(trail > 0, "no home trail outside the home region");
}

#[test]
fn reset_determinism_with_fixed_seed() {
    // two runs from init with the same seed and the same inputs
    // agree on every cell, pheromone and ant at every step.
    let run = |seed: u64| {
        let mut rng = AntRng::new_seeded(seed);
        let (mut ants, mut grid) = init(SCREEN, SCREEN, 20, &mut rng);
        let food_rect = grid.get_rect_from_loc(GridLocation::new(75, 130));
        grid.spawn_cells(
            food_rect.x + food_rect.w / 2,
            food_rect.y + food_rect.h / 2,
            CellType::Food(10),
        );
        for _ in 0..300 {
            world_step(&mut grid, &mut ants, &mut rng, DT);
        }
        (ants, grid)
    };
    let (ants_a, grid_a) = run(99);
    let (ants_b, grid_b) = run(99);
    assert!(ants_a == ants_b);
    assert!(grid_a.cells == grid_b.cells);
    assert!(grid_a.food_pheromones.entries == grid_b.food_pheromones.entries);
    assert!(grid_a.home_pheromones.entries == grid_b.home_pheromones.entries);
    assert!(grid_a.food_cells == grid_b.food_cells);
    assert_eq!(grid_a.food_collected, grid_b.food_collected);
}
