use sand_game::cell::Cell;
use sand_game::error::StepError;
use sand_game::grid::Grid;
use sand_game::move_pass::{work_group_dim, MovePass, WORKGROUP_SIZE};
use sand_game::rules::RuleSet;
use sand_game::world_view::{Config, Palette, ScreenSize, SeedRegion, WorldView};

const STRAIGHT: RuleSet = RuleSet { diagonal: false };
const DIAGONAL: RuleSet = RuleSet { diagonal: true };

fn grid_of(rows: &[&str]) -> Grid {
    let height = rows.len() as u32;
    let width = rows[0].len() as u32;
    Grid::create(width, height, |x, y| match rows[y as usize].as_bytes()[x as usize] {
        b'.' => Cell::Empty,
        b'o' => Cell::Sand,
        b'#' => Cell::Solid,
        other => panic!("unknown cell {other}"),
    })
    .unwrap()
}

fn count(grid: &Grid, kind: Cell) -> usize {
    let mut n = 0;
    for y in 0..grid.height() {
        for x in 0..grid.width() {
            if grid.read(x as i64, y as i64) == kind {
                n += 1;
            }
        }
    }
    assert_eq!(grid.count(kind), n);
    n
}

fn sequential_step(rules: &RuleSet, grid: &Grid) -> Grid {
    Grid::create(grid.width(), grid.height(), |x, y| rules.next_cell(grid, x, y)).unwrap()
}

#[test]
fn single_grain_falls_one_row_per_step_and_rests_on_the_floor() {
    let mut grid = Grid::create(10, 10, |x, y| if (x, y) == (5, 5) { Cell::Sand } else { Cell::Empty })
        .unwrap();
    for k in 1..=8u32 {
        grid = STRAIGHT.step(&grid);
        let row = std::cmp::min(5 + k, 9);
        for y in 0..10u32 {
            for x in 0..10u32 {
                let expected = if (x, y) == (5, row) { Cell::Sand } else { Cell::Empty };
                assert_eq!(grid.read(x as i64, y as i64), expected, "step {k} at ({x}, {y})");
            }
        }
    }
}

#[test]
fn grain_on_the_floor_stays_with_diagonals_too() {
    let grid = Grid::create(10, 10, |x, y| if (x, y) == (5, 9) { Cell::Sand } else { Cell::Empty })
        .unwrap();
    assert_eq!(DIAGONAL.step(&grid), grid);
    assert_eq!(STRAIGHT.step(&grid), grid);
}

#[test]
fn two_grains_side_by_side_both_fall_straight() {
    let grid = Grid::create(10, 10, |x, y| {
        if (x, y) == (4, 5) || (x, y) == (5, 5) {
            Cell::Sand
        } else {
            Cell::Empty
        }
    })
    .unwrap();
    let next = DIAGONAL.step(&grid);
    assert_eq!(next.read(4, 6), Cell::Sand);
    assert_eq!(next.read(5, 6), Cell::Sand);
    assert_eq!(next.read(4, 5), Cell::Empty);
    assert_eq!(next.read(5, 5), Cell::Empty);
    assert_eq!(count(&next, Cell::Sand), 2);
    assert_eq!(count(&next, Cell::Empty), 98);
}

#[test]
fn target_prefers_down_then_left_then_right() {
    let open = grid_of(&["...", ".o.", "..."]);
    assert_eq!(DIAGONAL.target(&open, 1, 1), Some((1, 2)));
    let blocked_below = grid_of(&["...", ".o.", ".#."]);
    assert_eq!(DIAGONAL.target(&blocked_below, 1, 1), Some((0, 2)));
    assert_eq!(STRAIGHT.target(&blocked_below, 1, 1), None);
    let left_blocked = grid_of(&["...", ".o.", "##."]);
    assert_eq!(DIAGONAL.target(&left_blocked, 1, 1), Some((2, 2)));
    let all_blocked = grid_of(&["...", ".o.", "###"]);
    assert_eq!(DIAGONAL.target(&all_blocked, 1, 1), None);
}

#[test]
fn target_of_what_is_not_sand_is_none() {
    let grid = grid_of(&[".#.", "...", "..."]);
    assert_eq!(DIAGONAL.target(&grid, 0, 0), None);
    assert_eq!(DIAGONAL.target(&grid, 1, 0), None);
    assert_eq!(DIAGONAL.target(&grid, 7, 7), None);
    assert_eq!(DIAGONAL.target(&grid, u32::MAX, u32::MAX), None);
}

#[test]
fn sand_does_not_leave_through_the_walls() {
    let left = grid_of(&["o.", "o."]);
    assert_eq!(DIAGONAL.target(&left, 0, 0), Some((1, 1)));
    let right = grid_of(&[".o", ".o"]);
    assert_eq!(DIAGONAL.target(&right, 1, 0), Some((0, 1)));
    let corner = grid_of(&["o", "o"]);
    assert_eq!(DIAGONAL.target(&corner, 0, 0), None);
    assert_eq!(DIAGONAL.target(&corner, 0, 1), None);
    assert_eq!(DIAGONAL.step(&corner), corner);
}

#[test]
fn cell_above_wins_over_both_diagonal_claimants() {
    let grid = grid_of(&[".....", ".ooo.", "##.##"]);
    assert_eq!(DIAGONAL.target(&grid, 1, 1), Some((2, 2)));
    assert_eq!(DIAGONAL.target(&grid, 2, 1), Some((2, 2)));
    assert_eq!(DIAGONAL.target(&grid, 3, 1), Some((2, 2)));
    assert_eq!(DIAGONAL.winner(&grid, 2, 2), Some((2, 1)));
    let next = DIAGONAL.step(&grid);
    assert_eq!(next, grid_of(&[".....", ".o.o.", "##o##"]));
}

#[test]
fn upper_left_claimant_wins_over_upper_right() {
    let grid = grid_of(&[".....", ".o.o.", "##.##"]);
    assert_eq!(DIAGONAL.target(&grid, 1, 1), Some((2, 2)));
    assert_eq!(DIAGONAL.target(&grid, 3, 1), Some((2, 2)));
    assert_eq!(DIAGONAL.winner(&grid, 2, 2), Some((1, 1)));
    let next = DIAGONAL.step(&grid);
    assert_eq!(next, grid_of(&[".....", "...o.", "##o##"]));
}

#[test]
fn tie_break_picks_the_same_winner_every_time() {
    let grid = grid_of(&[".....", ".o.o.", "##.##"]);
    let first = DIAGONAL.step(&grid);
    for _ in 0..20 {
        assert_eq!(DIAGONAL.winner(&grid, 2, 2), Some((1, 1)));
        assert_eq!(DIAGONAL.step(&grid), first);
    }
}

#[test]
fn winner_of_an_unclaimed_cell_is_none() {
    let grid = grid_of(&["...", ".o.", "..."]);
    assert_eq!(DIAGONAL.winner(&grid, 0, 0), None);
    assert_eq!(DIAGONAL.winner(&grid, 1, 1), None);
    assert_eq!(DIAGONAL.winner(&grid, 0, 2), None);
    assert_eq!(DIAGONAL.winner(&grid, 1, 2), Some((1, 1)));
    assert_eq!(DIAGONAL.winner(&grid, 9, 9), None);
}

#[test]
fn loser_stays_and_moves_in_the_following_step() {
    let grid = grid_of(&[".o.o.", "##.##", "##.##"]);
    let one = DIAGONAL.step(&grid);
    assert_eq!(one, grid_of(&["...o.", "##o##", "##.##"]));
    let two = DIAGONAL.step(&one);
    assert_eq!(two, grid_of(&["...o.", "##.##", "##o##"]));
    let three = DIAGONAL.step(&two);
    assert_eq!(three, grid_of(&[".....", "##o##", "##o##"]));
    assert_eq!(DIAGONAL.step(&three), three);
}

#[test]
fn next_cell_outside_the_grid_is_solid() {
    let grid = grid_of(&["o.", ".."]);
    assert_eq!(DIAGONAL.next_cell(&grid, 2, 0), Cell::Solid);
    assert_eq!(DIAGONAL.next_cell(&grid, 0, 2), Cell::Solid);
    assert_eq!(DIAGONAL.next_cell(&grid, u32::MAX, 0), Cell::Solid);
}

#[test]
fn step_agrees_with_cell_by_cell_evaluation() {
    let grid = Grid::create(19, 13, |x, y| match (x * 7 + y * 13 + x * y) % 5 {
        0 | 1 => Cell::Sand,
        2 => Cell::Solid,
        _ => Cell::Empty,
    })
    .unwrap();
    let mut current = grid;
    for _ in 0..12 {
        let next = DIAGONAL.step(&current);
        assert_eq!(next, sequential_step(&DIAGONAL, &current));
        current = next;
    }
}

#[test]
fn evaluation_order_does_not_change_the_result() {
    let grid = Grid::create(11, 9, |x, y| match (x * 3 + y * 5) % 4 {
        0 => Cell::Sand,
        1 => Cell::Solid,
        _ => Cell::Empty,
    })
    .unwrap();
    let expected = DIAGONAL.step(&grid);
    let mut over_dispatched = Grid::create(11, 9, |_, _| Cell::Solid).unwrap();
    assert_eq!(DIAGONAL.dispatch(&grid, &mut over_dispatched, (5, 7)), Ok(()));
    assert_eq!(over_dispatched, expected);
    let mut backwards: Vec<Cell> = vec![Cell::Solid; 99];
    for i in (0..99u32).rev() {
        backwards[i as usize] = DIAGONAL.next_cell(&grid, i % 11, i / 11);
    }
    let rebuilt = Grid::create(11, 9, |x, y| backwards[(y * 11 + x) as usize]).unwrap();
    assert_eq!(rebuilt, expected);
}

#[test]
fn step_conserves_every_kind_of_cell() {
    let mut grid = Grid::create(23, 17, |x, y| match (x * x + 3 * y + x * y) % 7 {
        0 | 1 | 2 => Cell::Sand,
        3 => Cell::Solid,
        _ => Cell::Empty,
    })
    .unwrap();
    let sand = count(&grid, Cell::Sand);
    let solid = count(&grid, Cell::Solid);
    let empty = count(&grid, Cell::Empty);
    assert_eq!(sand + solid + empty, 23 * 17);
    for _ in 0..40 {
        grid = DIAGONAL.step(&grid);
        assert_eq!(count(&grid, Cell::Sand), sand);
        assert_eq!(count(&grid, Cell::Solid), solid);
        assert_eq!(count(&grid, Cell::Empty), empty);
    }
}

#[test]
fn solid_cells_never_move() {
    let grid = grid_of(&["#o#", "...", "#.#"]);
    let next = DIAGONAL.step(&grid);
    assert_eq!(next, grid_of(&["#.#", ".o.", "#.#"]));
}

#[test]
fn settled_grids_are_fixed_points() {
    let empty = Grid::create(9, 6, |_, _| Cell::Empty).unwrap();
    let sand = Grid::create(9, 6, |_, _| Cell::Sand).unwrap();
    let solid = Grid::create(9, 6, |_, _| Cell::Solid).unwrap();
    let heap = grid_of(&["....", "..o.", ".ooo", "oooo"]);
    for rules in [STRAIGHT, DIAGONAL] {
        assert_eq!(rules.step(&empty), empty);
        assert_eq!(rules.step(&sand), sand);
        assert_eq!(rules.step(&solid), solid);
    }
    assert_eq!(STRAIGHT.step(&heap), heap);
}

#[test]
fn step_leaves_its_input_alone() {
    let grid = grid_of(&["o..", "...", "..."]);
    let copy = grid.clone();
    let next = STRAIGHT.step(&grid);
    assert_eq!(grid, copy);
    assert_ne!(next, grid);
}

#[test]
fn work_group_dim_rounds_up() {
    assert_eq!(WORKGROUP_SIZE, 8);
    let dims = |w: u32, h: u32| work_group_dim(&Grid::create(w, h, |_, _| Cell::Empty).unwrap());
    assert_eq!(dims(1, 1), (1, 1));
    assert_eq!(dims(8, 8), (1, 1));
    assert_eq!(dims(9, 7), (2, 1));
    assert_eq!(dims(16, 17), (2, 3));
    assert_eq!(dims(204, 204), (26, 26));
}

#[test]
fn dispatch_refuses_a_buffer_of_another_size() {
    let grid = grid_of(&["o..", "...", "..."]);
    let mut out = Grid::create(3, 4, |_, _| Cell::Solid).unwrap();
    let before = out.clone();
    assert_eq!(STRAIGHT.dispatch(&grid, &mut out, (1, 1)), Err(StepError::SizeMismatch));
    assert_eq!(out, before);
    let mut out = Grid::create(4, 3, |_, _| Cell::Solid).unwrap();
    assert_eq!(STRAIGHT.dispatch(&grid, &mut out, (0, 0)), Err(StepError::SizeMismatch));
}

#[test]
fn dispatch_refuses_an_extent_that_does_not_cover_the_grid() {
    let grid = Grid::create(10, 10, |x, y| if (x, y) == (5, 5) { Cell::Sand } else { Cell::Empty })
        .unwrap();
    let mut out = Grid::create(10, 10, |_, _| Cell::Solid).unwrap();
    let before = out.clone();
    assert_eq!(STRAIGHT.dispatch(&grid, &mut out, (1, 1)), Err(StepError::ExtentMismatch));
    assert_eq!(STRAIGHT.dispatch(&grid, &mut out, (2, 1)), Err(StepError::ExtentMismatch));
    assert_eq!(STRAIGHT.dispatch(&grid, &mut out, (1, 2)), Err(StepError::ExtentMismatch));
    assert_eq!(STRAIGHT.dispatch(&grid, &mut out, (0, 0)), Err(StepError::ExtentMismatch));
    assert_eq!(out, before);
    assert_eq!(STRAIGHT.dispatch(&grid, &mut out, (2, 2)), Ok(()));
    assert_eq!(out, STRAIGHT.step(&grid));
}

#[test]
fn dispatch_overwrites_whatever_the_buffer_held() {
    let grid = grid_of(&["o.#", "...", "..."]);
    let mut out = grid_of(&["###", "ooo", "###"]);
    assert_eq!(STRAIGHT.dispatch(&grid, &mut out, (1, 1)), Ok(()));
    assert_eq!(out, grid_of(&["..#", "o..", "..."]));
}

fn small_world() -> WorldView {
    let config = Config {
        pixel_scale: 2,
        seed: SeedRegion { x_min: 1, x_max: 2, y_min: 0, y_max: 0, fill: Cell::Sand },
        palette: Palette { empty: 10, sand: 20, solid: 30 },
    };
    WorldView::new(ScreenSize { width: 8, height: 6 }, &config).unwrap()
}

#[test]
fn execute_advances_the_world_by_one_generation() {
    let mut world = small_world();
    assert_eq!(world.grid(), &grid_of(&[".oo.", "....", "...."]));
    let mut pass = MovePass::new(&world, STRAIGHT);
    assert_eq!(pass.rules(), STRAIGHT);
    assert_eq!(pass.execute(&mut world), Ok(()));
    assert_eq!(world.grid(), &grid_of(&["....", ".oo.", "...."]));
    assert_eq!(pass.execute(&mut world), Ok(()));
    assert_eq!(world.grid(), &grid_of(&["....", "....", ".oo."]));
    assert_eq!(pass.execute(&mut world), Ok(()));
    assert_eq!(world.grid(), &grid_of(&["....", "....", ".oo."]));
    assert_eq!(world.size(), (4, 3));
    assert_eq!(world.pixel_scale(), 2);
    assert_eq!(world.screen_size(), ScreenSize { width: 8, height: 6 });
}

#[test]
fn execute_refuses_a_world_of_another_size() {
    let mut world = small_world();
    let other = WorldView::new(ScreenSize { width: 8, height: 8 }, &Config {
        pixel_scale: 2,
        seed: SeedRegion { x_min: 0, x_max: 0, y_min: 0, y_max: 0, fill: Cell::Solid },
        palette: Palette { empty: 0, sand: 0, solid: 0 },
    })
    .unwrap();
    let mut pass = MovePass::new(&other, STRAIGHT);
    let before = world.clone();
    let pass_before = pass.clone();
    assert_eq!(pass.execute(&mut world), Err(StepError::SizeMismatch));
    assert_eq!(world, before);
    assert_eq!(pass, pass_before);
}
