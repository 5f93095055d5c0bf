use sandbox::elements::Element;
use sandbox::grid::Grid;

fn element_of(c: char) -> Element {
    match c {
        'S' => Element::Sand,
        'C' => Element::Clay,
        'W' => Element::Water,
        'T' => Element::Stone,
        'A' => Element::Air,
        'G' => Element::Faucet,
        'M' => Element::Maze,
        'F' => Element::Fire,
        'D' => Element::Drain,
        _ => Element::Nothing,
    }
}

fn char_of(e: Element) -> char {
    match e {
        Element::Sand => 'S',
        Element::Clay => 'C',
        Element::Water => 'W',
        Element::Stone => 'T',
        Element::Air => 'A',
        Element::Faucet => 'G',
        Element::Maze => 'M',
        Element::Fire => 'F',
        Element::Drain => 'D',
        Element::Nothing => '.',
    }
}

fn grid_from(rows: &[&str]) -> Grid {
    let mut grid = Grid::new(rows[0].len(), rows.len());
    for (y, row) in rows.iter().enumerate() {
        for (x, c) in row.chars().enumerate() {
            grid.set((x, y), element_of(c));
        }
    }
    grid
}

fn picture(grid: &Grid) -> Vec<String> {
    (0..grid.height())
        .map(|y| (0..grid.width()).map(|x| char_of(grid.get((x, y)))).collect())
        .collect()
}

#[test]
fn maze_block_without_center_after_one_tick() {
    let mut grid = grid_from(&[
        ".......",
        ".......",
        "..MMM..",
        "..M.M..",
        "..MMM..",
        ".......",
        ".......",
    ]);
    grid.update();
    assert_eq!(
        picture(&grid),
        vec![
            ".......",
            ".MM.M..",
            ".MMMMMM",
            "MM...MM",
            ".MMMM.M",
            "..M.MMM",
            ".......",
        ]
    );
}

#[test]
fn grain_falls_one_row_per_tick() {
    let mut grid = grid_from(&["..S..", ".....", ".....", "....."]);
    grid.update();
    assert_eq!(picture(&grid), vec![".....", "..S..", ".....", "....."]);
    grid.update();
    assert_eq!(picture(&grid), vec![".....", ".....", "..S..", "....."]);
    grid.update();
    assert_eq!(picture(&grid), vec![".....", ".....", ".....", "..S.."]);
    grid.update();
    assert_eq!(picture(&grid), vec![".....", ".....", ".....", "..S.."]);
}

#[test]
fn grain_lands_on_stone() {
    let mut grid = grid_from(&["C", ".", "T"]);
    grid.update();
    assert_eq!(picture(&grid), vec![".", "C", "T"]);
    grid.update();
    assert_eq!(picture(&grid), vec![".", "C", "T"]);
}

#[test]
fn no_cell_moves_twice_in_a_tick() {
    let mut grid = grid_from(&[".S.", "STT", "...", "..."]);
    grid.update();
    assert_eq!(picture(&grid), vec!["...", "STT", "S..", "..."]);
}

#[test]
fn solids_trade_places_with_water_in_one_tick() {
    let mut grid = grid_from(&["TS", "WW", "TT"]);
    grid.update();
    let p = picture(&grid);
    assert_eq!(p[0], "WW");
    assert_eq!(p[1], "TS");
    assert_eq!(p[2], "TT");
}

#[test]
fn faucet_fills_column_over_ticks() {
    let mut grid = grid_from(&["G", ".", ".", "."]);
    grid.update();
    assert_eq!(picture(&grid), vec!["G", "W", ".", "."]);
    grid.update();
    assert_eq!(picture(&grid), vec!["G", "W", "W", "."]);
}

#[test]
fn tick_keeps_the_material_of_solids_and_liquids() {
    let mut grid = grid_from(&["S.W.S.", "..T...", "W.....", "...SW."]);
    let count = |g: &Grid, e: Element| {
        let mut n = 0;
        for y in 0..g.height() {
            for x in 0..g.width() {
                if g.get((x, y)) == e {
                    n += 1;
                }
            }
        }
        n
    };
    for _ in 0..10 {
        grid.update();
        assert_eq!(count(&grid, Element::Sand), 3);
        assert_eq!(count(&grid, Element::Water), 3);
        assert_eq!(count(&grid, Element::Stone), 1);
    }
}

#[test]
fn dispatch_follows_category() {
    let mut grid = grid_from(&["S", "."]);
    Element::Sand.step(&mut grid, 0, 0);
    assert_eq!(picture(&grid), vec![".", "S"]);
    let mut grid = grid_from(&["M"]);
    Element::Maze.step(&mut grid, 0, 0);
    assert_eq!(picture(&grid), vec!["."]);
    let mut grid = grid_from(&["S", "."]);
    Element::Nothing.step(&mut grid, 0, 0);
    assert_eq!(picture(&grid), vec!["S", "."]);
    let mut grid = grid_from(&["S", "."]);
    Element::Sand.step(&mut grid, 0, 7);
    assert_eq!(picture(&grid), vec!["S", "."]);
}
