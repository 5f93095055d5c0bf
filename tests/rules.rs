use sandbox::element_type::{
    step_destroyer, step_fire, step_fire_with, step_gas, step_gas_with, step_immoveable_solid,
    step_liquid, step_liquid_with, step_maze, step_moveable_solid, step_moveable_solid_with,
    step_pixel_generator, ElementType,
};
use sandbox::elements::{Color, Element};
use sandbox::grid::Grid;

fn element_of(c: char) -> Element {
    match c {
        'S' => Element::Sand,
        'C' => Element::Clay,
        'W' => Element::Water,
        'T' => Element::Stone,
        'A' => Element::Air,
        'G' => Element::Faucet,
        'M' => Element::Maze,
        'F' => Element::Fire,
        'D' => Element::Drain,
        _ => Element::Nothing,
    }
}

fn char_of(e: Element) -> char {
    match e {
        Element::Sand => 'S',
        Element::Clay => 'C',
        Element::Water => 'W',
        Element::Stone => 'T',
        Element::Air => 'A',
        Element::Faucet => 'G',
        Element::Maze => 'M',
        Element::Fire => 'F',
        Element::Drain => 'D',
        Element::Nothing => '.',
    }
}

fn grid_from(rows: &[&str]) -> Grid {
    let mut grid = Grid::new(rows[0].len(), rows.len());
    for (y, row) in rows.iter().enumerate() {
        for (x, c) in row.chars().enumerate() {
            grid.set((x, y), element_of(c));
        }
    }
    grid
}

fn picture(grid: &Grid) -> Vec<String> {
    (0..grid.height())
        .map(|y| (0..grid.width()).map(|x| char_of(grid.get((x, y)))).collect())
        .collect()
}

#[test]
fn catalog_attributes() {
    assert_eq!(Element::Sand.get_element_type(), ElementType::MoveableSolid);
    assert_eq!(Element::Clay.get_element_type(), ElementType::MoveableSolid);
    assert_eq!(Element::Water.get_element_type(), ElementType::Liquid);
    assert_eq!(Element::Stone.get_element_type(), ElementType::ImmovableSolid);
    assert_eq!(Element::Air.get_element_type(), ElementType::Gas);
    assert_eq!(Element::Faucet.get_element_type(), ElementType::PixelGenerator);
    assert_eq!(Element::Maze.get_element_type(), ElementType::Maze);
    assert_eq!(Element::Fire.get_element_type(), ElementType::Fire);
    assert_eq!(Element::Drain.get_element_type(), ElementType::Destroyer);
    assert_eq!(Element::Nothing.get_element_type(), ElementType::Nothing);
    assert_eq!(Element::Nothing.get_color(), None);
    assert_eq!(Element::Sand.get_color(), Some(Color::Gold));
    assert_eq!(Element::Water.get_color(), Some(Color::Blue));
    assert_eq!(Element::Sand.to_string(), "Sand");
    assert_eq!(Element::Nothing.to_string(), "Nothing");
    assert_eq!(Element::Faucet.to_string(), "Faucet");
    assert_ne!(Element::Sand, Element::Clay);
}

#[test]
fn sand_falls_into_background() {
    let mut grid = grid_from(&["S..", "...", "..."]);
    step_moveable_solid(&mut grid, 0, 0);
    assert_eq!(picture(&grid), vec!["...", "S..", "..."]);
}

#[test]
fn sand_sinks_through_water() {
    let mut grid = grid_from(&["S", "W"]);
    step_moveable_solid(&mut grid, 0, 0);
    assert_eq!(picture(&grid), vec!["W", "S"]);
}

#[test]
fn sand_slides_to_the_only_open_diagonal() {
    let mut grid = grid_from(&[".S.", "TTT"]);
    step_moveable_solid(&mut grid, 1, 0);
    assert_eq!(picture(&grid), vec![".S.", "TTT"]);
    let mut grid = grid_from(&[".S.", ".TT"]);
    step_moveable_solid(&mut grid, 1, 0);
    assert_eq!(picture(&grid), vec!["...", "STT"]);
    let mut grid = grid_from(&[".S.", "TT."]);
    step_moveable_solid(&mut grid, 1, 0);
    assert_eq!(picture(&grid), vec!["...", "TTS"]);
}

#[test]
fn sand_tie_between_diagonals() {
    let mut left = grid_from(&[".S.", ".T."]);
    step_moveable_solid_with(&mut left, 1, 0, false);
    assert_eq!(picture(&left), vec!["...", "ST."]);
    let mut right = grid_from(&[".S.", ".T."]);
    step_moveable_solid_with(&mut right, 1, 0, true);
    assert_eq!(picture(&right), vec!["...", ".TS"]);
}

#[test]
fn sand_tie_draws_both_sides() {
    let mut seen_left = false;
    let mut seen_right = false;
    for _ in 0..200 {
        let mut grid = grid_from(&[".S.", ".T."]);
        step_moveable_solid(&mut grid, 1, 0);
        let p = picture(&grid);
        assert!(p == vec!["...", "ST."] || p == vec!["...", ".TS"]);
        seen_left |= p[1] == "ST.";
        seen_right |= p[1] == ".TS";
    }
    assert!(seen_left && seen_right);
}

#[test]
fn sand_on_bottom_row_stays() {
    let mut grid = grid_from(&["...", ".S."]);
    step_moveable_solid(&mut grid, 1, 1);
    assert_eq!(picture(&grid), vec!["...", ".S."]);
}

#[test]
fn stone_over_water_swaps() {
    let mut grid = grid_from(&["T", "W"]);
    step_immoveable_solid(&mut grid, 0, 0);
    assert_eq!(picture(&grid), vec!["W", "T"]);
}

#[test]
fn stone_over_background_stays() {
    let mut grid = grid_from(&["T.", ".."]);
    step_immoveable_solid(&mut grid, 0, 0);
    assert_eq!(picture(&grid), vec!["T.", ".."]);
}

#[test]
fn water_falls_first() {
    let mut grid = grid_from(&[".W.", "..."]);
    step_liquid(&mut grid, 1, 0, 4);
    assert_eq!(picture(&grid), vec!["...", ".W."]);
}

#[test]
fn water_flows_to_nearest_on_drawn_side() {
    let mut grid = grid_from(&["..TW.T.", "TTTTTTT"]);
    step_liquid_with(&mut grid, 3, 0, 4, true);
    assert_eq!(picture(&grid), vec!["..T.WT.", "TTTTTTT"]);
    let mut grid = grid_from(&["..TW.T.", "TTTTTTT"]);
    step_liquid_with(&mut grid, 3, 0, 4, false);
    assert_eq!(picture(&grid), vec![".WT..T.", "TTTTTTT"]);
}

#[test]
fn water_jumps_over_blocked_cells_within_reach() {
    let mut grid = grid_from(&["WTTT.", "TTTTT"]);
    step_liquid_with(&mut grid, 0, 0, 4, true);
    assert_eq!(picture(&grid), vec![".TTTW", "TTTTT"]);
    let mut grid = grid_from(&["WTTT.", "TTTTT"]);
    step_liquid_with(&mut grid, 0, 0, 3, true);
    assert_eq!(picture(&grid), vec!["WTTT.", "TTTTT"]);
}

#[test]
fn water_hemmed_in_stays() {
    let mut grid = grid_from(&["TW.", "TTT"]);
    step_liquid_with(&mut grid, 1, 0, 4, false);
    assert_eq!(picture(&grid), vec!["TW.", "TTT"]);
    let mut grid = grid_from(&["TWT", "TTT"]);
    step_liquid(&mut grid, 1, 0, 4);
    assert_eq!(picture(&grid), vec!["TWT", "TTT"]);
}

#[test]
fn water_on_bottom_row_stays() {
    let mut grid = grid_from(&["...", ".W."]);
    step_liquid(&mut grid, 1, 1, 4);
    assert_eq!(picture(&grid), vec!["...", ".W."]);
}

#[test]
fn water_draws_both_sides() {
    let mut seen_left = false;
    let mut seen_right = false;
    for _ in 0..200 {
        let mut grid = grid_from(&[".W.", "TTT"]);
        step_liquid(&mut grid, 1, 0, 4);
        let p = picture(&grid);
        assert!(p[0] == "W.." || p[0] == "..W");
        seen_left |= p[0] == "W..";
        seen_right |= p[0] == "..W";
    }
    assert!(seen_left && seen_right);
}

#[test]
fn air_rises() {
    let mut grid = grid_from(&["...", ".A."]);
    step_gas(&mut grid, 1, 1, 1);
    assert_eq!(picture(&grid), vec![".A.", "..."]);
}

#[test]
fn air_spreads_only_where_its_draw_allows() {
    let mut grid = grid_from(&["TTTT", "A..."]);
    step_gas_with(&mut grid, 0, 1, 3, true, &vec![false, true, true]);
    assert_eq!(picture(&grid), vec!["TTTT", "..A."]);
    let mut grid = grid_from(&["TTTT", "A..."]);
    step_gas_with(&mut grid, 0, 1, 3, true, &vec![false, false, false]);
    assert_eq!(picture(&grid), vec!["TTTT", "A..."]);
    let mut grid = grid_from(&["TTTT", "...A"]);
    step_gas_with(&mut grid, 3, 1, 1, false, &vec![true]);
    assert_eq!(picture(&grid), vec!["TTTT", "..A."]);
}

#[test]
fn air_with_full_diffusion_always_spreads() {
    for _ in 0..50 {
        let mut grid = grid_from(&["TTT", ".A."]);
        step_gas(&mut grid, 1, 1, 10);
        let p = picture(&grid);
        assert!(p[1] == "A.." || p[1] == "..A");
    }
}

#[test]
fn fire_rises_or_drifts_or_dies() {
    let mut grid = grid_from(&["...", ".F."]);
    step_fire_with(&mut grid, 1, 1, true, 1);
    assert_eq!(picture(&grid), vec![".F.", "..."]);
    let mut grid = grid_from(&["...", ".F."]);
    step_fire_with(&mut grid, 1, 1, false, 2);
    assert_eq!(picture(&grid), vec!["...", "..F"]);
    let mut grid = grid_from(&["...", ".F."]);
    step_fire_with(&mut grid, 1, 1, false, 1);
    assert_eq!(picture(&grid), vec!["...", "..."]);
    let mut grid = grid_from(&["...", "F.."]);
    step_fire_with(&mut grid, 0, 1, false, 0);
    assert_eq!(picture(&grid), vec!["...", "..."]);
    let mut grid = grid_from(&["T..", "F.."]);
    step_fire_with(&mut grid, 0, 1, true, 2);
    assert_eq!(picture(&grid), vec!["T..", ".F."]);
}

#[test]
fn fire_never_moves_down() {
    let mut rose = false;
    for _ in 0..200 {
        let mut grid = grid_from(&["...", ".F.", "..."]);
        step_fire(&mut grid, 1, 1);
        let p = picture(&grid);
        assert_eq!(p[2], "...");
        assert!(
            p == vec![".F.", "...", "..."]
                || p == vec!["...", "F..", "..."]
                || p == vec!["...", "..F", "..."]
                || p == vec!["...", "...", "..."]
        );
        rose |= p[0] == ".F.";
    }
    assert!(rose);
}

#[test]
fn faucet_pours_water_below() {
    let mut grid = grid_from(&["G", ".", "."]);
    step_pixel_generator(&mut grid, 0, 0);
    assert_eq!(picture(&grid), vec!["G", "W", "."]);
    step_pixel_generator(&mut grid, 0, 0);
    assert_eq!(picture(&grid), vec!["G", "W", "."]);
    let mut bottom = grid_from(&["G"]);
    step_pixel_generator(&mut bottom, 0, 0);
    assert_eq!(picture(&bottom), vec!["G"]);
}

#[test]
fn drain_clears_its_four_neighbours() {
    let mut grid = grid_from(&["SWS", "TDD", "FAM"]);
    step_destroyer(&mut grid, 1, 1);
    assert_eq!(picture(&grid), vec!["S.S", ".DD", "F.M"]);
}

#[test]
fn maze_cell_alone_dies() {
    let mut grid = grid_from(&["...", ".M.", "..."]);
    step_maze(&mut grid, 1, 1);
    assert_eq!(picture(&grid), vec!["...", "...", "..."]);
}

#[test]
fn maze_birth_at_three() {
    let mut grid = grid_from(&["MM.", "M..", "..."]);
    step_maze(&mut grid, 0, 0);
    assert_eq!(picture(&grid), vec!["MM.", "MM.", "..."]);
}
