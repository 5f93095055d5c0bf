use vstd::prelude::*;

use crate::elements::Element;
use crate::grid::{lemma_set_at, lemma_set_shape, Grid, GridModel};
use crate::random::{quad_below, thread_below};

verus! {

broadcast use {lemma_set_at, lemma_set_shape};

/// The behavior category of an element; it decides which stepping rule applies.
#[derive(Clone, Copy, Debug, PartialEq, Eq, Structural)]
pub enum ElementType {
    ImmovableSolid,
    MoveableSolid,
    Liquid,
    Gas,
    PixelGenerator,
    Destroyer,
    Maze,
    Nothing,
    Fire,
}

/// Inside the grid and holding background.
pub open spec fn vacant(g: GridModel, x: int, y: int) -> bool {
    g.in_bounds(x, y) && g.at(x, y) == Element::Nothing
}

/// Inside the grid and holding an element of the liquid category.
pub open spec fn liquid_at(g: GridModel, x: int, y: int) -> bool {
    g.in_bounds(x, y) && g.at(x, y).category() == ElementType::Liquid
}

/// The column `i` cells away from `x`, to the right or to the left.
pub open spec fn lateral(x: int, rightward: bool, i: int) -> int {
    if rightward {
        x + i
    } else {
        x - i
    }
}

// ---------------------------------------------------------------------------
// Immovable solid

/// A solid stays put, except that liquid directly below trades places with it.
pub open spec fn immoveable_solid_outcome(g: GridModel, x: int, y: int) -> GridModel {
    if liquid_at(g, x, y + 1) {
        g.swap(x, y, x, y + 1)
    } else {
        g
    }
}

/// One step of an immovable solid.
pub fn step_immoveable_solid(grid: &mut Grid, x: usize, y: usize)
    requires
        old(grid)@.wf(),
        old(grid)@.in_bounds(x as int, y as int),
    ensures
        final(grid)@ == immoveable_solid_outcome(old(grid)@, x as int, y as int),
        final(grid)@.wf(),
        final(grid)@.same_dims(old(grid)@),
{
    let height = grid.height();
    if y + 1 < height && grid.get((x, y + 1)).get_element_type() == ElementType::Liquid {
        grid.swap_elements((x, y), (x, y + 1));
    }
}

// ---------------------------------------------------------------------------
// Movable solid

/// Gravity: fall into background below, sink through liquid below, else slide
/// to a vacant lower diagonal. When both diagonals are vacant, `rightward`
/// picks the right one.
pub open spec fn moveable_solid_outcome(g: GridModel, x: int, y: int, rightward: bool) -> GridModel {
    if vacant(g, x, y + 1) {
        g.move_cell(x, y, x, y + 1)
    } else if liquid_at(g, x, y + 1) {
        g.swap(x, y, x, y + 1)
    } else if vacant(g, x - 1, y + 1) && !(rightward && vacant(g, x + 1, y + 1)) {
        g.move_cell(x, y, x - 1, y + 1)
    } else if vacant(g, x + 1, y + 1) {
        g.move_cell(x, y, x + 1, y + 1)
    } else {
        g
    }
}

/// The grids that one step of a movable solid at `(x, y)` can give.
pub open spec fn moveable_solid_results(g: GridModel, x: int, y: int, r: GridModel) -> bool {
    exists|rightward: bool| #[trigger] moveable_solid_outcome(g, x, y, rightward) == r
}

/// One step of a movable solid, with the tie between two vacant diagonals
/// already decided by `rightward`.
pub fn step_moveable_solid_with(grid: &mut Grid, x: usize, y: usize, rightward: bool)
    requires
        old(grid)@.wf(),
        old(grid)@.in_bounds(x as int, y as int),
    ensures
        final(grid)@ == moveable_solid_outcome(old(grid)@, x as int, y as int, rightward),
        final(grid)@.wf(),
        final(grid)@.same_dims(old(grid)@),
{
    let (width, height) = (grid.width(), grid.height());
    let below_inside = y + 1 < height;
    if below_inside && grid.get((x, y + 1)) == Element::Nothing {
        grid.move_element((x, y), (x, y + 1));
    } else if below_inside && grid.get((x, y + 1)).get_element_type() == ElementType::Liquid {
        grid.swap_elements((x, y), (x, y + 1));
    } else {
        let left_open = below_inside && x > 0 && grid.get((x - 1, y + 1)) == Element::Nothing;
        let right_open = below_inside && x + 1 < width && grid.get((x + 1, y + 1)) == Element::Nothing;
        if left_open && !(rightward && right_open) {
            grid.move_element((x, y), (x - 1, y + 1));
        } else if right_open {
            grid.move_element((x, y), (x + 1, y + 1));
        }
    }
}

/// One step of a movable solid; a tie between two vacant diagonals is broken
/// by a fair random draw.
pub fn step_moveable_solid(grid: &mut Grid, x: usize, y: usize)
    requires
        old(grid)@.wf(),
        old(grid)@.in_bounds(x as int, y as int),
    ensures
        moveable_solid_results(old(grid)@, x as int, y as int, final(grid)@),
        final(grid)@.wf(),
        final(grid)@.same_dims(old(grid)@),
{
    let rightward = quad_below(2) == 1;
    step_moveable_solid_with(grid, x, y, rightward);
}

// ---------------------------------------------------------------------------
// Generator

/// A generator pours one cell of water into background directly below it.
pub open spec fn pixel_generator_outcome(g: GridModel, x: int, y: int) -> GridModel {
    if vacant(g, x, y + 1) {
        g.set(x, y + 1, Element::Water)
    } else {
        g
    }
}

/// One step of a generator.
pub fn step_pixel_generator(grid: &mut Grid, x: usize, y: usize)
    requires
        old(grid)@.wf(),
        old(grid)@.in_bounds(x as int, y as int),
    ensures
        final(grid)@ == pixel_generator_outcome(old(grid)@, x as int, y as int),
        final(grid)@.wf(),
        final(grid)@.same_dims(old(grid)@),
{
    let height = grid.height();
    if y + 1 < height && grid.get((x, y + 1)) == Element::Nothing {
        grid.set((x, y + 1), Element::Water);
    }
}

// ---------------------------------------------------------------------------
// Liquid

/// The first offset `i` in `from..=rate` whose column, on the chosen side of
/// `x`, is vacant in row `y`.
pub open spec fn liquid_target(g: GridModel, x: int, y: int, rightward: bool, rate: int, from: int) -> Option<int>
    decreases rate - from + 1,
{
    if from > rate {
        None
    } else if vacant(g, lateral(x, rightward, from), y) {
        Some(from)
    } else {
        liquid_target(g, x, y, rightward, rate, from + 1)
    }
}

/// A liquid falls into background below; blocked there, it flows to the
/// nearest vacant cell within `rate` columns on the chosen side, or stays.
/// On the bottom row it stays.
pub open spec fn liquid_outcome(g: GridModel, x: int, y: int, rate: int, rightward: bool) -> GridModel {
    if !g.in_bounds(x, y + 1) {
        g
    } else if g.at(x, y + 1) == Element::Nothing {
        g.move_cell(x, y, x, y + 1)
    } else {
        match liquid_target(g, x, y, rightward, rate, 1) {
            Some(i) => g.move_cell(x, y, lateral(x, rightward, i), y),
            None => g,
        }
    }
}

/// The grids that one step of a liquid at `(x, y)` can give.
pub open spec fn liquid_results(g: GridModel, x: int, y: int, rate: int, r: GridModel) -> bool {
    exists|rightward: bool| #[trigger] liquid_outcome(g, x, y, rate, rightward) == r
}

/// Whether column `x` shifted by `i` to the chosen side lies in `0..width`;
/// if so, that column.
fn lateral_column(x: usize, width: usize, rightward: bool, i: usize) -> (r: Option<usize>)
    requires
        x < width,
    ensures
        r == (if 0 <= lateral(x as int, rightward, i as int) < width {
            Some(lateral(x as int, rightward, i as int) as usize)
        } else {
            None::<usize>
        }),
{
    if rightward {
        if i < width - x {
            Some(x + i)
        } else {
            None
        }
    } else {
        if i <= x {
            Some(x - i)
        } else {
            None
        }
    }
}

/// One step of a liquid, with the side to flow toward already chosen.
pub fn step_liquid_with(grid: &mut Grid, x: usize, y: usize, dispersion_rate: usize, rightward: bool)
    requires
        old(grid)@.wf(),
        old(grid)@.in_bounds(x as int, y as int),
    ensures
        final(grid)@ == liquid_outcome(old(grid)@, x as int, y as int, dispersion_rate as int, rightward),
        final(grid)@.wf(),
        final(grid)@.same_dims(old(grid)@),
{
    let (width, height) = (grid.width(), grid.height());
    if y + 1 < height {
        if grid.get((x, y + 1)) == Element::Nothing {
            grid.move_element((x, y), (x, y + 1));
        } else {
            let ghost g = grid@;
            let mut k: usize = 0;
            while k < dispersion_rate
                invariant
                    grid@ == g,
                    g.wf(),
                    g.in_bounds(x as int, y as int),
                    g.in_bounds(x as int, y + 1),
                    g.at(x as int, y + 1) != Element::Nothing,
                    width == g.width,
                    g == old(grid)@,
                    k <= dispersion_rate,
                    liquid_target(g, x as int, y as int, rightward, dispersion_rate as int, 1)
                        == liquid_target(g, x as int, y as int, rightward, dispersion_rate as int, k + 1),
                decreases dispersion_rate - k,
            {
                let i = k + 1;
                if let Some(nx) = lateral_column(x, width, rightward, i) {
                    if grid.get((nx, y)) == Element::Nothing {
                        grid.move_element((x, y), (nx, y));
                        return;
                    }
                }
                k = k + 1;
            }
        }
    }
}

/// One step of a liquid; the side to flow toward is a fair random draw.
pub fn step_liquid(grid: &mut Grid, x: usize, y: usize, dispersion_rate: usize)
    requires
        old(grid)@.wf(),
        old(grid)@.in_bounds(x as int, y as int),
    ensures
        liquid_results(old(grid)@, x as int, y as int, dispersion_rate as int, final(grid)@),
        final(grid)@.wf(),
        final(grid)@.same_dims(old(grid)@),
{
    let rightward = quad_below(2) == 1;
    step_liquid_with(grid, x, y, dispersion_rate, rightward);
}

// ---------------------------------------------------------------------------
// Gas

/// The first offset `i` in `from..=rate` whose column, on the chosen side of
/// `x`, is vacant in row `y` and whose draw `gates[i - 1]` lets the gas pass.
pub open spec fn gas_target(
    g: GridModel,
    x: int,
    y: int,
    rightward: bool,
    rate: int,
    gates: Seq<bool>,
    from: int,
) -> Option<int>
    decreases rate - from + 1,
{
    if from > rate {
        None
    } else if vacant(g, lateral(x, rightward, from), y) && gates[from - 1] {
        Some(from)
    } else {
        gas_target(g, x, y, rightward, rate, gates, from + 1)
    }
}

/// A gas rises into background above; blocked there, it drifts to the
/// nearest vacant cell within `rate` columns on the chosen side whose draw
/// lets it pass, or stays. On the top row it stays.
pub open spec fn gas_outcome(
    g: GridModel,
    x: int,
    y: int,
    rate: int,
    rightward: bool,
    gates: Seq<bool>,
) -> GridModel {
    if !g.in_bounds(x, y - 1) {
        g
    } else if g.at(x, y - 1) == Element::Nothing {
        g.move_cell(x, y, x, y - 1)
    } else {
        match gas_target(g, x, y, rightward, rate, gates, 1) {
            Some(i) => g.move_cell(x, y, lateral(x, rightward, i), y),
            None => g,
        }
    }
}

/// The grids that one step of a gas at `(x, y)` can give.
pub open spec fn gas_results(g: GridModel, x: int, y: int, rate: int, r: GridModel) -> bool {
    exists|rightward: bool, gates: Seq<bool>|
        gates.len() == rate && #[trigger] gas_outcome(g, x, y, rate, rightward, gates) == r
}

/// One step of a gas, with the side and the per-offset draws already made:
/// `gates[i - 1]` says whether the gas may enter the cell `i` columns away.
pub fn step_gas_with(
    grid: &mut Grid,
    x: usize,
    y: usize,
    diffusion_rate: usize,
    rightward: bool,
    gates: &Vec<bool>,
)
    requires
        old(grid)@.wf(),
        old(grid)@.in_bounds(x as int, y as int),
        gates@.len() == diffusion_rate,
    ensures
        final(grid)@ == gas_outcome(old(grid)@, x as int, y as int, diffusion_rate as int, rightward, gates@),
        final(grid)@.wf(),
        final(grid)@.same_dims(old(grid)@),
{
    let width = grid.width();
    if y > 0 {
        if grid.get((x, y - 1)) == Element::Nothing {
            grid.move_element((x, y), (x, y - 1));
        } else {
            let ghost g = grid@;
            let mut k: usize = 0;
            while k < diffusion_rate
                invariant
                    grid@ == g,
                    g.wf(),
                    g.in_bounds(x as int, y as int),
                    g.in_bounds(x as int, y - 1),
                    g.at(x as int, y - 1) != Element::Nothing,
                    width == g.width,
                    g == old(grid)@,
                    gates@.len() == diffusion_rate,
                    k <= diffusion_rate,
                    gas_target(g, x as int, y as int, rightward, diffusion_rate as int, gates@, 1)
                        == gas_target(g, x as int, y as int, rightward, diffusion_rate as int, gates@, k + 1),
                decreases diffusion_rate - k,
            {
                let i = k + 1;
                if let Some(nx) = lateral_column(x, width, rightward, i) {
                    if gates[k] && grid.get((nx, y)) == Element::Nothing {
                        grid.move_element((x, y), (nx, y));
                        return;
                    }
                }
                k = k + 1;
            }
        }
    }
}

/// One step of a gas. The side is a fair random draw; each offset within
/// reach lets the gas pass with probability `diffusion_rate` tenths (always,
/// from ten on).
pub fn step_gas(grid: &mut Grid, x: usize, y: usize, diffusion_rate: usize)
    requires
        old(grid)@.wf(),
        old(grid)@.in_bounds(x as int, y as int),
    ensures
        gas_results(old(grid)@, x as int, y as int, diffusion_rate as int, final(grid)@),
        final(grid)@.wf(),
        final(grid)@.same_dims(old(grid)@),
{
    let rightward = quad_below(2) == 1;
    let mut gates: Vec<bool> = Vec::new();
    let mut k: usize = 0;
    while k < diffusion_rate
        invariant
            k <= diffusion_rate,
            gates@.len() == k,
        decreases diffusion_rate - k,
    {
        let draw = thread_below(100);
        gates.push(diffusion_rate >= 10 || draw < diffusion_rate * 10);
        k = k + 1;
    }
    step_gas_with(grid, x, y, diffusion_rate, rightward, &gates);
}

// ---------------------------------------------------------------------------
// Fire

/// Fire rises into background above when `rises`; otherwise it drifts into a
/// vacant cell of its row, `drift - 1` columns over; failing both it burns out.
pub open spec fn fire_outcome(g: GridModel, x: int, y: int, rises: bool, drift: int) -> GridModel {
    if rises && vacant(g, x, y - 1) {
        g.move_cell(x, y, x, y - 1)
    } else if vacant(g, x + drift - 1, y) {
        g.move_cell(x, y, x + drift - 1, y)
    } else {
        g.set(x, y, Element::Nothing)
    }
}

/// The grids that one step of fire at `(x, y)` can give.
pub open spec fn fire_results(g: GridModel, x: int, y: int, r: GridModel) -> bool {
    exists|rises: bool, drift: int| 0 <= drift < 3 && #[trigger] fire_outcome(g, x, y, rises, drift) == r
}

/// Chance, in tenths, that fire with background above rises.
pub const FIRE_RISE_TENTHS: usize = 7;

/// One step of fire, with the draws already made: whether it rises, and the
/// drift `0`, `1` or `2` for left, none or right.
pub fn step_fire_with(grid: &mut Grid, x: usize, y: usize, rises: bool, drift: usize)
    requires
        old(grid)@.wf(),
        old(grid)@.in_bounds(x as int, y as int),
        drift < 3,
    ensures
        final(grid)@ == fire_outcome(old(grid)@, x as int, y as int, rises, drift as int),
        final(grid)@.wf(),
        final(grid)@.same_dims(old(grid)@),
{
    let width = grid.width();
    if rises && y > 0 && grid.get((x, y - 1)) == Element::Nothing {
        grid.move_element((x, y), (x, y - 1));
        return;
    }
    let target = if drift == 0 {
        if x > 0 {
            Some(x - 1)
        } else {
            None
        }
    } else if drift == 1 {
        Some(x)
    } else if x + 1 < width {
        Some(x + 1)
    } else {
        None
    };
    match target {
        Some(nx) if grid.get((nx, y)) == Element::Nothing => {
            grid.move_element((x, y), (nx, y));
        },
        _ => {
            grid.set((x, y), Element::Nothing);
        },
    }
}

/// One step of fire: with background above it rises with a chance of seven
/// in ten; otherwise it drifts left, nowhere or right at random, and burns
/// out where it cannot move.
pub fn step_fire(grid: &mut Grid, x: usize, y: usize)
    requires
        old(grid)@.wf(),
        old(grid)@.in_bounds(x as int, y as int),
    ensures
        fire_results(old(grid)@, x as int, y as int, final(grid)@),
        final(grid)@.wf(),
        final(grid)@.same_dims(old(grid)@),
{
    let rises = thread_below(10) < FIRE_RISE_TENTHS;
    let drift = thread_below(3);
    step_fire_with(grid, x, y, rises, drift);
}

// ---------------------------------------------------------------------------
// Destroyer

/// What a destroyer removes: any material but background and destroyers.
pub open spec fn drainable(e: Element) -> bool {
    e != Element::Nothing && e.category() != ElementType::Destroyer
}

pub open spec fn drain_cell(g: GridModel, x: int, y: int) -> GridModel {
    if g.in_bounds(x, y) && drainable(g.at(x, y)) {
        g.set(x, y, Element::Nothing)
    } else {
        g
    }
}

/// A destroyer clears the material in the four cells that share a side
/// with it: above, below, left, right.
pub open spec fn destroyer_outcome(g: GridModel, x: int, y: int) -> GridModel {
    drain_cell(drain_cell(drain_cell(drain_cell(g, x, y - 1), x, y + 1), x - 1, y), x + 1, y)
}

/// Clears `(x, y)` when it holds something a destroyer removes.
fn drain_at(grid: &mut Grid, x: usize, y: usize)
    requires
        old(grid)@.wf(),
    ensures
        final(grid)@ == drain_cell(old(grid)@, x as int, y as int),
        final(grid)@.wf(),
        final(grid)@.same_dims(old(grid)@),
{
    let e = grid.get((x, y));
    if e != Element::Nothing && e.get_element_type() != ElementType::Destroyer {
        grid.set((x, y), Element::Nothing);
    }
}

/// One step of a destroyer.
pub fn step_destroyer(grid: &mut Grid, x: usize, y: usize)
    requires
        old(grid)@.wf(),
        old(grid)@.in_bounds(x as int, y as int),
    ensures
        final(grid)@ == destroyer_outcome(old(grid)@, x as int, y as int),
        final(grid)@.wf(),
        final(grid)@.same_dims(old(grid)@),
{
    let (width, height) = (grid.width(), grid.height());
    if y > 0 {
        drain_at(grid, x, y - 1);
    }
    if y + 1 < height {
        drain_at(grid, x, y + 1);
    }
    if x > 0 {
        drain_at(grid, x - 1, y);
    }
    if x + 1 < width {
        drain_at(grid, x + 1, y);
    }
}

// ---------------------------------------------------------------------------
// Maze automaton

pub open spec fn maze_flag(g: GridModel, x: int, y: int) -> int {
    if g.at(x, y) == Element::Maze {
        1
    } else {
        0
    }
}

/// How many of the eight cells around `(x, y)` hold a maze cell.
pub open spec fn maze_neighbors(g: GridModel, x: int, y: int) -> int {
    maze_flag(g, x - 1, y - 1) + maze_flag(g, x - 1, y) + maze_flag(g, x - 1, y + 1)
        + maze_flag(g, x, y - 1) + maze_flag(g, x, y + 1)
        + maze_flag(g, x + 1, y - 1) + maze_flag(g, x + 1, y) + maze_flag(g, x + 1, y + 1)
}

/// A cell that is not a maze cell and has exactly three maze neighbors
/// becomes one.
pub open spec fn maze_birth(g: GridModel, x: int, y: int) -> GridModel {
    if g.in_bounds(x, y) && g.at(x, y) != Element::Maze && maze_neighbors(g, x, y) == 3 {
        g.set(x, y, Element::Maze)
    } else {
        g
    }
}

/// The birth rule applied to the eight neighbors of `(x, y)` in turn, column
/// by column from the left and top to bottom within a column, each seeing the
/// births before it.
pub open spec fn maze_births(g: GridModel, x: int, y: int) -> GridModel {
    let g1 = maze_birth(g, x - 1, y - 1);
    let g2 = maze_birth(g1, x - 1, y);
    let g3 = maze_birth(g2, x - 1, y + 1);
    let g4 = maze_birth(g3, x, y - 1);
    let g5 = maze_birth(g4, x, y + 1);
    let g6 = maze_birth(g5, x + 1, y - 1);
    let g7 = maze_birth(g6, x + 1, y);
    maze_birth(g7, x + 1, y + 1)
}

/// Births around the cell first; then a maze cell with fewer than one or
/// more than five maze neighbors dies.
pub open spec fn maze_outcome(g: GridModel, x: int, y: int) -> GridModel {
    let b = maze_births(g, x, y);
    if b.at(x, y) == Element::Maze && (maze_neighbors(b, x, y) < 1 || maze_neighbors(b, x, y) > 5) {
        b.set(x, y, Element::Nothing)
    } else {
        b
    }
}

/// `1` when the cell at offset `(dx - 1, dy - 1)` from `(x, y)` holds a maze
/// cell, else `0`.
fn maze_at(grid: &Grid, x: usize, y: usize, dx: usize, dy: usize) -> (r: usize)
    requires
        grid@.wf(),
        grid@.in_bounds(x as int, y as int),
        dx < 3,
        dy < 3,
    ensures
        r == maze_flag(grid@, x + dx - 1, y + dy - 1),
{
    let (width, height) = (grid.width(), grid.height());
    if (dx == 0 && x == 0) || (dy == 0 && y == 0) {
        return 0;
    }
    let nx = if dx == 0 {
        x - 1
    } else {
        x + (dx - 1)
    };
    let ny = if dy == 0 {
        y - 1
    } else {
        y + (dy - 1)
    };
    if nx < width && ny < height && grid.get((nx, ny)) == Element::Maze {
        1
    } else {
        0
    }
}

/// How many of the eight cells around `(x, y)` hold a maze cell.
fn count_maze_neighbors(grid: &Grid, x: usize, y: usize) -> (r: usize)
    requires
        grid@.wf(),
        grid@.in_bounds(x as int, y as int),
    ensures
        r == maze_neighbors(grid@, x as int, y as int),
{
    maze_at(grid, x, y, 0, 0) + maze_at(grid, x, y, 0, 1) + maze_at(grid, x, y, 0, 2)
        + maze_at(grid, x, y, 1, 0) + maze_at(grid, x, y, 1, 2)
        + maze_at(grid, x, y, 2, 0) + maze_at(grid, x, y, 2, 1) + maze_at(grid, x, y, 2, 2)
}

/// The birth rule at offset `(dx - 1, dy - 1)` from `(x, y)`.
fn birth_at(grid: &mut Grid, x: usize, y: usize, dx: usize, dy: usize)
    requires
        old(grid)@.wf(),
        old(grid)@.in_bounds(x as int, y as int),
        dx < 3,
        dy < 3,
    ensures
        final(grid)@ == maze_birth(old(grid)@, x + dx - 1, y + dy - 1),
        final(grid)@.wf(),
        final(grid)@.same_dims(old(grid)@),
{
    let (width, height) = (grid.width(), grid.height());
    if (dx == 0 && x == 0) || (dy == 0 && y == 0) {
        return;
    }
    let nx = if dx == 0 {
        x - 1
    } else {
        x + (dx - 1)
    };
    let ny = if dy == 0 {
        y - 1
    } else {
        y + (dy - 1)
    };
    if nx < width && ny < height && grid.get((nx, ny)) != Element::Maze {
        if count_maze_neighbors(grid, nx, ny) == 3 {
            grid.set((nx, ny), Element::Maze);
        }
    }
}

/// One step of a maze cell: births around it, then its own survival.
pub fn step_maze(grid: &mut Grid, x: usize, y: usize)
    requires
        old(grid)@.wf(),
        old(grid)@.in_bounds(x as int, y as int),
    ensures
        final(grid)@ == maze_outcome(old(grid)@, x as int, y as int),
        final(grid)@.wf(),
        final(grid)@.same_dims(old(grid)@),
{
    birth_at(grid, x, y, 0, 0);
    birth_at(grid, x, y, 0, 1);
    birth_at(grid, x, y, 0, 2);
    birth_at(grid, x, y, 1, 0);
    birth_at(grid, x, y, 1, 2);
    birth_at(grid, x, y, 2, 0);
    birth_at(grid, x, y, 2, 1);
    birth_at(grid, x, y, 2, 2);
    if grid.get((x, y)) == Element::Maze {
        let current_neighbors = count_maze_neighbors(grid, x, y);
        if current_neighbors < 1 || current_neighbors > 5 {
            grid.set((x, y), Element::Nothing);
        }
    }
}

} // verus!
