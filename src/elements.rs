use vstd::prelude::*;

use crate::element_type::{
    destroyer_outcome, fire_results, gas_results, immoveable_solid_outcome, liquid_results,
    maze_outcome, moveable_solid_results, pixel_generator_outcome, step_destroyer, step_fire,
    step_gas, step_immoveable_solid, step_liquid, step_maze, step_moveable_solid,
    step_pixel_generator, ElementType,
};
use crate::grid::{Grid, GridModel};

verus! {

/// The palette that the catalog draws its display colors from.
#[derive(Clone, Copy, Debug, PartialEq, Eq, Structural)]
pub enum Color {
    SkyBlue,
    Gold,
    Blue,
    DarkGray,
    White,
    Brown,
    Lime,
    Orange,
    Maroon,
}

/// One material of the fixed catalog. Two elements are equal exactly when they
/// are the same catalog entry.
#[derive(Clone, Copy, Debug, PartialEq, Eq, Structural)]
pub enum Element {
    Nothing,
    Air,
    Sand,
    Water,
    Stone,
    Faucet,
    Clay,
    Maze,
    Fire,
    Drain,
}

/// How far a liquid looks sideways for room in one step.
pub const LIQUID_DISPERSION: usize = 4;

/// How far a gas looks sideways in one step, and how readily it passes.
pub const GAS_DIFFUSION: usize = 1;

impl Element {
    /// The behavior category of each catalog entry.
    pub open spec fn category(self) -> ElementType {
        match self {
            Element::Nothing => ElementType::Nothing,
            Element::Air => ElementType::Gas,
            Element::Sand => ElementType::MoveableSolid,
            Element::Water => ElementType::Liquid,
            Element::Stone => ElementType::ImmovableSolid,
            Element::Faucet => ElementType::PixelGenerator,
            Element::Clay => ElementType::MoveableSolid,
            Element::Maze => ElementType::Maze,
            Element::Fire => ElementType::Fire,
            Element::Drain => ElementType::Destroyer,
        }
    }

    pub fn get_element_type(&self) -> (r: ElementType)
        ensures
            r == self.category(),
    {
        match self {
            Element::Nothing => ElementType::Nothing,
            Element::Air => ElementType::Gas,
            Element::Sand => ElementType::MoveableSolid,
            Element::Water => ElementType::Liquid,
            Element::Stone => ElementType::ImmovableSolid,
            Element::Faucet => ElementType::PixelGenerator,
            Element::Clay => ElementType::MoveableSolid,
            Element::Maze => ElementType::Maze,
            Element::Fire => ElementType::Fire,
            Element::Drain => ElementType::Destroyer,
        }
    }

    /// The display color of each catalog entry; background has none.
    pub open spec fn color(self) -> Option<Color> {
        match self {
            Element::Nothing => None,
            Element::Air => Some(Color::SkyBlue),
            Element::Sand => Some(Color::Gold),
            Element::Water => Some(Color::Blue),
            Element::Stone => Some(Color::DarkGray),
            Element::Faucet => Some(Color::White),
            Element::Clay => Some(Color::Brown),
            Element::Maze => Some(Color::Lime),
            Element::Fire => Some(Color::Orange),
            Element::Drain => Some(Color::Maroon),
        }
    }

    /// The name of each catalog entry.
    pub open spec fn name(self) -> Seq<char> {
        match self {
            Element::Nothing => "Nothing"@,
            Element::Air => "Air"@,
            Element::Sand => "Sand"@,
            Element::Water => "Water"@,
            Element::Stone => "Stone"@,
            Element::Faucet => "Faucet"@,
            Element::Clay => "Clay"@,
            Element::Maze => "Maze"@,
            Element::Fire => "Fire"@,
            Element::Drain => "Drain"@,
        }
    }

    pub fn get_color(&self) -> (r: Option<Color>)
        ensures
            r == self.color(),
    {
        match self {
            Element::Nothing => None,
            Element::Air => Some(Color::SkyBlue),
            Element::Sand => Some(Color::Gold),
            Element::Water => Some(Color::Blue),
            Element::Stone => Some(Color::DarkGray),
            Element::Faucet => Some(Color::White),
            Element::Clay => Some(Color::Brown),
            Element::Maze => Some(Color::Lime),
            Element::Fire => Some(Color::Orange),
            Element::Drain => Some(Color::Maroon),
        }
    }

    pub fn to_string(&self) -> (r: &'static str)
        ensures
            r@ == self.name(),
    {
        match self {
            Element::Nothing => "Nothing",
            Element::Air => "Air",
            Element::Sand => "Sand",
            Element::Water => "Water",
            Element::Stone => "Stone",
            Element::Faucet => "Faucet",
            Element::Clay => "Clay",
            Element::Maze => "Maze",
            Element::Fire => "Fire",
            Element::Drain => "Drain",
        }
    }

    /// The grids that one step of this element's rule at `(x, y)` can give;
    /// outside the grid the step does nothing.
    pub open spec fn step_results(self, g: GridModel, x: int, y: int, r: GridModel) -> bool {
        if !g.in_bounds(x, y) {
            r == g
        } else {
            match self.category() {
                ElementType::ImmovableSolid => r == immoveable_solid_outcome(g, x, y),
                ElementType::MoveableSolid => moveable_solid_results(g, x, y, r),
                ElementType::Liquid => liquid_results(g, x, y, LIQUID_DISPERSION as int, r),
                ElementType::Gas => gas_results(g, x, y, GAS_DIFFUSION as int, r),
                ElementType::PixelGenerator => r == pixel_generator_outcome(g, x, y),
                ElementType::Destroyer => r == destroyer_outcome(g, x, y),
                ElementType::Maze => r == maze_outcome(g, x, y),
                ElementType::Fire => fire_results(g, x, y, r),
                ElementType::Nothing => r == g,
            }
        }
    }

    /// Applies this element's stepping rule at `(x, y)`.
    pub fn step(&self, grid: &mut Grid, x: usize, y: usize)
        requires
            old(grid)@.wf(),
        ensures
            self.step_results(old(grid)@, x as int, y as int, final(grid)@),
            final(grid)@.wf(),
            final(grid)@.same_dims(old(grid)@),
        final(grid)@.same_dims(old(grid)@),
    {
        if !grid.is_within_bounds((x, y)) {
            return;
        }
        match self.get_element_type() {
            ElementType::ImmovableSolid => step_immoveable_solid(grid, x, y),
            ElementType::MoveableSolid => step_moveable_solid(grid, x, y),
            ElementType::Liquid => step_liquid(grid, x, y, LIQUID_DISPERSION),
            ElementType::Gas => step_gas(grid, x, y, GAS_DIFFUSION),
            ElementType::PixelGenerator => step_pixel_generator(grid, x, y),
            ElementType::Destroyer => step_destroyer(grid, x, y),
            ElementType::Maze => step_maze(grid, x, y),
            ElementType::Fire => step_fire(grid, x, y),
            ElementType::Nothing => {},
        }
    }
}

} // verus!
