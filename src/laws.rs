//! Properties that hold of the stepping rules and of whole ticks.
use vstd::prelude::*;

use crate::element_type::{
    destroyer_outcome, drain_cell, fire_outcome, fire_results, gas_outcome, gas_target,
    lateral, liquid_at, liquid_outcome, liquid_results, liquid_target,
    moveable_solid_outcome, pixel_generator_outcome, vacant, ElementType,
};
use crate::elements::Element;
use crate::grid::{
    lemma_index, lemma_set_at, lemma_set_shape, row_results, row_trace, tick_results, tick_trace,
    GridModel,
};

verus! {

broadcast use {lemma_set_at, lemma_set_shape};

/// Overwriting a cell takes its old element out of the material and puts the
/// new one in.
pub proof fn lemma_set_material(g: GridModel, x: int, y: int, e: Element)
    requires
        g.wf(),
        g.in_bounds(x, y),
    ensures
        g.set(x, y, e).material() == g.material().insert(e).remove(g.at(x, y)),
{
    lemma_index(g, x, y);
    vstd::seq_lib::to_multiset_update(g.cells, g.index(x, y), e);
}

/// Carrying an element into a vacant cell keeps the material.
pub proof fn lemma_move_material(g: GridModel, fx: int, fy: int, tx: int, ty: int)
    requires
        g.wf(),
    ensures
        g.in_bounds(fx, fy) && g.in_bounds(tx, ty) ==> g.at(tx, ty) == Element::Nothing ==> g.move_cell(
            fx,
            fy,
            tx,
            ty,
        ).material() == g.material(),
{
    broadcast use vstd::multiset::group_multiset_axioms;

    if g.in_bounds(fx, fy) && g.in_bounds(tx, ty) && g.at(tx, ty) == Element::Nothing {
        let e = g.at(fx, fy);
        let g1 = g.set(tx, ty, e);
        lemma_set_material(g, tx, ty, e);
        lemma_set_material(g1, fx, fy, Element::Nothing);
        assert(g.material().count(Element::Nothing) > 0) by {
            lemma_index(g, tx, ty);
            vstd::seq_lib::to_multiset_contains(g.cells, Element::Nothing);
            assert(g.cells[g.index(tx, ty)] == Element::Nothing);
        }
        if fx == tx && fy == ty {
            assert(g1.set(fx, fy, Element::Nothing).material() =~= g.material());
        } else {
            assert(g1.at(fx, fy) == e);
            assert(g1.set(fx, fy, Element::Nothing).material() =~= g.material());
        }
    }
}

/// Exchanging two cells keeps the material.
pub proof fn lemma_swap_material(g: GridModel, ax: int, ay: int, bx: int, by: int)
    ensures
        g.wf() ==> g.swap(ax, ay, bx, by).material() == g.material(),
{
    broadcast use vstd::multiset::group_multiset_axioms;

    if g.wf() && g.in_bounds(ax, ay) && g.in_bounds(bx, by) {
        let ea = g.at(ax, ay);
        let eb = g.at(bx, by);
        let g1 = g.set(ax, ay, eb);
        lemma_set_material(g, ax, ay, eb);
        lemma_set_material(g1, bx, by, ea);
        assert(g.material().count(ea) > 0) by {
            lemma_index(g, ax, ay);
            vstd::seq_lib::to_multiset_contains(g.cells, ea);
            assert(g.cells[g.index(ax, ay)] == ea);
        }
        if ax == bx && ay == by {
            assert(g1.set(bx, by, ea).material() =~= g.material());
        } else {
            assert(g1.at(bx, by) == eb);
            assert(g1.set(bx, by, ea).material() =~= g.material());
        }
    }
}

/// A liquid's sideways target lies within reach and is vacant.
pub proof fn lemma_liquid_target(g: GridModel, x: int, y: int, rightward: bool, rate: int, from: int)
    ensures
        liquid_target(g, x, y, rightward, rate, from) matches Some(i) ==> from <= i <= rate && vacant(
            g,
            lateral(x, rightward, i),
            y,
        ),
    decreases rate - from + 1,
{
    if from <= rate && !vacant(g, lateral(x, rightward, from), y) {
        lemma_liquid_target(g, x, y, rightward, rate, from + 1);
    }
}

/// A gas's sideways target lies within reach and is vacant.
pub proof fn lemma_gas_target(
    g: GridModel,
    x: int,
    y: int,
    rightward: bool,
    rate: int,
    gates: Seq<bool>,
    from: int,
)
    ensures
        gas_target(g, x, y, rightward, rate, gates, from) matches Some(i) ==> from <= i <= rate && vacant(
            g,
            lateral(x, rightward, i),
            y,
        ),
    decreases rate - from + 1,
{
    if from <= rate && !(vacant(g, lateral(x, rightward, from), y) && gates[from - 1]) {
        lemma_gas_target(g, x, y, rightward, rate, gates, from + 1);
    }
}

/// The rules of immovable solids, movable solids, liquids and gases only
/// move elements into vacant cells or exchange two cells: whatever the random
/// draws, one step leaves the grid's material (every element, counted with
/// multiplicity) as it was.
pub proof fn lemma_step_keeps_material(e: Element, g: GridModel, x: int, y: int, r: GridModel)
    requires
        g.wf(),
        e.category() == ElementType::ImmovableSolid || e.category() == ElementType::MoveableSolid
            || e.category() == ElementType::Liquid || e.category() == ElementType::Gas,
        e.step_results(g, x, y, r),
    ensures
        r.material() == g.material(),
{
    if !g.in_bounds(x, y) {
        return;
    }
    if e.category() == ElementType::ImmovableSolid {
        lemma_swap_material(g, x, y, x, y + 1);
    } else if e.category() == ElementType::MoveableSolid {
        let rightward = choose|rightward: bool| #[trigger] moveable_solid_outcome(g, x, y, rightward) == r;
        lemma_swap_material(g, x, y, x, y + 1);
        lemma_move_material(g, x, y, x, y + 1);
        lemma_move_material(g, x, y, x - 1, y + 1);
        lemma_move_material(g, x, y, x + 1, y + 1);
    } else if e.category() == ElementType::Liquid {
        let rate = crate::elements::LIQUID_DISPERSION as int;
        let rightward = choose|rightward: bool| #[trigger] liquid_outcome(g, x, y, rate, rightward) == r;
        lemma_move_material(g, x, y, x, y + 1);
        lemma_liquid_target(g, x, y, rightward, rate, 1);
        if let Some(i) = liquid_target(g, x, y, rightward, rate, 1) {
            lemma_move_material(g, x, y, lateral(x, rightward, i), y);
        }
    } else {
        let rate = crate::elements::GAS_DIFFUSION as int;
        let (rightward, gates) = choose|rightward: bool, gates: Seq<bool>|
            gates.len() == rate && #[trigger] gas_outcome(g, x, y, rate, rightward, gates) == r;
        lemma_move_material(g, x, y, x, y - 1);
        lemma_gas_target(g, x, y, rightward, rate, gates, 1);
        if let Some(i) = gas_target(g, x, y, rightward, rate, gates, 1) {
            lemma_move_material(g, x, y, lateral(x, rightward, i), y);
        }
    }
}

/// Fire either moves into a vacant cell, keeping the material, or burns out,
/// which trades its own cell for background.
pub proof fn lemma_fire_material(g: GridModel, x: int, y: int, r: GridModel)
    requires
        g.wf(),
        g.in_bounds(x, y),
        fire_results(g, x, y, r),
    ensures
        r.material() == g.material() || r.material() == g.material().insert(Element::Nothing).remove(
            g.at(x, y),
        ),
{
    let (rises, drift) = choose|rises: bool, drift: int|
        0 <= drift < 3 && #[trigger] fire_outcome(g, x, y, rises, drift) == r;
    lemma_move_material(g, x, y, x, y - 1);
    lemma_move_material(g, x, y, x + drift - 1, y);
    lemma_set_material(g, x, y, Element::Nothing);
}

/// A generator either leaves the material as it was or trades one cell of
/// background for water.
pub proof fn lemma_generator_material(g: GridModel, x: int, y: int)
    requires
        g.wf(),
    ensures
        pixel_generator_outcome(g, x, y).material() == g.material() || pixel_generator_outcome(
            g,
            x,
            y,
        ).material() == g.material().insert(Element::Water).remove(Element::Nothing),
{
    if vacant(g, x, y + 1) {
        lemma_set_material(g, x, y + 1, Element::Water);
    }
}

proof fn lemma_drain_cell_material(g: GridModel, x: int, y: int)
    requires
        g.wf(),
    ensures
        drain_cell(g, x, y).wf(),
        forall|e: Element|
            e != Element::Nothing ==> #[trigger] drain_cell(g, x, y).material().count(e) <= g.material().count(e),
        drain_cell(g, x, y).material().count(Element::Drain) == g.material().count(Element::Drain),
{
    broadcast use vstd::multiset::group_multiset_axioms;

    if g.in_bounds(x, y) && crate::element_type::drainable(g.at(x, y)) {
        lemma_set_material(g, x, y, Element::Nothing);
    }
}

/// A destroyer only ever turns material into background, and never removes
/// a destroyer: no element but background becomes more frequent, and the
/// number of destroyers stays.
pub proof fn lemma_destroyer_material(g: GridModel, x: int, y: int)
    requires
        g.wf(),
    ensures
        forall|e: Element|
            e != Element::Nothing ==> #[trigger] destroyer_outcome(g, x, y).material().count(e) <= g.material().count(e),
        destroyer_outcome(g, x, y).material().count(Element::Drain) == g.material().count(Element::Drain),
{
    let g1 = drain_cell(g, x, y - 1);
    let g2 = drain_cell(g1, x, y + 1);
    let g3 = drain_cell(g2, x - 1, y);
    lemma_drain_cell_material(g, x, y - 1);
    lemma_drain_cell_material(g1, x, y + 1);
    lemma_drain_cell_material(g2, x - 1, y);
    lemma_drain_cell_material(g3, x + 1, y);
    assert forall|e: Element| e != Element::Nothing implies #[trigger] destroyer_outcome(g, x, y).material().count(e)
        <= g.material().count(e) by {
        assert(g1.material().count(e) <= g.material().count(e));
        assert(g2.material().count(e) <= g1.material().count(e));
        assert(g3.material().count(e) <= g2.material().count(e));
    }
}

proof fn lemma_liquid_target_found(g: GridModel, x: int, y: int, rightward: bool, rate: int, from: int, i: int)
    requires
        1 <= from <= i <= rate,
        vacant(g, lateral(x, rightward, i), y),
        forall|j: int| from <= j < i ==> !vacant(g, #[trigger] lateral(x, rightward, j), y),
    ensures
        liquid_target(g, x, y, rightward, rate, from) == Some(i),
    decreases i - from,
{
    if from < i {
        lemma_liquid_target_found(g, x, y, rightward, rate, from + 1, i);
    }
}

proof fn lemma_liquid_target_none(g: GridModel, x: int, y: int, rightward: bool, rate: int, from: int)
    requires
        1 <= from,
        forall|j: int| from <= j <= rate ==> !vacant(g, #[trigger] lateral(x, rightward, j), y),
    ensures
        liquid_target(g, x, y, rightward, rate, from) == None::<int>,
    decreases rate - from + 1,
{
    if from <= rate {
        lemma_liquid_target_none(g, x, y, rightward, rate, from + 1);
    }
}

/// Liquid leveling: a liquid whose cell below is taken flows into the
/// nearest vacant cell of its row on the drawn side, when one lies within
/// `rate` columns.
pub proof fn lemma_liquid_flows_to_nearest(g: GridModel, x: int, y: int, rate: int, rightward: bool, i: int)
    requires
        g.wf(),
        g.in_bounds(x, y),
        g.in_bounds(x, y + 1),
        g.at(x, y + 1) != Element::Nothing,
        1 <= i <= rate,
        vacant(g, lateral(x, rightward, i), y),
        forall|j: int| 1 <= j < i ==> !vacant(g, #[trigger] lateral(x, rightward, j), y),
    ensures
        liquid_outcome(g, x, y, rate, rightward) == g.move_cell(x, y, lateral(x, rightward, i), y),
{
    lemma_liquid_target_found(g, x, y, rightward, rate, 1, i);
}

/// Liquid leveling: a liquid whose cell below is taken, and with no vacant
/// cell within `rate` columns on either side, stays where it is.
pub proof fn lemma_liquid_stays_when_hemmed_in(g: GridModel, x: int, y: int, rate: int, r: GridModel)
    requires
        g.wf(),
        g.in_bounds(x, y),
        g.in_bounds(x, y + 1),
        g.at(x, y + 1) != Element::Nothing,
        forall|j: int| 1 <= j <= rate ==> !vacant(g, #[trigger] lateral(x, false, j), y),
        forall|j: int| 1 <= j <= rate ==> !vacant(g, #[trigger] lateral(x, true, j), y),
        liquid_results(g, x, y, rate, r),
    ensures
        r == g,
{
    lemma_liquid_target_none(g, x, y, false, rate, 1);
    lemma_liquid_target_none(g, x, y, true, rate, 1);
}

/// Buoyancy: a solid, movable or not, with liquid directly beneath it trades
/// places with that liquid in its step.
pub proof fn lemma_buoyancy(g: GridModel, x: int, y: int, r: GridModel)
    requires
        g.wf(),
        g.in_bounds(x, y),
        g.at(x, y).category() == ElementType::ImmovableSolid || g.at(x, y).category()
            == ElementType::MoveableSolid,
        liquid_at(g, x, y + 1),
        g.at(x, y).step_results(g, x, y, r),
    ensures
        r == g.swap(x, y, x, y + 1),
{
    if g.at(x, y).category() == ElementType::MoveableSolid {
        let rightward = choose|rightward: bool| #[trigger] moveable_solid_outcome(g, x, y, rightward) == r;
        assert(!vacant(g, x, y + 1));
    }
}

/// Clearing a grid twice gives what clearing it once gives, which is the
/// grid that a fresh one of the same dimensions holds.
pub proof fn lemma_reset_idempotent(g: GridModel)
    requires
        g.wf(),
    ensures
        GridModel::blank(g.width, g.height).wf(),
        GridModel::blank(GridModel::blank(g.width, g.height).width, GridModel::blank(g.width, g.height).height)
            == GridModel::blank(g.width, g.height),
{
    assert(g.width * g.height >= 0) by (nonlinear_arith)
        requires
            g.width >= 0,
            g.height >= 0,
    ;
}

/// Visits of background cells change nothing: along a row pass, a stretch
/// of columns that are background leaves the grid as it was.
proof fn lemma_quiet_stretch(trace: Seq<GridModel>, y: int, a: int, b: int)
    requires
        0 <= a <= b < trace.len(),
        row_trace(trace, y),
        forall|i: int| a <= i < b ==> #[trigger] trace[a].at(i, y) == Element::Nothing,
    ensures
        trace[b] == trace[a],
    decreases b - a,
{
    if a < b {
        lemma_quiet_stretch(trace, y, a, b - 1);
        assert(trace[b - 1].at(b - 1, y).step_results(trace[b - 1], b - 1, y, trace[b]));
    }
}

/// A pass over a row of background leaves the grid as it was.
proof fn lemma_quiet_row(s: GridModel, y: int, r: GridModel)
    requires
        s.wf(),
        row_results(s, y, s.width, r),
        forall|i: int| 0 <= i < s.width ==> #[trigger] s.at(i, y) == Element::Nothing,
    ensures
        r == s,
{
    let trace = choose|trace: Seq<GridModel>|
        #![trigger row_trace(trace, y), trace[0], trace[s.width]]
        trace.len() == s.width + 1 && trace[0] == s && trace[s.width] == r && row_trace(trace, y);
    lemma_quiet_stretch(trace, y, 0, s.width);
}

/// The grid after one tick of a lone movable solid at `(x, y)`.
pub open spec fn lone_grain_after(g: GridModel, x: int, y: int) -> GridModel {
    if y + 1 < g.height {
        g.move_cell(x, y, x, y + 1)
    } else {
        g
    }
}

/// The only cell of `g` that is not background is `(x, y)`.
pub open spec fn lone_at(g: GridModel, x: int, y: int) -> bool {
    g.in_bounds(x, y) && forall|i: int, j: int| (i != x || j != y) ==> #[trigger] g.at(i, j) == Element::Nothing
}

/// The pass over the row of a lone movable solid.
proof fn lemma_grain_row(g: GridModel, x: int, y: int, r: GridModel)
    requires
        g.wf(),
        lone_at(g, x, y),
        g.at(x, y).category() == ElementType::MoveableSolid,
        row_results(g, y, g.width, r),
    ensures
        r == lone_grain_after(g, x, y),
{
    let w = g.width;
    let trace = choose|trace: Seq<GridModel>|
        #![trigger row_trace(trace, y), trace[0], trace[w]]
        trace.len() == w + 1 && trace[0] == g && trace[w] == r && row_trace(trace, y);
    assert forall|i: int| 0 <= i < x implies #[trigger] trace[0].at(i, y) == Element::Nothing by {
        assert(g.at(i, y) == Element::Nothing);
    }
    lemma_quiet_stretch(trace, y, 0, x);
    assert(trace[x].at(x, y).step_results(trace[x], x, y, trace[x + 1]));
    let rightward = choose|rightward: bool| #[trigger] moveable_solid_outcome(g, x, y, rightward) == trace[x + 1];
    let s1 = lone_grain_after(g, x, y);
    if y + 1 < g.height {
        assert(g.at(x, y + 1) == Element::Nothing);
        assert(trace[x + 1] == s1);
    } else {
        assert(!vacant(g, x - 1, y + 1));
        assert(!vacant(g, x + 1, y + 1));
        assert(trace[x + 1] == s1);
    }
    assert forall|i: int| x + 1 <= i < w implies #[trigger] trace[x + 1].at(i, y) == Element::Nothing by {
        assert(g.at(i, y) == Element::Nothing);
    }
    lemma_quiet_stretch(trace, y, x + 1, w);
}

/// Along the passes of a tick over a grid with a lone movable solid at
/// `(x, y)`: the grid is unchanged until its row's pass, and is the
/// grid after the fall from then on.
proof fn lemma_passes(g: GridModel, x: int, y: int, passes: Seq<GridModel>, k: int)
    requires
        g.wf(),
        lone_at(g, x, y),
        g.at(x, y).category() == ElementType::MoveableSolid,
        passes.len() == g.height + 1,
        passes[0] == g,
        tick_trace(passes, g),
        0 <= k <= g.height,
    ensures
        passes[k] == (if k <= g.height - 1 - y {
            g
        } else {
            lone_grain_after(g, x, y)
        }),
    decreases k,
{
    if k > 0 {
        let h = g.height;
        let s1 = lone_grain_after(g, x, y);
        lemma_passes(g, x, y, passes, k - 1);
        let yr = h - k;
        assert(row_results(passes[k - 1], g.height - 1 - (k - 1), g.width, passes[k]));
        if yr > y {
            assert forall|i: int| 0 <= i < g.width implies #[trigger] g.at(i, yr) == Element::Nothing by {}
            lemma_quiet_row(g, yr, passes[k]);
        } else if yr == y {
            lemma_grain_row(g, x, y, passes[k]);
        } else {
            assert forall|i: int| 0 <= i < g.width implies #[trigger] s1.at(i, yr) == Element::Nothing by {
                assert(g.at(i, yr) == Element::Nothing);
            }
            lemma_quiet_row(s1, yr, passes[k]);
        }
    }
}

/// Gravity: a movable solid alone on the grid falls exactly one row in a
/// tick while the cell below lies inside the grid, and stays put on the
/// bottom row. Either way it is alone again afterwards, so the law applies
/// tick after tick.
pub proof fn lemma_lone_grain_falls(g: GridModel, x: int, y: int, r: GridModel)
    requires
        g.wf(),
        lone_at(g, x, y),
        g.at(x, y).category() == ElementType::MoveableSolid,
        tick_results(g, r),
    ensures
        r == lone_grain_after(g, x, y),
        y + 1 < g.height ==> lone_at(r, x, y + 1) && r.at(x, y + 1) == g.at(x, y),
        y + 1 >= g.height ==> r == g,
{
    let h = g.height;
    let passes = choose|trace: Seq<GridModel>|
        #![trigger tick_trace(trace, g), trace[0], trace[h]]
        trace.len() == h + 1 && trace[0] == g && trace[h] == r && tick_trace(trace, g);
    lemma_passes(g, x, y, passes, h);
    if y + 1 < h {
        assert forall|i: int, j: int| (i != x || j != y + 1) implies #[trigger] r.at(i, j) == Element::Nothing by {
            if i != x || j != y {
                assert(g.at(i, j) == Element::Nothing);
            }
        }
    }
}

} // verus!
