use vstd::prelude::*;

use vstd::multiset::Multiset;

use crate::elements::Element;

verus! {

/// A cell coordinate: column, then row.
pub type Vector2 = (usize, usize);

/// What a grid holds: its dimensions and its cells, row by row.
pub struct GridModel {
    pub width: int,
    pub height: int,
    pub cells: Seq<Element>,
}

impl GridModel {
    pub open spec fn wf(self) -> bool {
        &&& self.width >= 0
        &&& self.height >= 0
        &&& self.cells.len() == self.width * self.height
    }

    pub open spec fn in_bounds(self, x: int, y: int) -> bool {
        0 <= x < self.width && 0 <= y < self.height
    }

    pub open spec fn index(self, x: int, y: int) -> int {
        y * self.width + x
    }

    /// The element at `(x, y)`; background outside the grid.
    pub open spec fn at(self, x: int, y: int) -> Element {
        if self.in_bounds(x, y) {
            self.cells[self.index(x, y)]
        } else {
            Element::Nothing
        }
    }

    /// The grid with `(x, y)` overwritten by `e`; unchanged outside the grid.
    pub open spec fn set(self, x: int, y: int, e: Element) -> GridModel {
        if self.in_bounds(x, y) {
            GridModel { cells: self.cells.update(self.index(x, y), e), ..self }
        } else {
            self
        }
    }

    /// The content of `(fx, fy)` carried to `(tx, ty)`, leaving background
    /// behind; unchanged unless both cells are inside the grid.
    pub open spec fn move_cell(self, fx: int, fy: int, tx: int, ty: int) -> GridModel {
        if self.in_bounds(fx, fy) && self.in_bounds(tx, ty) {
            self.set(tx, ty, self.at(fx, fy)).set(fx, fy, Element::Nothing)
        } else {
            self
        }
    }

    /// The contents of two cells exchanged; unchanged unless both are inside
    /// the grid.
    pub open spec fn swap(self, ax: int, ay: int, bx: int, by: int) -> GridModel {
        if self.in_bounds(ax, ay) && self.in_bounds(bx, by) {
            self.set(ax, ay, self.at(bx, by)).set(bx, by, self.at(ax, ay))
        } else {
            self
        }
    }

    /// A grid of the given dimensions with every cell background.
    pub open spec fn blank(width: int, height: int) -> GridModel {
        GridModel {
            width,
            height,
            cells: Seq::new((width * height) as nat, |i: int| Element::Nothing),
        }
    }

    /// Every cell's element, counted with multiplicity.
    pub open spec fn material(self) -> Multiset<Element> {
        self.cells.to_multiset()
    }

    pub open spec fn same_dims(self, other: GridModel) -> bool {
        self.width == other.width && self.height == other.height
    }
}

/// Row-major positions of distinct cells are distinct, and lie inside the
/// cell sequence.
pub proof fn lemma_index(g: GridModel, x: int, y: int)
    requires
        g.wf(),
        g.in_bounds(x, y),
    ensures
        0 <= y * g.width <= g.index(x, y) < g.cells.len(),
        forall|x2: int, y2: int|
            g.in_bounds(x2, y2) && (x2 != x || y2 != y) ==> #[trigger] g.index(x2, y2) != g.index(x, y),
{
    let w = g.width;
    let h = g.height;
    assert(0 <= y * w) by (nonlinear_arith)
        requires
            0 <= y,
            0 <= w,
    ;
    assert(y * w + x < w * h) by (nonlinear_arith)
        requires
            0 <= x < w,
            0 <= y < h,
    ;
    assert forall|x2: int, y2: int|
        g.in_bounds(x2, y2) && (x2 != x || y2 != y) implies #[trigger] g.index(x2, y2) != g.index(x, y) by {
        if y2 < y {
            assert(y2 * w + x2 < y * w + x) by (nonlinear_arith)
                requires
                    0 <= x2 < w,
                    0 <= x,
                    y2 < y,
            ;
        } else if y2 > y {
            assert(y * w + x < y2 * w + x2) by (nonlinear_arith)
                requires
                    0 <= x < w,
                    0 <= x2,
                    y < y2,
            ;
        }
    }
}

/// What a read sees after a write.
pub broadcast proof fn lemma_set_at(g: GridModel, x: int, y: int, e: Element, x2: int, y2: int)
    requires
        g.wf(),
    ensures
        #[trigger] g.set(x, y, e).at(x2, y2) == if g.in_bounds(x, y) && x2 == x && y2 == y {
            e
        } else {
            g.at(x2, y2)
        },
        g.set(x, y, e).wf(),
        g.set(x, y, e).same_dims(g),
{
    if g.in_bounds(x, y) {
        lemma_index(g, x, y);
        if g.in_bounds(x2, y2) {
            lemma_index(g, x2, y2);
        }
    }
}

/// `trace` lists the grid before each visit of row `y`, from column `0` on,
/// and after the last: each visit applies the rule of the element found at
/// the visited cell.
pub open spec fn row_trace(trace: Seq<GridModel>, y: int) -> bool {
    forall|i: int|
        0 <= i < trace.len() - 1 ==> trace[i].at(i, y).step_results(#[trigger] trace[i], i, y, trace[i + 1])
}

/// The grids that visiting the cells `(0, y)` to `(n - 1, y)` in that order
/// can give.
pub open spec fn row_results(g: GridModel, y: int, n: int, r: GridModel) -> bool {
    exists|trace: Seq<GridModel>|
        #![trigger row_trace(trace, y), trace[0], trace[n]]
        trace.len() == n + 1 && trace[0] == g && trace[n] == r && row_trace(trace, y)
}

/// `trace` lists the grid before each row's pass, from the bottom row up,
/// and after the last; each pass visits a whole row of `g`'s width.
pub open spec fn tick_trace(trace: Seq<GridModel>, g: GridModel) -> bool {
    forall|j: int|
        0 <= j < trace.len() - 1 ==> row_results(#[trigger] trace[j], g.height - 1 - j, g.width, trace[j + 1])
}

/// The grids that one tick can give: every cell visited once, rows from the
/// bottom up and each row left to right.
pub open spec fn tick_results(g: GridModel, r: GridModel) -> bool {
    exists|trace: Seq<GridModel>|
        #![trigger tick_trace(trace, g), trace[0], trace[g.height]]
        trace.len() == g.height + 1 && trace[0] == g && trace[g.height] == r && tick_trace(trace, g)
}

/// A write keeps the grid's shape.
pub broadcast proof fn lemma_set_shape(g: GridModel, x: int, y: int, e: Element)
    requires
        g.wf(),
    ensures
        #[trigger] g.set(x, y, e).wf(),
        g.set(x, y, e).same_dims(g),
{
    if g.in_bounds(x, y) {
        lemma_index(g, x, y);
    }
}

/// The simulation grid: a fixed width and height, and one element per cell.
pub struct Grid {
    width: usize,
    height: usize,
    elements: Vec<Element>,
}

/// `n` background cells.
fn blank_cells(n: usize) -> (r: Vec<Element>)
    ensures
        r@ == Seq::new(n as nat, |k: int| Element::Nothing),
{
    let mut elements: Vec<Element> = Vec::new();
    let mut i: usize = 0;
    while i < n
        invariant
            i <= n,
            elements@ == Seq::new(i as nat, |k: int| Element::Nothing),
        decreases n - i,
    {
        elements.push(Element::Nothing);
        i = i + 1;
        assert(elements@ =~= Seq::new(i as nat, |k: int| Element::Nothing));
    }
    elements
}

impl View for Grid {
    type V = GridModel;

    closed spec fn view(&self) -> GridModel {
        GridModel { width: self.width as int, height: self.height as int, cells: self.elements@ }
    }
}

impl Grid {
    /// A grid of `width` by `height` cells, all background.
    pub fn new(width: usize, height: usize) -> (r: Grid)
        requires
            width * height <= usize::MAX,
        ensures
            r@.wf(),
            r@ == GridModel::blank(width as int, height as int),
    {
        let elements = blank_cells(width * height);
        let r = Grid { width, height, elements };
        assert(r@ =~= GridModel::blank(width as int, height as int));
        r
    }

    pub fn width(&self) -> (r: usize)
        ensures
            r == self@.width,
    {
        self.width
    }

    pub fn height(&self) -> (r: usize)
        ensures
            r == self@.height,
    {
        self.height
    }

    /// The element at `pos`; background when `pos` lies outside the grid.
    pub fn get(&self, pos: Vector2) -> (r: Element)
        requires
            self@.wf(),
        ensures
            r == self@.at(pos.0 as int, pos.1 as int),
            !self@.in_bounds(pos.0 as int, pos.1 as int) ==> r == Element::Nothing,
    {
        if pos.0 < self.width && pos.1 < self.height {
            let n = self.elements.len();
            proof {
                lemma_index(self@, pos.0 as int, pos.1 as int);
            }
            self.elements[pos.1 * self.width + pos.0]
        } else {
            Element::Nothing
        }
    }

    /// Overwrites the cell at `pos`; does nothing when `pos` lies outside the
    /// grid.
    pub fn set(&mut self, pos: Vector2, value: Element)
        requires
            old(self)@.wf(),
        ensures
            final(self)@ == old(self)@.set(pos.0 as int, pos.1 as int, value),
            final(self)@.wf(),
            final(self)@.same_dims(old(self)@),
            !old(self)@.in_bounds(pos.0 as int, pos.1 as int) ==> final(self)@ == old(self)@,
    {
        if pos.0 < self.width && pos.1 < self.height {
            let n = self.elements.len();
            proof {
                lemma_index(self@, pos.0 as int, pos.1 as int);
            }
            let i = pos.1 * self.width + pos.0;
            self.elements[i] = value;
        }
        proof {
            lemma_set_at(old(self)@, pos.0 as int, pos.1 as int, value, 0, 0);
            assert(self@ =~= old(self)@.set(pos.0 as int, pos.1 as int, value));
        }
    }

    pub fn is_within_bounds(&self, pos: Vector2) -> (r: bool)
        ensures
            r == self@.in_bounds(pos.0 as int, pos.1 as int),
    {
        pos.0 < self.width && pos.1 < self.height
    }

    /// Carries the element at `pos` to `new_pos` and leaves background behind;
    /// does nothing unless both positions lie inside the grid. The caller
    /// picks `new_pos` so that nothing is overwritten.
    pub fn move_element(&mut self, pos: Vector2, new_pos: Vector2)
        requires
            old(self)@.wf(),
        ensures
            final(self)@ == old(self)@.move_cell(pos.0 as int, pos.1 as int, new_pos.0 as int, new_pos.1 as int),
            final(self)@.wf(),
            final(self)@.same_dims(old(self)@),
    {
        if self.is_within_bounds(pos) && self.is_within_bounds(new_pos) {
            let element = self.get(pos);
            self.set(new_pos, element);
            self.set(pos, Element::Nothing);
        }
    }

    /// Exchanges the elements at two positions; does nothing unless both lie
    /// inside the grid.
    pub fn swap_elements(&mut self, pos: Vector2, new_pos: Vector2)
        requires
            old(self)@.wf(),
        ensures
            final(self)@ == old(self)@.swap(pos.0 as int, pos.1 as int, new_pos.0 as int, new_pos.1 as int),
            final(self)@.wf(),
            final(self)@.same_dims(old(self)@),
    {
        if self.is_within_bounds(pos) && self.is_within_bounds(new_pos) {
            let element1 = self.get(pos);
            let element2 = self.get(new_pos);
            self.set(pos, element2);
            self.set(new_pos, element1);
        }
    }

    /// Clears every cell to background; the dimensions stay.
    pub fn reset(&mut self)
        requires
            old(self)@.wf(),
        ensures
            final(self)@ == GridModel::blank(old(self)@.width, old(self)@.height),
            final(self)@.wf(),
            final(self)@.same_dims(old(self)@),
    {
        let n = self.elements.len();
        self.elements = blank_cells(n);
        assert(self@ =~= GridModel::blank(old(self)@.width, old(self)@.height));
    }

    /// One tick: visits every cell once, rows from the bottom up and each row
    /// left to right, and applies the rule of the element found there. A rule
    /// may change cells that are visited later in the same tick.
    pub fn update(&mut self)
        requires
            old(self)@.wf(),
        ensures
            tick_results(old(self)@, final(self)@),
            final(self)@.wf(),
            final(self)@.same_dims(old(self)@),
    {
        let (width, height) = (self.width, self.height);
        let ghost g0 = self@;
        let ghost mut passes: Seq<GridModel> = seq![self@];
        let mut k: usize = 0;
        while k < height
            invariant
                self@.wf(),
                self@.same_dims(g0),
                g0 == old(self)@,
                width == g0.width,
                height == g0.height,
                k <= height,
                passes.len() == k + 1,
                passes[0] == g0,
                passes[k as int] == self@,
                tick_trace(passes, g0),
            decreases height - k,
        {
            let y = height - 1 - k;
            let ghost start = self@;
            let ghost mut visits: Seq<GridModel> = seq![self@];
            let mut x: usize = 0;
            while x < width
                invariant
                    self@.wf(),
                    self@.same_dims(g0),
                    width == g0.width,
                    height == g0.height,
                    y < height,
                    x <= width,
                    visits.len() == x + 1,
                    visits[0] == start,
                    visits[x as int] == self@,
                    row_trace(visits, y as int),
                decreases width - x,
            {
                let ghost before = self@;
                let element = self.get((x, y));
                element.step(self, x, y);
                proof {
                    let old_visits = visits;
                    visits = visits.push(self@);
                    assert forall|i: int| 0 <= i < visits.len() - 1 implies #[trigger] visits[i].at(i, y as int).step_results(
                        visits[i],
                        i,
                        y as int,
                        visits[i + 1],
                    ) by {
                        if i < x {
                            assert(old_visits[i] == visits[i] && old_visits[i + 1] == visits[i + 1]);
                        }
                    }
                }
                x = x + 1;
            }
            proof {
                assert(row_results(start, y as int, width as int, self@));
                let old_passes = passes;
                passes = passes.push(self@);
                assert forall|j: int| 0 <= j < passes.len() - 1 implies #[trigger] row_results(
                    passes[j],
                    g0.height - 1 - j,
                    g0.width,
                    passes[j + 1],
                ) by {
                    if j < k {
                        assert(old_passes[j] == passes[j] && old_passes[j + 1] == passes[j + 1]);
                    }
                }
            }
            k = k + 1;
        }
        assert(tick_results(g0, self@));
    }
}

} // verus!
