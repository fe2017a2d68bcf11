//! What holds of every step, whatever the grid and the rule set.

use vstd::prelude::*;
use crate::cell::Cell;
use crate::grid::{GridModel, lemma_position_of_index};
use crate::rules::RuleSet;

verus! {

/// The outcome of running the per-cell evaluations in the order given by
/// `order`, each writing its result to the slot of its cell in `out`. An
/// entry that names no cell of the grid writes nothing.
pub open spec fn evaluate(g: GridModel, rules: RuleSet, out: Seq<Cell>, order: Seq<int>) -> Seq<
    Cell,
>
    decreases order.len(),
{
    if order.len() == 0 {
        out
    } else {
        let earlier = evaluate(g, rules, out, order.drop_last());
        let i = order.last();
        if 0 <= i < out.len() {
            earlier.update(i, g.next_cell(rules, g.column(i), g.row(i)))
        } else {
            earlier
        }
    }
}

/// Whether `order` evaluates every cell of the grid at least once.
pub open spec fn evaluates_all(g: GridModel, order: Seq<int>) -> bool {
    forall|i: int| 0 <= i < g.cells.len() ==> order.contains(i)
}

proof fn lemma_evaluate(g: GridModel, rules: RuleSet, out: Seq<Cell>, order: Seq<int>)
    ensures
        evaluate(g, rules, out, order).len() == out.len(),
        forall|j: int|
            0 <= j < out.len() ==> #[trigger] evaluate(g, rules, out, order)[j] == if order.contains(
                j,
            ) {
                g.next_cell(rules, g.column(j), g.row(j))
            } else {
                out[j]
            },
    decreases order.len(),
{
    if order.len() > 0 {
        let front = order.drop_last();
        lemma_evaluate(g, rules, out, front);
        assert forall|j: int| 0 <= j < out.len() implies #[trigger] evaluate(g, rules, out, order)[j]
            == if order.contains(j) {
            g.next_cell(rules, g.column(j), g.row(j))
        } else {
            out[j]
        } by {
            if front.contains(j) {
                let k = choose|k: int| 0 <= k < front.len() && front[k] == j;
                assert(order[k] == j);
            }
            if order.last() == j {
                assert(order[order.len() - 1] == j);
            }
            if order.contains(j) && order.last() != j {
                let k = choose|k: int| 0 <= k < order.len() && order[k] == j;
                assert(front[k] == j);
            }
        }
    }
}

/// Determinism: the next generation is a function of the current one and
/// the rule set. Whatever order the cells are evaluated in, and whatever the
/// output buffer held before, once every cell has been evaluated the buffer
/// holds exactly the cells of `step`.
pub proof fn lemma_evaluation_order_is_irrelevant(
    g: GridModel,
    rules: RuleSet,
    out: Seq<Cell>,
    order: Seq<int>,
)
    requires
        g.wf(),
        out.len() == g.cells.len(),
        evaluates_all(g, order),
    ensures
        evaluate(g, rules, out, order) == g.step(rules).cells,
{
    lemma_evaluate(g, rules, out, order);
    assert(evaluate(g, rules, out, order) =~= g.step(rules).cells);
}

/// A step keeps the shape of the grid: the next generation has one cell for
/// each coordinate of the current one, and no other.
pub proof fn lemma_step_keeps_shape(g: GridModel, rules: RuleSet)
    requires
        g.wf(),
    ensures
        g.step(rules).wf(),
        g.step(rules).same_size(g),
{
}

/// Boundary containment: nothing moves from, to or across the outside of
/// the grid. A move starts and ends inside, a destination is only ever
/// granted to a cell inside, and a position outside reads as `Solid` before
/// and after every step.
pub proof fn lemma_boundary_containment(g: GridModel, rules: RuleSet, x: int, y: int)
    ensures
        g.target(rules, x, y) matches Some(t) ==> g.in_bounds(x, y) && g.in_bounds(t.0, t.1),
        g.winner(rules, x, y) matches Some(s) ==> g.in_bounds(x, y) && g.in_bounds(s.0, s.1),
        !g.in_bounds(x, y) ==> g.read(x, y) == Cell::Solid && !g.moves(rules, x, y)
            && g.next_cell(rules, x, y) == Cell::Solid,
{
}

/// Whether the cell at `source` wants to move to `dest`.
pub open spec fn claims(g: GridModel, rules: RuleSet, source: (int, int), dest: (int, int)) -> bool {
    g.target(rules, source.0, source.1) == Some(dest)
}

/// The rank of a claimant of `dest`, lower ranks winning: the cell directly
/// above, then the upper-left neighbour, then the upper-right neighbour.
pub open spec fn priority(source: (int, int), dest: (int, int)) -> int {
    if source == (dest.0, dest.1 - 1) {
        0
    } else if source == (dest.0 - 1, dest.1 - 1) {
        1
    } else if source == (dest.0 + 1, dest.1 - 1) {
        2
    } else {
        3
    }
}

/// Tie-break: when two cells claim the same destination, the destination is
/// granted to the claimant of lowest rank, which is one cell and always the
/// same one. At most one of the two moves; whichever does not move stays
/// where it is.
pub proof fn lemma_tie_break(
    g: GridModel,
    rules: RuleSet,
    a: (int, int),
    b: (int, int),
    dest: (int, int),
)
    requires
        a != b,
        claims(g, rules, a, dest),
        claims(g, rules, b, dest),
    ensures
        priority(a, dest) != priority(b, dest),
        g.winner(rules, dest.0, dest.1) matches Some(w) && claims(g, rules, w, dest) && priority(
            w,
            dest,
        ) <= priority(a, dest) && priority(w, dest) <= priority(b, dest),
        g.moves(rules, a.0, a.1) <==> g.winner(rules, dest.0, dest.1) == Some(a),
        g.moves(rules, b.0, b.1) <==> g.winner(rules, dest.0, dest.1) == Some(b),
        !(g.moves(rules, a.0, a.1) && g.moves(rules, b.0, b.1)),
        !g.moves(rules, a.0, a.1) ==> g.next_cell(rules, a.0, a.1) == Cell::Sand,
        !g.moves(rules, b.0, b.1) ==> g.next_cell(rules, b.0, b.1) == Cell::Sand,
        g.next_cell(rules, dest.0, dest.1) == Cell::Sand,
{
}

/// A generation in which no cell can move is a fixed point of `step`.
pub proof fn lemma_settled_is_fixed_point(g: GridModel, rules: RuleSet)
    requires
        g.wf(),
        g.settled(rules),
    ensures
        g.step(rules) == g,
{
    assert forall|i: int| 0 <= i < g.cells.len() implies g.step(rules).cells[i] == g.cells[i] by {
        lemma_position_of_index(g, i);
        let x = g.column(i);
        let y = g.row(i);
        assert(g.target(rules, x, y) is None);
        assert(g.target(rules, x, y - 1) is None);
        assert(g.target(rules, x - 1, y - 1) is None);
        assert(g.target(rules, x + 1, y - 1) is None);
    }
    assert(g.step(rules).cells =~= g.cells);
}

/// A grid without sand, and a grid without an empty cell, are settled: in
/// the first nothing can move, in the second there is nowhere to move to.
pub proof fn lemma_packed_or_still_is_settled(g: GridModel, rules: RuleSet)
    requires
        g.wf(),
        (forall|i: int| 0 <= i < g.cells.len() ==> g.cells[i] != Cell::Sand) || (forall|i: int|
            0 <= i < g.cells.len() ==> g.cells[i] != Cell::Empty),
    ensures
        g.settled(rules),
{
    assert forall|x: int, y: int| #[trigger] g.target(rules, x, y) is None by {
        if g.in_bounds(x, y) {
            crate::grid::lemma_index_of_position(g, x, y);
        }
        if g.in_bounds(x, y + 1) {
            crate::grid::lemma_index_of_position(g, x, y + 1);
        }
        if g.in_bounds(x - 1, y + 1) {
            crate::grid::lemma_index_of_position(g, x - 1, y + 1);
        }
        if g.in_bounds(x + 1, y + 1) {
            crate::grid::lemma_index_of_position(g, x + 1, y + 1);
        }
    }
}

} // verus!
