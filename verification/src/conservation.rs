//! A step only moves cells: the next generation holds exactly the cells of
//! the current one, each kind as often as before.
//!
//! The proof replays a step as a series of exchanges, one per moving cell in
//! storage order. Each exchange swaps a sand cell with the empty cell it is
//! granted, so it keeps the multiset of cells; and once every position has
//! had its turn the replay has arrived at the next generation.

use vstd::prelude::*;
use vstd::seq_lib::{to_multiset_update};
use crate::cell::Cell;
use crate::grid::{GridModel, lemma_index_of_position, lemma_position_of_index};
use crate::rules::RuleSet;

verus! {

/// Whether the cell stored at position `i` leaves it in this step.
#[verifier::opaque]
spec fn departs(g: GridModel, rules: RuleSet, i: int) -> bool {
    g.moves(rules, g.column(i), g.row(i))
}

/// Where the cell stored at position `i` is stored after it has moved.
#[verifier::opaque]
spec fn arrival(g: GridModel, rules: RuleSet, i: int) -> int {
    match g.target(rules, g.column(i), g.row(i)) {
        Some(t) => g.index(t.0, t.1),
        None => i,
    }
}

/// The cells after the moves of the first `n` positions have been carried
/// out, each as an exchange of the moving cell with its destination.
spec fn replay(g: GridModel, rules: RuleSet, n: nat) -> Seq<Cell>
    decreases n,
{
    if n == 0 {
        g.cells
    } else {
        let before = replay(g, rules, (n - 1) as nat);
        let from = n - 1;
        if departs(g, rules, from) {
            let to = arrival(g, rules, from);
            before.update(from, before[to]).update(to, before[from])
        } else {
            before
        }
    }
}

/// What position `j` holds once the moves of the first `n` positions are
/// done.
#[verifier::opaque]
spec fn replayed_cell(g: GridModel, rules: RuleSet, n: nat, j: int) -> Cell {
    let x = g.column(j);
    let y = g.row(j);
    if g.moves(rules, x, y) && j < n {
        Cell::Empty
    } else if g.cells[j] == Cell::Empty {
        match g.winner(rules, x, y) {
            Some(s) => if g.index(s.0, s.1) < n {
                g.read(s.0, s.1)
            } else {
                Cell::Empty
            },
            None => Cell::Empty,
        }
    } else {
        g.cells[j]
    }
}

/// A cell that moves is sand inside the grid, and the destination that it
/// is granted is an empty cell inside the grid.
pub proof fn lemma_mover(g: GridModel, rules: RuleSet, x: int, y: int)
    requires
        g.moves(rules, x, y),
    ensures
        g.in_bounds(x, y),
        g.read(x, y) == Cell::Sand,
        g.target(rules, x, y) matches Some(t) && g.in_bounds(t.0, t.1) && g.read(t.0, t.1)
            == Cell::Empty && g.winner(rules, t.0, t.1) == Some((x, y)) && !g.moves(
            rules,
            t.0,
            t.1,
        ),
{
}

/// The winner of a destination is a sand cell inside the grid that wants to
/// go there, and it does move.
pub proof fn lemma_winner(g: GridModel, rules: RuleSet, x: int, y: int)
    requires
        g.winner(rules, x, y) is Some,
    ensures
        g.winner(rules, x, y) matches Some(s) && g.in_bounds(s.0, s.1) && g.read(s.0, s.1)
            == Cell::Sand && g.target(rules, s.0, s.1) == Some((x, y)) && g.moves(
            rules,
            s.0,
            s.1,
        ),
        g.in_bounds(x, y),
        g.read(x, y) == Cell::Empty,
{
}

/// Exchanging two elements of a sequence keeps its multiset.
pub proof fn lemma_exchange_keeps_multiset<A>(s: Seq<A>, i: int, j: int)
    requires
        0 <= i < s.len(),
        0 <= j < s.len(),
    ensures
        s.update(i, s[j]).update(j, s[i]).to_multiset() == s.to_multiset(),
{
    broadcast use vstd::multiset::group_multiset_axioms;

    let once = s.update(i, s[j]);
    to_multiset_update(s, i, s[j]);
    to_multiset_update(once, j, s[i]);
    s.to_multiset_ensures();
    assert(s.to_multiset().count(s[i]) > 0);
    assert(s.to_multiset().count(s[j]) > 0);
    assert(once[j] == s[j]);
    assert(once.update(j, s[i]).to_multiset() =~= s.to_multiset());
}

/// Before any move is replayed every position holds the cell it started
/// with.
proof fn lemma_replayed_cell_start(g: GridModel, rules: RuleSet, j: int)
    requires
        g.wf(),
        0 <= j < g.cells.len(),
    ensures
        replayed_cell(g, rules, 0, j) == g.cells[j],
{
    reveal(replayed_cell);
    lemma_position_of_index(g, j);
    let x = g.column(j);
    let y = g.row(j);
    if g.winner(rules, x, y) is Some {
        lemma_winner(g, rules, x, y);
        let s = g.winner(rules, x, y).unwrap();
        lemma_index_of_position(g, s.0, s.1);
    }
}

/// Once every move is replayed every position holds its next cell.
proof fn lemma_replayed_cell_end(g: GridModel, rules: RuleSet, j: int)
    requires
        g.wf(),
        0 <= j < g.cells.len(),
    ensures
        replayed_cell(g, rules, g.cells.len(), j) == g.step(rules).cells[j],
{
    reveal(replayed_cell);
    lemma_position_of_index(g, j);
    let x = g.column(j);
    let y = g.row(j);
    if g.winner(rules, x, y) is Some {
        lemma_winner(g, rules, x, y);
        let s = g.winner(rules, x, y).unwrap();
        lemma_index_of_position(g, s.0, s.1);
    }
    if g.moves(rules, x, y) {
        lemma_mover(g, rules, x, y);
    }
}

/// Replaying the move of position `m` exchanges the cell there with its
/// destination when it departs, and changes nothing else.
proof fn lemma_replayed_cell_step(g: GridModel, rules: RuleSet, m: nat, j: int)
    requires
        g.wf(),
        m < g.cells.len(),
        0 <= j < g.cells.len(),
    ensures
        0 <= arrival(g, rules, m as int) < g.cells.len(),
        departs(g, rules, m as int) ==> arrival(g, rules, m as int) != m,
        departs(g, rules, m as int) && j == m ==> replayed_cell(g, rules, m, j) == Cell::Sand
            && replayed_cell(g, rules, m + 1, j) == Cell::Empty,
        departs(g, rules, m as int) && j == arrival(g, rules, m as int) ==> replayed_cell(
            g,
            rules,
            m,
            j,
        ) == Cell::Empty && replayed_cell(g, rules, m + 1, j) == Cell::Sand,
        !departs(g, rules, m as int) || (j != m && j != arrival(g, rules, m as int))
            ==> replayed_cell(g, rules, m + 1, j) == replayed_cell(g, rules, m, j),
{
    reveal(replayed_cell);
    reveal(departs);
    reveal(arrival);
    lemma_position_of_index(g, j);
    lemma_position_of_index(g, m as int);
    let x = g.column(j);
    let y = g.row(j);
    let mx = g.column(m as int);
    let my = g.row(m as int);
    if g.target(rules, mx, my) is Some {
        let t = g.target(rules, mx, my).unwrap();
        lemma_index_of_position(g, t.0, t.1);
    }
    if g.moves(rules, mx, my) {
        lemma_mover(g, rules, mx, my);
    }
    if g.moves(rules, x, y) {
        lemma_mover(g, rules, x, y);
    }
    if g.winner(rules, x, y) is Some {
        lemma_winner(g, rules, x, y);
        let s = g.winner(rules, x, y).unwrap();
        lemma_index_of_position(g, s.0, s.1);
    }
}

proof fn lemma_replay(g: GridModel, rules: RuleSet, n: nat)
    requires
        g.wf(),
        n <= g.cells.len(),
    ensures
        replay(g, rules, n).len() == g.cells.len(),
        replay(g, rules, n).to_multiset() == g.cells.to_multiset(),
        forall|j: int|
            0 <= j < g.cells.len() ==> #[trigger] replay(g, rules, n)[j] == replayed_cell(
                g,
                rules,
                n,
                j,
            ),
    decreases n,
{
    if n == 0 {
        assert forall|j: int| 0 <= j < g.cells.len() implies #[trigger] replay(g, rules, n)[j]
            == replayed_cell(g, rules, n, j) by {
            lemma_replayed_cell_start(g, rules, j);
        }
    } else {
        let m = (n - 1) as nat;
        lemma_replay(g, rules, m);
        let before = replay(g, rules, m);
        let after = replay(g, rules, n);
        let to = arrival(g, rules, m as int);
        lemma_replayed_cell_step(g, rules, m, m as int);
        if departs(g, rules, m as int) {
            lemma_replayed_cell_step(g, rules, m, to);
            assert(before[m as int] == replayed_cell(g, rules, m, m as int));
            assert(before[to] == replayed_cell(g, rules, m, to));
            assert(after == before.update(m as int, before[to]).update(to, before[m as int]));
            lemma_exchange_keeps_multiset(before, m as int, to);
        } else {
            assert(after == before);
        }
        assert forall|j: int| 0 <= j < g.cells.len() implies #[trigger] after[j]
            == replayed_cell(g, rules, n, j) by {
            lemma_replayed_cell_step(g, rules, m, j);
            assert(before[j] == replayed_cell(g, rules, m, j));
        }
    }
}

/// Conservation: a step changes where cells are, never which cells there
/// are. The next generation holds every kind of cell exactly as often as the
/// current one.
pub proof fn lemma_step_conserves_cells(g: GridModel, rules: RuleSet)
    requires
        g.wf(),
    ensures
        g.step(rules).cells.to_multiset() == g.cells.to_multiset(),
        forall|kind: Cell|
            g.step(rules).cells.to_multiset().count(kind) == g.cells.to_multiset().count(kind),
{
    let n = g.cells.len();
    lemma_replay(g, rules, n);
    let done = replay(g, rules, n);
    let next = g.step(rules).cells;
    assert forall|j: int| 0 <= j < n implies done[j] == next[j] by {
        lemma_replayed_cell_end(g, rules, j);
        assert(done[j] == replayed_cell(g, rules, n, j));
    }
    assert(done =~= next);
}

} // verus!
